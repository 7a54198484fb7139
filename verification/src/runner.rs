//! The virtual machine runner: machine configuration, the qemu command line
//! it becomes, and the map of terminals attached to a machine.

use vstd::prelude::*;

use crate::cli::text;
use crate::text::{dec_text, push_dec, push_str};
use crate::guest::{cid_from_mac, cid_of};
use crate::types::{lemma_mac_len, mac_text, MacAddress};

verus! {

broadcast use lemma_mac_len;

/// Command line options of the runner.
#[derive(Clone, Debug)]
pub struct Opts {
    /// Path to configuration file
    pub config: String,
    /// Path to the network's unix socket (for a vhost-user network)
    pub network: String,
    /// Run in background / as daemon
    pub daemon: bool,
    /// Verbosity (-v, -vv, -vvv)
    pub verbose: u8,
    /// Location on disk to save log output
    pub logfile: String,
}

/// Kernel of a machine.
#[derive(Clone, Debug)]
pub struct KernelConfig {
    /// Path on host system to kernel image
    pub path: String,
    /// Root partition/device to attempt to mount (i.e., /dev/vda or /dev/vda1)
    pub root: String,
}

/// Boot disk of a machine.
#[derive(Clone, Debug)]
pub struct DiskConfig {
    /// Path on host system to disk image
    pub path: String,
    /// Format (i.e., raw,qcow) of this disk image
    pub format: Option<String>,
}

/// A network adapter of a machine.
#[derive(Clone, Debug)]
pub struct NetDevConfig {
    /// MAC address of this network adapter
    pub mac: Option<MacAddress>,
}

/// A virtual machine.
#[derive(Clone, Debug)]
pub struct MachineConfig {
    pub cpu: String,
    pub memory: String,
    pub kernel: KernelConfig,
    pub disk: DiskConfig,
}

/// Kernel command line for a console on `tty`.
pub open spec fn append_text(root: Seq<char>, tty: Seq<char>) -> Seq<char> {
    "earlyprintk="@ + tty + " console="@ + tty + " root="@ + root + " reboot=k"@
}

/// Qemu drive description of a disk named `id`.
pub open spec fn drive_text(path: Seq<char>, format: Option<Seq<char>>, id: Seq<char>) -> Seq<char> {
    match format {
        Some(f) => "id="@ + id + ",file="@ + path + ",format="@ + f + ",if=virtio"@,
        None => "id="@ + id + ",file="@ + path + ",if=virtio"@,
    }
}

impl KernelConfig {
    /// Path on host system to kernel image.
    pub fn path(&self) -> (p: &str)
        ensures
            p@ == self.path@,
    {
        self.path.as_str()
    }

    /// The kernel command line, with its console on `tty`.
    pub fn as_qemu_append(&self, tty: &str) -> (s: String)
        ensures
            s@ == append_text(self.root@, tty@),
    {
        let mut s = String::new();
        push_str(&mut s, "earlyprintk=");
        push_str(&mut s, tty);
        push_str(&mut s, " console=");
        push_str(&mut s, tty);
        push_str(&mut s, " root=");
        push_str(&mut s, self.root.as_str());
        push_str(&mut s, " reboot=k");
        assert(s@ =~= append_text(self.root@, tty@));
        s
    }
}

impl DiskConfig {
    /// The qemu `-drive` description of this disk, named `id`.
    pub fn as_qemu_drive(&self, id: &str) -> (s: String)
        ensures
            s@ == drive_text(
                self.path@,
                match self.format {
                    Some(f) => Some(f@),
                    None => None,
                },
                id@,
            ),
    {
        let mut s = String::new();
        push_str(&mut s, "id=");
        push_str(&mut s, id);
        push_str(&mut s, ",file=");
        push_str(&mut s, self.path.as_str());
        match &self.format {
            Some(format) => {
                push_str(&mut s, ",format=");
                push_str(&mut s, format.as_str());
            },
            None => {},
        }
        push_str(&mut s, ",if=virtio");
        assert(s@ =~= drive_text(
            self.path@,
            match self.format {
                Some(f) => Some(f@),
                None => None,
            },
            id@,
        ));
        s
    }
}

/// Name of the qemu program.
pub const QEMU: &'static str = "qemu-system-x86_64";

/// The qemu arguments for `machine`, up to its network adapters: kvm with
/// the host's cpu, one processor, the kernel with its console on the serial
/// port, the serial port on stdio, shared memory, the boot disk and a vsock
/// device of context id `cid`.
pub open spec fn qemu_args(m: MachineConfig, cid: u32) -> Seq<Seq<char>> {
    seq![
        "-M"@,
        m.cpu@,
        "-enable-kvm"@,
        "-cpu"@,
        "host"@,
        "-m"@,
        m.memory@,
        "-smp"@,
        "1"@,
        "-kernel"@,
        m.kernel.path@,
        "-append"@,
        append_text(m.kernel.root@, "ttyS0"@),
        "-nodefaults"@,
        "-no-user-config"@,
        "-nographic"@,
        "-serial"@,
        "stdio"@,
        "-object"@,
        "memory-backend-memfd,id=mem,size="@ + m.memory@ + ",share=on"@,
        "-numa"@,
        "node,memdev=mem"@,
        "-drive"@,
        drive_text(
            m.disk.path@,
            match m.disk.format {
                Some(f) => Some(f@),
                None => None,
            },
            "root"@,
        ),
        "-device"@,
        "vhost-vsock-pci,guest-cid="@ + dec_text(cid as nat),
    ]
}

/// The qemu arguments of the network adapter on the vhost-user socket at
/// `socket`, with hardware address `mac`.
pub open spec fn netdev_args(socket: Seq<char>, mac: Seq<u8>) -> Seq<Seq<char>> {
    seq![
        "-chardev"@,
        "socket,id=chr0,path="@ + socket,
        "-netdev"@,
        "type=vhost-user,id=net0,chardev=chr0,queues=1"@,
        "-device"@,
        "virtio-net-pci,netdev=net0,mac="@ + mac_text(mac),
    ]
}

/// The texts of strings.
pub open spec fn arg_texts(args: Seq<String>) -> Seq<Seq<char>> {
    args.map_values(|a: String| a@)
}

/// Arguments `26 + 6 * i` to `32 + 6 * i` of `args` attach a network
/// adapter on `socket` with a generated hardware address (prefix 52:54:00).
pub open spec fn netdev_at(args: Seq<Seq<char>>, i: int, socket: Seq<char>) -> bool {
    exists|mac: MacAddress|
        mac@[0] == 0x52 && mac@[1] == 0x54 && mac@[2] == 0x00 && args.subrange(26 + 6 * i, 32 + 6 * i)
            == #[trigger] netdev_args(socket, mac@)
}

/// A handle to a virtual machine: its hardware address, its id and the
/// command that starts it.
#[derive(Debug)]
pub struct VmHandle {
    /// Hardware address of the machine (that of its first network adapter)
    mac: MacAddress,
    /// Unique identifer for this vm: the last two bytes of its hardware
    /// address, also its vsock context id
    id: u32,
    /// Arguments of the qemu command
    args: Vec<String>,
}

impl VmHandle {
    /// The machine's hardware address.
    pub closed spec fn spec_mac(&self) -> MacAddress {
        self.mac
    }

    /// The machine's id.
    pub closed spec fn spec_id(&self) -> u32 {
        self.id
    }

    /// The arguments of the command that starts the machine.
    pub closed spec fn spec_args(&self) -> Seq<Seq<char>> {
        arg_texts(self.args@)
    }

    /// Creates a handle to a virtual machine described by `machine`, with
    /// one network adapter per socket. The machine's hardware address is
    /// `mac`, or a random one of prefix 52:54:00 when none is given; the
    /// first adapter carries it, the others get random addresses of that
    /// prefix. The machine's id, also its vsock context id, is the last two
    /// bytes of its hardware address.
    ///
    /// ### Arguments
    /// * `sockets` - Paths to network bridge sockets
    /// * `mac` - Hardware address of the machine, if fixed
    /// * `machine` - Machine configuration
    pub fn new(sockets: &[String], mac: Option<MacAddress>, machine: MachineConfig) -> (vm: VmHandle)
        ensures
            mac matches Some(m) ==> vm.spec_mac() == m,
            mac is None ==> vm.spec_mac()@[0] == 0x52 && vm.spec_mac()@[1] == 0x54
                && vm.spec_mac()@[2] == 0x00,
            vm.spec_id() == cid_of(vm.spec_mac()@),
            vm.spec_args().len() == 26 + 6 * sockets@.len(),
            vm.spec_args().subrange(0, 26) == qemu_args(machine, vm.spec_id()),
            sockets@.len() > 0 ==> vm.spec_args().subrange(26, 32) == netdev_args(
                sockets@[0]@,
                vm.spec_mac()@,
            ),
            forall|i: int|
                1 <= i < sockets@.len() ==> #[trigger] netdev_at(vm.spec_args(), i, sockets@[i]@),
    {
        let machine_mac = match mac {
            Some(m) => m,
            None => MacAddress::generate(),
        };
        let cid = cid_from_mac(&machine_mac);
        let mut args: Vec<String> = Vec::new();
        args.push(text("-M"));
        args.push(machine.cpu.clone());
        args.push(text("-enable-kvm"));
        args.push(text("-cpu"));
        args.push(text("host"));
        args.push(text("-m"));
        args.push(machine.memory.clone());
        args.push(text("-smp"));
        args.push(text("1"));
        args.push(text("-kernel"));
        args.push(text(machine.kernel.path()));
        args.push(text("-append"));
        args.push(machine.kernel.as_qemu_append("ttyS0"));
        args.push(text("-nodefaults"));
        args.push(text("-no-user-config"));
        args.push(text("-nographic"));
        args.push(text("-serial"));
        args.push(text("stdio"));
        args.push(text("-object"));
        let mut mem = text("memory-backend-memfd,id=mem,size=");
        push_str(&mut mem, machine.memory.as_str());
        push_str(&mut mem, ",share=on");
        args.push(mem);
        args.push(text("-numa"));
        args.push(text("node,memdev=mem"));
        args.push(text("-drive"));
        args.push(machine.disk.as_qemu_drive("root"));
        args.push(text("-device"));
        let mut vsock = text("vhost-vsock-pci,guest-cid=");
        push_dec(&mut vsock, cid as u64);
        args.push(vsock);
        let ghost base = arg_texts(args@);
        assert(base =~= qemu_args(machine, cid));
        let mut i: usize = 0;
        while i < sockets.len()
            invariant
                i <= sockets@.len(),
                args@.len() == 26 + 6 * i,
                arg_texts(args@).subrange(0, 26) == qemu_args(machine, cid),
                i > 0 ==> arg_texts(args@).subrange(26, 32) == netdev_args(sockets@[0]@, machine_mac@),
                forall|k: int|
                    1 <= k < i ==> #[trigger] netdev_at(arg_texts(args@), k, sockets@[k]@),
            decreases sockets@.len() - i,
        {
            let ghost before = arg_texts(args@);
            let adapter = if i == 0 {
                machine_mac
            } else {
                MacAddress::generate()
            };
            args.push(text("-chardev"));
            let mut chr = text("socket,id=chr0,path=");
            push_str(&mut chr, sockets[i].as_str());
            args.push(chr);
            args.push(text("-netdev"));
            args.push(text("type=vhost-user,id=net0,chardev=chr0,queues=1"));
            args.push(text("-device"));
            let mut dev = text("virtio-net-pci,netdev=net0,mac=");
            let m = adapter.to_string();
            push_str(&mut dev, m.as_str());
            args.push(dev);
            proof {
                let after = arg_texts(args@);
                assert(after.subrange(0, 26 + 6 * i) =~= before);
                assert(after.subrange(0, 26) =~= before.subrange(0, 26));
                assert(after.subrange(26 + 6 * i, 32 + 6 * i) =~= netdev_args(sockets@[i as int]@, adapter@));
                if i > 0 {
                    assert(after.subrange(26, 32) =~= before.subrange(26, 32));
                }
                assert forall|k: int| 1 <= k < i + 1 implies #[trigger] netdev_at(
                    after,
                    k,
                    sockets@[k]@,
                ) by {
                    if k < i {
                        assert(netdev_at(before, k, sockets@[k]@));
                        let mc = choose|mc: MacAddress|
                            mc@[0] == 0x52 && mc@[1] == 0x54 && mc@[2] == 0x00 && before.subrange(
                                26 + 6 * k,
                                32 + 6 * k,
                            ) == #[trigger] netdev_args(sockets@[k]@, mc@);
                        assert(after.subrange(26 + 6 * k, 32 + 6 * k) =~= before.subrange(
                            26 + 6 * k,
                            32 + 6 * k,
                        ));
                    } else {
                        assert(netdev_args(sockets@[k]@, adapter@) == after.subrange(26 + 6 * k, 32 + 6 * k));
                    }
                }
            }
            i = i + 1;
        }
        VmHandle { mac: machine_mac, id: cid, args }
    }

    /// Returns the machine's hardware address.
    pub fn mac(&self) -> (r: MacAddress)
        ensures
            r == self.spec_mac(),
    {
        self.mac
    }

    /// Returns the unique id of this virtual machine: the last two bytes of
    /// its hardware address.
    pub fn id(&self) -> (r: u32)
        ensures
            r == self.spec_id(),
    {
        self.id
    }

    /// The program and the arguments that start the machine.
    pub fn command(&self) -> (r: (&str, &Vec<String>))
        ensures
            r.0@ == QEMU@,
            arg_texts(r.1@) == self.spec_args(),
    {
        (QEMU, &self.args)
    }
}

} // verus!
