//! The records `oathgate` keeps: devices (bridges), kernels, disk images
//! and shards (virtual machines), and how they are listed.

use vstd::prelude::*;

use crate::cli::{format_name, state_name, text, DeviceType, DiskFormat, ProcessState};
use crate::runner::{DiskConfig, KernelConfig, MachineConfig};
use crate::table::{print_field, widen, AsTable};
use crate::text::{dec_text, push_dec, push_hex, push_str, hex_text};
use crate::types::{mac_text, MacAddress};

use rand::Rng;

verus! {

/// A device (a bridge) tracked in the database.
#[derive(Debug)]
pub struct Device {
    id: u128,
    name: String,
    ty: DeviceType,
    cfg: String,
    state: ProcessState,
}

impl Device {
    /// The device's unique id.
    pub closed spec fn spec_id(&self) -> u128 {
        self.id
    }

    /// The device's name.
    pub closed spec fn spec_name(&self) -> Seq<char> {
        self.name@
    }

    /// The device's type.
    pub closed spec fn spec_type(&self) -> DeviceType {
        self.ty
    }

    /// The device's configuration (JSON text).
    pub closed spec fn spec_config(&self) -> Seq<char> {
        self.cfg@
    }

    /// The state of the device's process.
    pub closed spec fn spec_state(&self) -> ProcessState {
        self.state
    }

    /// Creates a new, stopped device.
    ///
    /// ### Arguments
    /// * `id` - Unique id of this device
    /// * `name` - Name of this device
    /// * `ty` - Type of device
    /// * `config` - Configuration of the device, as JSON
    pub fn new(id: u128, name: String, ty: DeviceType, config: String) -> (d: Device)
        ensures
            d.spec_id() == id,
            d.spec_name() == name@,
            d.spec_type() == ty,
            d.spec_config() == config@,
            d.spec_state() == ProcessState::Stopped,
    {
        Device { id, name, ty, cfg: config, state: ProcessState::Stopped }
    }

    /// Rebuilds a device from its stored fields.
    pub fn from_parts(id: u128, name: String, ty: DeviceType, config: String, state: ProcessState) -> (d: Device)
        ensures
            d.spec_id() == id,
            d.spec_name() == name@,
            d.spec_type() == ty,
            d.spec_config() == config@,
            d.spec_state() == state,
    {
        Device { id, name, ty, cfg: config, state }
    }

    /// Returns the unique id of this device.
    pub fn id(&self) -> (r: u128)
        ensures
            r == self.spec_id(),
    {
        self.id
    }

    /// Returns the name of this device.
    pub fn name(&self) -> (r: &str)
        ensures
            r@ == self.spec_name(),
    {
        self.name.as_str()
    }

    /// Returns the type of this device.
    pub fn device_type(&self) -> (r: DeviceType)
        ensures
            r == self.spec_type(),
    {
        self.ty
    }

    /// Returns the configuration stored with this device.
    pub fn config(&self) -> (r: &str)
        ensures
            r@ == self.spec_config(),
    {
        self.cfg.as_str()
    }

    /// Returns the status of this process.
    pub fn status(&self) -> (r: ProcessState)
        ensures
            r == self.spec_state(),
    {
        self.state
    }

    /// Returns true if this device is running (and not dead/zombie/hanging).
    pub fn is_running(&self) -> (r: bool)
        ensures
            r == (self.spec_state() is Running),
    {
        match self.state {
            ProcessState::Running(_) => true,
            _ => false,
        }
    }

    /// Marks the device as running with process `pid`.
    pub fn set_started(&mut self, pid: i32)
        ensures
            final(self).spec_state() == ProcessState::Running(pid),
            final(self).spec_id() == old(self).spec_id(),
            final(self).spec_name() == old(self).spec_name(),
            final(self).spec_type() == old(self).spec_type(),
            final(self).spec_config() == old(self).spec_config(),
    {
        self.state = ProcessState::Running(pid);
    }

    /// Marks this device as stopped.
    pub fn set_stopped(&mut self)
        ensures
            final(self).spec_state() == ProcessState::Stopped,
            final(self).spec_id() == old(self).spec_id(),
            final(self).spec_name() == old(self).spec_name(),
            final(self).spec_type() == old(self).spec_type(),
            final(self).spec_config() == old(self).spec_config(),
    {
        self.state = ProcessState::Stopped;
    }
}

impl AsTable for Device {
    open spec fn spec_header() -> Seq<Seq<char>> {
        seq!["Name"@, "State"@, "Type"@]
    }

    open spec fn spec_cells(&self) -> Seq<Seq<char>> {
        seq![self.spec_name(), state_name(self.spec_state()), "bridge"@]
    }

    fn header() -> (h: Vec<&'static str>) {
        vec!["Name", "State", "Type"]
    }

    fn update_col_width(&self, widths: &mut [usize]) {
        let state = self.state.to_string();
        let ty = self.ty.to_string();
        widen(widths, 0, self.name.as_str());
        widen(widths, 1, state.as_str());
        widen(widths, 2, ty.as_str());
    }

    fn as_table_row(&self, widths: &[usize]) -> (s: String) {
        let state = self.state.to_string();
        let ty = self.ty.to_string();
        let mut s = String::new();
        print_field(&mut s, self.name.as_str(), widths[0]);
        print_field(&mut s, state.as_str(), widths[1]);
        print_field(&mut s, ty.as_str(), widths[2]);
        assert(s@ =~= crate::table::fields_text(self.spec_cells(), widths@, 3)) by {
            reveal_with_fuel(crate::table::fields_text, 4);
        }
        s
    }
}


/// The text of a boolean (as `Display` writes it).
pub open spec fn bool_text(b: bool) -> Seq<char> {
    if b {
        "true"@
    } else {
        "false"@
    }
}

fn bool_to_string(b: bool) -> (s: String)
    ensures
        s@ == bool_text(b),
{
    if b {
        text("true")
    } else {
        text("false")
    }
}

/// A 128-bit id in the hyphenated form of a UUID: 32 lowercase hex
/// digits grouped 8-4-4-4-12.
pub open spec fn uuid_text(id: u128) -> Seq<char> {
    hex_text((id / 0x1_0000_0000_0000_0000_0000_0000) as nat, 8) + "-"@ + hex_text(
        ((id / 0x1_0000_0000_0000_0000_0000) % 0x1_0000) as nat,
        4,
    ) + "-"@ + hex_text(((id / 0x1_0000_0000_0000_0000) % 0x1_0000) as nat, 4) + "-"@ + hex_text(
        ((id / 0x1_0000_0000_0000) % 0x1_0000) as nat,
        4,
    ) + "-"@ + hex_text((id % 0x1_0000_0000_0000) as nat, 12)
}

/// Writes `id` in the hyphenated form of a UUID.
pub fn uuid_to_string(id: u128) -> (s: String)
    ensures
        s@ == uuid_text(id),
{
    let a: u64 = (id / 0x1_0000_0000_0000_0000_0000_0000) as u64;
    let b: u64 = ((id / 0x1_0000_0000_0000_0000_0000) % 0x1_0000) as u64;
    let c: u64 = ((id / 0x1_0000_0000_0000_0000) % 0x1_0000) as u64;
    let d: u64 = ((id / 0x1_0000_0000_0000) % 0x1_0000) as u64;
    let e: u64 = (id % 0x1_0000_0000_0000) as u64;
    let mut s = String::new();
    push_hex(&mut s, a, 8);
    push_str(&mut s, "-");
    push_hex(&mut s, b, 4);
    push_str(&mut s, "-");
    push_hex(&mut s, c, 4);
    push_str(&mut s, "-");
    push_hex(&mut s, d, 4);
    push_str(&mut s, "-");
    push_hex(&mut s, e, 12);
    s
}

/// A kernel installed for virtual machines.
#[derive(Debug)]
pub struct Kernel {
    /// Unique id representing a kernel
    pub id: u128,
    /// Hex hashed string
    pub hash: String,
    /// Human-friendly name for a kernel
    pub name: String,
    /// Version (i.e., 6.9.1) for a kernel
    pub version: String,
    /// Set to true if this is the default kernel to use
    pub default: bool,
}

impl Kernel {
    /// Returns the id of this kernel as a hyphenated string
    pub fn id_str(&self) -> (s: String)
        ensures
            s@ == uuid_text(self.id),
    {
        uuid_to_string(self.id)
    }

    /// Sets this kernel as the default kernel to use when starting shards
    pub fn set_default(&mut self)
        ensures
            final(self).default,
            final(self).id == old(self).id,
            final(self).hash == old(self).hash,
            final(self).name == old(self).name,
            final(self).version == old(self).version,
    {
        self.default = true;
    }
}

impl AsTable for Kernel {
    open spec fn spec_header() -> Seq<Seq<char>> {
        seq!["Hash"@, "Name"@, "Version"@, "Default"@]
    }

    open spec fn spec_cells(&self) -> Seq<Seq<char>> {
        seq![self.hash@, self.name@, self.version@, bool_text(self.default)]
    }

    fn header() -> (h: Vec<&'static str>) {
        vec!["Hash", "Name", "Version", "Default"]
    }

    fn update_col_width(&self, widths: &mut [usize]) {
        let default = bool_to_string(self.default);
        widen(widths, 0, self.hash.as_str());
        widen(widths, 1, self.name.as_str());
        widen(widths, 2, self.version.as_str());
        widen(widths, 3, default.as_str());
    }

    fn as_table_row(&self, widths: &[usize]) -> (s: String) {
        let default = bool_to_string(self.default);
        let mut s = String::new();
        print_field(&mut s, self.hash.as_str(), widths[0]);
        print_field(&mut s, self.name.as_str(), widths[1]);
        print_field(&mut s, self.version.as_str(), widths[2]);
        print_field(&mut s, default.as_str(), widths[3]);
        assert(s@ =~= crate::table::fields_text(self.spec_cells(), widths@, 4)) by {
            reveal_with_fuel(crate::table::fields_text, 5);
        }
        s
    }
}

/// The root partition of an image, as listed: its number, or `None`.
pub open spec fn root_text(root: Option<u8>) -> Seq<char> {
    match root {
        Some(id) => dec_text(id as nat),
        None => "None"@,
    }
}

fn root_to_string(root: Option<u8>) -> (s: String)
    ensures
        s@ == root_text(root),
{
    match root {
        Some(id) => {
            let mut s = String::new();
            push_dec(&mut s, id as u64);
            assert(s@ =~= dec_text(id as nat));
            s
        },
        None => text("None"),
    }
}

/// A disk image installed for virtual machines.
#[derive(Debug)]
pub struct DiskImage {
    /// Unique id representing an image
    pub id: u128,
    /// Hex hashed string
    pub hash: String,
    /// Human-friendly name for an image
    pub name: String,
    /// Format of the disk image
    pub format: DiskFormat,
    /// Root partition, or None if a raw image
    pub root: Option<u8>,
}

impl DiskImage {
    /// Returns the id of this image as a hyphenated string
    pub fn id_str(&self) -> (s: String)
        ensures
            s@ == uuid_text(self.id),
    {
        uuid_to_string(self.id)
    }
}

impl AsTable for DiskImage {
    open spec fn spec_header() -> Seq<Seq<char>> {
        seq!["Hash"@, "Name"@, "Format"@, "Root Partition"@]
    }

    open spec fn spec_cells(&self) -> Seq<Seq<char>> {
        seq![self.hash@, self.name@, format_name(self.format), root_text(self.root)]
    }

    fn header() -> (h: Vec<&'static str>) {
        vec!["Hash", "Name", "Format", "Root Partition"]
    }

    fn update_col_width(&self, widths: &mut [usize]) {
        let f = self.format.to_string();
        let p = root_to_string(self.root);
        widen(widths, 0, self.hash.as_str());
        widen(widths, 1, self.name.as_str());
        widen(widths, 2, f.as_str());
        widen(widths, 3, p.as_str());
    }

    fn as_table_row(&self, widths: &[usize]) -> (s: String) {
        let f = self.format.to_string();
        let p = root_to_string(self.root);
        let mut s = String::new();
        print_field(&mut s, self.hash.as_str(), widths[0]);
        print_field(&mut s, self.name.as_str(), widths[1]);
        print_field(&mut s, f.as_str(), widths[2]);
        print_field(&mut s, p.as_str(), widths[3]);
        assert(s@ =~= crate::table::fields_text(self.spec_cells(), widths@, 4)) by {
            reveal_with_fuel(crate::table::fields_text, 5);
        }
        s
    }
}


/// Number of hexadecimal digits of `v`.
pub open spec fn hex_digits(v: nat) -> nat
    decreases v,
{
    if v < 16 {
        1
    } else {
        1 + hex_digits(v / 16)
    }
}

/// `v` in lowercase hexadecimal, at least two digits, after `0x` (as
/// `format!("0x{:02x}", v)`).
pub open spec fn cid_text(v: nat) -> Seq<char> {
    "0x"@ + hex_text(v, if hex_digits(v) < 2 { 2 } else { hex_digits(v) })
}

fn cid_to_string(v: u32) -> (s: String)
    ensures
        s@ == cid_text(v as nat),
{
    proof {
        assert(pow16(8) == 0x1_0000_0000nat) by {
            reveal_with_fuel(pow16, 9);
        }
        lemma_hex_digits_bound(v as nat, 8);
    }
    let mut n: usize = 1;
    let mut x: u32 = v;
    while x >= 16
        invariant
            n + hex_digits(x as nat) == hex_digits(v as nat) + 1,
            hex_digits(v as nat) <= 8,
            n >= 1,
        decreases x,
    {
        x = x / 16;
        n = n + 1;
    }
    let width = if n < 2 { 2 } else { n };
    let mut s = text("0x");
    push_hex(&mut s, v as u64, width);
    s
}

proof fn lemma_hex_digits_bound(v: nat, k: nat)
    requires
        k >= 1,
        v < pow16(k),
    ensures
        hex_digits(v) <= k,
    decreases k,
{
    if v >= 16 {
        assert(k >= 2) by {
            if k == 1 {
                assert(pow16(1) == 16) by { reveal_with_fuel(pow16, 2); }
            }
        }
        assert(v / 16 < pow16((k - 1) as nat));
        lemma_hex_digits_bound(v / 16, (k - 1) as nat);
    }
}

/// `16^n`.
pub open spec fn pow16(n: nat) -> nat
    decreases n,
{
    if n == 0 {
        1
    } else {
        16 * pow16((n - 1) as nat)
    }
}

/// The parameters of a shard.
#[derive(Debug)]
pub struct ShardParams {
    /// Unique id of this shard
    id: u128,
    /// Context id of the shard's vsock device
    cid: u32,
    /// Name of this shard
    name: String,
    /// State of the shard's process
    state: ProcessState,
    /// Qemu cpu type
    cpu: String,
    /// Memory, in megabytes
    memory: u16,
}

/// A network a shard is connected to.
#[derive(Debug)]
pub struct ShardNetwork {
    /// The shard
    pub shard_id: u128,
    /// The network (bridge device)
    pub network_id: u128,
    /// Hardware address of the shard's adapter on the network
    pub mac: String,
}

/// A shard: a virtual machine with its kernel and boot disk.
#[derive(Debug)]
pub struct Shard {
    params: ShardParams,
    kernel: Kernel,
    boot_disk: DiskImage,
    networks: Vec<ShardNetwork>,
}

/// What stopping a shard takes, by the state of its process.
#[derive(Clone, Copy, Debug, PartialEq, Eq, Structural)]
pub enum ShardStop {
    /// Stop the running process `pid`, then mark the shard stopped
    StopProcess(i32),
    /// The process is gone: mark the shard stopped
    MarkStopped,
    /// Already stopped: nothing to do
    Nothing,
    /// The process cannot be stopped: fail
    Denied,
}

/// The root device of a boot disk: the partition number appended to
/// `/dev/vda`, or the whole disk.
pub open spec fn root_device(root: Option<u8>) -> Seq<char> {
    match root {
        Some(id) => "/dev/vda"@ + dec_text(id as nat),
        None => "/dev/vda"@,
    }
}

impl Shard {
    /// The shard's unique id.
    pub closed spec fn spec_id(&self) -> u128 {
        self.params.id
    }

    /// The shard's name.
    pub closed spec fn spec_name(&self) -> Seq<char> {
        self.params.name@
    }

    /// The context id of the shard's vsock device.
    pub closed spec fn spec_cid(&self) -> u32 {
        self.params.cid
    }

    /// The state of the shard's process.
    pub closed spec fn spec_state(&self) -> ProcessState {
        self.params.state
    }

    /// The shard's cpu type.
    pub closed spec fn spec_cpu(&self) -> Seq<char> {
        self.params.cpu@
    }

    /// The shard's memory, in megabytes.
    pub closed spec fn spec_memory(&self) -> u16 {
        self.params.memory
    }

    /// The shard's kernel.
    pub closed spec fn spec_kernel(&self) -> Kernel {
        self.kernel
    }

    /// The shard's boot disk.
    pub closed spec fn spec_boot_disk(&self) -> DiskImage {
        self.boot_disk
    }

    /// The shard's network associations: shard id, network id and the
    /// hardware address of the shard's adapter on that network, as text.
    pub closed spec fn spec_networks(&self) -> Seq<(u128, u128, Seq<char>)> {
        self.networks@.map_values(|n: ShardNetwork| (n.shard_id, n.network_id, n.mac@))
    }

    /// The shard's boot disk format.
    pub closed spec fn spec_disk_format(&self) -> DiskFormat {
        self.boot_disk.format
    }

    /// The shard's boot disk root partition.
    pub closed spec fn spec_disk_root(&self) -> Option<u8> {
        self.boot_disk.root
    }

    /// Returns this shard's unique identifier.
    pub fn id(&self) -> (r: u128)
        ensures
            r == self.spec_id(),
    {
        self.params.id
    }

    /// Returns the name of this shard.
    pub fn name(&self) -> (r: &str)
        ensures
            r@ == self.spec_name(),
    {
        self.params.name.as_str()
    }

    /// Returns the networks this shard is associated with.
    pub fn network_links(&self) -> (r: &Vec<ShardNetwork>)
        ensures
            r@.map_values(|n: ShardNetwork| (n.shard_id, n.network_id, n.mac@)) == self.spec_networks(),
    {
        &self.networks
    }

    /// Returns the context id used with vhost-vsock devices.
    pub fn cid(&self) -> (r: u32)
        ensures
            r == self.spec_cid(),
    {
        self.params.cid
    }

    /// Returns true if this shard is currently running.
    pub fn is_running(&self) -> (r: bool)
        ensures
            r == (self.spec_state() is Running),
    {
        match self.params.state {
            ProcessState::Running(_) => true,
            _ => false,
        }
    }

    /// Updates the state of this process to running.
    pub fn set_running(&mut self, pid: i32)
        ensures
            final(self).spec_state() == ProcessState::Running(pid),
            final(self).spec_name() == old(self).spec_name(),
            final(self).spec_cid() == old(self).spec_cid(),
            final(self).spec_id() == old(self).spec_id(),
    {
        self.params.state = ProcessState::Running(pid);
    }

    /// Updates the state of this process to stopped.
    pub fn set_stopped(&mut self)
        ensures
            final(self).spec_state() == ProcessState::Stopped,
            final(self).spec_name() == old(self).spec_name(),
            final(self).spec_cid() == old(self).spec_cid(),
            final(self).spec_id() == old(self).spec_id(),
    {
        self.params.state = ProcessState::Stopped;
    }

    /// What stopping this shard takes.
    pub fn stop_plan(&self) -> (r: ShardStop)
        ensures
            r == match self.spec_state() {
                ProcessState::Running(pid) => ShardStop::StopProcess(pid),
                ProcessState::Dead(_) => ShardStop::MarkStopped,
                ProcessState::Stopped => ShardStop::Nothing,
                ProcessState::PermissionDenied(_) => ShardStop::Denied,
            },
    {
        match self.params.state {
            ProcessState::Running(pid) => ShardStop::StopProcess(pid),
            ProcessState::Dead(_) => ShardStop::MarkStopped,
            ProcessState::Stopped => ShardStop::Nothing,
            ProcessState::PermissionDenied(_) => ShardStop::Denied,
        }
    }

    /// Stops this shard, `stopped` being what stopping its process gave
    /// (consulted only when the shard is running): a running shard is
    /// marked stopped once its process was stopped (or could not be), and
    /// keeps its state when stopping failed; a dead one is marked stopped; a
    /// stopped one is left as is; one whose process cannot be signalled
    /// fails with "unable to stop shard: permission denied".
    pub fn stop(&mut self, stopped: Result<bool, String>) -> (r: Result<(), String>)
        ensures
            final(self).spec_name() == old(self).spec_name(),
            final(self).spec_cid() == old(self).spec_cid(),
            final(self).spec_id() == old(self).spec_id(),
            match old(self).spec_state() {
                ProcessState::Running(_) => match stopped {
                    Ok(_) => r is Ok && final(self).spec_state() == ProcessState::Stopped,
                    Err(e) => r == Err::<(), String>(e) && final(self).spec_state() == old(self).spec_state(),
                },
                ProcessState::Dead(_) => r is Ok && final(self).spec_state() == ProcessState::Stopped,
                ProcessState::Stopped => r is Ok && final(self).spec_state() == ProcessState::Stopped,
                ProcessState::PermissionDenied(_) => (r matches Err(e) && e@
                    == "unable to stop shard: permission denied"@) && final(self).spec_state()
                    == old(self).spec_state(),
            },
    {
        match self.params.state {
            ProcessState::Running(_) => {
                match stopped {
                    Ok(_) => {
                        self.set_stopped();
                    },
                    Err(e) => {
                        return Err(e);
                    },
                }
            },
            ProcessState::Dead(_) => self.set_stopped(),
            ProcessState::Stopped => {},
            ProcessState::PermissionDenied(_) => {
                return Err(text("unable to stop shard: permission denied"));
            },
        }
        Ok(())
    }

    /// The machine configuration that starts this shard, with its kernel
    /// and boot disk at the given paths.
    pub fn generate_machine_config(&self, kernel_path: String, disk_path: String) -> (m: MachineConfig)
        ensures
            m.cpu@ == self.spec_cpu(),
            m.memory@ == dec_text(self.spec_memory() as nat) + "m"@,
            m.kernel.path@ == kernel_path@,
            m.kernel.root@ == root_device(self.spec_disk_root()),
            m.disk.path@ == disk_path@,
            m.disk.format matches Some(f) && f@ == format_name(self.spec_disk_format()),
    {
        let disk_format = self.boot_disk.format.to_string();
        let mut disk_root = text("/dev/vda");
        match self.boot_disk.root {
            Some(id) => push_dec(&mut disk_root, id as u64),
            None => {},
        }
        let mut memory = String::new();
        push_dec(&mut memory, self.params.memory as u64);
        push_str(&mut memory, "m");
        assert(memory@ =~= dec_text(self.spec_memory() as nat) + "m"@);
        assert(disk_root@ =~= root_device(self.spec_disk_root()));
        MachineConfig {
            cpu: self.params.cpu.clone(),
            memory,
            kernel: KernelConfig { path: kernel_path, root: disk_root },
            disk: DiskConfig { path: disk_path, format: Some(disk_format) },
        }
    }
}

impl AsTable for Shard {
    open spec fn spec_header() -> Seq<Seq<char>> {
        seq!["Name"@, "State"@, "Context Id"@]
    }

    open spec fn spec_cells(&self) -> Seq<Seq<char>> {
        seq![self.spec_name(), state_name(self.spec_state()), cid_text(self.spec_cid() as nat)]
    }

    fn header() -> (h: Vec<&'static str>) {
        vec!["Name", "State", "Context Id"]
    }

    fn update_col_width(&self, widths: &mut [usize]) {
        let cid = cid_to_string(self.params.cid);
        let state = self.params.state.to_string();
        widen(widths, 0, self.params.name.as_str());
        widen(widths, 1, state.as_str());
        widen(widths, 2, cid.as_str());
    }

    fn as_table_row(&self, widths: &[usize]) -> (s: String) {
        let cid = cid_to_string(self.params.cid);
        let state = self.params.state.to_string();
        let mut s = String::new();
        print_field(&mut s, self.params.name.as_str(), widths[0]);
        print_field(&mut s, state.as_str(), widths[1]);
        print_field(&mut s, cid.as_str(), widths[2]);
        assert(s@ =~= crate::table::fields_text(self.spec_cells(), widths@, 3)) by {
            reveal_with_fuel(crate::table::fields_text, 4);
        }
        s
    }
}

/// Collects the parameters of a new shard.
#[derive(Debug)]
pub struct ShardBuilder {
    name: Option<String>,
    cpu: Option<String>,
    memory: Option<u16>,
    kernel: Option<Kernel>,
    boot_disk: Option<DiskImage>,
    networks: Vec<(u128, MacAddress)>,
}

impl ShardBuilder {
    /// Whether each parameter was set: name, cpu, memory, kernel, boot disk.
    pub closed spec fn spec_set(&self) -> (bool, bool, bool, bool, bool) {
        (
            self.name is Some,
            self.cpu is Some,
            self.memory is Some,
            self.kernel is Some,
            self.boot_disk is Some,
        )
    }

    /// The name, when set.
    pub closed spec fn spec_name(&self) -> Option<Seq<char>> {
        match self.name {
            Some(n) => Some(n@),
            None => None,
        }
    }

    /// The cpu type, when set.
    pub closed spec fn spec_cpu(&self) -> Option<Seq<char>> {
        match self.cpu {
            Some(c) => Some(c@),
            None => None,
        }
    }

    /// The memory, when set.
    pub closed spec fn spec_memory(&self) -> Option<u16> {
        self.memory
    }

    /// The kernel, when set.
    pub closed spec fn spec_kernel(&self) -> Option<Kernel> {
        self.kernel
    }

    /// The boot disk, when set.
    pub closed spec fn spec_boot_disk(&self) -> Option<DiskImage> {
        self.boot_disk
    }

    /// The networks added so far, in order: network id and the hardware
    /// address of the shard's adapter on it.
    pub closed spec fn spec_networks(&self) -> Seq<(u128, MacAddress)> {
        self.networks@
    }

    /// Every value but those of the parameters named by `changed` is the
    /// same in `self` and `other` (name, cpu, memory, kernel, boot disk,
    /// networks).
    pub open spec fn same_but(&self, other: &ShardBuilder, changed: (bool, bool, bool, bool, bool, bool)) -> bool {
        &&& (!changed.0 ==> other.spec_name() == self.spec_name() && other.spec_set().0 == self.spec_set().0)
        &&& (!changed.1 ==> other.spec_cpu() == self.spec_cpu() && other.spec_set().1 == self.spec_set().1)
        &&& (!changed.2 ==> other.spec_memory() == self.spec_memory() && other.spec_set().2 == self.spec_set().2)
        &&& (!changed.3 ==> other.spec_kernel() == self.spec_kernel() && other.spec_set().3 == self.spec_set().3)
        &&& (!changed.4 ==> other.spec_boot_disk() == self.spec_boot_disk() && other.spec_set().4 == self.spec_set().4)
        &&& (!changed.5 ==> other.spec_networks() == self.spec_networks())
    }

    /// A builder with nothing set.
    pub fn new() -> (b: ShardBuilder)
        ensures
            b.spec_set() == (false, false, false, false, false),
            b.spec_networks() == Seq::<(u128, MacAddress)>::empty(),
    {
        ShardBuilder { name: None, cpu: None, memory: None, kernel: None, boot_disk: None, networks: Vec::new() }
    }

    /// Sets the shard's name.
    pub fn name(&mut self, name: String)
        ensures
            final(self).spec_name() == Some(name@),
            final(self).spec_set().0,
            old(self).same_but(&*final(self), (true, false, false, false, false, false)),
    {
        self.name = Some(name);
    }

    /// Sets the CPU to emulate.
    pub fn cpu(&mut self, cpu: String)
        ensures
            final(self).spec_cpu() == Some(cpu@),
            final(self).spec_set().1,
            old(self).same_but(&*final(self), (false, true, false, false, false, false)),
    {
        self.cpu = Some(cpu);
    }

    /// Sets the memory, in megabytes.
    pub fn memory(&mut self, mem: u16)
        ensures
            final(self).spec_memory() == Some(mem),
            final(self).spec_set().2,
            old(self).same_but(&*final(self), (false, false, true, false, false, false)),
    {
        self.memory = Some(mem);
    }

    /// Sets the kernel.
    pub fn kernel(&mut self, kernel: Kernel)
        ensures
            final(self).spec_kernel() == Some(kernel),
            final(self).spec_set().3,
            old(self).same_but(&*final(self), (false, false, false, true, false, false)),
    {
        self.kernel = Some(kernel);
    }

    /// Sets the boot disk.
    pub fn boot_disk(&mut self, disk: DiskImage)
        ensures
            final(self).spec_boot_disk() == Some(disk),
            final(self).spec_set().4,
            old(self).same_but(&*final(self), (false, false, false, false, true, false)),
    {
        self.boot_disk = Some(disk);
    }

    /// Adds a network association to this shard: the shard's adapter with
    /// hardware address `mac` is on the network `net`.
    ///
    /// ### Arguments
    /// * `net` - Network to connect
    /// * `mac` - MAC address of network interface
    pub fn add_network(&mut self, net: Device, mac: MacAddress)
        ensures
            final(self).spec_networks() == old(self).spec_networks().push((net.spec_id(), mac)),
            final(self).spec_set() == old(self).spec_set(),
            old(self).same_but(&*final(self), (false, false, false, false, false, true)),
    {
        self.networks.push((net.id(), mac));
    }

    /// Builds the shard (stopped, with the parameters set and the networks
    /// added), failing on the first parameter that is missing.
    pub fn build(self, id: u128, cid: u32) -> (r: Result<Shard, String>)
        ensures
            !self.spec_set().0 ==> (r matches Err(e) && e@ == "name field is required"@),
            self.spec_set().0 && !self.spec_set().1 ==> (r matches Err(e) && e@
                == "cpu type is required"@),
            self.spec_set().0 && self.spec_set().1 && !self.spec_set().2 ==> (r matches Err(e)
                && e@ == "memory field is required"@),
            self.spec_set().0 && self.spec_set().1 && self.spec_set().2 && !self.spec_set().3 ==> (
            r matches Err(e) && e@ == "kernel field is required"@),
            self.spec_set().0 && self.spec_set().1 && self.spec_set().2 && self.spec_set().3
                && !self.spec_set().4 ==> (r matches Err(e) && e@ == "boot disk field is required"@),
            self.spec_set() == (true, true, true, true, true) ==> (r matches Ok(s) && s.spec_id()
                == id && s.spec_cid() == cid && Some(s.spec_name()) == self.spec_name()
                && s.spec_state() == ProcessState::Stopped && Some(s.spec_cpu()) == self.spec_cpu()
                && Some(s.spec_memory()) == self.spec_memory() && Some(s.spec_kernel())
                == self.spec_kernel() && Some(s.spec_boot_disk()) == self.spec_boot_disk()
                && s.spec_networks() == self.spec_networks().map_values(
                |n: (u128, MacAddress)| (id, n.0, mac_text(n.1@)),
            )),
    {
        let name = match self.name {
            Some(n) => n,
            None => {
                return Err(text("name field is required"));
            },
        };
        let cpu = match self.cpu {
            Some(c) => c,
            None => {
                return Err(text("cpu type is required"));
            },
        };
        let memory = match self.memory {
            Some(m) => m,
            None => {
                return Err(text("memory field is required"));
            },
        };
        let kernel = match self.kernel {
            Some(k) => k,
            None => {
                return Err(text("kernel field is required"));
            },
        };
        let boot_disk = match self.boot_disk {
            Some(d) => d,
            None => {
                return Err(text("boot disk field is required"));
            },
        };
        let mut networks: Vec<ShardNetwork> = Vec::new();
        let mut i: usize = 0;
        while i < self.networks.len()
            invariant
                i <= self.networks@.len(),
                networks@.len() == i,
                forall|k: int|
                    0 <= k < i ==> #[trigger] networks@[k].shard_id == id && networks@[k].network_id
                        == self.networks@[k].0 && networks@[k].mac@ == mac_text(self.networks@[k].1@),
            decreases self.networks@.len() - i,
        {
            let (network_id, mac) = self.networks[i];
            networks.push(ShardNetwork { shard_id: id, network_id, mac: mac.to_string() });
            i = i + 1;
        }
        let shard = Shard {
            params: ShardParams { id, cid, name, state: ProcessState::Stopped, cpu, memory },
            kernel,
            boot_disk,
            networks,
        };
        assert(shard.spec_networks() =~= self.spec_networks().map_values(
            |n: (u128, MacAddress)| (id, n.0, mac_text(n.1@)),
        ));
        Ok(shard)
    }
}

/// Draws a number from `lo` to `hi` - 1 (`rand::Rng::gen_range` on the
/// thread's generator, which panics on an empty range); nothing more is
/// claimed about it.
#[verifier::external_body]
fn random_in(lo: u32, hi: u32) -> (r: u32)
    requires
        lo < hi,
    ensures
        lo <= r < hi,
{
    rand::thread_rng().gen_range(lo..hi)
}

/// Generates a new number in between 20,000 and 30,000 to use as a
/// context id.
pub fn generate_cid() -> (cid: u32)
    ensures
        20_000 <= cid < 30_000,
{
    random_in(20_000, 30_000)
}

/// The names of the networks of `nets` that are not running, in order.
pub open spec fn stopped_names(nets: Seq<Device>) -> Seq<Seq<char>>
    decreases nets.len(),
{
    if nets.len() == 0 {
        Seq::empty()
    } else if nets.last().spec_state() is Running {
        stopped_names(nets.drop_last())
    } else {
        stopped_names(nets.drop_last()).push(nets.last().spec_name())
    }
}

/// The sockets (`socks[i]` for `nets[i]`) of the running networks, in order.
pub open spec fn running_sockets(nets: Seq<Device>, socks: Seq<Seq<char>>) -> Seq<Seq<char>>
    decreases nets.len(),
{
    if nets.len() == 0 {
        Seq::empty()
    } else if nets.last().spec_state() is Running {
        running_sockets(nets.drop_last(), socks.drop_last()).push(socks.last())
    } else {
        running_sockets(nets.drop_last(), socks.drop_last())
    }
}

/// `words` joined by `sep`.
pub open spec fn joined(words: Seq<Seq<char>>, sep: Seq<char>) -> Seq<char>
    decreases words.len(),
{
    if words.len() == 0 {
        Seq::empty()
    } else if words.len() == 1 {
        words[0]
    } else {
        joined(words.drop_last(), sep) + sep + words.last()
    }
}

/// Message of the error for a shard whose networks are not all running.
pub open spec fn stopped_networks_message(names: Seq<Seq<char>>) -> Seq<char> {
    "all networks must be running. stopped networks: "@ + joined(names, ", "@)
}

/// The sockets a shard attaches to: `socks[i]` is the socket of the network
/// `nets[i]`. Every network must be running; otherwise the error names the
/// stopped ones.
pub fn network_sockets(nets: &[Device], socks: &[String]) -> (r: Result<Vec<String>, String>)
    requires
        nets@.len() == socks@.len(),
    ensures
        stopped_names(nets@).len() == 0 ==> (r matches Ok(v) && v@.map_values(|x: String| x@)
            == running_sockets(nets@, socks@.map_values(|x: String| x@))),
        stopped_names(nets@).len() > 0 ==> (r matches Err(e) && e@ == stopped_networks_message(
            stopped_names(nets@),
        )),
{
    let mut sockets: Vec<String> = Vec::new();
    let mut stopped = String::new();
    let mut n_stopped: usize = 0;
    let mut i: usize = 0;
    while i < nets.len()
        invariant
            i <= nets@.len(),
            nets@.len() == socks@.len(),
            n_stopped == stopped_names(nets@.subrange(0, i as int)).len(),
            n_stopped <= i,
            stopped@ == joined(stopped_names(nets@.subrange(0, i as int)), ", "@),
            sockets@.map_values(|x: String| x@) == running_sockets(
                nets@.subrange(0, i as int),
                socks@.map_values(|x: String| x@).subrange(0, i as int),
            ),
        decreases nets@.len() - i,
    {
        let ghost pre = nets@.subrange(0, i as int);
        let ghost pre_socks = socks@.map_values(|x: String| x@).subrange(0, i as int);
        assert(nets@.subrange(0, i + 1).drop_last() =~= pre);
        assert(socks@.map_values(|x: String| x@).subrange(0, i + 1).drop_last() =~= pre_socks);
        if nets[i].is_running() {
            sockets.push(socks[i].clone());
            assert(sockets@.map_values(|x: String| x@) =~= running_sockets(pre, pre_socks).push(socks@[i as int]@));
        } else {
            let ghost names = stopped_names(pre);
            let ghost name = nets@[i as int].spec_name();
            assert(stopped_names(nets@.subrange(0, i + 1)) == names.push(name));
            assert(names.push(name).drop_last() =~= names);
            if n_stopped > 0 {
                push_str(&mut stopped, ", ");
            }
            push_str(&mut stopped, nets[i].name());
            n_stopped = n_stopped + 1;
            assert(stopped@ =~= joined(names.push(name), ", "@));
        }
        i = i + 1;
    }
    assert(nets@.subrange(0, nets@.len() as int) =~= nets@);
    assert(socks@.map_values(|x: String| x@).subrange(0, nets@.len() as int) =~= socks@.map_values(|x: String| x@));
    if n_stopped > 0 {
        let mut msg = text("all networks must be running. stopped networks: ");
        push_str(&mut msg, stopped.as_str());
        Err(msg)
    } else {
        Ok(sockets)
    }
}

} // verus!
