//! The standalone virtual machine viewer: the qemu command that starts the
//! machine and the decisions of the loop that relays its console.

use vstd::prelude::*;

use crate::cli::text;
use crate::hypervisor::{SignalAction, SIGTERM};
use crate::runner::arg_texts;
use crate::text::push_str;

verus! {

/// Token of the pipe carrying keyboard input from the interface.
pub const TOKEN_STDIN: usize = 0;

/// Token of the machine's standard output.
pub const TOKEN_STDOUT: usize = 1;

/// Token of the machine's standard error.
pub const TOKEN_STDERR: usize = 2;

/// Token of the signal file descriptor.
pub const TOKEN_SIGNAL: usize = 3;

/// The machine the viewer starts.
#[derive(Clone, Debug)]
pub struct ViewerMachine {
    /// Qemu machine type
    pub cpu: String,
    /// Memory, as qemu reads it (e.g. `512M`)
    pub memory: String,
    /// Path to the kernel
    pub kernel: String,
    /// Path to the raw boot disk
    pub disk: String,
}

/// The qemu arguments starting `m` with its network adapter on the
/// vhost-user socket at `socket`.
pub open spec fn viewer_args(m: ViewerMachine, socket: Seq<char>) -> Seq<Seq<char>> {
    seq![
        "-M"@,
        m.cpu@,
        "-enable-kvm"@,
        "-cpu"@,
        "host"@,
        "-m"@,
        m.memory@,
        "-smp"@,
        "1"@,
        "-kernel"@,
        m.kernel@,
        "-append"@,
        "earlyprintk=ttyS0 console=ttyS0 root=/dev/vda reboot=k"@,
        "-nodefaults"@,
        "-no-user-config"@,
        "-nographic"@,
        "-serial"@,
        "stdio"@,
        "-object"@,
        "memory-backend-memfd,id=mem,size="@ + m.memory@ + ",share=on"@,
        "-numa"@,
        "node,memdev=mem"@,
        "-drive"@,
        "id=root,file="@ + m.disk@ + ",format=raw,if=virtio"@,
        "-chardev"@,
        "socket,id=chr0,path="@ + socket,
        "-netdev"@,
        "type=vhost-user,id=net0,chardev=chr0,queues=1"@,
        "-device"@,
        "virtio-net-pci,netdev=net0"@,
    ]
}

fn joined(a: &str, b: &str, c: &str) -> (s: String)
    ensures
        s@ == a@ + b@ + c@,
{
    let mut s = text(a);
    push_str(&mut s, b);
    push_str(&mut s, c);
    s
}

/// The arguments of the qemu command that starts `machine` attached to the
/// vhost-user socket at `socket`.
pub fn viewer_qemu_args(socket: &str, machine: &ViewerMachine) -> (args: Vec<String>)
    ensures
        arg_texts(args@) == viewer_args(*machine, socket@),
{
    let mut args: Vec<String> = Vec::new();
    args.push(text("-M"));
    args.push(machine.cpu.clone());
    args.push(text("-enable-kvm"));
    args.push(text("-cpu"));
    args.push(text("host"));
    args.push(text("-m"));
    args.push(machine.memory.clone());
    args.push(text("-smp"));
    args.push(text("1"));
    args.push(text("-kernel"));
    args.push(machine.kernel.clone());
    args.push(text("-append"));
    args.push(text("earlyprintk=ttyS0 console=ttyS0 root=/dev/vda reboot=k"));
    args.push(text("-nodefaults"));
    args.push(text("-no-user-config"));
    args.push(text("-nographic"));
    args.push(text("-serial"));
    args.push(text("stdio"));
    args.push(text("-object"));
    args.push(joined("memory-backend-memfd,id=mem,size=", machine.memory.as_str(), ",share=on"));
    args.push(text("-numa"));
    args.push(text("node,memdev=mem"));
    args.push(text("-drive"));
    args.push(joined("id=root,file=", machine.disk.as_str(), ",format=raw,if=virtio"));
    args.push(text("-chardev"));
    args.push(joined("socket,id=chr0,path=", socket, ""));
    args.push(text("-netdev"));
    args.push(text("type=vhost-user,id=net0,chardev=chr0,queues=1"));
    args.push(text("-device"));
    args.push(text("virtio-net-pci,netdev=net0"));
    proof {
        reveal_strlit("");
    }
    assert(arg_texts(args@) =~= viewer_args(*machine, socket@));
    args
}

/// What the viewer's relay loop does when the source under a token is
/// readable.
#[derive(Clone, Copy, Debug, PartialEq, Eq, Structural)]
pub enum ViewerAction {
    /// Read keyboard input and write it to the machine's console
    ForwardInput,
    /// Read the machine's output and feed it to the screen
    ProcessOutput,
    /// Read the machine's standard error and log it
    LogStderr,
    /// Read the pending signal, if any, and ask [`viewer_signal`]
    ReadSignal,
    /// Nothing is registered under this token
    Unknown(usize),
}

/// What to do about a readable `token`.
pub fn viewer_dispatch(token: usize) -> (a: ViewerAction)
    ensures
        a == (if token == TOKEN_STDIN {
            ViewerAction::ForwardInput
        } else if token == TOKEN_STDOUT {
            ViewerAction::ProcessOutput
        } else if token == TOKEN_STDERR {
            ViewerAction::LogStderr
        } else if token == TOKEN_SIGNAL {
            ViewerAction::ReadSignal
        } else {
            ViewerAction::Unknown(token)
        }),
{
    if token == TOKEN_STDIN {
        ViewerAction::ForwardInput
    } else if token == TOKEN_STDOUT {
        ViewerAction::ProcessOutput
    } else if token == TOKEN_STDERR {
        ViewerAction::LogStderr
    } else if token == TOKEN_SIGNAL {
        ViewerAction::ReadSignal
    } else {
        ViewerAction::Unknown(token)
    }
}

/// What a received signal does to the relay loop: SIGTERM stops it (the
/// machine is then sent SIGTERM and waited for).
pub fn viewer_signal(signo: u32) -> (a: SignalAction)
    ensures
        a == (if signo == SIGTERM {
            SignalAction::Stop
        } else {
            SignalAction::Continue
        }),
{
    if signo == SIGTERM {
        SignalAction::Stop
    } else {
        SignalAction::Continue
    }
}

} // verus!
