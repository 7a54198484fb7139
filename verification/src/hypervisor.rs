//! The decisions of the hypervisor's event loop: which source became
//! readable, what to do about it, which signals stop the loop, and the
//! tokens given to terminals as virtual machines connect.

use vstd::prelude::*;

use crate::terminal::{OathgatePty, TerminalMap};

verus! {

/// Port of the fabrial service inside a virtual machine.
pub const FABRIAL_PORT: u32 = 3715;

/// Token of the terminal on the virtual machine's standard input/output.
pub const TOKEN_STDIO: usize = 1;

/// Token of the virtual machine's standard error.
pub const TOKEN_STDERR: usize = 2;

/// Token of the signal file descriptor.
pub const TOKEN_SIGNAL: usize = 3;

/// Token of the socket on which starting virtual machines announce
/// themselves.
pub const TOKEN_HYPERVISOR: usize = 4;

/// First token handed to a fabrial terminal.
pub const FIRST_TERMINAL_TOKEN: usize = 10;

/// Signal number of SIGINT.
pub const SIGINT: u32 = 2;

/// Signal number of SIGTERM.
pub const SIGTERM: u32 = 15;

/// What the event loop does when the source under a token is readable.
#[derive(Clone, Copy, Debug, PartialEq, Eq, Structural)]
pub enum HypervisorAction {
    /// Read the virtual machine's standard error and log it
    LogStderr,
    /// Read the pending signal, if any, and ask [`HypervisorLoop::on_signal`]
    ReadSignal,
    /// Accept the announcing virtual machine and read its id
    AcceptVm,
    /// Read from the terminal under this token
    ReadTerminal(usize),
    /// Nothing is registered under this token
    Unknown(usize),
}

/// What a received signal does to the event loop.
#[derive(Clone, Copy, Debug, PartialEq, Eq, Structural)]
pub enum SignalAction {
    /// Leave the loop, stop the virtual machine and wait for it
    Stop,
    /// Keep running (the signal is only logged)
    Continue,
}

/// The action for a readable `token`, given which tokens hold a terminal.
pub open spec fn action_for(token: usize, has_terminal: bool) -> HypervisorAction {
    if token == TOKEN_STDERR {
        HypervisorAction::LogStderr
    } else if token == TOKEN_SIGNAL {
        HypervisorAction::ReadSignal
    } else if token == TOKEN_HYPERVISOR {
        HypervisorAction::AcceptVm
    } else if has_terminal {
        HypervisorAction::ReadTerminal(token)
    } else {
        HypervisorAction::Unknown(token)
    }
}

/// The state the hypervisor's event loop keeps between events: the token
/// the next fabrial terminal will be registered under.
pub struct HypervisorLoop {
    next_token: usize,
}

impl HypervisorLoop {
    /// The token the next fabrial terminal gets.
    pub closed spec fn spec_next_token(&self) -> usize {
        self.next_token
    }

    /// A loop that has handed out no terminal token yet.
    pub fn new() -> (h: Self)
        ensures
            h.spec_next_token() == FIRST_TERMINAL_TOKEN,
    {
        HypervisorLoop { next_token: FIRST_TERMINAL_TOKEN }
    }

    /// The token the next fabrial terminal gets.
    pub fn next_token(&self) -> (t: usize)
        ensures
            t == self.spec_next_token(),
    {
        self.next_token
    }

    /// What to do about a readable `token`.
    pub fn dispatch<P: OathgatePty>(&self, token: usize, terminals: &TerminalMap<P>) -> (a: HypervisorAction)
        ensures
            a == action_for(token, terminals.spec_terminals().contains_key(token)),
    {
        if token == TOKEN_STDERR {
            HypervisorAction::LogStderr
        } else if token == TOKEN_SIGNAL {
            HypervisorAction::ReadSignal
        } else if token == TOKEN_HYPERVISOR {
            HypervisorAction::AcceptVm
        } else {
            match terminals.get(token) {
                Some(_) => HypervisorAction::ReadTerminal(token),
                None => HypervisorAction::Unknown(token),
            }
        }
    }

    /// What a received signal does: SIGINT and SIGTERM stop the loop.
    pub fn on_signal(signo: u32) -> (a: SignalAction)
        ensures
            a == (if signo == SIGINT || signo == SIGTERM {
                SignalAction::Stop
            } else {
                SignalAction::Continue
            }),
    {
        if signo == SIGINT || signo == SIGTERM {
            SignalAction::Stop
        } else {
            SignalAction::Continue
        }
    }

    /// The fabrial endpoint (cid, port) of a virtual machine that announced
    /// itself with the two bytes `hello`: its id, little-endian.
    pub fn fabrial_endpoint(hello: [u8; 2]) -> (r: (u32, u32))
        ensures
            r.0 == hello[0] as int + 256 * hello[1] as int,
            r.1 == FABRIAL_PORT,
    {
        let vmid: u32 = hello[0] as u32 + 256 * (hello[1] as u32);
        (vmid, FABRIAL_PORT)
    }

    /// Adds the terminal of the standard input/output under its token and
    /// shows it.
    pub fn attach_stdio<P: OathgatePty>(&self, terminals: &mut TerminalMap<P>, pty: P)
        ensures
            final(terminals).spec_terminals() == old(terminals).spec_terminals().insert(TOKEN_STDIO, pty),
            final(terminals).spec_active() == Some(TOKEN_STDIO),
            final(terminals).spec_size() == old(terminals).spec_size(),
    {
        terminals.insert(TOKEN_STDIO, pty);
        terminals.set_active(TOKEN_STDIO);
    }

    /// Adds a connected fabrial terminal under the next token, shows it,
    /// and moves on to the following token. Returns the token used.
    pub fn attach_fabrial<P: OathgatePty>(&mut self, terminals: &mut TerminalMap<P>, pty: P) -> (t: usize)
        requires
            old(self).spec_next_token() < usize::MAX,
        ensures
            t == old(self).spec_next_token(),
            final(self).spec_next_token() == t + 1,
            final(terminals).spec_terminals() == old(terminals).spec_terminals().insert(t, pty),
            final(terminals).spec_active() == Some(t),
            final(terminals).spec_size() == old(terminals).spec_size(),
    {
        let t = self.next_token;
        terminals.insert(t, pty);
        terminals.set_active(t);
        self.next_token = t + 1;
        t
    }
}

/// Every terminal token is below the next token to hand out.
pub open spec fn tokens_below<P>(terminals: Map<usize, P>, next: usize) -> bool {
    forall|k: usize| #[trigger] terminals.contains_key(k) ==> k < next
}

/// Attaching fabrial terminals never replaces a terminal attached before:
/// while every token in use is below the next token, the new terminal gets
/// a fresh token, the earlier ones keep theirs, and every token in use
/// stays below the (advanced) next token.
pub proof fn lemma_attach_fresh_token<P: OathgatePty>(
    h0: HypervisorLoop,
    h1: HypervisorLoop,
    m0: TerminalMap<P>,
    m1: TerminalMap<P>,
    t: usize,
    pty: P,
)
    requires
        tokens_below(m0.spec_terminals(), h0.spec_next_token()),
        t == h0.spec_next_token(),
        h1.spec_next_token() == t + 1,
        m1.spec_terminals() == m0.spec_terminals().insert(t, pty),
    ensures
        !m0.spec_terminals().contains_key(t),
        forall|k: usize| #[trigger] m0.spec_terminals().contains_key(k) ==> m1.spec_terminals().contains_key(k)
            && m1.spec_terminals()[k] == m0.spec_terminals()[k],
        tokens_below(m1.spec_terminals(), h1.spec_next_token()),
{
}

/// A new loop with only the standard input/output terminal attached has
/// every token in use below the next token.
pub proof fn lemma_start_tokens_below<P: OathgatePty>(h: HypervisorLoop, m: TerminalMap<P>, pty: P)
    requires
        h.spec_next_token() == FIRST_TERMINAL_TOKEN,
        m.spec_terminals() == Map::<usize, P>::empty().insert(TOKEN_STDIO, pty),
    ensures
        tokens_below(m.spec_terminals(), h.spec_next_token()),
{
}

} // verus!
