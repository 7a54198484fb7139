//! The oathgate command line: options and commands, and the small rules
//! behind them (log levels, device types, disk formats, process states).

use vstd::prelude::*;

use crate::text::str_chars;

verus! {

/// A string holding `t`.
pub fn text(t: &str) -> (s: String)
    ensures
        s@ == t@,
{
    let mut s = String::new();
    crate::text::push_str(&mut s, t);
    assert(s@ =~= t@);
    s
}

/// `s` and `t` hold the same characters.
pub fn str_eq(s: &str, t: &str) -> (r: bool)
    ensures
        r == (s@ == t@),
{
    let a = str_chars(s);
    let b = str_chars(t);
    if a.len() != b.len() {
        return false;
    }
    let mut i: usize = 0;
    while i < a.len()
        invariant
            a@ == s@,
            b@ == t@,
            a@.len() == b@.len(),
            i <= a@.len(),
            forall|k: int| 0 <= k < i ==> a@[k] == b@[k],
        decreases a@.len() - i,
    {
        if a[i] != b[i] {
            return false;
        }
        i = i + 1;
    }
    assert(a@ =~= b@);
    true
}

/// Command line options of `oathgate`.
#[derive(Debug)]
pub struct Opts {
    /// Log level verbosity (-v, -vv, -vvv)
    pub verbose: u8,
    /// Don't log to stdout
    pub silent: bool,
    /// Path to base directory to store application files
    pub base: String,
    /// Oathgate database used to track bridges, vms, etc
    pub database: String,
    /// Assume yes, don't prompt for confirmation
    pub yes_dont_ask_again: bool,
    /// Command to execute
    pub command: Command,
}

/// A command of `oathgate`.
#[derive(Debug)]
#[allow(inconsistent_fields)]
pub enum Command {
    /// Create, modify, or delete an oathgate bridge
    Bridge { command: BridgeCommand },
    /// Manage and install Linux kernels
    Kernel { command: KernelCommand },
    /// Manage and install disk images
    Image { command: ImageCommand },
    /// Control virtual machines conneted to a bridge
    Shard { command: ShardCommand },
    /// Print status of entire system
    Status,
}

/// Bridge commands.
#[derive(Debug)]
#[allow(inconsistent_fields)]
pub enum BridgeCommand {
    /// Creates a new oathgate bridge from a configuration file
    Create { config: String, name: Option<String> },
    /// Starts a bridge, spawning a new process/daemon
    Start { pcap: Option<String>, name: String },
    /// Returns a list of all bridges, including inactive ones
    List,
    /// Prints logs for a specific bridge
    Logs { name: String },
    /// Stops an existing oathgate bridge
    Stop { name: String },
    /// Delete an existing oathgate bridge
    Delete { name: String },
}

/// Disk image commands.
#[derive(Debug)]
pub enum ImageCommand {
    /// Installs a disk image for use by virtual machines/shards
    Install { image: String, name: Option<String> },
    /// List installed/available disk images
    List,
}

/// Kernel commands.
#[derive(Debug)]
pub enum KernelCommand {
    /// Installs a kernel for use by virtual machines/shards
    Install { kernel: String, name: Option<String> },
    /// List installed/available kernels
    List,
}

/// Options of a shard deployment.
#[derive(Debug)]
pub struct DeployOpts {
    /// Name of this shard (or omit to auto-generate)
    pub name: Option<String>,
    /// Backing image to deploy
    pub image: String,
    /// Kernel to use (or omit to use the default)
    pub kernel: Option<String>,
    /// Amount of RAM (memory), in megabytes
    pub memory: u16,
    /// Qemu CPU type
    pub cpu: String,
    /// Network/Bridges to connect to this shard
    pub network: Vec<String>,
}

/// Shard (virtual machine) commands.
#[derive(Debug)]
pub enum ShardCommand {
    /// Deploys a new shard using the specified parameters
    Deploy { opts: DeployOpts },
    /// Runs a deployed virtual machine attached to an oathgate bridge
    Run { name: String },
    /// Returns a list of all shards, including inactive ones
    List,
    /// Print logs for a shard
    Logs { name: String, format: String },
    /// Attach a terminal to a shard, on a vsock port
    Attach { name: String, port: u32 },
    /// Stop a running shard
    Stop { name: String },
    /// Deletes a stopped shard (unrecoverable!)
    Delete { name: String },
}

/// Shard template commands.
#[derive(Debug)]
pub enum TemplateCommand {
    /// Imports a shard archive into the system
    Import { shard: String, name: Option<String> },
    /// Deploys a template as a running shard
    Deploy { networks: Vec<String>, template: String, name: Option<String> },
    /// Lists all installed templates
    List,
}

/// Level of a log entry.
#[derive(Clone, Copy, Debug, PartialEq, Eq, Structural)]
pub enum LogLevel {
    Error,
    Warn,
    Info,
    Debug,
    Trace,
}

/// The name of a log level.
pub open spec fn level_name(l: LogLevel) -> Seq<char> {
    match l {
        LogLevel::Error => "error"@,
        LogLevel::Warn => "warn"@,
        LogLevel::Info => "info"@,
        LogLevel::Debug => "debug"@,
        LogLevel::Trace => "trace"@,
    }
}

/// The log level named `s`, if any.
pub open spec fn level_of_name(s: Seq<char>) -> Option<LogLevel> {
    if s == "error"@ {
        Some(LogLevel::Error)
    } else if s == "warn"@ {
        Some(LogLevel::Warn)
    } else if s == "info"@ {
        Some(LogLevel::Info)
    } else if s == "debug"@ {
        Some(LogLevel::Debug)
    } else if s == "trace"@ {
        Some(LogLevel::Trace)
    } else {
        None
    }
}

impl LogLevel {
    /// The level's name (as `Display` writes it).
    pub fn to_string(&self) -> (s: String)
        ensures
            s@ == level_name(*self),
    {
        match self {
            LogLevel::Error => text("error"),
            LogLevel::Warn => text("warn"),
            LogLevel::Info => text("info"),
            LogLevel::Debug => text("debug"),
            LogLevel::Trace => text("trace"),
        }
    }

    /// The level of console output for a count of `-v` flags: warnings
    /// only, then info, debug and trace.
    pub fn from_verbosity(v: u8) -> (l: LogLevel)
        ensures
            l == (if v == 0 {
                LogLevel::Warn
            } else if v == 1 {
                LogLevel::Info
            } else if v == 2 {
                LogLevel::Debug
            } else {
                LogLevel::Trace
            }),
    {
        match v {
            0 => LogLevel::Warn,
            1 => LogLevel::Info,
            2 => LogLevel::Debug,
            _ => LogLevel::Trace,
        }
    }

    /// Reads a level from its name.
    pub fn from_str(s: &str) -> (r: Result<LogLevel, String>)
        ensures
            match level_of_name(s@) {
                Some(l) => r == Ok::<LogLevel, String>(l),
                None => r matches Err(e) && e@ == "unknown log level"@,
            },
    {
        if str_eq(s, "error") {
            Ok(LogLevel::Error)
        } else if str_eq(s, "warn") {
            Ok(LogLevel::Warn)
        } else if str_eq(s, "info") {
            Ok(LogLevel::Info)
        } else if str_eq(s, "debug") {
            Ok(LogLevel::Debug)
        } else if str_eq(s, "trace") {
            Ok(LogLevel::Trace)
        } else {
            Err(text("unknown log level"))
        }
    }
}

/// A level's name reads back as that level.
pub proof fn lemma_level_name_roundtrip(l: LogLevel)
    ensures
        level_of_name(level_name(l)) == Some(l),
{
    reveal_strlit("error");
    reveal_strlit("warn");
    reveal_strlit("info");
    reveal_strlit("debug");
    reveal_strlit("trace");
    assert("error"@[0] == 'e' && "warn"@[0] == 'w' && "info"@[0] == 'i' && "debug"@[0] == 'd'
        && "trace"@[0] == 't');
}

/// Type of a device.
#[derive(Clone, Copy, Debug, PartialEq, Eq, Structural)]
pub enum DeviceType {
    Bridge,
}

impl DeviceType {
    /// The type's name (as `Display` writes it).
    pub fn to_string(&self) -> (s: String)
        ensures
            s@ == "bridge"@,
    {
        match self {
            DeviceType::Bridge => text("bridge"),
        }
    }

    /// The number that stands for the type in the database.
    pub fn code(&self) -> (c: i64)
        ensures
            c == 0,
    {
        match self {
            DeviceType::Bridge => 0,
        }
    }

    /// The type a number of the database stands for.
    pub fn from_code(c: i64) -> (r: Result<DeviceType, String>)
        ensures
            c == 0 ==> r == Ok::<DeviceType, String>(DeviceType::Bridge),
            c != 0 ==> (r matches Err(e) && e@ == "invalid number for device type"@),
    {
        if c == 0 {
            Ok(DeviceType::Bridge)
        } else {
            Err(text("invalid number for device type"))
        }
    }
}

/// Format of a disk image.
#[derive(Clone, Copy, Debug, PartialEq, Eq, Structural)]
pub enum DiskFormat {
    /// A raw (i.e., ext4) disk image with no partitions
    Raw,
    /// A Qemu qcow2 formatted disk image
    Qcow2,
}

/// The name of a disk format.
pub open spec fn format_name(f: DiskFormat) -> Seq<char> {
    match f {
        DiskFormat::Raw => "raw"@,
        DiskFormat::Qcow2 => "qcow2"@,
    }
}

/// `c` with an ASCII capital letter made small.
pub open spec fn ascii_lower(c: char) -> char {
    if 'A' <= c && c <= 'Z' {
        ((c as int) + 32) as char
    } else {
        c
    }
}

/// `s` with its ASCII capital letters made small (as `to_ascii_lowercase`).
pub open spec fn ascii_lowercase(s: Seq<char>) -> Seq<char> {
    s.map_values(|c: char| ascii_lower(c))
}

/// Makes the ASCII capital letters of `s` small.
pub fn to_ascii_lowercase(s: &str) -> (r: String)
    ensures
        r@ == ascii_lowercase(s@),
{
    let cs = str_chars(s);
    let mut r = String::new();
    let mut i: usize = 0;
    while i < cs.len()
        invariant
            cs@ == s@,
            i <= cs@.len(),
            r@ == ascii_lowercase(s@).subrange(0, i as int),
        decreases cs@.len() - i,
    {
        let c = cs[i];
        let l = if c >= 'A' && c <= 'Z' {
            ((c as u32) + 32) as u8 as char
        } else {
            c
        };
        assert(l == ascii_lower(c)) by {
            if 'A' <= c && c <= 'Z' {
                assert(((c as u32) + 32) as u8 as char == ((c as int) + 32) as char);
            }
        }
        crate::text::push_char(&mut r, l);
        assert(r@ =~= ascii_lowercase(s@).subrange(0, i + 1));
        i = i + 1;
    }
    assert(ascii_lowercase(s@).subrange(0, i as int) =~= ascii_lowercase(s@));
    r
}

impl DiskFormat {
    /// The format's name (as `Display` writes it).
    pub fn to_string(&self) -> (s: String)
        ensures
            s@ == format_name(*self),
    {
        match self {
            DiskFormat::Raw => text("raw"),
            DiskFormat::Qcow2 => text("qcow2"),
        }
    }

    /// Reads a format from its name, in any case of ASCII letters.
    pub fn from_str(s: &str) -> (r: Result<DiskFormat, String>)
        ensures
            ascii_lowercase(s@) == "raw"@ ==> r == Ok::<DiskFormat, String>(DiskFormat::Raw),
            ascii_lowercase(s@) == "qcow2"@ ==> r == Ok::<DiskFormat, String>(DiskFormat::Qcow2),
            ascii_lowercase(s@) != "raw"@ && ascii_lowercase(s@) != "qcow2"@ ==> (r matches Err(e)
                && e@ == "unknown disk format: "@ + ascii_lowercase(s@)),
    {
        let lower = to_ascii_lowercase(s);
        proof {
            reveal_strlit("raw");
            reveal_strlit("qcow2");
            assert("raw"@[0] != "qcow2"@[0]);
        }
        if str_eq(lower.as_str(), "raw") {
            Ok(DiskFormat::Raw)
        } else if str_eq(lower.as_str(), "qcow2") {
            Ok(DiskFormat::Qcow2)
        } else {
            let mut e = text("unknown disk format: ");
            crate::text::push_str(&mut e, lower.as_str());
            Err(e)
        }
    }

    /// The format of a disk image by its mime type: qemu disks are qcow2,
    /// anything else raw; the flag tells whether the mime type was known.
    pub fn from_mime(mime: &str) -> (r: (DiskFormat, bool))
        ensures
            mime@ == "application/x-qemu-disk"@ ==> r == (DiskFormat::Qcow2, true),
            mime@ == "application/octet-stream"@ ==> r == (DiskFormat::Raw, true),
            mime@ != "application/x-qemu-disk"@ && mime@ != "application/octet-stream"@ ==> r == (
            DiskFormat::Raw, false),
    {
        proof {
            reveal_strlit("application/x-qemu-disk");
            reveal_strlit("application/octet-stream");
            assert("application/x-qemu-disk"@[12] != "application/octet-stream"@[12]);
        }
        if str_eq(mime, "application/x-qemu-disk") {
            (DiskFormat::Qcow2, true)
        } else if str_eq(mime, "application/octet-stream") {
            (DiskFormat::Raw, true)
        } else {
            (DiskFormat::Raw, false)
        }
    }
}

/// A format's name reads back as that format, in any case.
pub proof fn lemma_format_name_roundtrip(f: DiskFormat)
    ensures
        ascii_lowercase(format_name(f)) == format_name(f),
        f == DiskFormat::Raw ==> ascii_lowercase(format_name(f)) == "raw"@,
        f == DiskFormat::Qcow2 ==> ascii_lowercase(format_name(f)) == "qcow2"@,
{
    reveal_strlit("raw");
    reveal_strlit("qcow2");
    assert(ascii_lowercase("raw"@) =~= "raw"@);
    assert(ascii_lowercase("qcow2"@) =~= "qcow2"@);
}


/// The state of a process, as far as `oathgate` can tell.
#[derive(Clone, Copy, Debug, PartialEq, Eq, Structural)]
pub enum ProcessState {
    Running(i32),
    PermissionDenied(i32),
    Dead(i32),
    Stopped,
}

/// `errno` value: operation not permitted.
pub const EPERM: i32 = 1;

/// `errno` value: no such process.
pub const ESRCH: i32 = 3;

/// The name of a process state (as `Display` writes it).
pub open spec fn state_name(p: ProcessState) -> Seq<char> {
    match p {
        ProcessState::Running(_) => "running"@,
        ProcessState::PermissionDenied(_) => "permission denied"@,
        ProcessState::Dead(_) => "dead"@,
        ProcessState::Stopped => "stopped"@,
    }
}

impl ProcessState {
    /// Converts this process state into an option with the pid: `Running`
    /// and `PermissionDenied` give it, `Dead` and `Stopped` give `None`.
    pub fn optional(&self) -> (r: Option<i32>)
        ensures
            r == match *self {
                ProcessState::Running(pid) => Some(pid),
                ProcessState::PermissionDenied(pid) => Some(pid),
                _ => None,
            },
    {
        match self {
            ProcessState::Running(pid) => Some(*pid),
            ProcessState::PermissionDenied(pid) => Some(*pid),
            _ => None,
        }
    }

    /// The name of the state (as `Display` writes it).
    pub fn to_string(&self) -> (s: String)
        ensures
            s@ == state_name(*self),
    {
        match self {
            ProcessState::Running(_) => text("running"),
            ProcessState::PermissionDenied(_) => text("permission denied"),
            ProcessState::Dead(_) => text("dead"),
            ProcessState::Stopped => text("stopped"),
        }
    }

    /// The state of process `pid`, given the outcome of sending it no
    /// signal (`kill(pid, None)`): delivered means running, "no such
    /// process" means dead, "not permitted" means it belongs to someone
    /// else; any other `errno` is an error.
    pub fn from_probe(pid: i32, probe: Result<(), i32>) -> (r: Result<ProcessState, i32>)
        ensures
            match probe {
                Ok(()) => r == Ok::<ProcessState, i32>(ProcessState::Running(pid)),
                Err(e) => if e == ESRCH {
                    r == Ok::<ProcessState, i32>(ProcessState::Dead(pid))
                } else if e == EPERM {
                    r == Ok::<ProcessState, i32>(ProcessState::PermissionDenied(pid))
                } else {
                    r == Err::<ProcessState, i32>(e)
                },
            },
    {
        match probe {
            Ok(()) => Ok(ProcessState::Running(pid)),
            Err(e) => if e == ESRCH {
                Ok(ProcessState::Dead(pid))
            } else if e == EPERM {
                Ok(ProcessState::PermissionDenied(pid))
            } else {
                Err(e)
            },
        }
    }
}

/// A signal used to stop a process.
#[derive(Clone, Copy, Debug, PartialEq, Eq, Structural)]
pub enum StopSignal {
    /// `SIGTERM`: asks the process to terminate
    Term,
    /// `SIGKILL`: kills the process
    Kill,
}

/// What to do after a signal was sent and the process checked.
#[derive(Clone, Copy, Debug, PartialEq, Eq, Structural)]
pub enum StopStep {
    /// The process is gone: stopped
    Stopped,
    /// The process cannot be signalled: fail with "permission denied"
    Denied,
    /// Still running: send the next signal
    Retry,
    /// Still running after the last signal: not stopped
    GaveUp,
}

/// Number of signals sent to stop a process: three `SIGTERM`, then a
/// `SIGKILL`.
pub const STOP_ATTEMPTS: u8 = 4;

/// Stopping a process: how many signals were sent.
#[derive(Debug)]
pub struct Stopper {
    sent: u8,
}

impl Stopper {
    /// Signals sent so far.
    pub closed spec fn spec_sent(&self) -> u8 {
        self.sent
    }

    /// Nothing sent yet.
    pub fn new() -> (s: Stopper)
        ensures
            s.spec_sent() == 0,
    {
        Stopper { sent: 0 }
    }

    /// The signal to send next: `SIGKILL` for the last attempt, `SIGTERM`
    /// before.
    pub fn signal(&self) -> (sig: StopSignal)
        ensures
            sig == (if self.spec_sent() + 1 == STOP_ATTEMPTS {
                StopSignal::Kill
            } else {
                StopSignal::Term
            }),
    {
        if self.sent == STOP_ATTEMPTS - 1 {
            StopSignal::Kill
        } else {
            StopSignal::Term
        }
    }

    /// Counts the signal just sent and decides by the state the process is
    /// in now.
    pub fn after_check(&mut self, state: ProcessState) -> (step: StopStep)
        requires
            old(self).spec_sent() < STOP_ATTEMPTS,
        ensures
            final(self).spec_sent() == old(self).spec_sent() + 1,
            step == match state {
                ProcessState::Dead(_) | ProcessState::Stopped => StopStep::Stopped,
                ProcessState::PermissionDenied(_) => StopStep::Denied,
                ProcessState::Running(_) => if final(self).spec_sent() == STOP_ATTEMPTS {
                    StopStep::GaveUp
                } else {
                    StopStep::Retry
                },
            },
    {
        self.sent = self.sent + 1;
        match state {
            ProcessState::Dead(_) | ProcessState::Stopped => StopStep::Stopped,
            ProcessState::PermissionDenied(_) => StopStep::Denied,
            ProcessState::Running(_) => if self.sent == STOP_ATTEMPTS {
                StopStep::GaveUp
            } else {
                StopStep::Retry
            },
        }
    }
}

/// The log entries table of the database.
#[derive(Debug)]
pub struct LogEntry;

/// The schema of the log entries table.
pub const LOG_TABLE: &'static str = "CREATE TABLE IF NOT EXISTS logs (
            id      BLOB PRIMARY KEY,
            device  BLOB,
            level   TEXT NOT NULL,
            target  TEXT NOT NULL,
            ts      TEXT NOT NULL,
            module  TEXT,
            line    INTEGER,
            data    JSON

        )";

impl LogEntry {
    /// Returns a string representing the table's schema.
    pub fn table() -> (s: &'static str)
        ensures
            s@ == LOG_TABLE@,
    {
        LOG_TABLE
    }
}

/// Settings for a process forked to run in the background.
#[derive(Debug)]
pub struct Forker<S> {
    /// Subscriber to log the forked process's events
    subscriber: Option<S>,
    /// Working directory to use after the fork (or none to leave it)
    cwd: Option<String>,
}

impl<S> Forker<S> {
    /// The subscriber installed in the forked process.
    pub closed spec fn spec_subscriber(&self) -> Option<S> {
        self.subscriber
    }

    /// The working directory of the forked process.
    pub closed spec fn spec_cwd(&self) -> Option<Seq<char>> {
        match self.cwd {
            Some(c) => Some(c@),
            None => None,
        }
    }

    /// Installs `subscriber` as the forked process's default subscriber.
    pub fn with_subscriber(subscriber: S) -> (f: Self)
        ensures
            f.spec_subscriber() == Some(subscriber),
            f.spec_cwd() is None,
    {
        Forker { subscriber: Some(subscriber), cwd: None }
    }

    /// Sets a new current working directory (aka cwd/pwd) after the fork.
    pub fn cwd(self, cwd: String) -> (f: Self)
        ensures
            f.spec_subscriber() == self.spec_subscriber(),
            f.spec_cwd() == Some(cwd@),
    {
        Forker { subscriber: self.subscriber, cwd: Some(cwd) }
    }

    /// Takes the settings apart, for the process that does the fork.
    pub fn into_parts(self) -> (r: (Option<S>, Option<String>))
        ensures
            r.0 == self.spec_subscriber(),
            match r.1 {
                Some(c) => self.spec_cwd() == Some(c@),
                None => self.spec_cwd() is None,
            },
    {
        (self.subscriber, self.cwd)
    }
}

impl<S> Default for Forker<S> {
    fn default() -> (f: Self)
        ensures
            f.spec_subscriber() is None,
            f.spec_cwd() is None,
    {
        Forker { subscriber: None, cwd: None }
    }
}

} // verus!
