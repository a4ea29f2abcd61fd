//! The files of a background process and the commands that it answers.
use crate::config::environment::EnvVars;
use crate::config::Config;
use crate::paths;
use crate::paths::path_join;
use crate::text;
use crate::text::{parse_unsigned, trim_text};
use vstd::prelude::*;

verus! {

/// Commands sent from CLI client to the running daemon.
#[derive(Clone, Copy, Debug, PartialEq, Eq, Structural)]
pub enum IpcCommand {
    Shutdown,
    Status,
}

/// Responses from the daemon back to the CLI client.
#[derive(Clone, Debug)]
pub enum IpcResponse {
    Done,
    Status { pid: u32, uptime_seconds: u64 },
    Error { message: String },
}

/// Paths for daemon runtime files, all derived from the instance directory.
pub struct DaemonPaths {
    pub pid_file: String,
    pub socket: String,
    pub log_dir: String,
}

impl DaemonPaths {
    /// The files are those of a given instance directory.
    pub open spec fn of(&self, instance_dir: Seq<char>) -> bool {
        &&& self.pid_file@ == paths::joined(instance_dir, "spacebot.pid"@)
        &&& self.socket@ == paths::joined(instance_dir, "spacebot.sock"@)
        &&& self.log_dir@ == paths::joined(instance_dir, "logs"@)
    }

    /// The files of an instance directory.
    pub fn new(instance_dir: &str) -> (r: Self)
        ensures
            r.of(instance_dir@),
    {
        DaemonPaths {
            pid_file: path_join(instance_dir, "spacebot.pid"),
            socket: path_join(instance_dir, "spacebot.sock"),
            log_dir: path_join(instance_dir, "logs"),
        }
    }

    /// The files of the default instance directory.
    pub fn from_default(env: &EnvVars, home: Option<&str>) -> (r: Self)
        ensures
            r.of(
                match env.value("SPACEBOT_DIR"@) {
                    Some(d) => d,
                    None => match home {
                        Some(h) => paths::joined(h@, ".spacebot"@),
                        None => "./.spacebot"@,
                    },
                },
            ),
    {
        let dir = Config::default_instance_dir(env, home);
        DaemonPaths::new(dir.as_str())
    }
}

/// The process that a PID file names.
pub open spec fn pid_in(content: Seq<char>) -> Option<nat> {
    text::parsed_unsigned(text::trim(content), u32::MAX as nat)
}

/// Reads the content of a PID file.
pub fn read_pid(content: &str) -> (r: Option<u32>)
    ensures
        match r {
            Some(pid) => pid_in(content@) == Some(pid as nat),
            None => pid_in(content@) is None,
        },
{
    let trimmed = trim_text(content);
    match parse_unsigned(trimmed.as_str(), u32::MAX as u64) {
        Some(pid) => Some(pid as u32),
        None => None,
    }
}

/// What becomes of the attempt to connect to the socket of a daemon.
#[derive(Clone, Copy, Debug, PartialEq, Eq, Structural)]
pub enum SocketState {
    /// There is no socket file.
    Missing,
    /// The daemon answers.
    Connects,
    /// There is a socket file, and nobody answers.
    Refuses,
}

/// Whether a daemon runs, and whether its files are stale and to be removed.
#[derive(Clone, Copy, Debug, PartialEq, Eq, Structural)]
pub struct Liveness {
    pub pid: Option<u32>,
    pub stale: bool,
}

/// Check whether a daemon is already running, given the process that its PID file
/// names, whether that process is alive, and the state of the socket. A process
/// that is alive and has no socket may be starting up, and counts as running.
pub fn is_running(pid: Option<u32>, alive: bool, socket: SocketState) -> (r: Liveness)
    ensures
        r.pid is Some <==> pid is Some && alive && socket != SocketState::Refuses,
        r.pid is Some ==> r.pid == pid,
        r.stale <==> pid is Some && !(alive && socket != SocketState::Refuses),
{
    match pid {
        None => Liveness { pid: None, stale: false },
        Some(pid) => {
            if !alive {
                return Liveness { pid: None, stale: true };
            }
            match socket {
                SocketState::Missing => Liveness { pid: Some(pid), stale: false },
                SocketState::Connects => Liveness { pid: Some(pid), stale: false },
                SocketState::Refuses => Liveness { pid: None, stale: true },
            }
        },
    }
}

/// The answer to a command, and whether the daemon is to shut down.
pub fn answer_command(command: IpcCommand, pid: u32, uptime_seconds: u64) -> (r: (
    IpcResponse,
    bool,
))
    ensures
        match command {
            IpcCommand::Shutdown => r.0 is Done && r.1,
            IpcCommand::Status => (r.0 matches IpcResponse::Status { pid: p, uptime_seconds: u }
                && p == pid && u == uptime_seconds) && !r.1,
        },
{
    match command {
        IpcCommand::Shutdown => (IpcResponse::Done, true),
        IpcCommand::Status => (IpcResponse::Status { pid, uptime_seconds }, false),
    }
}

/// How often the exit of a daemon is looked for after a shutdown.
pub const EXIT_POLLS: u32 = 100;

/// The milliseconds between two looks.
pub const EXIT_POLL_MS: u64 = 100;

/// What the wait for an exit does next.
#[derive(Clone, Copy, Debug, PartialEq, Eq, Structural)]
pub enum ExitWait {
    Exited,
    GaveUp,
    /// Look again after a pause of so many milliseconds.
    Again { pause_ms: u64 },
}

/// Decides after the look with a given number, counted from 0. After the pause that
/// follows the last look the wait is given up.
pub fn wait_for_exit(look: u32, alive: bool) -> (r: ExitWait)
    ensures
        look >= 100 ==> r is GaveUp,
        look < 100 && !alive ==> r is Exited,
        look < 100 && alive ==> r == (ExitWait::Again { pause_ms: 100 }),
{
    if look >= EXIT_POLLS {
        ExitWait::GaveUp
    } else if !alive {
        ExitWait::Exited
    } else {
        ExitWait::Again { pause_ms: EXIT_POLL_MS }
    }
}

/// The files of a daemon lie side by side in the directory of its instance.
pub proof fn law_files_of_a_daemon(p: DaemonPaths, dir: Seq<char>)
    requires
        p.of(dir),
        dir.len() > 0 && dir.last() != '/',
    ensures
        p.pid_file@ == dir + "/spacebot.pid"@,
        p.socket@ == dir + "/spacebot.sock"@,
        p.log_dir@ == dir + "/logs"@,
{
    reveal_strlit("spacebot.pid");
    reveal_strlit("/spacebot.pid");
    reveal_strlit("spacebot.sock");
    reveal_strlit("/spacebot.sock");
    reveal_strlit("logs");
    reveal_strlit("/logs");
    assert(p.pid_file@ == dir + "/spacebot.pid"@);
    assert(p.socket@ == dir + "/spacebot.sock"@);
    assert(p.log_dir@ == dir + "/logs"@);
}

/// A process number that is written to a file, with or without a line break behind it, is
/// read back.
pub proof fn law_pid_round_trip(pid: u32)
    ensures
        pid_in(text::decimal(pid as nat)) == Some(pid as nat),
        pid_in(text::decimal(pid as nat) + "\n"@) == Some(pid as nat),
{
    reveal_strlit("\n");
    let s = text::decimal(pid as nat);
    text::lemma_decimal_digits(pid as nat);
    text::law_decimal_round_trip(pid as nat, u32::MAX as nat);
    assert(text::is_digit(s[0]) && text::is_digit(s.last()));
    let none = Seq::<char>::empty();
    text::law_trimmed_text_is_what_stands_between(none, s, none);
    text::law_trimmed_text_is_what_stands_between(none, s, "\n"@);
    assert(none + s + none == s);
    assert(none + s + "\n"@ == s + "\n"@);
}

} // verus!
