//! Starting, stopping and steering the daemon.
use vstd::prelude::*;

use crate::cli::clean;
use crate::cli::clean::Line;
use crate::numerals;

verus! {

/// How long a new daemon may take to answer, in milliseconds.
pub const START_WAIT_MS: u64 = 2500;

/// How long the daemon may take to go after each request, in milliseconds.
pub const STOP_WAIT_MS: u64 = 1500;

/// The pause before a new daemon is asked again, in milliseconds.
pub const START_PAUSE_MS: u64 = 150;

/// The pause before a daemon that is to go is looked for again, in milliseconds.
pub const STOP_PAUSE_MS: u64 = 100;

/// What is done while something is waited for.
#[derive(Debug, Clone, Copy, PartialEq, Eq, Structural)]
pub enum WaitStep {
    /// Pause for this many milliseconds, then look again.
    Pause(u64),
    /// The wait is over.
    Conclude,
}

/// A wait goes on until what is waited for has come or the time is up.
pub open spec fn wait_step(come: bool, elapsed_ms: u64, limit_ms: u64, pause_ms: u64) -> WaitStep {
    if !come && elapsed_ms < limit_ms {
        WaitStep::Pause(pause_ms)
    } else {
        WaitStep::Conclude
    }
}

/// What is done this long after a daemon was started, when it has answered or not.
pub fn start_wait(elapsed_ms: u64, answered: bool) -> (r: WaitStep)
    ensures
        r == wait_step(answered, elapsed_ms, START_WAIT_MS, START_PAUSE_MS),
{
    if !answered && elapsed_ms < START_WAIT_MS {
        WaitStep::Pause(START_PAUSE_MS)
    } else {
        WaitStep::Conclude
    }
}

/// What is done this long after a daemon was asked or told to go, when it is still
/// alive or not.
pub fn stop_wait(elapsed_ms: u64, alive: bool) -> (r: WaitStep)
    ensures
        r == wait_step(!alive, elapsed_ms, STOP_WAIT_MS, STOP_PAUSE_MS),
{
    if alive && elapsed_ms < STOP_WAIT_MS {
        WaitStep::Pause(STOP_PAUSE_MS)
    } else {
        WaitStep::Conclude
    }
}

/// A wait ends when what is waited for has come, and no later than its time.
pub proof fn law_waits_end(come: bool, elapsed_ms: u64, limit_ms: u64, pause_ms: u64)
    ensures
        come || elapsed_ms >= limit_ms <==> wait_step(come, elapsed_ms, limit_ms, pause_ms)
            == WaitStep::Conclude,
{
}

/// What a request to start the daemon leads to.
#[derive(Debug, Clone, Copy, PartialEq, Eq, Structural)]
pub enum StartStep {
    /// It runs already.
    AlreadyRunning(u32),
    /// Run it here.
    Foreground,
    /// Start it in the background.
    Spawn,
}

/// What a request to start the daemon leads to.
pub fn start_daemon(running: Option<u32>, foreground: bool) -> (r: StartStep)
    ensures
        r == match running {
            Some(pid) => StartStep::AlreadyRunning(pid),
            None => if foreground {
                StartStep::Foreground
            } else {
                StartStep::Spawn
            },
        },
{
    match running {
        Some(pid) => StartStep::AlreadyRunning(pid),
        None => {
            if foreground {
                StartStep::Foreground
            } else {
                StartStep::Spawn
            }
        },
    }
}

/// A text with a process number in it.
pub open spec fn with_pid(lead: Seq<char>, pid: u32, tail: Seq<char>) -> Seq<char> {
    lead + numerals::decimal(pid as nat) + tail
}

fn with_pid_text(lead: &str, pid: u32, tail: &str) -> (r: String)
    ensures
        r@ == with_pid(lead@, pid, tail@),
{
    let mut r = numerals::numbered(lead, pid as u64);
    r.append(tail);
    r
}

/// What is said where the daemon runs already.
pub fn already_running(pid: u32) -> (r: Line)
    ensures
        r@ == clean::out(with_pid("[!] Cleaner daemon is already running (PID: "@, pid, ")."@)),
{
    Line {
        to_stderr: false,
        text: with_pid_text("[!] Cleaner daemon is already running (PID: ", pid, ")."),
    }
}

/// What is said once a daemon was started in the background: it answered, or is at
/// least alive, or is gone.
pub fn started(pid: u32, answered: bool, alive: bool) -> (r: Line)
    ensures
        r@ == if answered {
            clean::out(with_pid("[+] Cleaner daemon started successfully (PID: "@, pid, ")."@))
        } else if alive {
            clean::out(with_pid("[+] Cleaner daemon is running (PID: "@, pid, ")."@))
        } else {
            clean::err(
                "[!] Daemon process exited prematurely. Check system logs for details."@,
            )
        },
{
    if answered {
        Line {
            to_stderr: false,
            text: with_pid_text("[+] Cleaner daemon started successfully (PID: ", pid, ")."),
        }
    } else if alive {
        Line {
            to_stderr: false,
            text: with_pid_text("[+] Cleaner daemon is running (PID: ", pid, ")."),
        }
    } else {
        Line {
            to_stderr: true,
            text: "[!] Daemon process exited prematurely. Check system logs for details.".to_owned(),
        }
    }
}

/// How far stopping the daemon has come.
#[derive(Debug, Clone, Copy, PartialEq, Eq, Structural)]
pub enum StopStage {
    /// It was asked to stop.
    Asked,
    /// It was told to terminate.
    Terminated,
    /// It was killed.
    Killed,
}

/// What comes next.
#[derive(Debug, Clone, Copy, PartialEq, Eq, Structural)]
pub enum StopStep {
    Terminate,
    Kill,
    /// Nothing more is done.
    Conclude,
}

/// The daemon is to be stopped: its process is known, or it answers.
pub fn must_stop(pid_known: bool, answers: bool) -> (r: bool)
    ensures
        r == (pid_known || answers),
{
    pid_known || answers
}

/// What comes next when the daemon is still alive, or not, some time after this stage.
pub open spec fn next_stop(stage: StopStage, alive: bool) -> StopStep {
    if !alive {
        StopStep::Conclude
    } else {
        match stage {
            StopStage::Asked => StopStep::Terminate,
            StopStage::Terminated => StopStep::Kill,
            StopStage::Killed => StopStep::Conclude,
        }
    }
}

/// What comes next when the daemon is still alive, or not, some time after this stage.
pub fn stop_daemon(stage: StopStage, alive: bool) -> (r: StopStep)
    ensures
        r == next_stop(stage, alive),
{
    if !alive {
        return StopStep::Conclude;
    }
    match stage {
        StopStage::Asked => StopStep::Terminate,
        StopStage::Terminated => StopStep::Kill,
        StopStage::Killed => StopStep::Conclude,
    }
}

/// What is said in the end. Without a process number nobody knows whether it worked.
pub fn stopped(pid: Option<u32>, alive: bool) -> (r: Line)
    ensures
        r@ == match pid {
            Some(p) => if alive {
                clean::err(with_pid("[!] Warning: Could not terminate PID "@, p, "."@))
            } else {
                clean::out(with_pid("[+] Cleaner daemon (PID: "@, p, ") stopped completely."@))
            },
            None => clean::out("[+] Stop signal sent to cleaner daemon."@),
        },
{
    match pid {
        Some(p) => {
            if alive {
                Line {
                    to_stderr: true,
                    text: with_pid_text("[!] Warning: Could not terminate PID ", p, "."),
                }
            } else {
                Line {
                    to_stderr: false,
                    text: with_pid_text("[+] Cleaner daemon (PID: ", p, ") stopped completely."),
                }
            }
        },
        None => Line {
            to_stderr: false,
            text: "[+] Stop signal sent to cleaner daemon.".to_owned(),
        },
    }
}

/// How the daemon answered a request to load its configuration anew.
#[derive(Debug, Clone)]
pub enum ReloadReply {
    Message(String),
    Refused(String),
    /// No answer that says anything.
    Other,
}

/// What is said after a request to load the configuration anew. Where the daemon did
/// not answer, a signal is sent to its process instead.
pub fn reload_config(reply: &ReloadReply) -> (r: Option<Line>)
    ensures
        r is None <==> *reply is Other,
        *reply matches ReloadReply::Message(m) ==> r->0@ == clean::out("[+] "@ + m@),
        *reply matches ReloadReply::Refused(e) ==> r->0@ == clean::err(
            "[!] Config reload rejected: "@ + e@,
        ),
{
    match reply {
        ReloadReply::Message(m) => {
            let mut text = "[+] ".to_owned();
            text.append(m.as_str());
            Some(Line { to_stderr: false, text })
        },
        ReloadReply::Refused(e) => {
            let mut text = "[!] Config reload rejected: ".to_owned();
            text.append(e.as_str());
            Some(Line { to_stderr: true, text })
        },
        ReloadReply::Other => None,
    }
}

/// What is said after a signal was sent to this process, or to none.
pub fn reload_signalled(sent_to: Option<u32>) -> (r: Line)
    ensures
        r@ == match sent_to {
            Some(pid) => clean::out(
                with_pid("[+] Sent SIGHUP reload signal to daemon (PID: "@, pid, ")"@),
            ),
            None => clean::err("[!] Failed to reload: Cleaner daemon is not running."@),
        },
{
    match sent_to {
        Some(pid) => Line {
            to_stderr: false,
            text: with_pid_text("[+] Sent SIGHUP reload signal to daemon (PID: ", pid, ")"),
        },
        None => Line {
            to_stderr: true,
            text: "[!] Failed to reload: Cleaner daemon is not running.".to_owned(),
        },
    }
}

/// How the daemon answered a request to give an operation up.
#[derive(Debug, Clone)]
pub enum CancelReply {
    Message(String),
    Unreachable(String),
    /// No answer that says anything.
    Other,
}

/// What is said after a request to give an operation up.
pub fn cancel_operation(reply: &CancelReply) -> (r: Option<Line>)
    ensures
        r is None <==> *reply is Other,
        *reply matches CancelReply::Message(m) ==> r->0@ == clean::out("[+] "@ + m@),
        *reply matches CancelReply::Unreachable(e) ==> r->0@ == clean::err(
            "Failed to cancel operation: "@ + e@,
        ),
{
    match reply {
        CancelReply::Message(m) => {
            let mut text = "[+] ".to_owned();
            text.append(m.as_str());
            Some(Line { to_stderr: false, text })
        },
        CancelReply::Unreachable(e) => {
            let mut text = "Failed to cancel operation: ".to_owned();
            text.append(e.as_str());
            Some(Line { to_stderr: true, text })
        },
        CancelReply::Other => None,
    }
}

/// A daemon that goes when asked gets no signal, and one is killed only after it was
/// told to terminate and did not.
pub proof fn law_force_is_the_last_resort(stage: StopStage, alive: bool)
    ensures
        !alive ==> next_stop(stage, alive) == StopStep::Conclude,
        next_stop(stage, alive) == StopStep::Kill ==> stage == StopStage::Terminated && alive,
{
}

/// A new daemon is asked again every 150 milliseconds until it answers, for two and a half
/// seconds; one that is to go is looked for every 100, for one and a half.
pub proof fn law_waiting_is_bounded(
    elapsed: u64,
    answered: bool,
    start: WaitStep,
    alive: bool,
    stop: WaitStep,
)
    requires
        call_ensures(start_wait, (elapsed, answered), start),
        call_ensures(stop_wait, (elapsed, alive), stop),
    ensures
        answered || elapsed >= 2500 ==> start == WaitStep::Conclude,
        !answered && elapsed < 2500 ==> start == WaitStep::Pause(150),
        !alive || elapsed >= 1500 ==> stop == WaitStep::Conclude,
        alive && elapsed < 1500 ==> stop == WaitStep::Pause(100),
{
}

/// A second daemon is never started; otherwise it runs where it is wanted.
pub proof fn law_no_second_daemon_is_started(
    running: Option<u32>,
    foreground: bool,
    r: StartStep,
    pid: u32,
    said: Line,
)
    requires
        call_ensures(start_daemon, (running, foreground), r),
        call_ensures(already_running, (pid,), said),
    ensures
        running matches Some(p) ==> r == StartStep::AlreadyRunning(p),
        running is None && foreground ==> r == StartStep::Foreground,
        running is None && !foreground ==> r == StartStep::Spawn,
        !said.to_stderr && said.text@ == "[!] Cleaner daemon is already running (PID: "@
            + numerals::decimal(pid as nat) + ")."@,
{
}

/// A start is a success where the daemon answered or is at least alive, and a failure
/// otherwise.
pub proof fn law_start_is_reported(pid: u32, answered: bool, alive: bool, r: Line)
    requires
        call_ensures(started, (pid, answered, alive), r),
    ensures
        r.to_stderr <==> !answered && !alive,
        answered ==> r.text@ == "[+] Cleaner daemon started successfully (PID: "@
            + numerals::decimal(pid as nat) + ")."@,
        !answered && alive ==> r.text@ == "[+] Cleaner daemon is running (PID: "@
            + numerals::decimal(pid as nat) + ")."@,
        !answered && !alive ==> r.text@
            == "[!] Daemon process exited prematurely. Check system logs for details."@,
{
}

/// What does not go when asked is told to terminate, and then killed; what is gone is
/// left alone.
pub proof fn law_stopping_goes_step_by_step(
    stage: StopStage,
    alive: bool,
    r: StopStep,
    known: bool,
    answers: bool,
    must: bool,
)
    requires
        call_ensures(stop_daemon, (stage, alive), r),
        call_ensures(must_stop, (known, answers), must),
    ensures
        !alive ==> r == StopStep::Conclude,
        alive && stage == StopStage::Asked ==> r == StopStep::Terminate,
        alive && stage == StopStage::Terminated ==> r == StopStep::Kill,
        alive && stage == StopStage::Killed ==> r == StopStep::Conclude,
        !must <==> !known && !answers,
{
}

/// The end of a stop is told by what became of the process.
pub proof fn law_stop_is_reported(pid: Option<u32>, alive: bool, r: Line)
    requires
        call_ensures(stopped, (pid, alive), r),
    ensures
        r.to_stderr <==> pid is Some && alive,
        pid is Some && alive ==> r.text@ == "[!] Warning: Could not terminate PID "@
            + numerals::decimal(pid->0 as nat) + "."@,
        pid is Some && !alive ==> r.text@ == "[+] Cleaner daemon (PID: "@ + numerals::decimal(
            pid->0 as nat,
        ) + ") stopped completely."@,
        pid is None ==> r.text@ == "[+] Stop signal sent to cleaner daemon."@,
{
}

/// What the daemon answers to a request is told, an error on the output for errors; an
/// answer that says nothing is not.
pub proof fn law_requests_are_answered(
    reload: &ReloadReply,
    told: Option<Line>,
    sent: Option<u32>,
    signalled: Line,
    cancel: &CancelReply,
    cancelled: Option<Line>,
)
    requires
        call_ensures(reload_config, (reload,), told),
        call_ensures(reload_signalled, (sent,), signalled),
        call_ensures(cancel_operation, (cancel,), cancelled),
    ensures
        told is None <==> *reload is Other,
        *reload matches ReloadReply::Message(m) ==> !told->0.to_stderr && told->0.text@ == "[+] "@
            + m@,
        *reload matches ReloadReply::Refused(e) ==> told->0.to_stderr && told->0.text@
            == "[!] Config reload rejected: "@ + e@,
        signalled.to_stderr <==> sent is None,
        sent is Some ==> signalled.text@ == "[+] Sent SIGHUP reload signal to daemon (PID: "@
            + numerals::decimal(sent->0 as nat) + ")"@,
        sent is None ==> signalled.text@ == "[!] Failed to reload: Cleaner daemon is not running."@,
        cancelled is None <==> *cancel is Other,
        *cancel matches CancelReply::Message(m) ==> !cancelled->0.to_stderr && cancelled->0.text@
            == "[+] "@ + m@,
        *cancel matches CancelReply::Unreachable(e) ==> cancelled->0.to_stderr
            && cancelled->0.text@ == "Failed to cancel operation: "@ + e@,
{
}

} // verus!
