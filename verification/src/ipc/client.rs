//! How a client reaches the daemon.
use vstd::prelude::*;

use crate::config;
use crate::error::CleanerError;
use crate::ipc::protocol::Command;

verus! {

/// The name of the daemon's abstract socket.
pub const ABSTRACT_SOCKET_NAME: &'static str = "cleaner_daemon";

/// Talks to the daemon.
pub struct IpcClient;

impl IpcClient {
    /// How long an answer to a command may take, in seconds.
    pub open spec fn patience(command: Command) -> u64 {
        if command is TriggerClean {
            60
        } else {
            10
        }
    }

    /// How long an answer to a command may take, in seconds.
    pub fn timeout_secs(command: &Command) -> (r: u64)
        ensures
            r == IpcClient::patience(*command),
    {
        match command {
            Command::TriggerClean(_) => 60,
            _ => 10,
        }
    }

    /// The error where neither the abstract socket nor the one in the file system
    /// leads to the daemon.
    pub fn unreachable() -> (r: CleanerError)
        ensures
            r matches CleanerError::Ipc(m) && m@ == "Could not connect to cleaner daemon at "@
                + config::SOCKET_PATH@ + ". Is the daemon running?"@,
    {
        let mut m = "Could not connect to cleaner daemon at ".to_owned();
        m.append(config::SOCKET_PATH);
        m.append(". Is the daemon running?");
        CleanerError::Ipc(m)
    }
}

/// An answer to a cleaning may take a minute, and any other ten seconds.
pub proof fn law_cleanings_may_take_longer(command: &Command, r: u64)
    requires
        call_ensures(IpcClient::timeout_secs, (command,), r),
    ensures
        *command is TriggerClean ==> r == 60,
        !(*command is TriggerClean) ==> r == 10,
{
}

/// A daemon that cannot be reached is told of by its socket.
pub proof fn law_unreachable_daemon_is_told_by_its_socket(r: CleanerError)
    requires
        call_ensures(IpcClient::unreachable, (), r),
    ensures
        r matches CleanerError::Ipc(m) && m@ == "Could not connect to cleaner daemon at "@
            + "/data/adb/cleaner/run/daemon"@ + ". Is the daemon running?"@,
{
}

} // verus!
