//! Who may talk to the daemon, and about what.
use vstd::prelude::*;
use vstd::string::StringSliceAdditionalSpecFns;

use crate::ipc::protocol::Command;

verus! {

/// The user id of root.
pub const ROOT_UID: u32 = 0;

/// The user id of the system.
pub const SYSTEM_UID: u32 = 1000;

/// The user id of the shell.
pub const SHELL_UID: u32 = 2000;

/// The number of clients that are served at a time.
pub const MAX_CONCURRENT_IPC_WORKERS: usize = 4;

/// What becomes of a connection.
#[derive(Debug, Clone, Copy, PartialEq, Eq, Structural)]
pub enum Admission {
    /// The client with this user id is served.
    Serve(u32),
    /// The client is told that it may not talk to the daemon.
    Stranger,
    /// The client is told to come back.
    Busy,
}

/// The users that may talk to the daemon: the daemon's own, root, the system and the
/// shell.
pub open spec fn may_connect(uid: u32, own_uid: u32) -> bool {
    uid == own_uid || uid == ROOT_UID || uid == SYSTEM_UID || uid == SHELL_UID
}

/// A user may give this command.
pub open spec fn may_command(uid: u32, cmd: Command) -> bool {
    uid == ROOT_UID || match cmd {
        Command::GetStatus | Command::GetStats | Command::Ping | Command::Cancel => uid
            == SYSTEM_UID || uid == SHELL_UID,
        Command::TriggerClean(params) => !params.deep && !params.trim && uid == SYSTEM_UID,
        _ => false,
    }
}

/// `true` where a user may talk to the daemon, which itself runs as `own_uid`.
pub fn is_uid_allowed(uid: u32, own_uid: u32) -> (r: bool)
    ensures
        r == may_connect(uid, own_uid),
{
    uid == own_uid || uid == ROOT_UID || uid == SYSTEM_UID || uid == SHELL_UID
}

/// What becomes of a connection while this many clients are served.
pub open spec fn admission(peer: Option<u32>, own_uid: u32, active_workers: int) -> Admission {
    match peer {
        Some(uid) => if !may_connect(uid, own_uid) {
            Admission::Stranger
        } else if active_workers >= MAX_CONCURRENT_IPC_WORKERS {
            Admission::Busy
        } else {
            Admission::Serve(uid)
        },
        None => Admission::Stranger,
    }
}

/// Decides on a connection. The user is not known where the system does not say it.
pub fn receive(peer: Option<u32>, own_uid: u32, active_workers: usize) -> (r: Admission)
    ensures
        r == admission(peer, own_uid, active_workers as int),
{
    match peer {
        Some(uid) => {
            if !is_uid_allowed(uid, own_uid) {
                return Admission::Stranger;
            }
            if active_workers >= MAX_CONCURRENT_IPC_WORKERS {
                return Admission::Busy;
            }
            Admission::Serve(uid)
        },
        None => Admission::Stranger,
    }
}

/// What a client is told that is not served.
pub fn refusal(admission: Admission) -> (r: Option<&'static str>)
    ensures
        r is Some <==> !(admission is Serve),
        admission is Stranger ==> r->0@ == "Unauthorized caller UID"@,
        admission is Busy ==> r->0@ == "Daemon IPC busy, please retry shortly"@,
{
    match admission {
        Admission::Serve(_) => None,
        Admission::Stranger => Some("Unauthorized caller UID"),
        Admission::Busy => Some("Daemon IPC busy, please retry shortly"),
    }
}

/// `true` where a user may give this command.
pub fn is_command_authorized(caller_uid: u32, cmd: &Command) -> (r: bool)
    ensures
        r == may_command(caller_uid, *cmd),
{
    if caller_uid == ROOT_UID {
        return true;
    }
    match cmd {
        Command::GetStatus | Command::GetStats | Command::Ping | Command::Cancel => caller_uid
            == SYSTEM_UID || caller_uid == SHELL_UID,
        Command::TriggerClean(params) => !params.deep && !params.trim && caller_uid == SYSTEM_UID,
        _ => false,
    }
}

/// What a client is told whose command is not for it to give.
pub fn command_refusal(caller_uid: u32, cmd: &Command) -> (r: Option<&'static str>)
    ensures
        r is Some <==> !may_command(caller_uid, *cmd),
        r is Some ==> r->0@ == "Permission denied: Insufficient privileges for this command"@,
{
    if is_command_authorized(caller_uid, cmd) {
        None
    } else {
        Some("Permission denied: Insufficient privileges for this command")
    }
}

/// The address of an abstract socket with this name: a zero byte, and as much of the
/// name as fits with a byte to spare.
pub fn abstract_address(name: &str, capacity: usize) -> (r: Vec<u8>)
    requires
        capacity >= 2,
    ensures
        r@ == seq![0u8] + name.spec_bytes().take(
            if name.spec_bytes().len() < capacity - 2 {
                name.spec_bytes().len() as int
            } else {
                capacity - 2
            },
        ),
{
    let bytes = name.as_bytes();
    let limit: usize = capacity - 2;
    let mut r: Vec<u8> = Vec::new();
    r.push(0);
    let mut i: usize = 0;
    while i < bytes.len() && i < limit
        invariant
            i <= bytes@.len(),
            i <= limit,
            r@ == seq![0u8] + bytes@.take(i as int),
        decreases limit - i,
    {
        r.push(bytes[i]);
        i = i + 1;
        assert(r@ =~= seq![0u8] + bytes@.take(i as int));
    }
    r
}

/// Root may give every command.
pub proof fn law_root_may_do_everything(cmd: Command)
    ensures
        may_command(ROOT_UID, cmd),
{
}

/// Deep cleaning, trimming, loading the configuration anew, stopping the daemon and
/// asking for the idle assessment are for root alone.
pub proof fn law_strong_commands_are_for_root(uid: u32, cmd: Command)
    requires
        may_command(uid, cmd),
        cmd is ReloadConfig || cmd is StopDaemon || cmd is GetIdleAssessment || (
        cmd matches Command::TriggerClean(params) && (params.deep || params.trim)),
    ensures
        uid == ROOT_UID,
{
}

/// Whoever is neither root nor the system nor the shell may give no command, even
/// where it may connect.
pub proof fn law_others_may_do_nothing(uid: u32, cmd: Command)
    requires
        uid != ROOT_UID,
        uid != SYSTEM_UID,
        uid != SHELL_UID,
    ensures
        !may_command(uid, cmd),
{
}

/// A client is served only where it may connect, and never more clients at a time than
/// there may be workers.
pub proof fn law_workers_are_bounded(peer: Option<u32>, own_uid: u32, active_workers: int)
    requires
        admission(peer, own_uid, active_workers) is Serve,
    ensures
        active_workers + 1 <= MAX_CONCURRENT_IPC_WORKERS,
        peer is Some && may_connect(peer->0, own_uid),
{
}

/// The daemon's own user, root, the system and the shell may talk to the daemon, and
/// nobody else; of them each is served as long as fewer than four are, and an unknown
/// user never.
pub proof fn law_clients_are_received(
    peer: Option<u32>,
    own_uid: u32,
    active: usize,
    r: Admission,
    uid: u32,
    allowed: bool,
)
    requires
        call_ensures(receive, (peer, own_uid, active), r),
        call_ensures(is_uid_allowed, (uid, own_uid), allowed),
    ensures
        allowed <==> uid == own_uid || uid == 0 || uid == 1000 || uid == 2000,
        peer == Some(uid) && allowed && active < 4 ==> r == Admission::Serve(uid),
        peer == Some(uid) && allowed && active >= 4 ==> r == Admission::Busy,
        peer == Some(uid) && !allowed ==> r == Admission::Stranger,
        peer is None ==> r == Admission::Stranger,
{
}

/// Root may give every command. The system and the shell may ask for state and figures,
/// for a sign of life, and cancel; the system may also start a cleaning that is neither
/// deep nor trims. Nobody else may give any. Who may not is told so.
pub proof fn law_commands_are_for_their_users(
    uid: u32,
    cmd: &Command,
    r: bool,
    refused: Option<&'static str>,
)
    requires
        call_ensures(is_command_authorized, (uid, cmd), r),
        call_ensures(command_refusal, (uid, cmd), refused),
    ensures
        r <==> {
            ||| uid == 0
            ||| (uid == 1000 || uid == 2000) && (*cmd is Ping || *cmd is GetStatus
                || *cmd is GetStats || *cmd is Cancel)
            ||| uid == 1000 && (*cmd matches Command::TriggerClean(params) && !params.deep
                && !params.trim)
        },
        refused is None <==> r,
        refused is Some ==> refused->0@
            == "Permission denied: Insufficient privileges for this command"@,
{
}

/// A client that is not served is told why, and one that is served is told nothing.
pub proof fn law_unserved_clients_are_told(admission: Admission, r: Option<&'static str>)
    requires
        call_ensures(refusal, (admission,), r),
    ensures
        r is None <==> admission is Serve,
        admission is Stranger ==> r->0@ == "Unauthorized caller UID"@,
        admission is Busy ==> r->0@ == "Daemon IPC busy, please retry shortly"@,
{
}

/// The address of an abstract socket: a zero byte and the bytes of the name, as many as
/// leave a byte to spare.
pub proof fn law_address_begins_with_a_zero(name: &str, capacity: usize, r: Vec<u8>)
    requires
        call_ensures(abstract_address, (name, capacity), r),
        capacity >= 2,
    ensures
        r@.len() >= 1,
        r@[0] == 0,
        r@.len() < capacity,
        forall|i: int| 1 <= i < r@.len() ==> #[trigger] r@[i] == name.spec_bytes()[i - 1],
        r@.len() == name.spec_bytes().len() + 1 || r@.len() == capacity - 1,
        r@.len() <= name.spec_bytes().len() + 1,
{
}

} // verus!
