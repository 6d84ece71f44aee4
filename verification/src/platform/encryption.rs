//! Whether a user's storage is unlocked.
use vstd::prelude::*;

use crate::numerals;

verus! {

/// How far a user's storage is accessible.
#[derive(Debug, Clone, Copy, PartialEq, Eq, Structural)]
pub enum EncryptionState {
    Unencrypted,
    /// Only what the device key protects.
    DeviceEncryptedOnly,
    /// Everything.
    FullyUnlocked,
    /// It cannot be told, so nothing may be cleaned.
    Unknown,
}

/// What came of reading the metadata of a directory entry.
#[derive(Debug, Clone, Copy, PartialEq, Eq, Structural)]
pub enum EntryAccess {
    Readable,
    /// The system's error number, where it gave one.
    Refused(Option<i32>),
}

/// What was seen of a user's directories.
#[derive(Debug, Clone)]
pub struct StorageFacts {
    /// The data partition is there.
    pub data_exists: bool,
    /// The credential encrypted directory is there.
    pub ce_exists: bool,
    /// The device encrypted directory is there.
    pub de_exists: bool,
    /// The entries of the credential encrypted directory in the order read, where
    /// it could be listed.
    pub ce_entries: Option<Vec<EntryAccess>>,
}

/// The number of entries looked at.
pub const MAX_PROBED_ENTRIES: usize = 8;

/// The error number of a missing encryption key.
pub const ENOKEY: i32 = 126;

/// The error number of a refused permission.
pub const EACCES: i32 = 13;

/// The error number of an operation that is not permitted.
pub const EPERM: i32 = 1;

/// The error number of a failed transfer.
pub const EIO: i32 = 5;

/// The entry is locked.
pub open spec fn is_locked(entry: EntryAccess) -> bool {
    entry matches EntryAccess::Refused(Some(e)) && (e == ENOKEY || e == EACCES || e == EPERM || e
        == EIO)
}

/// One of the entries looked at is locked.
pub open spec fn some_locked(entries: Seq<EntryAccess>) -> bool {
    exists|i: int|
        0 <= i < entries.len() && i < MAX_PROBED_ENTRIES && is_locked(#[trigger] entries[i])
}

/// One of the entries looked at is readable.
pub open spec fn some_readable(entries: Seq<EntryAccess>) -> bool {
    exists|i: int|
        0 <= i < entries.len() && i < MAX_PROBED_ENTRIES && (#[trigger] entries[i])
            == EntryAccess::Readable
}

impl StorageFacts {
    /// The state that these facts show. Everything is unlocked only where an entry
    /// was read and none was locked.
    pub open spec fn state(self) -> EncryptionState {
        let unlocked = self.ce_exists && self.ce_entries is Some && !some_locked(
            self.ce_entries->0@,
        ) && some_readable(self.ce_entries->0@);
        if !self.data_exists {
            EncryptionState::Unencrypted
        } else if unlocked {
            EncryptionState::FullyUnlocked
        } else if self.de_exists {
            EncryptionState::DeviceEncryptedOnly
        } else {
            EncryptionState::Unknown
        }
    }
}

fn entry_is_locked(entry: EntryAccess) -> (r: bool)
    ensures
        r == is_locked(entry),
{
    match entry {
        EntryAccess::Refused(Some(e)) => e == ENOKEY || e == EACCES || e == EPERM || e == EIO,
        _ => false,
    }
}

/// The state that these facts show.
#[must_use]
pub fn check_encryption_state(facts: &StorageFacts) -> (r: EncryptionState)
    ensures
        r == facts.state(),
{
    if !facts.data_exists {
        return EncryptionState::Unencrypted;
    }
    if !facts.ce_exists && !facts.de_exists {
        return EncryptionState::Unknown;
    }
    let locked = if facts.de_exists {
        EncryptionState::DeviceEncryptedOnly
    } else {
        EncryptionState::Unknown
    };
    if !facts.ce_exists {
        return locked;
    }
    let entries = match &facts.ce_entries {
        Some(entries) => entries,
        None => {
            return locked;
        },
    };
    let mut saw_ok = false;
    let mut i: usize = 0;
    while i < entries.len() && i < MAX_PROBED_ENTRIES
        invariant
            i <= entries.len(),
            i <= MAX_PROBED_ENTRIES,
            facts.data_exists,
            facts.ce_entries == Some(*entries),
            locked == if facts.de_exists {
                EncryptionState::DeviceEncryptedOnly
            } else {
                EncryptionState::Unknown
            },
            forall|j: int| 0 <= j < i ==> !is_locked(#[trigger] entries@[j]),
            saw_ok <==> exists|j: int|
                0 <= j < i && (#[trigger] entries@[j]) == EntryAccess::Readable,
        decreases entries.len() - i,
    {
        if entry_is_locked(entries[i]) {
            assert(is_locked(entries@[i as int]));
            return locked;
        }
        if entries[i] == EntryAccess::Readable {
            assert(entries@[i as int] == EntryAccess::Readable);
            saw_ok = true;
        }
        i = i + 1;
    }
    if saw_ok {
        EncryptionState::FullyUnlocked
    } else {
        locked
    }
}

/// The credential encrypted directory of a user.
pub open spec fn ce_dir(user_id: u32) -> Seq<char> {
    if user_id == 0 {
        "/data/data"@
    } else {
        "/data/user/"@ + numerals::decimal(user_id as nat)
    }
}

/// The credential encrypted directory of a user.
pub fn ce_user_dir(user_id: u32) -> (r: String)
    ensures
        r@ == ce_dir(user_id),
{
    if user_id == 0 {
        "/data/data".to_owned()
    } else {
        numerals::numbered("/data/user/", user_id as u64)
    }
}

/// The device encrypted directory of a user.
pub fn de_user_dir(user_id: u32) -> (r: String)
    ensures
        r@ == "/data/user_de/"@ + numerals::decimal(user_id as nat),
{
    numerals::numbered("/data/user_de/", user_id as u64)
}

/// Which parts of a user's storage are accessible.
#[derive(Debug, Clone, Copy, PartialEq, Eq, Structural)]
pub struct StorageState {
    pub ce_available: bool,
    pub de_available: bool,
    pub user_unlocked: bool,
}

impl StorageState {
    /// Credential encrypted storage only where that is certain, device encrypted
    /// storage unless nothing is.
    #[must_use]
    pub fn for_user(facts: &StorageFacts) -> (r: Self)
        ensures
            r.ce_available == (facts.state() == EncryptionState::FullyUnlocked || facts.state()
                == EncryptionState::Unencrypted),
            r.de_available == (facts.state() != EncryptionState::Unknown),
            r.user_unlocked == r.ce_available,
    {
        let state = check_encryption_state(facts);
        let ce_available = matches!(
            state,
            EncryptionState::FullyUnlocked | EncryptionState::Unencrypted
        );
        let de_available = matches!(
            state,
            EncryptionState::FullyUnlocked
                | EncryptionState::DeviceEncryptedOnly
                | EncryptionState::Unencrypted
        );
        StorageState { ce_available, de_available, user_unlocked: ce_available }
    }
}

/// A locked entry among those looked at keeps the storage from counting as
/// unlocked, and so does the lack of a readable one.
pub proof fn law_unlocked_means_seen(facts: StorageFacts)
    requires
        facts.state() == EncryptionState::FullyUnlocked,
    ensures
        facts.ce_exists,
        facts.ce_entries is Some,
        some_readable(facts.ce_entries->0@),
        !some_locked(facts.ce_entries->0@),
{
}

/// The state of a user's storage is what its directories show: without a data partition
/// there is no encryption; all of it is unlocked exactly where, of the first eight
/// entries of the credential encrypted directory, one can be read and none is locked;
/// else device encrypted storage is accessible where its directory is there, and nothing
/// can be told where it is not.
pub proof fn law_state_is_what_the_directories_show(facts: &StorageFacts, r: EncryptionState)
    requires
        call_ensures(check_encryption_state, (facts,), r),
    ensures
        ({
            let entries = facts.ce_entries->0@;
            let open = facts.data_exists && facts.ce_exists && facts.ce_entries is Some && (exists|
                i: int,
            |
                0 <= i < entries.len() && i < 8 && #[trigger] entries[i] == EntryAccess::Readable)
                && (forall|i: int|
                0 <= i < entries.len() && i < 8 ==> #[trigger] entries[i] != EntryAccess::Refused(
                    Some(126),
                ) && entries[i] != EntryAccess::Refused(Some(13)) && entries[i]
                    != EntryAccess::Refused(Some(1)) && entries[i] != EntryAccess::Refused(Some(5)));
            &&& r == EncryptionState::Unencrypted <==> !facts.data_exists
            &&& r == EncryptionState::FullyUnlocked <==> open
            &&& r == EncryptionState::DeviceEncryptedOnly <==> facts.data_exists && !open
                && facts.de_exists
            &&& r == EncryptionState::Unknown <==> facts.data_exists && !open && !facts.de_exists
        }),
{
    let entries = facts.ce_entries->0@;
    if some_locked(entries) {
        let i = choose|i: int|
            0 <= i < entries.len() && i < MAX_PROBED_ENTRIES && is_locked(#[trigger] entries[i]);
        assert(entries[i] == EntryAccess::Refused(Some(126)) || entries[i] == EntryAccess::Refused(
            Some(13),
        ) || entries[i] == EntryAccess::Refused(Some(1)) || entries[i] == EntryAccess::Refused(
            Some(5),
        ));
    } else {
        assert forall|i: int| 0 <= i < entries.len() && i < 8 implies #[trigger] entries[i]
            != EntryAccess::Refused(Some(126)) && entries[i] != EntryAccess::Refused(Some(13))
            && entries[i] != EntryAccess::Refused(Some(1)) && entries[i] != EntryAccess::Refused(
            Some(5),
        ) by {
            assert(!is_locked(entries[i]));
        }
    }
    if some_readable(entries) {
        let i = choose|i: int|
            0 <= i < entries.len() && i < MAX_PROBED_ENTRIES && (#[trigger] entries[i])
                == EntryAccess::Readable;
        assert(entries[i] == EntryAccess::Readable);
    }
}

/// Credential encrypted storage is accessible, and the user has unlocked it, exactly
/// where all of it is unlocked or nothing is encrypted; device encrypted storage unless
/// nothing can be told.
pub proof fn law_accessible_parts_follow_the_state(
    facts: &StorageFacts,
    state: EncryptionState,
    r: StorageState,
)
    requires
        call_ensures(check_encryption_state, (facts,), state),
        call_ensures(StorageState::for_user, (facts,), r),
    ensures
        r.ce_available <==> state == EncryptionState::FullyUnlocked || state
            == EncryptionState::Unencrypted,
        r.user_unlocked <==> r.ce_available,
        r.de_available <==> state != EncryptionState::Unknown,
{
}

/// The directories of a user are named by the user's number; the first user's data has a
/// name of its own.
pub proof fn law_user_directories_are_numbered(user_id: u32, ce: String, de: String)
    requires
        call_ensures(ce_user_dir, (user_id,), ce),
        call_ensures(de_user_dir, (user_id,), de),
    ensures
        user_id == 0 ==> ce@ == "/data/data"@,
        user_id != 0 ==> ce@ == "/data/user/"@ + numerals::decimal(user_id as nat),
        de@ == "/data/user_de/"@ + numerals::decimal(user_id as nat),
{
}

} // verus!
