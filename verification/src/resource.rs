//! What operations share: open files and exclusive locks.
use vstd::prelude::*;

use crate::assoc::TextMap;
use crate::domain::types::{AttemptId, TargetId};
use crate::error::CleanerError;
use crate::numerals;

verus! {

/// The largest number of files held open at a time.
pub const DEFAULT_MAX_CONCURRENT_FDS: usize = 64;

/// How long to wait for a free file, in milliseconds.
pub const DEFAULT_FD_TIMEOUT_MS: u64 = 500;

/// Identifies a storage.
#[derive(Debug, Clone, PartialEq, Eq, Hash)]
pub struct StorageId(pub String);

impl StorageId {
    pub fn new(s: String) -> (r: Self)
        ensures
            r.0 == s,
    {
        StorageId(s)
    }
}

/// Identifies a mount.
#[derive(Debug, Clone, PartialEq, Eq, Hash)]
pub struct MountId(pub String);

impl MountId {
    pub fn new(s: String) -> (r: Self)
        ensures
            r.0 == s,
    {
        MountId(s)
    }
}

/// Identifies a block device.
#[derive(Debug, Clone, PartialEq, Eq, Hash)]
pub struct BlockDeviceId(pub String);

/// The levels at which resources are locked, in the order in which to lock them.
#[derive(Debug, Clone, Copy, PartialEq, Eq, PartialOrd, Ord, Structural)]
pub enum ResourceLevel {
    Global,
    Storage,
    Mount,
    Target,
    Operation,
}

/// Leave to hold one file open.
#[derive(Debug)]
pub struct FdPermit {
    _granted: (),
}

/// The answer to a request for leave to hold a file open.
#[derive(Debug)]
pub enum FdAnswer {
    /// Leave is given.
    Granted(FdPermit),
    /// All files are taken: ask again when one was given back or after this time.
    Wait { remaining_ms: u64 },
    /// The time is up.
    Exhausted(CleanerError),
}

/// Numbers a lock.
#[derive(Debug, Clone, Copy, PartialEq, Eq, Hash, Structural)]
pub struct ReservationId(pub u64);

/// An exclusive lock on a target, held for an attempt.
#[derive(Debug)]
pub struct TargetLockPermit {
    pub target_id: TargetId,
    pub attempt_id: AttemptId,
    pub reservation_id: ReservationId,
}

/// An exclusive lock on a storage.
#[derive(Debug)]
pub struct StorageLockPermit {
    pub storage_id: StorageId,
    pub reservation_id: ReservationId,
}

/// An exclusive lock on a mount.
#[derive(Debug)]
pub struct MountLockPermit {
    pub mount_id: MountId,
    pub reservation_id: ReservationId,
}

/// Who holds the lock on a target.
#[derive(Debug, Clone, Copy, PartialEq, Eq, Structural)]
pub struct TargetHolder {
    pub attempt_id: AttemptId,
    pub reservation_id: ReservationId,
}

/// Everything that is taken.
#[verifier::ext_equal]
pub struct Taken {
    pub max_fds: usize,
    pub active_fds: usize,
    pub targets: Map<Seq<char>, TargetHolder>,
    pub storages: Map<Seq<char>, ReservationId>,
    pub mounts: Map<Seq<char>, ReservationId>,
    pub next_reservation: u64,
}

/// The number after `n`; zero follows the largest.
pub open spec fn next_number(n: u64) -> u64 {
    if n < u64::MAX {
        (n + 1) as u64
    } else {
        0
    }
}

impl Taken {
    /// With a lock on a target.
    pub open spec fn with_target(self, target: Seq<char>, attempt: AttemptId) -> Taken {
        Taken {
            targets: self.targets.insert(
                target,
                TargetHolder {
                    attempt_id: attempt,
                    reservation_id: ReservationId(self.next_reservation),
                },
            ),
            next_reservation: next_number(self.next_reservation),
            ..self
        }
    }

    /// Without the lock on a target, where it is the one with this number.
    pub open spec fn without_target(self, target: Seq<char>, reservation: ReservationId) -> Taken {
        if self.targets.contains_key(target) && self.targets[target].reservation_id == reservation {
            Taken { targets: self.targets.remove(target), ..self }
        } else {
            self
        }
    }

    /// With a lock on a storage.
    pub open spec fn with_storage(self, storage: Seq<char>) -> Taken {
        Taken {
            storages: self.storages.insert(storage, ReservationId(self.next_reservation)),
            next_reservation: next_number(self.next_reservation),
            ..self
        }
    }

    /// Without the lock on a storage, where it is the one with this number.
    pub open spec fn without_storage(
        self,
        storage: Seq<char>,
        reservation: ReservationId,
    ) -> Taken {
        if self.storages.contains_key(storage) && self.storages[storage] == reservation {
            Taken { storages: self.storages.remove(storage), ..self }
        } else {
            self
        }
    }

    /// With a lock on a mount.
    pub open spec fn with_mount(self, mount: Seq<char>) -> Taken {
        Taken {
            mounts: self.mounts.insert(mount, ReservationId(self.next_reservation)),
            next_reservation: next_number(self.next_reservation),
            ..self
        }
    }

    /// Without the lock on a mount, where it is the one with this number.
    pub open spec fn without_mount(self, mount: Seq<char>, reservation: ReservationId) -> Taken {
        if self.mounts.contains_key(mount) && self.mounts[mount] == reservation {
            Taken { mounts: self.mounts.remove(mount), ..self }
        } else {
            self
        }
    }
}

/// A number of milliseconds as a duration is shown: in seconds with the decimals
/// needed from one second on, in milliseconds below, and zero in nanoseconds.
pub open spec fn duration_shown(ms: u64) -> Seq<char> {
    if ms >= 1000 {
        let rest = ms % 1000;
        let decimals = if rest == 0 {
            Seq::<char>::empty()
        } else if rest % 100 == 0 {
            "."@ + numerals::decimal((rest / 100) as nat)
        } else if rest % 10 == 0 {
            "."@ + numerals::decimal((rest / 100) as nat) + numerals::decimal(
                (rest / 10 % 10) as nat,
            )
        } else {
            "."@ + numerals::decimal((rest / 100) as nat) + numerals::decimal(
                (rest / 10 % 10) as nat,
            ) + numerals::decimal((rest % 10) as nat)
        };
        numerals::decimal((ms / 1000) as nat) + decimals + "s"@
    } else if ms > 0 {
        numerals::decimal(ms as nat) + "ms"@
    } else {
        "0ns"@
    }
}

fn duration_text(ms: u64) -> (r: String)
    ensures
        r@ == duration_shown(ms),
{
    if ms >= 1000 {
        let rest: u64 = ms % 1000;
        let mut r = numerals::decimal_text(ms / 1000);
        let ghost whole = r@;
        if rest != 0 {
            let mut decimals = ".".to_owned();
            decimals.append(numerals::decimal_text(rest / 100).as_str());
            if rest % 100 != 0 {
                decimals.append(numerals::decimal_text(rest / 10 % 10).as_str());
                if rest % 10 != 0 {
                    decimals.append(numerals::decimal_text(rest % 10).as_str());
                }
            }
            r.append(decimals.as_str());
        } else {
            assert(whole + Seq::<char>::empty() =~= whole);
        }
        r.append("s");
        r
    } else if ms > 0 {
        let mut r = numerals::decimal_text(ms);
        r.append("ms");
        r
    } else {
        "0ns".to_owned()
    }
}

/// A number of files held open, within a limit.
#[derive(Debug)]
struct FdPool {
    max_fds: usize,
    active_fds: usize,
}

impl FdPool {
    #[verifier::type_invariant]
    spec fn within_limit(self) -> bool {
        self.active_fds <= self.max_fds
    }

    fn take(&mut self) -> (r: bool)
        ensures
            r == (old(self).active_fds < old(self).max_fds),
            final(self).max_fds == old(self).max_fds,
            final(self).active_fds == old(self).active_fds + if r {
                1int
            } else {
                0int
            },
    {
        if self.active_fds < self.max_fds {
            self.active_fds = self.active_fds + 1;
            true
        } else {
            false
        }
    }

    fn give_back(&mut self)
        ensures
            final(self).max_fds == old(self).max_fds,
            final(self).active_fds == if old(self).active_fds > 0 {
                old(self).active_fds - 1
            } else {
                0
            },
    {
        proof {
            use_type_invariant(&*self);
        }
        self.active_fds = self.active_fds.saturating_sub(1);
    }

    fn active(&self) -> (r: usize)
        ensures
            r == self.active_fds,
            r <= self.max_fds,
    {
        proof {
            use_type_invariant(self);
        }
        self.active_fds
    }
}

/// Keeps account of open files and locks.
#[derive(Debug)]
pub struct ResourceManager {
    fds: FdPool,
    locked_targets: TextMap<TargetHolder>,
    locked_storages: TextMap<ReservationId>,
    locked_mounts: TextMap<ReservationId>,
    reservation_counter: u64,
}

impl View for ResourceManager {
    type V = Taken;

    closed spec fn view(&self) -> Taken {
        Taken {
            max_fds: self.fds.max_fds,
            active_fds: self.fds.active_fds,
            targets: self.locked_targets@,
            storages: self.locked_storages@,
            mounts: self.locked_mounts@,
            next_reservation: self.reservation_counter,
        }
    }
}

impl Default for ResourceManager {
    fn default() -> (r: Self)
        ensures
            r@ == ResourceManager::unused(DEFAULT_MAX_CONCURRENT_FDS),
    {
        ResourceManager::new(DEFAULT_MAX_CONCURRENT_FDS)
    }
}

fn already_locked(what: &str, name: &str) -> (r: CleanerError)
    ensures
        r matches CleanerError::SafetyViolation(m) && m@ == what@ + name@ + " is already locked"@,
{
    let mut m = what.to_owned();
    m.append(name);
    m.append(" is already locked");
    CleanerError::SafetyViolation(m)
}

impl ResourceManager {
    /// Nothing is taken.
    pub open spec fn unused(max_fds: usize) -> Taken {
        Taken {
            max_fds,
            active_fds: 0,
            targets: Map::empty(),
            storages: Map::empty(),
            mounts: Map::empty(),
            next_reservation: 1,
        }
    }

    pub fn new(max_fds: usize) -> (r: Self)
        ensures
            r@ == ResourceManager::unused(max_fds),
    {
        ResourceManager {
            fds: FdPool { max_fds, active_fds: 0 },
            locked_targets: TextMap::new(),
            locked_storages: TextMap::new(),
            locked_mounts: TextMap::new(),
            reservation_counter: 1,
        }
    }

    fn next_reservation(&mut self) -> (r: ReservationId)
        ensures
            r.0 == old(self)@.next_reservation,
            final(self)@ == (Taken {
                next_reservation: next_number(old(self)@.next_reservation),
                ..old(self)@
            }),
    {
        let n: u64 = self.reservation_counter;
        self.reservation_counter = n.wrapping_add(1);
        ReservationId(n)
    }

    /// Asks for leave to hold a file open, with the usual patience.
    pub fn acquire_fd_permit(&mut self, waited_ms: u64, woken_by_timeout: bool) -> (r: FdAnswer)
        ensures
            r is Granted <==> old(self)@.active_fds < old(self)@.max_fds,
            r is Granted ==> final(self)@ == (Taken {
                active_fds: (old(self)@.active_fds + 1) as usize,
                ..old(self)@
            }),
            !(r is Granted) ==> final(self)@ == old(self)@,
            r is Wait <==> old(self)@.active_fds >= old(self)@.max_fds && !woken_by_timeout
                && waited_ms < DEFAULT_FD_TIMEOUT_MS,
            r matches FdAnswer::Wait { remaining_ms } ==> remaining_ms == DEFAULT_FD_TIMEOUT_MS
                - waited_ms,
            r matches FdAnswer::Exhausted(e) ==> (e matches CleanerError::ResourceExhausted(m)
                && m@ == ResourceManager::exhausted(
                old(self)@.max_fds,
                DEFAULT_FD_TIMEOUT_MS,
                woken_by_timeout,
            )),
    {
        self.acquire_fd_permit_timeout(DEFAULT_FD_TIMEOUT_MS, waited_ms, woken_by_timeout)
    }

    /// The message where no file became free in time.
    pub open spec fn exhausted(max_fds: usize, timeout_ms: u64, woken_by_timeout: bool) -> Seq<
        char,
    > {
        let lead = "Resource pool exhausted: maximum concurrent FD limit ("@ + numerals::decimal(
            max_fds as nat,
        ) + ") reached"@;
        if woken_by_timeout {
            lead
        } else {
            lead + " after waiting "@ + duration_shown(timeout_ms)
        }
    }

    /// Asks for leave to hold a file open, `waited_ms` after the first request for
    /// it. `woken_by_timeout` says that the last wait ended because its time was up
    /// and not because a file was given back.
    pub fn acquire_fd_permit_timeout(
        &mut self,
        timeout_ms: u64,
        waited_ms: u64,
        woken_by_timeout: bool,
    ) -> (r: FdAnswer)
        ensures
            r is Granted <==> old(self)@.active_fds < old(self)@.max_fds,
            r is Granted ==> final(self)@ == (Taken {
                active_fds: (old(self)@.active_fds + 1) as usize,
                ..old(self)@
            }),
            !(r is Granted) ==> final(self)@ == old(self)@,
            r is Wait <==> old(self)@.active_fds >= old(self)@.max_fds && !woken_by_timeout
                && waited_ms < timeout_ms,
            r matches FdAnswer::Wait { remaining_ms } ==> remaining_ms == timeout_ms - waited_ms,
            r matches FdAnswer::Exhausted(e) ==> (e matches CleanerError::ResourceExhausted(m)
                && m@ == ResourceManager::exhausted(
                old(self)@.max_fds,
                timeout_ms,
                woken_by_timeout,
            )),
    {
        if self.fds.take() {
            return FdAnswer::Granted(FdPermit { _granted: () });
        }
        if !woken_by_timeout && waited_ms < timeout_ms {
            return FdAnswer::Wait { remaining_ms: timeout_ms - waited_ms };
        }
        let mut m = "Resource pool exhausted: maximum concurrent FD limit (".to_owned();
        m.append(numerals::decimal_text(self.fds.max_fds as u64).as_str());
        m.append(") reached");
        if !woken_by_timeout {
            m.append(" after waiting ");
            m.append(duration_text(timeout_ms).as_str());
        }
        FdAnswer::Exhausted(CleanerError::ResourceExhausted(m))
    }

    /// Gives a file back.
    pub fn release_fd_permit(&mut self, _permit: FdPermit)
        ensures
            final(self)@ == (Taken {
                active_fds: if old(self)@.active_fds > 0 {
                    (old(self)@.active_fds - 1) as usize
                } else {
                    0
                },
                ..old(self)@
            }),
    {
        self.fds.give_back();
    }

    /// Locks a target for no attempt in particular.
    pub fn acquire_target_lock(&mut self, target_id: &TargetId) -> (r: Result<
        TargetLockPermit,
        CleanerError,
    >)
        ensures
            r is Ok <==> !old(self)@.targets.contains_key(target_id@),
            r matches Ok(p) ==> {
                &&& p.target_id == *target_id
                &&& p.attempt_id.0 == 0
                &&& p.reservation_id.0 == old(self)@.next_reservation
                &&& final(self)@ == old(self)@.with_target(target_id@, AttemptId(0))
            },
            r matches Err(e) ==> final(self)@ == old(self)@ && (e
                matches CleanerError::SafetyViolation(m) && m@ == ResourceManager::collision(
                target_id@,
                old(self)@.targets[target_id@].attempt_id,
            )),
    {
        self.acquire_target_lock_for_attempt(target_id, AttemptId(0))
    }

    /// The message where a target is locked already.
    pub open spec fn collision(target: Seq<char>, holder: AttemptId) -> Seq<char> {
        "Concurrent mutation collision: Target "@ + ("target:"@ + target)
            + " is already locked by attempt "@ + numerals::decimal(holder.0 as nat)
    }

    /// Locks a target for an attempt.
    pub fn acquire_target_lock_for_attempt(
        &mut self,
        target_id: &TargetId,
        attempt_id: AttemptId,
    ) -> (r: Result<TargetLockPermit, CleanerError>)
        ensures
            r is Ok <==> !old(self)@.targets.contains_key(target_id@),
            r matches Ok(p) ==> {
                &&& p.target_id == *target_id
                &&& p.attempt_id == attempt_id
                &&& p.reservation_id.0 == old(self)@.next_reservation
                &&& final(self)@ == old(self)@.with_target(target_id@, attempt_id)
            },
            r matches Err(e) ==> final(self)@ == old(self)@ && (e
                matches CleanerError::SafetyViolation(m) && m@ == ResourceManager::collision(
                target_id@,
                old(self)@.targets[target_id@].attempt_id,
            )),
    {
        match self.locked_targets.get(target_id.0.as_str()) {
            Some(holder) => {
                let mut m = "Concurrent mutation collision: Target ".to_owned();
                m.append(target_id.to_text().as_str());
                m.append(" is already locked by attempt ");
                m.append(numerals::decimal_text(holder.attempt_id.0).as_str());
                return Err(CleanerError::SafetyViolation(m));
            },
            None => {},
        }
        let reservation_id = self.next_reservation();
        self.locked_targets.insert(
            target_id.0.clone(),
            TargetHolder { attempt_id, reservation_id },
        );
        Ok(TargetLockPermit { target_id: target_id.copy(), attempt_id, reservation_id })
    }

    /// Gives a lock on a target back. A lock that someone else has taken since is
    /// left alone.
    pub fn release_target_lock(&mut self, permit: TargetLockPermit)
        ensures
            final(self)@ == old(self)@.without_target(permit.target_id@, permit.reservation_id),
    {
        let same = match self.locked_targets.get(permit.target_id.0.as_str()) {
            Some(holder) => holder.reservation_id == permit.reservation_id,
            None => false,
        };
        if same {
            self.locked_targets.remove(permit.target_id.0.as_str());
        }
    }

    /// Locks a storage.
    pub fn acquire_storage_lock(&mut self, storage_id: &StorageId) -> (r: Result<
        StorageLockPermit,
        CleanerError,
    >)
        ensures
            r is Ok <==> !old(self)@.storages.contains_key(storage_id.0@),
            r matches Ok(p) ==> {
                &&& p.storage_id == *storage_id
                &&& p.reservation_id.0 == old(self)@.next_reservation
                &&& final(self)@ == old(self)@.with_storage(storage_id.0@)
            },
            r matches Err(e) ==> final(self)@ == old(self)@ && (e
                matches CleanerError::SafetyViolation(m) && m@ == "Storage "@ + storage_id.0@
                + " is already locked"@),
    {
        if self.locked_storages.contains(storage_id.0.as_str()) {
            return Err(already_locked("Storage ", storage_id.0.as_str()));
        }
        let reservation_id = self.next_reservation();
        self.locked_storages.insert(storage_id.0.clone(), reservation_id);
        Ok(StorageLockPermit { storage_id: StorageId(storage_id.0.clone()), reservation_id })
    }

    /// Gives a lock on a storage back.
    pub fn release_storage_lock(&mut self, permit: StorageLockPermit)
        ensures
            final(self)@ == old(self)@.without_storage(permit.storage_id.0@, permit.reservation_id),
    {
        let same = match self.locked_storages.get(permit.storage_id.0.as_str()) {
            Some(number) => *number == permit.reservation_id,
            None => false,
        };
        if same {
            self.locked_storages.remove(permit.storage_id.0.as_str());
        }
    }

    /// Locks a mount.
    pub fn acquire_mount_lock(&mut self, mount_id: &MountId) -> (r: Result<
        MountLockPermit,
        CleanerError,
    >)
        ensures
            r is Ok <==> !old(self)@.mounts.contains_key(mount_id.0@),
            r matches Ok(p) ==> {
                &&& p.mount_id == *mount_id
                &&& p.reservation_id.0 == old(self)@.next_reservation
                &&& final(self)@ == old(self)@.with_mount(mount_id.0@)
            },
            r matches Err(e) ==> final(self)@ == old(self)@ && (e
                matches CleanerError::SafetyViolation(m) && m@ == "Mount "@ + mount_id.0@
                + " is already locked"@),
    {
        if self.locked_mounts.contains(mount_id.0.as_str()) {
            return Err(already_locked("Mount ", mount_id.0.as_str()));
        }
        let reservation_id = self.next_reservation();
        self.locked_mounts.insert(mount_id.0.clone(), reservation_id);
        Ok(MountLockPermit { mount_id: MountId(mount_id.0.clone()), reservation_id })
    }

    /// Gives a lock on a mount back.
    pub fn release_mount_lock(&mut self, permit: MountLockPermit)
        ensures
            final(self)@ == old(self)@.without_mount(permit.mount_id.0@, permit.reservation_id),
    {
        let same = match self.locked_mounts.get(permit.mount_id.0.as_str()) {
            Some(number) => *number == permit.reservation_id,
            None => false,
        };
        if same {
            self.locked_mounts.remove(permit.mount_id.0.as_str());
        }
    }

    /// The number of files held open, which never exceeds the limit.
    pub fn active_fd_count(&self) -> (r: usize)
        ensures
            r == self@.active_fds,
            r <= self@.max_fds,
    {
        self.fds.active()
    }

    pub fn is_target_locked(&self, target_id: &TargetId) -> (r: bool)
        ensures
            r == self@.targets.contains_key(target_id@),
    {
        self.locked_targets.contains(target_id.0.as_str())
    }

    pub fn is_storage_locked(&self, storage_id: &StorageId) -> (r: bool)
        ensures
            r == self@.storages.contains_key(storage_id.0@),
    {
        self.locked_storages.contains(storage_id.0.as_str())
    }

    pub fn is_mount_locked(&self, mount_id: &MountId) -> (r: bool)
        ensures
            r == self@.mounts.contains_key(mount_id.0@),
    {
        self.locked_mounts.contains(mount_id.0.as_str())
    }
}

/// Giving a lock back undoes taking it: the target is free again, and every other
/// lock is as it was.
pub proof fn law_release_undoes_acquire(taken: Taken, target: Seq<char>, attempt: AttemptId)
    requires
        !taken.targets.contains_key(target),
    ensures
        taken.with_target(target, attempt).without_target(
            target,
            ReservationId(taken.next_reservation),
        ) == (Taken { next_reservation: next_number(taken.next_reservation), ..taken }),
{
    let after = taken.with_target(target, attempt).without_target(
        target,
        ReservationId(taken.next_reservation),
    );
    assert(after.targets =~= taken.targets);
}

/// A permit that is given back late does not take away a lock that was taken in
/// the meantime under another number.
pub proof fn law_late_release_is_harmless(
    taken: Taken,
    target: Seq<char>,
    attempt: AttemptId,
    stale: ReservationId,
)
    requires
        stale.0 != taken.next_reservation,
    ensures
        taken.with_target(target, attempt).without_target(target, stale) == taken.with_target(
            target,
            attempt,
        ),
{
}

/// While one attempt holds the lock on a target, locking any other target leaves
/// that lock in place.
pub proof fn law_lock_stays_until_released(
    taken: Taken,
    held: Seq<char>,
    other: Seq<char>,
    attempt: AttemptId,
    reservation: ReservationId,
)
    requires
        taken.targets.contains_key(held),
        other != held,
    ensures
        taken.with_target(other, attempt).targets.contains_pair(held, taken.targets[held]),
        taken.without_target(other, reservation).targets.contains_pair(held, taken.targets[held]),
{
}

/// A target is locked exactly where it was free: afterwards it is held by the attempt
/// that asked, under a number of its own that nobody was given before, and no other lock
/// has changed. A target that is held stays with its holder.
pub proof fn law_free_targets_are_locked(
    locks: &mut ResourceManager,
    target: &TargetId,
    attempt: AttemptId,
    r: Result<TargetLockPermit, CleanerError>,
)
    requires
        call_ensures(
            ResourceManager::acquire_target_lock_for_attempt,
            (locks, target, attempt),
            r,
        ),
    ensures
        r is Ok <==> !old(locks)@.targets.contains_key(target@),
        r matches Ok(permit) ==> {
            &&& permit.target_id@ == target@
            &&& permit.attempt_id == attempt
            &&& final(locks)@.targets.contains_key(target@)
            &&& final(locks)@.targets[target@].attempt_id == attempt
            &&& final(locks)@.targets[target@].reservation_id == permit.reservation_id
            &&& final(locks)@.targets.remove(target@) == old(locks)@.targets
            &&& old(locks)@.next_reservation < u64::MAX ==> final(locks)@.next_reservation
                == permit.reservation_id.0 + 1
            &&& permit.reservation_id.0 == old(locks)@.next_reservation
        },
        r is Err ==> final(locks)@ == old(locks)@,
        final(locks)@.storages == old(locks)@.storages,
        final(locks)@.mounts == old(locks)@.mounts,
        final(locks)@.active_fds == old(locks)@.active_fds,
        final(locks)@.max_fds == old(locks)@.max_fds,
{
    if r is Ok {
        assert(final(locks)@.targets.remove(target@) =~= old(locks)@.targets);
    }
}

/// A lock that is given back is gone, where it is still the one that was given; a lock
/// that somebody else took since is left alone, and so is every other.
pub proof fn law_own_locks_are_released(locks: &mut ResourceManager, permit: TargetLockPermit)
    requires
        call_ensures(ResourceManager::release_target_lock, (locks, permit), ()),
    ensures
        old(locks)@.targets.contains_key(permit.target_id@) && old(locks)@.targets[permit.target_id@].reservation_id == permit.reservation_id ==> final(locks)@.targets == old(locks)@.targets.remove(permit.target_id@),
        !(old(locks)@.targets.contains_key(permit.target_id@) && old(locks)@.targets[permit.target_id@].reservation_id == permit.reservation_id) ==> final(locks)@.targets == old(locks)@.targets,
        final(locks)@.storages == old(locks)@.storages,
        final(locks)@.mounts == old(locks)@.mounts,
        final(locks)@.next_reservation == old(locks)@.next_reservation,
        final(locks)@.active_fds == old(locks)@.active_fds,
{
}

/// A lock without an attempt is one for the attempt with the number zero.
pub proof fn law_plain_lock_is_for_no_attempt(
    locks: &mut ResourceManager,
    target: &TargetId,
    r: Result<TargetLockPermit, CleanerError>,
)
    requires
        call_ensures(ResourceManager::acquire_target_lock, (locks, target), r),
    ensures
        r is Ok <==> !old(locks)@.targets.contains_key(target@),
        r matches Ok(permit) ==> permit.target_id@ == target@ && permit.attempt_id.0 == 0 && final(locks)@.targets.contains_key(target@) && final(locks)@.targets[target@].reservation_id
            == permit.reservation_id,
        r is Err ==> final(locks)@ == old(locks)@,
{
}

/// Storages and mounts are locked and given back each for itself: a lock is had exactly
/// where there is none, and one that is given back is gone where it is still the one that
/// was given.
pub proof fn law_storages_and_mounts_are_locked_apart(
    locks: &mut ResourceManager,
    storage: &StorageId,
    a: Result<StorageLockPermit, CleanerError>,
    others: &mut ResourceManager,
    mount: &MountId,
    b: Result<MountLockPermit, CleanerError>,
)
    requires
        call_ensures(ResourceManager::acquire_storage_lock, (locks, storage), a),
        call_ensures(ResourceManager::acquire_mount_lock, (others, mount), b),
    ensures
        a is Ok <==> !old(locks)@.storages.contains_key(storage.0@),
        a matches Ok(permit) ==> {
            &&& permit.storage_id.0@ == storage.0@
            &&& final(locks)@.storages.contains_key(storage.0@)
            &&& final(locks)@.storages[storage.0@] == permit.reservation_id
            &&& final(locks)@.storages.remove(storage.0@) == old(locks)@.storages
        },
        a is Err ==> final(locks)@ == old(locks)@,
        final(locks)@.targets == old(locks)@.targets,
        final(locks)@.mounts == old(locks)@.mounts,
        b is Ok <==> !old(others)@.mounts.contains_key(mount.0@),
        b matches Ok(permit) ==> {
            &&& permit.mount_id.0@ == mount.0@
            &&& final(others)@.mounts.contains_key(mount.0@)
            &&& final(others)@.mounts[mount.0@] == permit.reservation_id
            &&& final(others)@.mounts.remove(mount.0@) == old(others)@.mounts
        },
        b is Err ==> final(others)@ == old(others)@,
        final(others)@.targets == old(others)@.targets,
        final(others)@.storages == old(others)@.storages,
{
    if a is Ok {
        assert(final(locks)@.storages.remove(storage.0@) =~= old(locks)@.storages);
    }
    if b is Ok {
        assert(final(others)@.mounts.remove(mount.0@) =~= old(others)@.mounts);
    }
}

/// Giving back a lock on a storage or a mount takes away that lock alone, and only where
/// it is the one that was given.
pub proof fn law_storages_and_mounts_are_released_apart(
    locks: &mut ResourceManager,
    storage: StorageLockPermit,
    others: &mut ResourceManager,
    mount: MountLockPermit,
)
    requires
        call_ensures(ResourceManager::release_storage_lock, (locks, storage), ()),
        call_ensures(ResourceManager::release_mount_lock, (others, mount), ()),
    ensures
        ({
            let name = storage.storage_id.0@;
            let own = old(locks)@.storages.contains_key(name) && old(locks)@.storages[name]
                == storage.reservation_id;
            &&& own ==> final(locks)@.storages == old(locks)@.storages.remove(name)
            &&& !own ==> final(locks)@.storages == old(locks)@.storages
            &&& final(locks)@.targets == old(locks)@.targets
            &&& final(locks)@.mounts == old(locks)@.mounts
        }),
        ({
            let name = mount.mount_id.0@;
            let own = old(others)@.mounts.contains_key(name) && old(others)@.mounts[name]
                == mount.reservation_id;
            &&& own ==> final(others)@.mounts == old(others)@.mounts.remove(name)
            &&& !own ==> final(others)@.mounts == old(others)@.mounts
            &&& final(others)@.targets == old(others)@.targets
            &&& final(others)@.storages == old(others)@.storages
        }),
{
}

/// What is asked of a lock is what is held.
pub proof fn law_locked_means_held(
    locks: &ResourceManager,
    target: &TargetId,
    storage: &StorageId,
    mount: &MountId,
    a: bool,
    b: bool,
    c: bool,
    n: usize,
)
    requires
        call_ensures(ResourceManager::is_target_locked, (locks, target), a),
        call_ensures(ResourceManager::is_storage_locked, (locks, storage), b),
        call_ensures(ResourceManager::is_mount_locked, (locks, mount), c),
        call_ensures(ResourceManager::active_fd_count, (locks,), n),
    ensures
        a <==> locks@.targets.contains_key(target@),
        b <==> locks@.storages.contains_key(storage.0@),
        c <==> locks@.mounts.contains_key(mount.0@),
        n == locks@.active_fds,
        n <= locks@.max_fds,
{
}

/// Leave to hold a file open is given exactly where one is free, and takes it; else one
/// waits for the rest of the time, and no longer, and nothing is taken. With the usual
/// patience that time is half a second.
pub proof fn law_open_files_are_bounded(
    pool: &mut ResourceManager,
    timeout_ms: u64,
    waited_ms: u64,
    woken_by_timeout: bool,
    r: FdAnswer,
)
    requires
        call_ensures(
            ResourceManager::acquire_fd_permit_timeout,
            (pool, timeout_ms, waited_ms, woken_by_timeout),
            r,
        ),
        old(pool)@.active_fds <= old(pool)@.max_fds,
    ensures
        r is Granted <==> old(pool)@.active_fds < old(pool)@.max_fds,
        r is Granted ==> final(pool)@.active_fds == old(pool)@.active_fds + 1,
        !(r is Granted) ==> final(pool)@ == old(pool)@,
        final(pool)@.active_fds <= final(pool)@.max_fds,
        final(pool)@.max_fds == old(pool)@.max_fds,
        final(pool)@.targets == old(pool)@.targets,
        r is Wait <==> old(pool)@.active_fds == old(pool)@.max_fds && !woken_by_timeout && waited_ms
            < timeout_ms,
        r matches FdAnswer::Wait { remaining_ms } ==> waited_ms + remaining_ms == timeout_ms,
        r is Exhausted <==> old(pool)@.active_fds == old(pool)@.max_fds && (woken_by_timeout
            || waited_ms >= timeout_ms),
{
}

/// The usual patience is half a second.
pub proof fn law_usual_patience_is_half_a_second(
    pool: &mut ResourceManager,
    waited_ms: u64,
    woken_by_timeout: bool,
    r: FdAnswer,
)
    requires
        call_ensures(
            ResourceManager::acquire_fd_permit,
            (pool, waited_ms, woken_by_timeout),
            r,
        ),
    ensures
        r is Granted <==> old(pool)@.active_fds < old(pool)@.max_fds,
        r is Wait ==> waited_ms < 500,
        r matches FdAnswer::Wait { remaining_ms } ==> waited_ms + remaining_ms == 500,
{
}

/// A file that is given back is free again; a pool that nothing was taken from stays as
/// it is.
pub proof fn law_returned_file_is_free(pool: &mut ResourceManager, permit: FdPermit)
    requires
        call_ensures(ResourceManager::release_fd_permit, (pool, permit), ()),
    ensures
        old(pool)@.active_fds > 0 ==> final(pool)@.active_fds == old(pool)@.active_fds - 1,
        old(pool)@.active_fds == 0 ==> final(pool)@.active_fds == 0,
        final(pool)@.max_fds == old(pool)@.max_fds,
        final(pool)@.targets == old(pool)@.targets,
        final(pool)@.storages == old(pool)@.storages,
        final(pool)@.mounts == old(pool)@.mounts,
{
}

/// At the beginning nothing is taken, and as many files may be held open as asked for.
pub proof fn law_nothing_is_taken_at_first(max_fds: usize, r: ResourceManager)
    requires
        call_ensures(ResourceManager::new, (max_fds,), r),
    ensures
        r@.max_fds == max_fds,
        r@.active_fds == 0,
        r@.targets == Map::<Seq<char>, TargetHolder>::empty(),
        r@.storages == Map::<Seq<char>, ReservationId>::empty(),
        r@.mounts == Map::<Seq<char>, ReservationId>::empty(),
        r@.next_reservation == 1,
{
}

/// A lock that is taken is refused by name.
pub proof fn law_taken_locks_are_refused_by_name(
    locks: &mut ResourceManager,
    storage: &StorageId,
    a: Result<StorageLockPermit, CleanerError>,
    others: &mut ResourceManager,
    mount: &MountId,
    b: Result<MountLockPermit, CleanerError>,
)
    requires
        call_ensures(ResourceManager::acquire_storage_lock, (locks, storage), a),
        call_ensures(ResourceManager::acquire_mount_lock, (others, mount), b),
    ensures
        a matches Err(e) ==> (e matches CleanerError::SafetyViolation(m) && m@ == "Storage "@
            + storage.0@ + " is already locked"@),
        b matches Err(e) ==> (e matches CleanerError::SafetyViolation(m) && m@ == "Mount "@
            + mount.0@ + " is already locked"@),
        a matches Ok(p) ==> p.reservation_id.0 == old(locks)@.next_reservation,
        b matches Ok(p) ==> p.reservation_id.0 == old(others)@.next_reservation,
{
}

/// How long was waited is shown in seconds with the decimals that matter, in milliseconds
/// below a second, and as nothing at all where nothing was waited.
pub proof fn law_exhaustion_is_told(
    locks: &mut ResourceManager,
    timeout: u64,
    waited: u64,
    woken: bool,
    r: FdAnswer,
)
    requires
        call_ensures(
            ResourceManager::acquire_fd_permit_timeout,
            (locks, timeout, waited, woken),
            r,
        ),
    ensures
        r matches FdAnswer::Exhausted(e) ==> (e matches CleanerError::ResourceExhausted(m) && {
            let lead = "Resource pool exhausted: maximum concurrent FD limit ("@
                + numerals::decimal(old(locks)@.max_fds as nat) + ") reached"@;
            &&& woken ==> m@ == lead
            &&& !woken && timeout == 0 ==> m@ == lead + " after waiting "@ + "0ns"@
            &&& !woken && 0 < timeout < 1000 ==> m@ == lead + " after waiting "@ + (
            numerals::decimal(timeout as nat) + "ms"@)
            &&& !woken && timeout > 0 && timeout % 1000 == 0 ==> m@ == lead + " after waiting "@ + (
            numerals::decimal((timeout / 1000) as nat) + "s"@)
            &&& !woken && timeout > 1000 && timeout % 10 != 0 ==> m@ == lead + " after waiting "@ + (
            numerals::decimal((timeout / 1000) as nat) + ("."@ + numerals::decimal(
                (timeout % 1000 / 100) as nat,
            ) + numerals::decimal((timeout % 100 / 10) as nat) + numerals::decimal(
                (timeout % 10) as nat,
            )) + "s"@)
        }),
{
    assert(timeout % 1000 / 10 % 10 == timeout % 100 / 10);
    assert(timeout % 1000 % 10 == timeout % 10);
    assert(timeout % 10 != 0 ==> timeout % 1000 != 0 && timeout % 1000 % 100 != 0);
    assert(numerals::decimal((timeout / 1000) as nat) + Seq::<char>::empty() + "s"@
        =~= numerals::decimal((timeout / 1000) as nat) + "s"@);
}

/// A target that is locked is refused by its name and by the attempt that holds it.
pub proof fn law_collisions_are_told(
    locks: &mut ResourceManager,
    target: &TargetId,
    attempt: AttemptId,
    r: Result<TargetLockPermit, CleanerError>,
)
    requires
        call_ensures(
            ResourceManager::acquire_target_lock_for_attempt,
            (locks, target, attempt),
            r,
        ),
    ensures
        r matches Err(e) ==> (e matches CleanerError::SafetyViolation(m) && m@
            == "Concurrent mutation collision: Target "@ + ("target:"@ + target@)
            + " is already locked by attempt "@ + numerals::decimal(
            old(locks)@.targets[target@].attempt_id.0 as nat,
        )),
{
}

/// Locks are numbered one after the other, and begin again at zero after the last number.
pub proof fn law_locks_are_numbered_in_turn(
    locks: &mut ResourceManager,
    target: &TargetId,
    attempt: AttemptId,
    r: Result<TargetLockPermit, CleanerError>,
    fresh: ResourceManager,
    max_fds: usize,
)
    requires
        call_ensures(
            ResourceManager::acquire_target_lock_for_attempt,
            (locks, target, attempt),
            r,
        ),
        call_ensures(ResourceManager::new, (max_fds,), fresh),
    ensures
        r matches Ok(p) ==> {
            &&& p.reservation_id.0 == old(locks)@.next_reservation
            &&& old(locks)@.next_reservation < u64::MAX ==> final(locks)@.next_reservation == old(locks)@.next_reservation + 1
            &&& old(locks)@.next_reservation == u64::MAX ==> final(locks)@.next_reservation == 0
        },
        fresh@.next_reservation == 1,
        fresh@.max_fds == max_fds && fresh@.active_fds == 0,
{
}

} // verus!
