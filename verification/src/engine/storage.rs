//! When the free space of the storage is handed back to the device, and where.
use vstd::prelude::*;

use crate::domain::types::UnixTimestamp;
use crate::text;

verus! {

/// The time in seconds after which the storage is trimmed again.
pub const TRIM_COOLDOWN_SECS: u64 = 86_400;

/// The number of freed bytes from which on the storage is trimmed at once.
pub const TRIM_DELTA_BYTES: u64 = 500_000_000;

/// Where the state is kept.
pub const FSTRIM_STATE_PATH: &'static str = "/data/adb/cleaner/fstrim_state.json";

/// Where the state is kept on a machine without that directory.
pub const FSTRIM_STATE_FALLBACK: &'static str = "fstrim_state.json";

/// When the storage was trimmed last, zero where never, and how much was freed since.
#[derive(Debug, Clone, Copy, PartialEq, Eq, Structural)]
pub struct FstrimPersistedState {
    pub last_trim_unix_secs: u64,
    pub bytes_deleted_since_trim: u64,
}

impl Default for FstrimPersistedState {
    fn default() -> (r: Self)
        ensures
            r.last_trim_unix_secs == 0,
            r.bytes_deleted_since_trim == 0,
    {
        FstrimPersistedState { last_trim_unix_secs: 0, bytes_deleted_since_trim: 0 }
    }
}

/// The state after this many more bytes were freed. The count wraps around.
pub open spec fn after_freed(state: FstrimPersistedState, freed_bytes: u64) -> FstrimPersistedState {
    let sum = state.bytes_deleted_since_trim + freed_bytes;
    FstrimPersistedState {
        bytes_deleted_since_trim: if sum > u64::MAX {
            (sum - 0x1_0000_0000_0000_0000) as u64
        } else {
            sum as u64
        },
        ..state
    }
}

/// The state after a trim.
pub open spec fn after_trim(now_secs: u64) -> FstrimPersistedState {
    FstrimPersistedState { last_trim_unix_secs: now_secs, bytes_deleted_since_trim: 0 }
}

/// The storage is due: somebody asks for it, it was never trimmed, the last time is
/// long enough ago, or enough was freed since.
pub open spec fn trim_is_due(state: FstrimPersistedState, manual_request: bool, now_secs: u64) -> bool {
    ||| manual_request
    ||| state.last_trim_unix_secs == 0
    ||| now_secs >= state.last_trim_unix_secs + TRIM_COOLDOWN_SECS
    ||| state.bytes_deleted_since_trim >= TRIM_DELTA_BYTES
}

/// The file that keeps the state. `parent_exists` says whether the usual directory
/// is there.
pub fn get_fstrim_state_path(parent_exists: bool) -> (r: &'static str)
    ensures
        r@ == if parent_exists {
            FSTRIM_STATE_PATH@
        } else {
            FSTRIM_STATE_FALLBACK@
        },
{
    if parent_exists {
        FSTRIM_STATE_PATH
    } else {
        FSTRIM_STATE_FALLBACK
    }
}

/// Takes note of freed bytes.
pub fn record_freed_bytes_for_trim(state: &mut FstrimPersistedState, freed_bytes: u64)
    ensures
        *final(state) == after_freed(*old(state), freed_bytes),
{
    state.bytes_deleted_since_trim = state.bytes_deleted_since_trim.wrapping_add(freed_bytes);
}

/// `true` where the storage is due for a trim now. Nothing is stated of the current
/// time.
pub fn should_run_fstrim(state: &FstrimPersistedState, manual_request: bool) -> (r: bool)
    ensures
        manual_request || state.last_trim_unix_secs == 0 || state.bytes_deleted_since_trim
            >= TRIM_DELTA_BYTES ==> r,
        exists|now: u64| r == #[trigger] trim_is_due(*state, manual_request, now),
{
    let now: u64 = UnixTimestamp::now().as_secs();
    should_run_fstrim_at(state, manual_request, now)
}

/// `true` where the storage is due for a trim at this time.
pub fn should_run_fstrim_at(
    state: &FstrimPersistedState,
    manual_request: bool,
    now_secs: u64,
) -> (r: bool)
    ensures
        r == trim_is_due(*state, manual_request, now_secs),
{
    if manual_request {
        return true;
    }
    let last: u64 = state.last_trim_unix_secs;
    let time_eligible = last == 0 || (now_secs >= last && now_secs - last >= TRIM_COOLDOWN_SECS);
    let delta_eligible = state.bytes_deleted_since_trim >= TRIM_DELTA_BYTES;
    time_eligible || delta_eligible
}

/// Takes note of a trim that is done now.
pub fn mark_fstrim_completed(state: &mut FstrimPersistedState)
    ensures
        *final(state) == after_trim(final(state).last_trim_unix_secs),
{
    let now: u64 = UnixTimestamp::now().as_secs();
    mark_fstrim_completed_at(state, now);
}

/// Takes note of a trim that was done at this time.
pub fn mark_fstrim_completed_at(state: &mut FstrimPersistedState, now_secs: u64)
    ensures
        *final(state) == after_trim(now_secs),
{
    state.last_trim_unix_secs = now_secs;
    state.bytes_deleted_since_trim = 0;
}

/// The file systems that can be trimmed.
pub open spec fn is_trimmable_fs(fs_type: Seq<char>) -> bool {
    fs_type == "f2fs"@ || fs_type == "ext4"@
}

/// The device is a block device.
pub open spec fn is_block_device(dev: Seq<char>) -> bool {
    text::has_prefix(dev, "/dev/block/"@) || text::has_prefix(dev, "/dev/root"@)
}

/// The mount point is a view of storage that is mounted elsewhere.
pub open spec fn is_virtual_mount(mount_point: Seq<char>) -> bool {
    ||| text::has_prefix(mount_point, "/apex"@)
    ||| text::has_prefix(mount_point, "/mnt/runtime"@)
    ||| text::has_prefix(mount_point, "/mnt/pass_through"@)
}

/// A line of the mount table, in words: device, mount point, file system, options.
/// It can be trimmed where it is writable, of a fitting kind and on a block device.
pub open spec fn is_trimmable(words: Seq<Seq<char>>) -> bool {
    &&& words.len() >= 4
    &&& text::split_on(words[3], ',').contains("rw"@)
    &&& is_trimmable_fs(words[2])
    &&& is_block_device(words[0])
    &&& !is_virtual_mount(words[1])
}

/// The mount points that can be trimmed, in the order of the lines.
pub open spec fn trimmable_mounts(lines: Seq<Seq<char>>) -> Seq<Seq<char>>
    decreases lines.len(),
{
    if lines.len() == 0 {
        Seq::empty()
    } else {
        let before = trimmable_mounts(lines.drop_last());
        let words = text::words_of(lines.last());
        if is_trimmable(words) {
            before.push(words[1])
        } else {
            before
        }
    }
}

fn line_is_trimmable(words: &Vec<String>) -> (r: bool)
    ensures
        r == is_trimmable(text::texts(words@)),
{
    if words.len() < 4 {
        return false;
    }
    let dev = words[0].as_str();
    let mount_point = words[1].as_str();
    let fs_type = words[2].as_str();
    let options = text::split_text(words[3].as_str(), ',');
    text::contains_string(&options, "rw") && (text::same_text(fs_type, "f2fs") || text::same_text(
        fs_type,
        "ext4",
    )) && (text::starts_with_text(dev, "/dev/block/") || text::starts_with_text(dev, "/dev/root"))
        && !text::starts_with_text(mount_point, "/apex") && !text::starts_with_text(
        mount_point,
        "/mnt/runtime",
    ) && !text::starts_with_text(mount_point, "/mnt/pass_through")
}

/// Trims mounted file systems.
pub struct StorageOptimizer;

impl StorageOptimizer {
    /// The mount points that a trim goes through: those configured, or else all
    /// that the mount table shows to be fit.
    pub fn trim_mounts(configured_mounts: &Vec<String>, mount_table: &str) -> (r: Vec<String>)
        ensures
            text::texts(r@) == if configured_mounts@.len() > 0 {
                text::texts(configured_mounts@)
            } else {
                trimmable_mounts(text::lines_of(mount_table@))
            },
    {
        if !configured_mounts.is_empty() {
            text::clone_strings(configured_mounts)
        } else {
            StorageOptimizer::discover_trimmable_mounts(mount_table)
        }
    }

    /// The mount points of a mount table that can be trimmed.
    pub fn discover_trimmable_mounts(mount_table: &str) -> (r: Vec<String>)
        ensures
            text::texts(r@) == trimmable_mounts(text::lines_of(mount_table@)),
    {
        let lines = text::lines_text(mount_table);
        let ghost all = text::lines_of(mount_table@);
        let mut mounts: Vec<String> = Vec::new();
        let mut i: usize = 0;
        while i < lines.len()
            invariant
                i <= lines.len(),
                text::texts(lines@) == all,
                text::texts(mounts@) == trimmable_mounts(all.take(i as int)),
            decreases lines.len() - i,
        {
            let words = text::words_text(lines[i].as_str());
            let ghost before = mounts@;
            assert(all.take(i + 1).drop_last() =~= all.take(i as int));
            assert(all.take(i + 1).last() == text::texts(lines@)[i as int]);
            if line_is_trimmable(&words) {
                mounts.push(words[1].clone());
                assert(text::texts(mounts@) =~= text::texts(before).push(text::texts(words@)[1]));
            }
            i = i + 1;
        }
        assert(all.take(i as int) =~= all);
        mounts
    }

    /// `true` where at least one of the mount points was trimmed.
    pub fn any_trimmed(results: &Vec<bool>) -> (r: bool)
        ensures
            r == results@.contains(true),
    {
        let mut i: usize = 0;
        while i < results.len()
            invariant
                i <= results.len(),
                forall|k: int| 0 <= k < i ==> !results@[k],
            decreases results.len() - i,
        {
            if results[i] {
                assert(results@[i as int] == true);
                return true;
            }
            i = i + 1;
        }
        false
    }
}

/// Right after a trim, the next one is due only on request, after the cooldown or
/// once enough has been freed.
pub proof fn law_trim_cools_down(now: u64, later: u64, freed: u64)
    requires
        now > 0,
        later < now + TRIM_COOLDOWN_SECS,
        freed < TRIM_DELTA_BYTES,
    ensures
        !trim_is_due(after_freed(after_trim(now), freed), false, later),
{
}

/// Only mount points of writable block devices that no other mount stands behind are
/// discovered.
pub proof fn law_discovered_mounts_are_real(lines: Seq<Seq<char>>, mount_point: Seq<char>)
    requires
        trimmable_mounts(lines).contains(mount_point),
    ensures
        exists|i: int|
            0 <= i < lines.len() && is_trimmable(text::words_of(#[trigger] lines[i]))
                && text::words_of(lines[i])[1] == mount_point,
        !is_virtual_mount(mount_point),
    decreases lines.len(),
{
    let words = text::words_of(lines.last());
    if is_trimmable(words) && words[1] == mount_point {
        assert(lines[lines.len() - 1] == lines.last());
    } else {
        let before = trimmable_mounts(lines.drop_last());
        let k = choose|k: int| 0 <= k < trimmable_mounts(lines).len() && trimmable_mounts(lines)[k]
            == mount_point;
        assert(before[k] == mount_point);
        law_discovered_mounts_are_real(lines.drop_last(), mount_point);
        let i = choose|i: int|
            0 <= i < lines.drop_last().len() && is_trimmable(
                text::words_of(#[trigger] lines.drop_last()[i]),
            ) && text::words_of(lines.drop_last()[i])[1] == mount_point;
        assert(lines[i] == lines.drop_last()[i]);
    }
}

/// Freed bytes add to those that were freed since the last trim, and a trim sets them
/// back to none at its time. The count wraps around where it can hold no more.
pub proof fn law_freed_bytes_add_up(
    state: &mut FstrimPersistedState,
    freed: u64,
    done: &mut FstrimPersistedState,
    now: u64,
)
    requires
        call_ensures(record_freed_bytes_for_trim, (state, freed), ()),
        call_ensures(mark_fstrim_completed_at, (done, now), ()),
    ensures
        old(state).bytes_deleted_since_trim + freed <= u64::MAX ==> final(state).bytes_deleted_since_trim == old(state).bytes_deleted_since_trim + freed,
        old(state).bytes_deleted_since_trim + freed > u64::MAX ==> final(state).bytes_deleted_since_trim == old(state).bytes_deleted_since_trim + freed
            - 0x1_0000_0000_0000_0000,
        final(state).last_trim_unix_secs == old(state).last_trim_unix_secs,
        final(done).last_trim_unix_secs == now,
        final(done).bytes_deleted_since_trim == 0,
{
}

/// A trim is due exactly where somebody asks for it, there was none yet, the last one is
/// a day ago or more, or half a gigabyte or more was freed since.
pub proof fn law_trim_is_due_after_a_day_or_enough(
    state: &FstrimPersistedState,
    manual: bool,
    now: u64,
    r: bool,
)
    requires
        call_ensures(should_run_fstrim_at, (state, manual, now), r),
    ensures
        r <==> manual || state.last_trim_unix_secs == 0 || now >= state.last_trim_unix_secs
            + 86_400 || state.bytes_deleted_since_trim >= 500_000_000,
{
}

/// By the clock a trim is due whenever it is due at every time, and never where it is
/// due at none; one that is done leaves no freed bytes.
pub proof fn law_trim_by_the_clock(
    state: &FstrimPersistedState,
    manual: bool,
    r: bool,
    done: &mut FstrimPersistedState,
)
    requires
        call_ensures(should_run_fstrim, (state, manual), r),
        call_ensures(mark_fstrim_completed, (done,), ()),
    ensures
        manual || state.last_trim_unix_secs == 0 || state.bytes_deleted_since_trim >= 500_000_000
            ==> r,
        !manual && state.last_trim_unix_secs > u64::MAX - 86_400 && state.bytes_deleted_since_trim
            < 500_000_000 ==> !r,
        final(done).bytes_deleted_since_trim == 0,
{
}

/// A line of the mount table that can be trimmed: it is writable, its file system is one
/// of two, its device is a block device, and its mount point is no view of another.
pub open spec fn shows_trimmable(line: Seq<char>) -> bool {
    let words = text::words_of(line);
    &&& words.len() >= 4
    &&& text::split_on(words[3], ',').contains("rw"@)
    &&& words[2] == "f2fs"@ || words[2] == "ext4"@
    &&& text::has_prefix(words[0], "/dev/block/"@) || text::has_prefix(words[0], "/dev/root"@)
    &&& !text::has_prefix(words[1], "/apex"@)
    &&& !text::has_prefix(words[1], "/mnt/runtime"@)
    &&& !text::has_prefix(words[1], "/mnt/pass_through"@)
}

proof fn lemma_trimmable(lines: Seq<Seq<char>>, mount: Seq<char>)
    ensures
        trimmable_mounts(lines).contains(mount) <==> exists|i: int|
            0 <= i < lines.len() && #[trigger] shows_trimmable(lines[i]) && text::words_of(
                lines[i],
            )[1] == mount,
    decreases lines.len(),
{
    if lines.len() > 0 {
        let front = lines.drop_last();
        lemma_trimmable(front, mount);
        let before = trimmable_mounts(front);
        let all = trimmable_mounts(lines);
        let words = text::words_of(lines.last());
        assert(shows_trimmable(lines.last()) == is_trimmable(words));
        if all.contains(mount) {
            let k = choose|k: int| 0 <= k < all.len() && all[k] == mount;
            if k < before.len() {
                assert(before[k] == mount);
                let i = choose|i: int|
                    0 <= i < front.len() && #[trigger] shows_trimmable(front[i]) && text::words_of(
                        front[i],
                    )[1] == mount;
                assert(shows_trimmable(lines[i]));
            } else {
                assert(shows_trimmable(lines[lines.len() - 1]));
            }
        }
        if exists|i: int|
            0 <= i < lines.len() && #[trigger] shows_trimmable(lines[i]) && text::words_of(
                lines[i],
            )[1] == mount {
            let i = choose|i: int|
                0 <= i < lines.len() && #[trigger] shows_trimmable(lines[i]) && text::words_of(
                    lines[i],
                )[1] == mount;
            if i < front.len() {
                assert(shows_trimmable(front[i]));
                let k = choose|k: int| 0 <= k < before.len() && before[k] == mount;
                assert(all[k] == mount);
            } else {
                assert(all[all.len() - 1] == mount);
            }
        }
    }
}

/// The mount points that are found are those of the lines that can be trimmed, all of
/// them and no other; those configured are taken as they are wherever there are any.
pub proof fn law_trimmed_mounts_are_configured_or_fit(
    configured: &Vec<String>,
    table: &str,
    mount: Seq<char>,
    found: Vec<String>,
    taken: Vec<String>,
)
    requires
        call_ensures(StorageOptimizer::discover_trimmable_mounts, (table,), found),
        call_ensures(StorageOptimizer::trim_mounts, (configured, table), taken),
    ensures
        text::texts(found@).contains(mount) <==> exists|i: int|
            0 <= i < text::lines_of(table@).len() && #[trigger] shows_trimmable(
                text::lines_of(table@)[i],
            ) && text::words_of(text::lines_of(table@)[i])[1] == mount,
        configured@.len() > 0 ==> text::texts(taken@) == text::texts(configured@),
        configured@.len() == 0 ==> text::texts(taken@) == text::texts(found@),
{
    lemma_trimmable(text::lines_of(table@), mount);
}

/// A trim worked where it did for at least one mount point.
pub proof fn law_one_trimmed_mount_is_enough(results: &Vec<bool>, r: bool)
    requires
        call_ensures(StorageOptimizer::any_trimmed, (results,), r),
    ensures
        r <==> exists|i: int| 0 <= i < results@.len() && #[trigger] results@[i],
{
    if results@.contains(true) {
        let i = choose|i: int| 0 <= i < results@.len() && results@[i] == true;
        assert(results@[i]);
    }
    if exists|i: int| 0 <= i < results@.len() && #[trigger] results@[i] {
        let i = choose|i: int| 0 <= i < results@.len() && #[trigger] results@[i];
        assert(results@[i] == true);
    }
}

/// The state of trimming is kept in the daemon's home, or where the program runs where
/// there is no such home.
pub proof fn law_trim_state_is_kept_at_home(exists: bool, r: &'static str)
    requires
        call_ensures(get_fstrim_state_path, (exists,), r),
    ensures
        exists ==> r@ == "/data/adb/cleaner/fstrim_state.json"@,
        !exists ==> r@ == "fstrim_state.json"@,
{
}

} // verus!
