//! How much memory is reclaimed, and where.
use vstd::prelude::*;

use crate::numerals;
use crate::text;

verus! {

/// The most that one cycle reclaims, in MiB.
pub const MAX_RECLAIM_MB: u64 = 2048;

/// The bytes of one MiB.
pub const BYTES_PER_MB: u64 = 1_048_576;

/// Where the page allocator is asked to compact.
pub const COMPACT_MEMORY_PATH: &'static str = "/proc/sys/vm/compact_memory";

/// Where the page cache is asked to be dropped.
pub const DROP_CACHES_PATH: &'static str = "/proc/sys/vm/drop_caches";

/// Where the whole control group hierarchy is asked to give memory back.
pub const ROOT_RECLAIM_PATH: &'static str = "/sys/fs/cgroup/memory.reclaim";

/// Makes room in memory.
pub struct MemoryOptimizer;

/// The bytes to be reclaimed where this many MiB are asked for.
pub open spec fn reclaim_bytes(target_mb: u64) -> int {
    if target_mb < MAX_RECLAIM_MB {
        target_mb * BYTES_PER_MB
    } else {
        MAX_RECLAIM_MB * BYTES_PER_MB
    }
}

/// A number on a line of its own.
pub open spec fn number_line(n: int) -> Seq<char> {
    numerals::decimal(n as nat).push('\n')
}

/// What is written where memory is to be reclaimed.
#[derive(Debug)]
pub struct ReclaimPlan {
    /// To the root, which covers everything.
    pub root_payload: String,
    /// To each path, where the root does not take it.
    pub share_payload: String,
}

fn number_line_text(n: u64) -> (r: String)
    ensures
        r@ == number_line(n as int),
{
    let mut line = numerals::decimal_text(n);
    line.append("\n");
    proof {
        reveal_strlit("\n");
        assert("\n"@ =~= seq!['\n']);
        assert(line@ =~= number_line(n as int));
    }
    line
}

impl MemoryOptimizer {
    /// What is written to reclaim `target_mb` MiB over this many paths: the whole to
    /// the root, or equal shares to the paths. Without any path there is nothing to
    /// write to.
    pub fn reclaim_cgroup_memory(target_mb: u64, paths: usize) -> (r: Option<ReclaimPlan>)
        ensures
            r is Some <==> paths > 0,
            r matches Some(plan) ==> plan.root_payload@ == number_line(reclaim_bytes(target_mb))
                && plan.share_payload@ == number_line(reclaim_bytes(target_mb) / paths as int),
    {
        if paths == 0 {
            return None;
        }
        let capped: u64 = if target_mb < MAX_RECLAIM_MB {
            target_mb
        } else {
            MAX_RECLAIM_MB
        };
        let bytes: u64 = capped * BYTES_PER_MB;
        let share: u64 = bytes / (paths as u64);
        Some(
            ReclaimPlan {
                root_payload: number_line_text(bytes),
                share_payload: number_line_text(share),
            },
        )
    }

    /// `true` where a block device of this name is compressed swap.
    pub fn is_zram(name: &str) -> (r: bool)
        ensures
            r == text::has_prefix(name@, "zram"@),
    {
        text::starts_with_text(name, "zram")
    }

    /// Where the first compressed swap devices are asked to compact, where listing
    /// the devices led to nothing.
    pub fn zram_fallbacks() -> (r: [&'static str; 2])
        ensures
            text::literals(r@) == seq!["/sys/block/zram0/compact"@, "/sys/block/zram1/compact"@],
    {
        let r = ["/sys/block/zram0/compact", "/sys/block/zram1/compact"];
        assert(text::literals(r@) =~= seq![
            "/sys/block/zram0/compact"@,
            "/sys/block/zram1/compact"@,
        ]);
        r
    }
}

/// All shares together never ask for more than the target, nor for more than one
/// cycle may reclaim.
pub proof fn law_shares_stay_within_the_target(target_mb: u64, paths: nat)
    requires
        paths > 0,
    ensures
        (reclaim_bytes(target_mb) / paths as int) * paths <= reclaim_bytes(target_mb),
        reclaim_bytes(target_mb) <= MAX_RECLAIM_MB * BYTES_PER_MB,
{
    vstd::arithmetic::div_mod::lemma_fundamental_div_mod(reclaim_bytes(target_mb), paths as int);
    vstd::arithmetic::div_mod::lemma_mod_bound(reclaim_bytes(target_mb), paths as int);
    let q = reclaim_bytes(target_mb) / paths as int;
    assert(paths as int * q == q * paths) by (nonlinear_arith);
}

/// What is written to reclaim memory: to the root the whole target in bytes, but no more
/// than two gigabytes, and to each path an equal share of that, as large as all shares
/// together allow. There is something to write exactly where there is a path.
pub proof fn law_reclaim_is_shared_out(target_mb: u64, paths: usize, r: Option<ReclaimPlan>)
    requires
        call_ensures(MemoryOptimizer::reclaim_cgroup_memory, (target_mb, paths), r),
    ensures
        r is Some <==> paths > 0,
        r matches Some(plan) ==> exists|whole: nat, share: nat|
            #![trigger numerals::decimal(whole), numerals::decimal(share)]
            {
                &&& plan.root_payload@ == numerals::decimal(whole).push('\n')
                &&& plan.share_payload@ == numerals::decimal(share).push('\n')
                &&& target_mb <= 2048 ==> whole == target_mb * 1_048_576
                &&& target_mb > 2048 ==> whole == 2_147_483_648
                &&& share * paths <= whole < (share + 1) * paths
            },
{
    if r is Some {
        let whole = reclaim_bytes(target_mb) as nat;
        let share = (reclaim_bytes(target_mb) / paths as int) as nat;
        let p = paths as int;
        assert(share * p <= whole < (share + 1) * p) by (nonlinear_arith)
            requires
                p > 0,
                share == whole as int / p,
                whole >= 0,
        ;
        assert(r->0.root_payload@ == numerals::decimal(whole).push('\n'));
        assert(r->0.share_payload@ == numerals::decimal(share).push('\n'));
    }
}

/// A block device is compressed swap exactly where its name begins so.
pub proof fn law_compressed_swap_is_known_by_name(name: &str, r: bool)
    requires
        call_ensures(MemoryOptimizer::is_zram, (name,), r),
    ensures
        r <==> exists|rest: Seq<char>| name@ == #[trigger] ("zram"@ + rest),
{
    if r {
        assert(name@ =~= "zram"@ + name@.skip("zram"@.len() as int));
    }
    if exists|rest: Seq<char>| name@ == #[trigger] ("zram"@ + rest) {
        let rest = choose|rest: Seq<char>| name@ == #[trigger] ("zram"@ + rest);
        assert(name@.subrange(0, "zram"@.len() as int) =~= "zram"@);
    }
}

/// Where no device of compressed memory is found, the first two are tried.
pub proof fn law_first_two_devices_are_tried(r: [&'static str; 2])
    requires
        call_ensures(MemoryOptimizer::zram_fallbacks, (), r),
    ensures
        r@[0]@ == "/sys/block/zram0/compact"@,
        r@[1]@ == "/sys/block/zram1/compact"@,
{
    assert(text::literals(r@)[0] == r@[0]@);
    assert(text::literals(r@)[1] == r@[1]@);
}

} // verus!
