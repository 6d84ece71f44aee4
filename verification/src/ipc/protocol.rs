//! Commands, reports and the frames that carry them.
use vstd::prelude::*;

use crate::engine::cancellation::CancelReason;
use crate::engine::rules::JunkCategory;
use crate::engine::walker::WalkStats;
use crate::error::CleanerError;
use crate::numerals;

verus! {

/// What a client wants of a cleaning.
#[derive(Debug, Clone, Copy, PartialEq, Eq, Structural)]
pub struct CleanParams {
    pub deep: bool,
    pub trim: bool,
    pub zram_compact: bool,
    pub dry_run: bool,
}

/// What a client asks the daemon for.
#[derive(Debug, Clone, Copy, PartialEq, Eq, Structural)]
pub enum Command {
    Ping,
    TriggerClean(CleanParams),
    GetStatus,
    GetStats,
    GetIdleAssessment,
    Cancel,
    ReloadConfig,
    StopDaemon,
}

/// What was done to the storage.
#[derive(Debug, Clone, Copy, PartialEq, Eq, Structural)]
pub struct StorageReport {
    pub total_freed_bytes: u64,
    pub deleted_files_count: usize,
    pub skipped_files_count: usize,
    pub errors_count: usize,
    pub app_cache_bytes: u64,
    pub oem_logs_bytes: u64,
    pub crash_dumps_bytes: u64,
    pub temp_apks_bytes: u64,
    pub frozen_apps_cleaned: usize,
    pub active_apps_cleaned: usize,
}

impl Default for StorageReport {
    fn default() -> (r: Self)
        ensures
            r == StorageReport::nothing(),
    {
        StorageReport {
            total_freed_bytes: 0,
            deleted_files_count: 0,
            skipped_files_count: 0,
            errors_count: 0,
            app_cache_bytes: 0,
            oem_logs_bytes: 0,
            crash_dumps_bytes: 0,
            temp_apks_bytes: 0,
            frozen_apps_cleaned: 0,
            active_apps_cleaned: 0,
        }
    }
}

/// What was done to the memory.
#[derive(Debug, Clone, Copy, PartialEq, Eq, Structural)]
pub struct MemoryReport {
    pub memory_compacted: bool,
    pub zram_compacted: bool,
    pub cgroup_memory_reclaimed: bool,
    pub reclaimed_mb: u64,
}

impl MemoryReport {
    /// Nothing done.
    pub open spec fn nothing() -> MemoryReport {
        MemoryReport {
            memory_compacted: false,
            zram_compacted: false,
            cgroup_memory_reclaimed: false,
            reclaimed_mb: 0,
        }
    }
}

impl Default for MemoryReport {
    fn default() -> (r: Self)
        ensures
            r == MemoryReport::nothing(),
    {
        MemoryReport {
            memory_compacted: false,
            zram_compacted: false,
            cgroup_memory_reclaimed: false,
            reclaimed_mb: 0,
        }
    }
}

/// What was trimmed.
#[derive(Debug, Clone)]
pub struct TrimReport {
    pub fstrim_completed: bool,
    pub trimmed_mounts: Vec<String>,
}

impl Default for TrimReport {
    fn default() -> (r: Self)
        ensures
            !r.fstrim_completed,
            r.trimmed_mounts@.len() == 0,
    {
        TrimReport { fstrim_completed: false, trimmed_mounts: Vec::new() }
    }
}

/// What else was done.
#[derive(Debug, Clone, Copy, PartialEq, Eq, Structural)]
pub struct OptimizationReport {
    pub f2fs_gc_activated: bool,
}

impl Default for OptimizationReport {
    fn default() -> (r: Self)
        ensures
            !r.f2fs_gc_activated,
    {
        OptimizationReport { f2fs_gc_activated: false }
    }
}

/// An item that a cleaning would remove.
#[derive(Debug, Clone)]
pub struct PlanEntry {
    pub path: String,
    pub category: String,
    pub size_bytes: u64,
    pub reason: String,
}

impl Default for PlanEntry {
    fn default() -> (r: Self)
        ensures
            r.path@ == ""@,
            r.category@ == ""@,
            r.size_bytes == 0,
            r.reason@ == ""@,
    {
        PlanEntry {
            path: "".to_owned(),
            category: "".to_owned(),
            size_bytes: 0,
            reason: "".to_owned(),
        }
    }
}

/// What a cleaning did. The fields after the reports repeat what the reports say.
#[derive(Debug, Clone)]
pub struct CleanReport {
    pub storage: StorageReport,
    pub memory: MemoryReport,
    pub trim: TrimReport,
    pub optimization: OptimizationReport,
    pub duration_ms: u64,
    pub plan_entries: Option<Vec<PlanEntry>>,
    pub cancel_reason: Option<CancelReason>,
    pub total_freed_bytes: u64,
    pub deleted_files_count: usize,
    pub app_cache_freed_bytes: u64,
    pub oem_logs_freed_bytes: u64,
    pub crash_dumps_freed_bytes: u64,
    pub temp_apks_freed_bytes: u64,
    pub skipped_files_count: usize,
    pub errors_count: usize,
    pub frozen_apps_cleaned: usize,
    pub active_apps_cleaned: usize,
    pub memory_compacted: bool,
    pub zram_compacted: bool,
    pub cgroup_memory_reclaimed: bool,
    pub fstrim_completed: bool,
}

impl Default for CleanReport {
    fn default() -> (r: Self)
        ensures
            r.storage == StorageReport::nothing(),
            r.memory == MemoryReport::nothing(),
            !r.trim.fstrim_completed,
            r.trim.trimmed_mounts@.len() == 0,
            !r.optimization.f2fs_gc_activated,
            r.duration_ms == 0,
            r.plan_entries is None,
            r.cancel_reason is None,
            r == r.synced(),
    {
        CleanReport {
            storage: StorageReport::default(),
            memory: MemoryReport::default(),
            trim: TrimReport::default(),
            optimization: OptimizationReport::default(),
            duration_ms: 0,
            plan_entries: None,
            cancel_reason: None,
            total_freed_bytes: 0,
            deleted_files_count: 0,
            app_cache_freed_bytes: 0,
            oem_logs_freed_bytes: 0,
            crash_dumps_freed_bytes: 0,
            temp_apks_freed_bytes: 0,
            skipped_files_count: 0,
            errors_count: 0,
            frozen_apps_cleaned: 0,
            active_apps_cleaned: 0,
            memory_compacted: false,
            zram_compacted: false,
            cgroup_memory_reclaimed: false,
            fstrim_completed: false,
        }
    }
}

impl StorageReport {
    /// Nothing done.
    pub open spec fn nothing() -> StorageReport {
        StorageReport {
            total_freed_bytes: 0,
            deleted_files_count: 0,
            skipped_files_count: 0,
            errors_count: 0,
            app_cache_bytes: 0,
            oem_logs_bytes: 0,
            crash_dumps_bytes: 0,
            temp_apks_bytes: 0,
            frozen_apps_cleaned: 0,
            active_apps_cleaned: 0,
        }
    }

    /// The sums that every walk adds to can be held.
    pub open spec fn fits_walk(self, stats: WalkStats) -> bool {
        &&& self.total_freed_bytes + stats.bytes_freed <= u64::MAX
        &&& self.deleted_files_count + stats.files_deleted <= usize::MAX
        &&& self.skipped_files_count + stats.skipped_files <= usize::MAX
        &&& self.errors_count + stats.errors_count <= usize::MAX
    }

    /// The sums with what a walk through caches of applications did can be held.
    pub open spec fn fits_app_cache(self, stats: WalkStats) -> bool {
        &&& self.fits_walk(stats)
        &&& self.app_cache_bytes + stats.bytes_freed <= u64::MAX
        &&& self.frozen_apps_cleaned + stats.frozen_apps_affected <= usize::MAX
        &&& self.active_apps_cleaned + stats.active_apps_affected <= usize::MAX
    }

    /// The sums with what a walk through junk of the system did can be held.
    pub open spec fn fits_system_junk(self, stats: WalkStats, category: JunkCategory) -> bool {
        &&& self.fits_walk(stats)
        &&& category == JunkCategory::OemLog ==> self.oem_logs_bytes + stats.bytes_freed <= u64::MAX
        &&& category == JunkCategory::CrashDump ==> self.crash_dumps_bytes + stats.bytes_freed
            <= u64::MAX
        &&& category == JunkCategory::TempApk ==> self.temp_apks_bytes + stats.bytes_freed
            <= u64::MAX
    }

    fn has_room_for_walk(&self, stats: &WalkStats) -> (r: bool)
        ensures
            r == self.fits_walk(*stats),
    {
        self.total_freed_bytes <= u64::MAX - stats.bytes_freed && self.deleted_files_count
            <= usize::MAX - stats.files_deleted && self.skipped_files_count <= usize::MAX
            - stats.skipped_files && self.errors_count <= usize::MAX - stats.errors_count
    }

    /// `true` where the sums with what a walk through caches of applications did can
    /// be held.
    pub fn has_room_for_app_cache(&self, stats: &WalkStats) -> (r: bool)
        ensures
            r == self.fits_app_cache(*stats),
    {
        self.has_room_for_walk(stats) && self.app_cache_bytes <= u64::MAX - stats.bytes_freed
            && self.frozen_apps_cleaned <= usize::MAX - stats.frozen_apps_affected
            && self.active_apps_cleaned <= usize::MAX - stats.active_apps_affected
    }

    /// `true` where the sums with what a walk through junk of the system did can be
    /// held.
    pub fn has_room_for_system_junk(&self, stats: &WalkStats, category: JunkCategory) -> (r: bool)
        ensures
            r == self.fits_system_junk(*stats, category),
    {
        let bytes: u64 = u64::MAX - stats.bytes_freed;
        self.has_room_for_walk(stats) && match category {
            JunkCategory::OemLog => self.oem_logs_bytes <= bytes,
            JunkCategory::CrashDump => self.crash_dumps_bytes <= bytes,
            JunkCategory::TempApk => self.temp_apks_bytes <= bytes,
            _ => true,
        }
    }

    /// The counts that every walk adds to.
    pub open spec fn with_walk(self, stats: WalkStats) -> StorageReport {
        StorageReport {
            total_freed_bytes: (self.total_freed_bytes + stats.bytes_freed) as u64,
            deleted_files_count: (self.deleted_files_count + stats.files_deleted) as usize,
            skipped_files_count: (self.skipped_files_count + stats.skipped_files) as usize,
            errors_count: (self.errors_count + stats.errors_count) as usize,
            ..self
        }
    }

    /// The report after a walk through caches of applications.
    pub open spec fn with_app_cache(self, stats: WalkStats) -> StorageReport {
        StorageReport {
            app_cache_bytes: (self.app_cache_bytes + stats.bytes_freed) as u64,
            frozen_apps_cleaned: (self.frozen_apps_cleaned + stats.frozen_apps_affected) as usize,
            active_apps_cleaned: (self.active_apps_cleaned + stats.active_apps_affected) as usize,
            ..self.with_walk(stats)
        }
    }

    /// The report after a walk through junk of the system. Only three categories
    /// have a count of their own.
    pub open spec fn with_system_junk(
        self,
        stats: WalkStats,
        category: JunkCategory,
    ) -> StorageReport {
        let walked = self.with_walk(stats);
        match category {
            JunkCategory::OemLog => StorageReport {
                oem_logs_bytes: (self.oem_logs_bytes + stats.bytes_freed) as u64,
                ..walked
            },
            JunkCategory::CrashDump => StorageReport {
                crash_dumps_bytes: (self.crash_dumps_bytes + stats.bytes_freed) as u64,
                ..walked
            },
            JunkCategory::TempApk => StorageReport {
                temp_apks_bytes: (self.temp_apks_bytes + stats.bytes_freed) as u64,
                ..walked
            },
            _ => walked,
        }
    }

    /// The bytes of the categories make up the total.
    pub open spec fn is_balanced(self) -> bool {
        self.total_freed_bytes == self.app_cache_bytes + self.oem_logs_bytes
            + self.crash_dumps_bytes + self.temp_apks_bytes
    }
}

impl CleanReport {
    /// The report with its repeated fields set to what the reports say.
    pub open spec fn synced(self) -> CleanReport {
        CleanReport {
            total_freed_bytes: self.storage.total_freed_bytes,
            deleted_files_count: self.storage.deleted_files_count,
            app_cache_freed_bytes: self.storage.app_cache_bytes,
            oem_logs_freed_bytes: self.storage.oem_logs_bytes,
            crash_dumps_freed_bytes: self.storage.crash_dumps_bytes,
            temp_apks_freed_bytes: self.storage.temp_apks_bytes,
            skipped_files_count: self.storage.skipped_files_count,
            errors_count: self.storage.errors_count,
            frozen_apps_cleaned: self.storage.frozen_apps_cleaned,
            active_apps_cleaned: self.storage.active_apps_cleaned,
            memory_compacted: self.memory.memory_compacted,
            zram_compacted: self.memory.zram_compacted,
            cgroup_memory_reclaimed: self.memory.cgroup_memory_reclaimed,
            fstrim_completed: self.trim.fstrim_completed,
            ..self
        }
    }

    /// Adds what a walk through caches of applications did.
    pub fn record_app_cache_stats(&mut self, stats: &WalkStats)
        requires
            old(self).storage.fits_app_cache(*stats),
        ensures
            *final(self) == (CleanReport {
                storage: old(self).storage.with_app_cache(*stats),
                ..*old(self)
            }).synced(),
    {
        let s = self.storage;
        self.storage = StorageReport {
            app_cache_bytes: s.app_cache_bytes + stats.bytes_freed,
            total_freed_bytes: s.total_freed_bytes + stats.bytes_freed,
            deleted_files_count: s.deleted_files_count + stats.files_deleted,
            frozen_apps_cleaned: s.frozen_apps_cleaned + stats.frozen_apps_affected,
            active_apps_cleaned: s.active_apps_cleaned + stats.active_apps_affected,
            skipped_files_count: s.skipped_files_count + stats.skipped_files,
            errors_count: s.errors_count + stats.errors_count,
            ..s
        };
        self.sync_compat_fields();
    }

    /// Adds what a walk through junk of the system did.
    pub fn record_system_junk_stats(&mut self, stats: &WalkStats, category: JunkCategory)
        requires
            old(self).storage.fits_system_junk(*stats, category),
        ensures
            *final(self) == (CleanReport {
                storage: old(self).storage.with_system_junk(*stats, category),
                ..*old(self)
            }).synced(),
    {
        match category {
            JunkCategory::OemLog => {
                self.storage.oem_logs_bytes = self.storage.oem_logs_bytes + stats.bytes_freed;
            },
            JunkCategory::CrashDump => {
                self.storage.crash_dumps_bytes = self.storage.crash_dumps_bytes + stats.bytes_freed;
            },
            JunkCategory::TempApk => {
                self.storage.temp_apks_bytes = self.storage.temp_apks_bytes + stats.bytes_freed;
            },
            _ => {},
        }
        self.storage.total_freed_bytes = self.storage.total_freed_bytes + stats.bytes_freed;
        self.storage.deleted_files_count = self.storage.deleted_files_count + stats.files_deleted;
        self.storage.skipped_files_count = self.storage.skipped_files_count + stats.skipped_files;
        self.storage.errors_count = self.storage.errors_count + stats.errors_count;
        self.sync_compat_fields();
    }

    /// Sets the repeated fields to what the reports say.
    pub fn sync_compat_fields(&mut self)
        ensures
            *final(self) == old(self).synced(),
    {
        self.total_freed_bytes = self.storage.total_freed_bytes;
        self.deleted_files_count = self.storage.deleted_files_count;
        self.app_cache_freed_bytes = self.storage.app_cache_bytes;
        self.oem_logs_freed_bytes = self.storage.oem_logs_bytes;
        self.crash_dumps_freed_bytes = self.storage.crash_dumps_bytes;
        self.temp_apks_freed_bytes = self.storage.temp_apks_bytes;
        self.skipped_files_count = self.storage.skipped_files_count;
        self.errors_count = self.storage.errors_count;
        self.frozen_apps_cleaned = self.storage.frozen_apps_cleaned;
        self.active_apps_cleaned = self.storage.active_apps_cleaned;
        self.memory_compacted = self.memory.memory_compacted;
        self.zram_compacted = self.memory.zram_compacted;
        self.cgroup_memory_reclaimed = self.memory.cgroup_memory_reclaimed;
        self.fstrim_completed = self.trim.fstrim_completed;
    }

    /// Ends the report of a job that took this long.
    pub fn finalize_totals(&mut self, duration_ms: u64)
        ensures
            *final(self) == (CleanReport { duration_ms, ..old(self).synced() }),
    {
        self.sync_compat_fields();
        self.duration_ms = duration_ms;
    }
}

/// The greatest number of bytes of a message.
pub const MAX_IPC_FRAME_SIZE: usize = 65_536;

/// The number of bytes in front of a message.
pub const FRAME_HEADER_SIZE: usize = 4;

/// The number that four bytes write, the most significant first.
pub open spec fn header_value(header: Seq<u8>) -> int {
    header[0] * 0x100_0000 + header[1] * 0x1_0000 + header[2] * 0x100 + header[3]
}

/// The four bytes that write a number, the most significant first.
pub open spec fn header_of(n: int) -> Seq<u8> {
    seq![
        (n / 0x100_0000 % 0x100) as u8,
        (n / 0x1_0000 % 0x100) as u8,
        (n / 0x100 % 0x100) as u8,
        (n % 0x100) as u8,
    ]
}

/// The frame that carries a message: its length, and the message.
pub fn frame_message(payload: &Vec<u8>) -> (r: Result<Vec<u8>, CleanerError>)
    ensures
        r is Ok <==> payload@.len() <= MAX_IPC_FRAME_SIZE,
        r matches Ok(frame) ==> frame@ == header_of(payload@.len() as int) + payload@,
        r matches Err(e) ==> (e matches CleanerError::Ipc(m) && m@ == "Outgoing message size "@
            + numerals::decimal(payload@.len()) + " exceeded 64KB safety limit"@),
{
    let size: usize = payload.len();
    if size > MAX_IPC_FRAME_SIZE {
        let mut m = numerals::numbered("Outgoing message size ", size as u64);
        m.append(" exceeded 64KB safety limit");
        return Err(CleanerError::Ipc(m));
    }
    let n: u32 = size as u32;
    let mut frame: Vec<u8> = Vec::new();
    frame.push((n / 0x100_0000 % 0x100) as u8);
    frame.push((n / 0x1_0000 % 0x100) as u8);
    frame.push((n / 0x100 % 0x100) as u8);
    frame.push((n % 0x100) as u8);
    let mut i: usize = 0;
    while i < size
        invariant
            i <= size,
            size == payload@.len(),
            frame@ == header_of(size as int) + payload@.subrange(0, i as int),
        decreases size - i,
    {
        frame.push(payload[i]);
        i = i + 1;
        assert(frame@ =~= header_of(size as int) + payload@.subrange(0, i as int));
    }
    assert(payload@.subrange(0, size as int) =~= payload@);
    Ok(frame)
}

/// The length of the message that follows these four bytes.
pub fn payload_length(header: [u8; 4]) -> (r: Result<usize, CleanerError>)
    ensures
        r is Ok <==> header_value(header@) <= MAX_IPC_FRAME_SIZE,
        r matches Ok(n) ==> n == header_value(header@),
        r matches Err(e) ==> (e matches CleanerError::Ipc(m) && m@ == "Payload size "@
            + numerals::decimal(header_value(header@) as nat) + " exceeded 64KB safety limit"@),
{
    let n: u64 = (header[0] as u64) * 0x100_0000 + (header[1] as u64) * 0x1_0000 + (
    header[2] as u64) * 0x100 + (header[3] as u64);
    if n > MAX_IPC_FRAME_SIZE as u64 {
        let mut m = numerals::numbered("Payload size ", n);
        m.append(" exceeded 64KB safety limit");
        return Err(CleanerError::Ipc(m));
    }
    Ok(n as usize)
}

/// The header of a frame gives back the length of its message, and the rest is the
/// message.
pub proof fn law_frame_reads_back(payload: Seq<u8>)
    requires
        payload.len() <= MAX_IPC_FRAME_SIZE,
    ensures
        ({
            let frame = header_of(payload.len() as int) + payload;
            &&& header_value(frame.subrange(0, FRAME_HEADER_SIZE as int)) == payload.len()
            &&& frame.subrange(FRAME_HEADER_SIZE as int, frame.len() as int) == payload
        }),
{
    let frame = header_of(payload.len() as int) + payload;
    assert(frame.subrange(0, 4) =~= header_of(payload.len() as int));
    assert(frame.subrange(4, frame.len() as int) =~= payload);
}

/// What the repeated fields say, the reports say too, after anything is recorded.
pub proof fn law_repeated_fields_agree(report: CleanReport)
    ensures
        report.synced().synced() == report.synced(),
        report.synced().total_freed_bytes == report.synced().storage.total_freed_bytes,
        report.synced().deleted_files_count == report.synced().storage.deleted_files_count,
        report.synced().errors_count == report.synced().storage.errors_count,
        report.synced().fstrim_completed == report.synced().trim.fstrim_completed,
        report.synced().storage == report.storage,
{
}

/// The bytes of the categories make up the total as long as junk of the system falls
/// under one of the categories that are counted.
pub proof fn law_categories_make_up_the_total(
    report: StorageReport,
    stats: WalkStats,
    category: JunkCategory,
)
    requires
        report.is_balanced(),
    ensures
        report.fits_app_cache(stats) ==> report.with_app_cache(stats).is_balanced(),
        report.fits_system_junk(stats, category) && (category == JunkCategory::OemLog || category
            == JunkCategory::CrashDump || category == JunkCategory::TempApk)
            ==> report.with_system_junk(stats, category).is_balanced(),
{
}

/// What a walk through caches did is added to the report, figure by figure: its bytes to
/// the total and to those of caches, its removals, omissions and errors, and the
/// applications that it went through. The other categories stay, and what the report
/// repeats agrees with it.
pub proof fn law_cache_walk_is_added_to_the_report(report: &mut CleanReport, stats: &WalkStats)
    requires
        call_ensures(CleanReport::record_app_cache_stats, (report, stats), ()),
        old(report).storage.fits_app_cache(*stats),
    ensures
        ({
            let before = old(report).storage;
            let after = final(report).storage;
            &&& after.total_freed_bytes == before.total_freed_bytes + stats.bytes_freed
            &&& after.app_cache_bytes == before.app_cache_bytes + stats.bytes_freed
            &&& after.deleted_files_count == before.deleted_files_count + stats.files_deleted
            &&& after.skipped_files_count == before.skipped_files_count + stats.skipped_files
            &&& after.errors_count == before.errors_count + stats.errors_count
            &&& after.frozen_apps_cleaned == before.frozen_apps_cleaned
                + stats.frozen_apps_affected
            &&& after.active_apps_cleaned == before.active_apps_cleaned
                + stats.active_apps_affected
            &&& after.oem_logs_bytes == before.oem_logs_bytes
            &&& after.crash_dumps_bytes == before.crash_dumps_bytes
            &&& after.temp_apks_bytes == before.temp_apks_bytes
            &&& final(report).total_freed_bytes == after.total_freed_bytes
            &&& final(report).app_cache_freed_bytes == after.app_cache_bytes
            &&& final(report).deleted_files_count == after.deleted_files_count
            &&& final(report).skipped_files_count == after.skipped_files_count
            &&& final(report).errors_count == after.errors_count
            &&& final(report).frozen_apps_cleaned == after.frozen_apps_cleaned
            &&& final(report).active_apps_cleaned == after.active_apps_cleaned
        }),
        final(report).memory == old(report).memory,
        final(report).trim == old(report).trim,
        final(report).duration_ms == old(report).duration_ms,
{
}

/// What a walk through junk of the system did is added to the report: its bytes to the
/// total and to those of its category, where that is vendors' logs, crash dumps or
/// packages, and its removals, omissions and errors. Caches and applications stay.
pub proof fn law_junk_walk_is_added_to_the_report(
    report: &mut CleanReport,
    stats: &WalkStats,
    category: JunkCategory,
)
    requires
        call_ensures(CleanReport::record_system_junk_stats, (report, stats, category), ()),
        old(report).storage.fits_system_junk(*stats, category),
    ensures
        ({
            let before = old(report).storage;
            let after = final(report).storage;
            let of = |c: JunkCategory|
                if category == c {
                    stats.bytes_freed as int
                } else {
                    0
                };
            &&& after.total_freed_bytes == before.total_freed_bytes + stats.bytes_freed
            &&& after.oem_logs_bytes == before.oem_logs_bytes + of(JunkCategory::OemLog)
            &&& after.crash_dumps_bytes == before.crash_dumps_bytes + of(JunkCategory::CrashDump)
            &&& after.temp_apks_bytes == before.temp_apks_bytes + of(JunkCategory::TempApk)
            &&& after.app_cache_bytes == before.app_cache_bytes
            &&& after.deleted_files_count == before.deleted_files_count + stats.files_deleted
            &&& after.skipped_files_count == before.skipped_files_count + stats.skipped_files
            &&& after.errors_count == before.errors_count + stats.errors_count
            &&& after.frozen_apps_cleaned == before.frozen_apps_cleaned
            &&& after.active_apps_cleaned == before.active_apps_cleaned
            &&& final(report).total_freed_bytes == after.total_freed_bytes
            &&& final(report).oem_logs_freed_bytes == after.oem_logs_bytes
            &&& final(report).crash_dumps_freed_bytes == after.crash_dumps_bytes
            &&& final(report).temp_apks_freed_bytes == after.temp_apks_bytes
        }),
        final(report).memory == old(report).memory,
        final(report).trim == old(report).trim,
{
}

/// There is room for a walk exactly where every figure that it adds to can hold the sum.
pub proof fn law_room_means_every_sum_fits(
    report: &StorageReport,
    stats: &WalkStats,
    category: JunkCategory,
    caches: bool,
    junk: bool,
)
    requires
        call_ensures(StorageReport::has_room_for_app_cache, (report, stats), caches),
        call_ensures(StorageReport::has_room_for_system_junk, (report, stats, category), junk),
    ensures
        ({
            let walk = report.total_freed_bytes + stats.bytes_freed <= u64::MAX
                && report.deleted_files_count + stats.files_deleted <= usize::MAX
                && report.skipped_files_count + stats.skipped_files <= usize::MAX
                && report.errors_count + stats.errors_count <= usize::MAX;
            &&& caches <==> walk && report.app_cache_bytes + stats.bytes_freed <= u64::MAX
                && report.frozen_apps_cleaned + stats.frozen_apps_affected <= usize::MAX
                && report.active_apps_cleaned + stats.active_apps_affected <= usize::MAX
            &&& junk <==> walk && (category == JunkCategory::OemLog ==> report.oem_logs_bytes
                + stats.bytes_freed <= u64::MAX) && (category == JunkCategory::CrashDump
                ==> report.crash_dumps_bytes + stats.bytes_freed <= u64::MAX) && (category
                == JunkCategory::TempApk ==> report.temp_apks_bytes + stats.bytes_freed
                <= u64::MAX)
        }),
{
}

/// A finished report tells how long the job took, and repeats what its parts say.
pub proof fn law_finished_report_repeats_its_parts(
    report: &mut CleanReport,
    duration_ms: u64,
    other: &mut CleanReport,
)
    requires
        call_ensures(CleanReport::finalize_totals, (report, duration_ms), ()),
        call_ensures(CleanReport::sync_compat_fields, (other,), ()),
    ensures
        final(report).duration_ms == duration_ms,
        final(report).storage == old(report).storage,
        final(report).memory == old(report).memory,
        final(report).trim == old(report).trim,
        final(report).total_freed_bytes == old(report).storage.total_freed_bytes,
        final(report).deleted_files_count == old(report).storage.deleted_files_count,
        final(report).skipped_files_count == old(report).storage.skipped_files_count,
        final(report).errors_count == old(report).storage.errors_count,
        final(report).app_cache_freed_bytes == old(report).storage.app_cache_bytes,
        final(report).oem_logs_freed_bytes == old(report).storage.oem_logs_bytes,
        final(report).crash_dumps_freed_bytes == old(report).storage.crash_dumps_bytes,
        final(report).temp_apks_freed_bytes == old(report).storage.temp_apks_bytes,
        final(report).frozen_apps_cleaned == old(report).storage.frozen_apps_cleaned,
        final(report).active_apps_cleaned == old(report).storage.active_apps_cleaned,
        final(report).memory_compacted == old(report).memory.memory_compacted,
        final(report).zram_compacted == old(report).memory.zram_compacted,
        final(report).cgroup_memory_reclaimed == old(report).memory.cgroup_memory_reclaimed,
        final(report).fstrim_completed == old(report).trim.fstrim_completed,
        final(other).duration_ms == old(other).duration_ms,
        final(other).storage == old(other).storage,
        final(other).total_freed_bytes == old(other).storage.total_freed_bytes,
        final(other).deleted_files_count == old(other).storage.deleted_files_count,
        final(other).fstrim_completed == old(other).trim.fstrim_completed,
{
}

/// A message of up to sixty-four kilobytes goes into a frame of four bytes and itself,
/// and the four bytes at the front of the frame, read as such, tell the length of the
/// message again. A longer one is refused on either side.
pub proof fn law_length_goes_through_the_frame(
    payload: &Vec<u8>,
    frame: Result<Vec<u8>, CleanerError>,
    header: [u8; 4],
    length: Result<usize, CleanerError>,
)
    requires
        call_ensures(frame_message, (payload,), frame),
        call_ensures(payload_length, (header,), length),
    ensures
        frame is Ok <==> payload@.len() <= 65_536,
        frame matches Ok(bytes) ==> {
            &&& bytes@.len() == payload@.len() + 4
            &&& bytes@.skip(4) == payload@
            &&& header@ == bytes@.take(4) ==> (length matches Ok(n) && n == payload@.len())
        },
        length is Ok <==> header@[0] == 0 && (header@[1] == 0 || (header@[1] == 1 && header@[2] == 0
            && header@[3] == 0)),
        length matches Ok(n) ==> n == header@[1] * 0x1_0000 + header@[2] * 0x100 + header@[3],
        frame matches Err(e) ==> e is Ipc,
        length matches Err(e) ==> e is Ipc,
{
    if frame is Ok {
        let bytes = frame->Ok_0@;
        let front = header_of(payload@.len() as int);
        assert(bytes.skip(4) =~= payload@);
        if header@ == bytes.take(4) {
            assert(header@[0] == front[0] && header@[1] == front[1] && header@[2] == front[2]
                && header@[3] == front[3]) by {
                assert(bytes.take(4)[0] == front[0]);
                assert(bytes.take(4)[1] == front[1]);
                assert(bytes.take(4)[2] == front[2]);
                assert(bytes.take(4)[3] == front[3]);
            }
        }
    }
}

/// An empty report tells of nothing.
pub proof fn law_empty_report_tells_nothing(r: CleanReport)
    requires
        call_ensures(CleanReport::default, (), r),
    ensures
        r.total_freed_bytes == 0 && r.storage.total_freed_bytes == 0,
        r.deleted_files_count == 0 && r.storage.deleted_files_count == 0,
        r.skipped_files_count == 0 && r.errors_count == 0,
        r.storage.app_cache_bytes == 0 && r.storage.oem_logs_bytes == 0,
        r.storage.crash_dumps_bytes == 0 && r.storage.temp_apks_bytes == 0,
        !r.memory_compacted && !r.zram_compacted && !r.cgroup_memory_reclaimed
            && !r.fstrim_completed,
        r.memory.reclaimed_mb == 0,
        r.duration_ms == 0,
        r.plan_entries is None && r.cancel_reason is None,
{
}

} // verus!
