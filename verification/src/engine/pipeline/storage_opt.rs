//! Collects garbage in the file system and hands free space back to the device.
use vstd::prelude::*;

use crate::config::OptimizationConfig;
use crate::engine::pipeline::CleanStage;
use crate::engine::storage;
use crate::engine::storage::FstrimPersistedState;
use crate::ipc::protocol::{CleanParams, CleanReport, OptimizationReport};
use crate::text;

verus! {

/// How urgently garbage is collected: in the background.
pub const GC_URGENT_LOW: u8 = 2;

pub struct StorageOptStage;

impl CleanStage for StorageOptStage {
    open spec fn stage_name(&self) -> Seq<char> {
        "StorageOptimization"@
    }

    fn name(&self) -> (r: &'static str) {
        "StorageOptimization"
    }
}

/// What is to be done to the storage.
#[derive(Debug, Clone, Copy, PartialEq, Eq, Structural)]
pub struct StorageActions {
    /// Collect garbage this urgently until the stage is over.
    pub gc_urgent: Option<u8>,
    pub trim: bool,
}

impl StorageOptStage {
    /// The stage does anything at all.
    pub open spec fn runs(cancelled: bool, params: CleanParams) -> bool {
        !cancelled && !params.dry_run
    }

    /// The state of trimming as the stage sees it: with what this job freed.
    pub open spec fn noted(
        cancelled: bool,
        params: CleanParams,
        state: FstrimPersistedState,
        freed: u64,
    ) -> FstrimPersistedState {
        if StorageOptStage::runs(cancelled, params) {
            storage::after_freed(state, freed)
        } else {
            state
        }
    }

    /// What is to be done to the storage.
    pub open spec fn actions_for(
        cancelled: bool,
        params: CleanParams,
        optimization: OptimizationConfig,
        f2fs_available: bool,
        noted: FstrimPersistedState,
        now: u64,
    ) -> StorageActions {
        let runs = StorageOptStage::runs(cancelled, params);
        StorageActions {
            gc_urgent: if runs && f2fs_available && optimization.f2fs_gc_urgent {
                Some(GC_URGENT_LOW)
            } else {
                None
            },
            trim: runs && (params.trim || optimization.fstrim_partitions) && storage::trim_is_due(
                noted,
                params.trim,
                now,
            ),
        }
    }

    /// Takes note of what the job freed, decides what is to be done, and reports
    /// whether garbage is collected.
    pub fn actions(
        cancelled: bool,
        params: &CleanParams,
        optimization: &OptimizationConfig,
        f2fs_available: bool,
        report: &mut CleanReport,
        state: &mut FstrimPersistedState,
        now: u64,
    ) -> (r: StorageActions)
        ensures
            *final(state) == StorageOptStage::noted(
                cancelled,
                *params,
                *old(state),
                old(report).storage.total_freed_bytes,
            ),
            r == StorageOptStage::actions_for(
                cancelled,
                *params,
                *optimization,
                f2fs_available,
                *final(state),
                now,
            ),
            *final(report) == if r.gc_urgent is Some {
                CleanReport {
                    optimization: OptimizationReport { f2fs_gc_activated: true },
                    ..*old(report)
                }
            } else {
                *old(report)
            },
    {
        if cancelled || params.dry_run {
            return StorageActions { gc_urgent: None, trim: false };
        }
        let freed: u64 = report.storage.total_freed_bytes;
        if freed > 0 {
            storage::record_freed_bytes_for_trim(state, freed);
        }
        let gc_urgent = if f2fs_available && optimization.f2fs_gc_urgent {
            report.optimization.f2fs_gc_activated = true;
            Some(GC_URGENT_LOW)
        } else {
            None
        };
        let trim = (params.trim || optimization.fstrim_partitions) && storage::should_run_fstrim_at(
            state,
            params.trim,
            now,
        );
        StorageActions { gc_urgent, trim }
    }

    /// Reports how a trim went, and takes note of one that worked.
    pub fn trimmed(
        report: &mut CleanReport,
        state: &mut FstrimPersistedState,
        optimization: &OptimizationConfig,
        ok: bool,
        now: u64,
    )
        ensures
            *final(state) == if ok {
                storage::after_trim(now)
            } else {
                *old(state)
            },
            final(report).trim.fstrim_completed == ok,
            text::texts(final(report).trim.trimmed_mounts@) == text::texts(
                optimization.trim_mount_points@,
            ),
            *final(report) == (CleanReport {
                trim: final(report).trim,
                fstrim_completed: ok,
                ..*old(report)
            }),
    {
        report.trim.fstrim_completed = ok;
        report.fstrim_completed = ok;
        report.trim.trimmed_mounts = text::clone_strings(&optimization.trim_mount_points);
        if ok {
            storage::mark_fstrim_completed_at(state, now);
        }
    }
}

/// A job that is cancelled or only counts leaves the storage alone.
pub proof fn law_idle_job_leaves_storage_alone(
    cancelled: bool,
    params: CleanParams,
    optimization: OptimizationConfig,
    f2fs_available: bool,
    state: FstrimPersistedState,
    freed: u64,
    now: u64,
)
    requires
        cancelled || params.dry_run,
    ensures
        ({
            let noted = StorageOptStage::noted(cancelled, params, state, freed);
            let actions = StorageOptStage::actions_for(
                cancelled,
                params,
                optimization,
                f2fs_available,
                noted,
                now,
            );
            noted == state && actions.gc_urgent is None && !actions.trim
        }),
{
}

/// A stage that is cancelled or only counts notes nothing and does nothing. Any other
/// notes what the job freed; garbage is collected in the background where there is a
/// device for it and that is configured, and the report says so; and the storage is
/// trimmed where that is asked for, or configured and due by then.
pub proof fn law_storage_is_worked_on_where_due(
    cancelled: bool,
    params: &CleanParams,
    optimization: &OptimizationConfig,
    f2fs_available: bool,
    report: &mut CleanReport,
    state: &mut FstrimPersistedState,
    now: u64,
    r: StorageActions,
)
    requires
        call_ensures(
            StorageOptStage::actions,
            (cancelled, params, optimization, f2fs_available, report, state, now),
            r,
        ),
        old(state).bytes_deleted_since_trim + old(report).storage.total_freed_bytes <= u64::MAX,
    ensures
        ({
            let runs = !cancelled && !params.dry_run;
            let freed = old(state).bytes_deleted_since_trim + old(report).storage.total_freed_bytes;
            &&& runs ==> final(state).bytes_deleted_since_trim == freed
            &&& !runs ==> final(state).bytes_deleted_since_trim == old(state).bytes_deleted_since_trim
            &&& r.gc_urgent is Some <==> runs && f2fs_available && optimization.f2fs_gc_urgent
            &&& r.gc_urgent is Some ==> r.gc_urgent->0 == 2
            &&& r.trim <==> runs && (params.trim || (optimization.fstrim_partitions && (old(state).last_trim_unix_secs == 0 || now >= old(state).last_trim_unix_secs + 86_400 || freed
                >= 500_000_000)))
            &&& final(report).optimization.f2fs_gc_activated <==> r.gc_urgent is Some || old(report).optimization.f2fs_gc_activated
        }),
        final(state).last_trim_unix_secs == old(state).last_trim_unix_secs,
        final(report).storage == old(report).storage,
        final(report).memory == old(report).memory,
        final(report).trim == old(report).trim,
{
}

/// A trim that worked is noted with its time and sets the freed bytes back; one that
/// failed leaves the state as it was. The report tells which it was and names the
/// configured mount points.
pub proof fn law_trim_is_noted_where_it_worked(
    report: &mut CleanReport,
    state: &mut FstrimPersistedState,
    optimization: &OptimizationConfig,
    ok: bool,
    now: u64,
)
    requires
        call_ensures(StorageOptStage::trimmed, (report, state, optimization, ok, now), ()),
    ensures
        ok ==> final(state).last_trim_unix_secs == now && final(state).bytes_deleted_since_trim
            == 0,
        !ok ==> *final(state) == *old(state),
        final(report).trim.fstrim_completed == ok,
        final(report).fstrim_completed == ok,
        text::texts(final(report).trim.trimmed_mounts@) == text::texts(
            optimization.trim_mount_points@,
        ),
        final(report).storage == old(report).storage,
        final(report).memory == old(report).memory,
        final(report).optimization == old(report).optimization,
        final(report).total_freed_bytes == old(report).total_freed_bytes,
{
}

} // verus!
