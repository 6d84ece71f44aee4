//! Makes room in memory.
use vstd::prelude::*;

use crate::config::OptimizationConfig;
use crate::engine::pipeline::CleanStage;
use crate::ipc::protocol::{CleanParams, CleanReport, MemoryReport};

verus! {

pub struct MemoryOptStage;

impl CleanStage for MemoryOptStage {
    open spec fn stage_name(&self) -> Seq<char> {
        "MemoryOptimization"@
    }

    fn name(&self) -> (r: &'static str) {
        "MemoryOptimization"
    }
}

/// What is to be done to the memory.
#[derive(Debug, Clone, Copy, PartialEq, Eq, Structural)]
pub struct MemoryActions {
    pub compact_memory: bool,
    pub compact_zram: bool,
    /// Reclaim this many MiB.
    pub reclaim_mb: Option<u64>,
}

/// Whether each of the actions worked.
#[derive(Debug, Clone, Copy, PartialEq, Eq, Structural)]
pub struct MemoryResults {
    pub memory_compacted: bool,
    pub zram_compacted: bool,
    pub memory_reclaimed: bool,
}

impl MemoryOptStage {
    /// What is to be done: nothing once the job is cancelled or where it only
    /// counts.
    pub open spec fn actions_for(
        cancelled: bool,
        params: CleanParams,
        optimization: OptimizationConfig,
    ) -> MemoryActions {
        let runs = !cancelled && !params.dry_run;
        let compacts = runs && (params.zram_compact || optimization.zram_compaction);
        MemoryActions {
            compact_memory: compacts && optimization.compact_memory,
            compact_zram: compacts,
            reclaim_mb: if runs && (params.deep || optimization.cgroup_memory_reclaim) {
                Some(optimization.cgroup_reclaim_amount_mb)
            } else {
                None
            },
        }
    }

    /// What is to be done to the memory.
    pub fn actions(cancelled: bool, params: &CleanParams, optimization: &OptimizationConfig) -> (r:
        MemoryActions)
        ensures
            r == MemoryOptStage::actions_for(cancelled, *params, *optimization),
    {
        if cancelled || params.dry_run {
            return MemoryActions { compact_memory: false, compact_zram: false, reclaim_mb: None };
        }
        let compacts = params.zram_compact || optimization.zram_compaction;
        MemoryActions {
            compact_memory: compacts && optimization.compact_memory,
            compact_zram: compacts,
            reclaim_mb: if params.deep || optimization.cgroup_memory_reclaim {
                Some(optimization.cgroup_reclaim_amount_mb)
            } else {
                None
            },
        }
    }

    /// The report on the memory after these actions. What was not to be done is
    /// left as it was.
    pub open spec fn reported(
        before: MemoryReport,
        actions: MemoryActions,
        results: MemoryResults,
    ) -> MemoryReport {
        MemoryReport {
            memory_compacted: if actions.compact_memory {
                results.memory_compacted
            } else {
                before.memory_compacted
            },
            zram_compacted: if actions.compact_zram {
                results.zram_compacted
            } else {
                before.zram_compacted
            },
            cgroup_memory_reclaimed: if actions.reclaim_mb is Some {
                results.memory_reclaimed
            } else {
                before.cgroup_memory_reclaimed
            },
            reclaimed_mb: if actions.reclaim_mb is Some && results.memory_reclaimed {
                actions.reclaim_mb->0
            } else {
                before.reclaimed_mb
            },
        }
    }

    /// Reports how the actions went.
    pub fn record(report: &mut CleanReport, actions: &MemoryActions, results: &MemoryResults)
        ensures
            *final(report) == (CleanReport {
                memory: MemoryOptStage::reported(old(report).memory, *actions, *results),
                memory_compacted: if actions.compact_memory {
                    results.memory_compacted
                } else {
                    old(report).memory_compacted
                },
                zram_compacted: if actions.compact_zram {
                    results.zram_compacted
                } else {
                    old(report).zram_compacted
                },
                cgroup_memory_reclaimed: if actions.reclaim_mb is Some {
                    results.memory_reclaimed
                } else {
                    old(report).cgroup_memory_reclaimed
                },
                ..*old(report)
            }),
    {
        if actions.compact_memory {
            report.memory.memory_compacted = results.memory_compacted;
            report.memory_compacted = results.memory_compacted;
        }
        if actions.compact_zram {
            report.memory.zram_compacted = results.zram_compacted;
            report.zram_compacted = results.zram_compacted;
        }
        match actions.reclaim_mb {
            Some(target_mb) => {
                report.memory.cgroup_memory_reclaimed = results.memory_reclaimed;
                report.cgroup_memory_reclaimed = results.memory_reclaimed;
                if results.memory_reclaimed {
                    report.memory.reclaimed_mb = target_mb;
                }
            },
            None => {},
        }
    }
}

/// A job that is cancelled or only counts leaves the memory alone, and the report too.
pub proof fn law_idle_job_leaves_memory_alone(
    cancelled: bool,
    params: CleanParams,
    optimization: OptimizationConfig,
    before: MemoryReport,
    results: MemoryResults,
)
    requires
        cancelled || params.dry_run,
    ensures
        ({
            let actions = MemoryOptStage::actions_for(cancelled, params, optimization);
            &&& !actions.compact_memory && !actions.compact_zram && actions.reclaim_mb is None
            &&& MemoryOptStage::reported(before, actions, results) == before
        }),
{
}

/// Nothing is done once the job is cancelled or where it only counts. Else compressed
/// swap is compacted where that is asked for or configured, memory too where that is
/// configured as well, and the configured amount is reclaimed in a deep cleaning or
/// where that is configured.
pub proof fn law_memory_is_worked_on_where_asked(
    cancelled: bool,
    params: &CleanParams,
    optimization: &OptimizationConfig,
    r: MemoryActions,
)
    requires
        call_ensures(MemoryOptStage::actions, (cancelled, params, optimization), r),
    ensures
        r.compact_zram <==> !cancelled && !params.dry_run && (params.zram_compact
            || optimization.zram_compaction),
        r.compact_memory <==> r.compact_zram && optimization.compact_memory,
        r.reclaim_mb is Some <==> !cancelled && !params.dry_run && (params.deep
            || optimization.cgroup_memory_reclaim),
        r.reclaim_mb is Some ==> r.reclaim_mb->0 == optimization.cgroup_reclaim_amount_mb,
{
}

/// The report tells of each action whether it worked, and of what was not to be done
/// what it told before; an amount is reclaimed only where that worked. Nothing but the
/// memory is touched in it.
pub proof fn law_memory_report_tells_what_worked(
    report: &mut CleanReport,
    actions: &MemoryActions,
    results: &MemoryResults,
)
    requires
        call_ensures(MemoryOptStage::record, (report, actions, results), ()),
    ensures
        actions.compact_memory ==> final(report).memory.memory_compacted == results.memory_compacted
            && final(report).memory_compacted == results.memory_compacted,
        !actions.compact_memory ==> final(report).memory.memory_compacted == old(report).memory.memory_compacted && final(report).memory_compacted == old(report).memory_compacted,
        actions.compact_zram ==> final(report).memory.zram_compacted == results.zram_compacted
            && final(report).zram_compacted == results.zram_compacted,
        !actions.compact_zram ==> final(report).memory.zram_compacted == old(report).memory.zram_compacted && final(report).zram_compacted == old(report).zram_compacted,
        actions.reclaim_mb is Some ==> final(report).memory.cgroup_memory_reclaimed
            == results.memory_reclaimed && final(report).cgroup_memory_reclaimed
            == results.memory_reclaimed,
        actions.reclaim_mb is None ==> final(report).memory.cgroup_memory_reclaimed == old(report).memory.cgroup_memory_reclaimed && final(report).cgroup_memory_reclaimed == old(report).cgroup_memory_reclaimed,
        final(report).memory.reclaimed_mb == if actions.reclaim_mb is Some
            && results.memory_reclaimed {
            actions.reclaim_mb->0
        } else {
            old(report).memory.reclaimed_mb
        },
        final(report).storage == old(report).storage,
        final(report).trim == old(report).trim,
        final(report).optimization == old(report).optimization,
        final(report).duration_ms == old(report).duration_ms,
        final(report).total_freed_bytes == old(report).total_freed_bytes,
{
}

} // verus!
