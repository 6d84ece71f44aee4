//! The stages of a cleaning, one after the other.
use vstd::prelude::*;

pub mod app_cache;
pub mod memory_opt;
pub mod storage_opt;
pub mod system_junk;

pub use app_cache::AppCacheStage;
pub use memory_opt::MemoryOptStage;
pub use storage_opt::StorageOptStage;
pub use system_junk::SystemJunkStage;

verus! {

/// A stage of a cleaning.
pub trait CleanStage {
    /// The name of the stage.
    spec fn stage_name(&self) -> Seq<char>;

    fn name(&self) -> (r: &'static str)
        ensures
            r@ == self.stage_name(),
    ;
}

/// The stages that there are.
#[derive(Debug, Clone, Copy, PartialEq, Eq, Structural)]
pub enum StageKind {
    AppCache,
    SystemJunk,
    MemoryOpt,
    StorageOpt,
}

impl CleanStage for StageKind {
    open spec fn stage_name(&self) -> Seq<char> {
        match self {
            StageKind::AppCache => AppCacheStage.stage_name(),
            StageKind::SystemJunk => SystemJunkStage.stage_name(),
            StageKind::MemoryOpt => MemoryOptStage.stage_name(),
            StageKind::StorageOpt => StorageOptStage.stage_name(),
        }
    }

    fn name(&self) -> (r: &'static str) {
        match self {
            StageKind::AppCache => AppCacheStage.name(),
            StageKind::SystemJunk => SystemJunkStage.name(),
            StageKind::MemoryOpt => MemoryOptStage.name(),
            StageKind::StorageOpt => StorageOptStage.name(),
        }
    }
}

/// Stages in the order in which they run.
#[derive(Debug)]
pub struct CleanPipeline {
    stages: Vec<StageKind>,
}

impl View for CleanPipeline {
    type V = Seq<StageKind>;

    closed spec fn view(&self) -> Seq<StageKind> {
        self.stages@
    }
}

impl CleanPipeline {
    /// The usual stages.
    pub fn build_standard() -> (r: Self)
        ensures
            r@ == seq![
                StageKind::AppCache,
                StageKind::SystemJunk,
                StageKind::MemoryOpt,
                StageKind::StorageOpt,
            ],
    {
        let stages = vec![
            StageKind::AppCache,
            StageKind::SystemJunk,
            StageKind::MemoryOpt,
            StageKind::StorageOpt,
        ];
        assert(stages@ =~= seq![
            StageKind::AppCache,
            StageKind::SystemJunk,
            StageKind::MemoryOpt,
            StageKind::StorageOpt,
        ]);
        CleanPipeline { stages }
    }

    /// The stage to run after `done` stages. A cancelled job runs none.
    pub fn execute(&self, done: usize, cancelled: bool) -> (r: Option<StageKind>)
        ensures
            r == if done < self@.len() && !cancelled {
                Some(self@[done as int])
            } else {
                None
            },
    {
        if done < self.stages.len() && !cancelled {
            Some(self.stages[done])
        } else {
            None
        }
    }
}

/// A cleaning goes through caches, junk of the system, memory and storage, one after the
/// other; once it is cancelled no further stage is run.
pub proof fn law_stages_run_in_order(
    pipeline: CleanPipeline,
    done: usize,
    cancelled: bool,
    r: Option<StageKind>,
)
    requires
        call_ensures(CleanPipeline::build_standard, (), pipeline),
        call_ensures(CleanPipeline::execute, (&pipeline, done, cancelled), r),
    ensures
        r is Some <==> done < 4 && !cancelled,
        r is Some && done == 0 ==> r->0 == StageKind::AppCache,
        r is Some && done == 1 ==> r->0 == StageKind::SystemJunk,
        r is Some && done == 2 ==> r->0 == StageKind::MemoryOpt,
        r is Some && done == 3 ==> r->0 == StageKind::StorageOpt,
{
}

} // verus!
