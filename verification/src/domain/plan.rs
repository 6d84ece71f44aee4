//! What is going to be done, and in which order.
use vstd::prelude::*;

use crate::domain::types::{
    ByteCount, CatalogGeneration, ConfigGeneration, FileIdentity, JobId, OperationId, PlanId,
    RelativePath, TargetId, UnixTimestamp,
};

verus! {

/// One thing to do.
#[derive(Debug, Clone, PartialEq, Eq)]
pub enum OperationType {
    /// Delete a file or a symbolic link.
    DeleteFile {
        target_id: TargetId,
        rel_path: RelativePath,
        expected_identity: FileIdentity,
        estimated_size: ByteCount,
    },
    /// Remove a directory once its contents are gone.
    DeleteDirEmpty { target_id: TargetId, rel_path: RelativePath, expected_identity: FileIdentity },
    /// Remove what a directory holds.
    PruneDirRecursive {
        target_id: TargetId,
        rel_path: RelativePath,
        expected_identity: FileIdentity,
    },
    /// Discard the unused blocks of a file system.
    TrimFilesystem { mount_path: String },
    /// Compact a database.
    VacuumDatabase { db_path: String },
}

impl OperationType {
    /// The target that the operation changes, where it changes one.
    pub open spec fn target(self) -> Option<Seq<char>> {
        match self {
            OperationType::DeleteFile { target_id, .. } => Some(target_id@),
            OperationType::DeleteDirEmpty { target_id, .. } => Some(target_id@),
            OperationType::PruneDirRecursive { target_id, .. } => Some(target_id@),
            _ => None,
        }
    }

    /// The path below the target, where the operation changes a target.
    pub open spec fn path(self) -> Option<Seq<char>> {
        match self {
            OperationType::DeleteFile { rel_path, .. } => Some(rel_path@),
            OperationType::DeleteDirEmpty { rel_path, .. } => Some(rel_path@),
            OperationType::PruneDirRecursive { rel_path, .. } => Some(rel_path@),
            _ => None,
        }
    }

    pub fn target_id(&self) -> (r: Option<&TargetId>)
        ensures
            r is Some <==> self.target() is Some,
            r is Some ==> Some(r->0@) == self.target(),
    {
        match self {
            OperationType::DeleteFile { target_id, .. } => Some(target_id),
            OperationType::DeleteDirEmpty { target_id, .. } => Some(target_id),
            OperationType::PruneDirRecursive { target_id, .. } => Some(target_id),
            _ => None,
        }
    }

    pub fn is_dir(&self) -> (r: bool)
        ensures
            r == (self is DeleteDirEmpty || self is PruneDirRecursive),
    {
        matches!(self, OperationType::DeleteDirEmpty { .. } | OperationType::PruneDirRecursive { .. })
    }
}

/// One operation of a plan, with the operations that must have succeeded first.
#[derive(Debug, Clone, PartialEq, Eq)]
pub struct PlannedOperation {
    pub op_id: OperationId,
    pub op_type: OperationType,
    pub dependencies: Vec<OperationId>,
    pub estimated_reclaim: ByteCount,
}

/// The operations of one job.
#[derive(Debug, Clone, PartialEq, Eq)]
pub struct PlannedPlan {
    pub plan_id: PlanId,
    pub job_id: JobId,
    pub catalog_generation: CatalogGeneration,
    pub config_generation: ConfigGeneration,
    pub operations: Vec<PlannedOperation>,
    pub total_estimated_reclaim: ByteCount,
    pub created_at: UnixTimestamp,
}

impl PlannedPlan {
    /// A plan made just now that does nothing.
    pub fn empty(
        job_id: JobId,
        catalog_generation: CatalogGeneration,
        config_generation: ConfigGeneration,
    ) -> (r: Self)
        ensures
            r.plan_id.0 == 1,
            r.job_id == job_id,
            r.catalog_generation == catalog_generation,
            r.config_generation == config_generation,
            r.operations@.len() == 0,
            r.total_estimated_reclaim.0 == 0,
    {
        PlannedPlan {
            plan_id: PlanId(1),
            job_id,
            catalog_generation,
            config_generation,
            operations: Vec::new(),
            total_estimated_reclaim: ByteCount(0),
            created_at: UnixTimestamp::now(),
        }
    }

    pub fn is_empty(&self) -> (r: bool)
        ensures
            r == (self.operations@.len() == 0),
    {
        self.operations.is_empty()
    }
}

/// An operation belongs to the target that it changes; one that trims or compacts
/// belongs to none. It is one on a directory where it removes or empties one.
pub proof fn law_operations_belong_to_their_target(
    op: &OperationType,
    target: Option<&TargetId>,
    dir: bool,
)
    requires
        call_ensures(OperationType::target_id, (op,), target),
        call_ensures(OperationType::is_dir, (op,), dir),
    ensures
        *op matches OperationType::DeleteFile { target_id, .. } ==> target is Some && target->0@
            == target_id@ && !dir,
        *op matches OperationType::DeleteDirEmpty { target_id, .. } ==> target is Some
            && target->0@ == target_id@ && dir,
        *op matches OperationType::PruneDirRecursive { target_id, .. } ==> target is Some
            && target->0@ == target_id@ && dir,
        *op is TrimFilesystem || *op is VacuumDatabase ==> target is None && !dir,
{
}

/// A plan without operations is empty and would free nothing, and belongs to its job and
/// its generations.
pub proof fn law_empty_plans_do_nothing(
    job: JobId,
    catalog: CatalogGeneration,
    config: ConfigGeneration,
    r: PlannedPlan,
    other: &PlannedPlan,
    empty: bool,
)
    requires
        call_ensures(PlannedPlan::empty, (job, catalog, config), r),
        call_ensures(PlannedPlan::is_empty, (other,), empty),
    ensures
        r.operations@.len() == 0 && r.total_estimated_reclaim.0 == 0,
        r.job_id == job && r.catalog_generation == catalog && r.config_generation == config,
        *other == r ==> empty,
        other.operations@.len() > 0 ==> !empty,
        other.operations@.len() == 0 ==> empty,
{
}

} // verus!
