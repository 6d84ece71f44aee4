//! What came of a job.
use vstd::prelude::*;

use crate::domain::types::{AttemptId, ByteCount, JobId, OperationId, UnixTimestamp};

verus! {

/// What came of one operation.
#[derive(Debug, Clone, PartialEq, Eq)]
pub enum OperationStatus {
    /// Done, and seen to be done.
    Success,
    /// The system refused.
    Failed { error: String },
    /// The system reported success, but the item is still there.
    VerificationFailed { reason: String },
    /// Left out on purpose.
    Skipped { reason: String },
    /// Left out because the job was cancelled.
    Preempted,
}

/// What came of one operation, in terms of characters.
pub enum StatusModel {
    Success,
    Failed(Seq<char>),
    VerificationFailed(Seq<char>),
    Skipped(Seq<char>),
    Preempted,
}

impl View for OperationStatus {
    type V = StatusModel;

    open spec fn view(&self) -> StatusModel {
        match self {
            OperationStatus::Success => StatusModel::Success,
            OperationStatus::Failed { error } => StatusModel::Failed(error@),
            OperationStatus::VerificationFailed { reason } => StatusModel::VerificationFailed(
                reason@,
            ),
            OperationStatus::Skipped { reason } => StatusModel::Skipped(reason@),
            OperationStatus::Preempted => StatusModel::Preempted,
        }
    }
}

impl OperationStatus {
    pub fn is_success(&self) -> (r: bool)
        ensures
            r == (self is Success),
    {
        matches!(self, OperationStatus::Success)
    }
}

/// The result of one operation.
#[derive(Debug, Clone, PartialEq, Eq)]
pub struct OperationFinalResult {
    pub op_id: OperationId,
    pub status: OperationStatus,
    pub reclaimed_bytes: ByteCount,
    pub executed_at: UnixTimestamp,
}

impl OperationFinalResult {
    /// A copy of this result.
    pub fn copy(&self) -> (r: Self)
        ensures
            r == *self,
    {
        OperationFinalResult {
            op_id: self.op_id,
            status: match &self.status {
                OperationStatus::Success => OperationStatus::Success,
                OperationStatus::Failed { error } => OperationStatus::Failed {
                    error: error.clone(),
                },
                OperationStatus::VerificationFailed { reason } =>
                    OperationStatus::VerificationFailed { reason: reason.clone() },
                OperationStatus::Skipped { reason } => OperationStatus::Skipped {
                    reason: reason.clone(),
                },
                OperationStatus::Preempted => OperationStatus::Preempted,
            },
            reclaimed_bytes: self.reclaimed_bytes,
            executed_at: self.executed_at,
        }
    }
}

/// The result of one operation, in terms of characters.
pub struct ResultModel {
    pub op_id: OperationId,
    pub status: StatusModel,
    pub reclaimed_bytes: ByteCount,
    pub executed_at: UnixTimestamp,
}

impl View for OperationFinalResult {
    type V = ResultModel;

    open spec fn view(&self) -> ResultModel {
        ResultModel {
            op_id: self.op_id,
            status: self.status@,
            reclaimed_bytes: self.reclaimed_bytes,
            executed_at: self.executed_at,
        }
    }
}

/// The sums over one attempt at a job.
#[derive(Debug, Clone, PartialEq, Eq, Structural)]
pub struct JobResult {
    pub job_id: JobId,
    pub attempt_id: AttemptId,
    pub total_reclaimed: ByteCount,
    pub total_operations: usize,
    pub successful_operations: usize,
    pub failed_operations: usize,
    pub skipped_operations: usize,
    pub duration_ms: u64,
}

/// An operation succeeded only where it was seen to be done.
pub proof fn law_only_success_is_success(s: &OperationStatus, r: bool)
    requires
        call_ensures(OperationStatus::is_success, (s,), r),
    ensures
        *s is Success ==> r,
        *s is Failed || *s is VerificationFailed || *s is Skipped || *s is Preempted ==> !r,
{
}

/// A copy of a result tells the same.
pub proof fn law_copied_results_tell_the_same(s: &OperationFinalResult, r: OperationFinalResult)
    requires
        call_ensures(OperationFinalResult::copy, (s,), r),
    ensures
        r.op_id == s.op_id && r.reclaimed_bytes == s.reclaimed_bytes && r.executed_at
            == s.executed_at,
        s.status is Success <==> r.status is Success,
        s.status matches OperationStatus::Failed { error } ==> (
        r.status matches OperationStatus::Failed { error: e } && e@ == error@),
        s.status matches OperationStatus::VerificationFailed { reason } ==> (
        r.status matches OperationStatus::VerificationFailed { reason: e } && e@ == reason@),
        s.status matches OperationStatus::Skipped { reason } ==> (
        r.status matches OperationStatus::Skipped { reason: e } && e@ == reason@),
        s.status is Preempted <==> r.status is Preempted,
{
}

} // verus!
