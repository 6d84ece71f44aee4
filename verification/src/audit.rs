//! The lasting record of what jobs did.
use vstd::prelude::*;
use vstd::std_specs::convert::FromSpecImpl;

use crate::domain::result::JobResult;
use crate::domain::types::{JobId, UnixTimestamp};

verus! {

/// The size at which the log is put aside and begun anew.
pub const MAX_AUDIT_LOG_SIZE_BYTES: u64 = 10_485_760;

/// One line of the log.
#[derive(Debug, Clone, PartialEq, Eq, Structural)]
pub struct JobAuditRecord {
    pub job_id: JobId,
    pub attempt_id: u64,
    pub recorded_at: UnixTimestamp,
    pub duration_ms: u64,
    pub total_reclaimed_bytes: u64,
    pub operations_total: usize,
    pub operations_successful: usize,
    pub operations_failed: usize,
    pub operations_skipped: usize,
    pub success: bool,
}

impl JobAuditRecord {
    /// The line for a result, written at `now`. A job succeeded where no operation
    /// failed.
    pub open spec fn line(result: JobResult, now: UnixTimestamp) -> JobAuditRecord {
        JobAuditRecord {
            job_id: result.job_id,
            attempt_id: result.attempt_id.0,
            recorded_at: now,
            duration_ms: result.duration_ms,
            total_reclaimed_bytes: result.total_reclaimed.0,
            operations_total: result.total_operations,
            operations_successful: result.successful_operations,
            operations_failed: result.failed_operations,
            operations_skipped: result.skipped_operations,
            success: result.failed_operations == 0,
        }
    }

    /// The line for a result, written at `now`.
    pub fn at(result: &JobResult, now: UnixTimestamp) -> (r: Self)
        ensures
            r == JobAuditRecord::line(*result, now),
    {
        JobAuditRecord {
            job_id: result.job_id,
            attempt_id: result.attempt_id.0,
            recorded_at: now,
            duration_ms: result.duration_ms,
            total_reclaimed_bytes: result.total_reclaimed.as_u64(),
            operations_total: result.total_operations,
            operations_successful: result.successful_operations,
            operations_failed: result.failed_operations,
            operations_skipped: result.skipped_operations,
            success: result.failed_operations == 0,
        }
    }
}

impl From<&JobResult> for JobAuditRecord {
    /// The line for a result, written now.
    fn from(result: &JobResult) -> (r: Self)
        ensures
            r == JobAuditRecord::line(*result, r.recorded_at),
    {
        JobAuditRecord::at(result, UnixTimestamp::now())
    }
}

impl FromSpecImpl<&JobResult> for JobAuditRecord {
    open spec fn obeys_from_spec() -> bool {
        false
    }

    open spec fn from_spec(result: &JobResult) -> Self {
        JobAuditRecord::line(*result, UnixTimestamp(0))
    }
}

/// `true` where a log of this size is to be put aside before the next line.
pub fn must_rotate(log_size: u64) -> (r: bool)
    ensures
        r == (log_size >= MAX_AUDIT_LOG_SIZE_BYTES),
{
    log_size >= MAX_AUDIT_LOG_SIZE_BYTES
}

/// A line of the log tells what the result says, each number as it is, and that the job
/// succeeded exactly where nothing failed.
pub proof fn law_lines_tell_the_result(
    result: &JobResult,
    now: UnixTimestamp,
    r: JobAuditRecord,
)
    requires
        call_ensures(JobAuditRecord::at, (result, now), r),
    ensures
        r.job_id == result.job_id,
        r.attempt_id == result.attempt_id.0,
        r.recorded_at == now,
        r.duration_ms == result.duration_ms,
        r.total_reclaimed_bytes == result.total_reclaimed.0,
        r.operations_total == result.total_operations,
        r.operations_successful == result.successful_operations,
        r.operations_failed == result.failed_operations,
        r.operations_skipped == result.skipped_operations,
        r.success <==> result.failed_operations == 0,
{
}

/// A line that is written now tells the same, but for the moment.
pub proof fn law_lines_written_now_tell_the_result(
    result: &JobResult,
    r: JobAuditRecord,
    s: JobAuditRecord,
)
    requires
        call_ensures(JobAuditRecord::from, (result,), r),
        call_ensures(JobAuditRecord::at, (result, r.recorded_at), s),
    ensures
        r == s,
        r.success <==> result.failed_operations == 0,
        r.total_reclaimed_bytes == result.total_reclaimed.0,
{
}

/// The log is put aside from ten megabytes on, and not before.
pub proof fn law_log_is_put_aside_at_ten_megabytes(size: u64, r: bool)
    requires
        call_ensures(must_rotate, (size,), r),
    ensures
        r <==> size >= 10 * 1024 * 1024,
{
}

} // verus!
