//! Sorts out what a crash left behind.
use vstd::prelude::*;

use crate::catalog::CatalogSnapshot;
use crate::domain::intent::{IntentState, OperationIntent};
use crate::domain::result::{OperationFinalResult, OperationStatus, StatusModel};
use crate::domain::types::{AttemptId, ByteCount, JobId, UnixTimestamp};
use crate::planner;
use crate::postcondition::VerificationOutcome;
use crate::text;

verus! {

/// An attempt that a crash interrupted: its intents, and what was found on the disk
/// for each.
#[derive(Debug)]
pub struct InterruptedAttempt {
    pub attempt_id: AttemptId,
    pub job_id: JobId,
    pub intents: Vec<OperationIntent>,
    pub findings: Vec<VerificationOutcome>,
}

/// How one intent is resolved. There is a result to record where its target is
/// still known.
#[derive(Debug)]
pub struct IntentVerdict {
    pub state: IntentState,
    pub result: Option<OperationFinalResult>,
}

/// How an attempt is resolved.
#[derive(Debug, Clone, Copy, PartialEq, Eq, Structural)]
pub enum AttemptOutcome {
    /// Every intent was carried out.
    Recovered,
    /// What became of some intent cannot be told.
    Unresolved,
    /// Some intent was not carried out.
    Failed,
}

impl AttemptOutcome {
    /// The state stored for the attempt.
    pub fn attempt_state(&self) -> (r: &'static str)
        ensures
            r@ == match *self {
                AttemptOutcome::Recovered => "RECONCILED"@,
                AttemptOutcome::Unresolved => "UNRESOLVED"@,
                AttemptOutcome::Failed => "FAILED"@,
            },
    {
        match self {
            AttemptOutcome::Recovered => "RECONCILED",
            AttemptOutcome::Unresolved => "UNRESOLVED",
            AttemptOutcome::Failed => "FAILED",
        }
    }

    /// The state stored for the job.
    pub fn job_state(&self) -> (r: &'static str)
        ensures
            r@ == match *self {
                AttemptOutcome::Recovered => "RECOVERED"@,
                AttemptOutcome::Unresolved => "PARTIALLY_RECONCILED"@,
                AttemptOutcome::Failed => "FAILED"@,
            },
    {
        match self {
            AttemptOutcome::Recovered => "RECOVERED",
            AttemptOutcome::Unresolved => "PARTIALLY_RECONCILED",
            AttemptOutcome::Failed => "FAILED",
        }
    }
}

/// How an attempt is resolved, intent by intent and as a whole.
#[derive(Debug)]
pub struct AttemptReport {
    pub attempt_id: AttemptId,
    pub job_id: JobId,
    pub verdicts: Vec<IntentVerdict>,
    pub outcome: AttemptOutcome,
    pub total_reclaimed: ByteCount,
}

/// What is known of an intent: what was found where its target is known, nothing
/// where it is not.
pub open spec fn finding(
    snapshot: CatalogSnapshot,
    attempt: InterruptedAttempt,
    i: int,
) -> Option<VerificationOutcome> {
    if snapshot.targets@.contains_key(attempt.intents@[i].target_id@) {
        Some(attempt.findings@[i])
    } else {
        None
    }
}

/// The state that an intent is resolved to.
pub open spec fn resolved_state(found: Option<VerificationOutcome>) -> IntentState {
    match found {
        Some(o) => if o.is_gone() {
            IntentState::VerifiedSuccess
        } else if o.is_there() {
            IntentState::VerifiedFailed
        } else {
            IntentState::ResolvedUnknown
        },
        None => IntentState::ResolvedUnknown,
    }
}

/// What came of an operation, as far as the disk tells.
pub open spec fn recovered_status(o: VerificationOutcome) -> StatusModel {
    if o.is_gone() {
        StatusModel::Success
    } else if o.is_there() {
        StatusModel::Failed("Unfinished mutation post-crash: "@ + o.shown())
    } else {
        StatusModel::Skipped("Post-crash verification outcome: "@ + o.shown())
    }
}

/// The verdict on an intent.
pub open spec fn is_verdict(
    verdict: IntentVerdict,
    intent: OperationIntent,
    found: Option<VerificationOutcome>,
    now: UnixTimestamp,
) -> bool {
    &&& verdict.state == resolved_state(found)
    &&& match found {
        Some(o) => verdict.result matches Some(r) && r.op_id == intent.op_id && r.status@
            == recovered_status(o) && r.executed_at == now && r.reclaimed_bytes == if o.is_gone() {
            intent.estimated_bytes
        } else {
            ByteCount(0)
        },
        None => verdict.result is None,
    }
}

/// The bytes reclaimed by the first `n` intents.
pub open spec fn recovered_bytes(
    snapshot: CatalogSnapshot,
    attempt: InterruptedAttempt,
    n: int,
) -> int
    decreases n,
{
    if n <= 0 {
        0
    } else {
        recovered_bytes(snapshot, attempt, n - 1) + match finding(snapshot, attempt, n - 1) {
            Some(o) => if o.is_gone() {
                attempt.intents@[n - 1].estimated_bytes.0 as int
            } else {
                0
            },
            None => 0,
        }
    }
}

/// One of the first `n` intents was resolved to this state.
pub open spec fn some_resolved_to(
    snapshot: CatalogSnapshot,
    attempt: InterruptedAttempt,
    n: int,
    state: IntentState,
) -> bool {
    exists|i: int| 0 <= i < n && resolved_state(#[trigger] finding(snapshot, attempt, i)) == state
}

/// How the attempt as a whole is resolved.
pub open spec fn attempt_outcome(
    snapshot: CatalogSnapshot,
    attempt: InterruptedAttempt,
) -> AttemptOutcome {
    let n = attempt.intents@.len() as int;
    if some_resolved_to(snapshot, attempt, n, IntentState::ResolvedUnknown) {
        AttemptOutcome::Unresolved
    } else if some_resolved_to(snapshot, attempt, n, IntentState::VerifiedFailed) {
        AttemptOutcome::Failed
    } else {
        AttemptOutcome::Recovered
    }
}

/// The report on an attempt.
pub open spec fn is_report(
    report: AttemptReport,
    snapshot: CatalogSnapshot,
    attempt: InterruptedAttempt,
    now: UnixTimestamp,
) -> bool {
    &&& report.attempt_id == attempt.attempt_id
    &&& report.job_id == attempt.job_id
    &&& report.verdicts@.len() == attempt.intents@.len()
    &&& forall|i: int|
        0 <= i < report.verdicts@.len() ==> is_verdict(
            #[trigger] report.verdicts@[i],
            attempt.intents@[i],
            finding(snapshot, attempt, i),
            now,
        )
    &&& report.outcome == attempt_outcome(snapshot, attempt)
    &&& report.total_reclaimed.0 == planner::capped(
        recovered_bytes(snapshot, attempt, attempt.intents@.len() as int),
    )
}

/// The number of the first `n` attempts that were recovered as a whole.
pub open spec fn recovered_count(
    snapshot: CatalogSnapshot,
    attempts: Seq<InterruptedAttempt>,
    n: int,
) -> int
    decreases n,
{
    if n <= 0 {
        0
    } else {
        recovered_count(snapshot, attempts, n - 1) + if attempt_outcome(snapshot, attempts[n - 1])
            == AttemptOutcome::Recovered {
            1int
        } else {
            0int
        }
    }
}

/// There is a finding for every intent.
pub open spec fn is_complete(attempt: InterruptedAttempt) -> bool {
    attempt.findings@.len() == attempt.intents@.len()
}

/// Every attempt is complete.
pub open spec fn all_complete(attempts: Seq<InterruptedAttempt>) -> bool {
    forall|i: int| 0 <= i < attempts.len() ==> is_complete(#[trigger] attempts[i])
}

/// Sorts out interrupted attempts.
#[derive(Debug)]
pub struct RecoveryEngine;

impl Default for RecoveryEngine {
    fn default() -> (r: Self) {
        RecoveryEngine
    }
}

fn judge_intent(
    intent: &OperationIntent,
    found: Option<VerificationOutcome>,
    now: UnixTimestamp,
) -> (r: IntentVerdict)
    ensures
        is_verdict(r, *intent, found, now),
{
    let o = match found {
        Some(o) => o,
        None => {
            return IntentVerdict { state: IntentState::ResolvedUnknown, result: None };
        },
    };
    let (state, status, reclaimed_bytes) = if o.gone() {
        (IntentState::VerifiedSuccess, OperationStatus::Success, intent.estimated_bytes)
    } else if o.there() {
        (
            IntentState::VerifiedFailed,
            OperationStatus::Failed {
                error: text::with_lead("Unfinished mutation post-crash: ", o.as_str()),
            },
            ByteCount(0),
        )
    } else {
        (
            IntentState::ResolvedUnknown,
            OperationStatus::Skipped {
                reason: text::with_lead("Post-crash verification outcome: ", o.as_str()),
            },
            ByteCount(0),
        )
    };
    IntentVerdict {
        state,
        result: Some(
            OperationFinalResult { op_id: intent.op_id, status, reclaimed_bytes, executed_at: now },
        ),
    }
}

proof fn lemma_resolved_step(
    snapshot: CatalogSnapshot,
    attempt: InterruptedAttempt,
    n: int,
    state: IntentState,
)
    requires
        0 <= n,
    ensures
        some_resolved_to(snapshot, attempt, n + 1, state) <==> some_resolved_to(
            snapshot,
            attempt,
            n,
            state,
        ) || resolved_state(finding(snapshot, attempt, n)) == state,
{
    if some_resolved_to(snapshot, attempt, n + 1, state) {
        let i = choose|i: int|
            0 <= i < n + 1 && resolved_state(#[trigger] finding(snapshot, attempt, i)) == state;
        assert(i < n ==> some_resolved_to(snapshot, attempt, n, state));
    }
    if some_resolved_to(snapshot, attempt, n, state) {
        let i = choose|i: int|
            0 <= i < n && resolved_state(#[trigger] finding(snapshot, attempt, i)) == state;
        assert(resolved_state(finding(snapshot, attempt, i)) == state);
    }
}

impl RecoveryEngine {
    pub fn new() -> (r: Self) {
        RecoveryEngine
    }

    /// Sorts out one interrupted attempt.
    pub fn reconcile_attempt(
        &self,
        snapshot: &CatalogSnapshot,
        attempt: &InterruptedAttempt,
        now: UnixTimestamp,
    ) -> (r: AttemptReport)
        requires
            is_complete(*attempt),
        ensures
            is_report(r, *snapshot, *attempt, now),
    {
        let mut verdicts: Vec<IntentVerdict> = Vec::new();
        let mut total_reclaimed = ByteCount(0);
        let mut all_succeeded = true;
        let mut has_unknown = false;
        let mut i: usize = 0;
        while i < attempt.intents.len()
            invariant
                i <= attempt.intents.len(),
                is_complete(*attempt),
                verdicts.len() == i,
                forall|j: int|
                    0 <= j < i ==> is_verdict(
                        #[trigger] verdicts@[j],
                        attempt.intents@[j],
                        finding(*snapshot, *attempt, j),
                        now,
                    ),
                recovered_bytes(*snapshot, *attempt, i as int) >= 0,
                total_reclaimed.0 == planner::capped(
                    recovered_bytes(*snapshot, *attempt, i as int),
                ),
                has_unknown == some_resolved_to(
                    *snapshot,
                    *attempt,
                    i as int,
                    IntentState::ResolvedUnknown,
                ),
                all_succeeded == (!has_unknown && !some_resolved_to(
                    *snapshot,
                    *attempt,
                    i as int,
                    IntentState::VerifiedFailed,
                )),
            decreases attempt.intents.len() - i,
        {
            let intent = &attempt.intents[i];
            let found = match snapshot.get(&intent.target_id) {
                Some(_) => Some(attempt.findings[i]),
                None => None,
            };
            assert(found == finding(*snapshot, *attempt, i as int));
            let verdict = judge_intent(intent, found, now);
            match verdict.state {
                IntentState::VerifiedSuccess => {
                    total_reclaimed = total_reclaimed.saturating_add(intent.estimated_bytes);
                },
                IntentState::VerifiedFailed => {
                    all_succeeded = false;
                },
                _ => {
                    all_succeeded = false;
                    has_unknown = true;
                },
            }
            proof {
                lemma_resolved_step(
                    *snapshot,
                    *attempt,
                    i as int,
                    IntentState::ResolvedUnknown,
                );
                lemma_resolved_step(
                    *snapshot,
                    *attempt,
                    i as int,
                    IntentState::VerifiedFailed,
                );
            }
            verdicts.push(verdict);
            i = i + 1;
        }
        let outcome = if all_succeeded {
            AttemptOutcome::Recovered
        } else if has_unknown {
            AttemptOutcome::Unresolved
        } else {
            AttemptOutcome::Failed
        };
        AttemptReport {
            attempt_id: attempt.attempt_id,
            job_id: attempt.job_id,
            verdicts,
            outcome,
            total_reclaimed,
        }
    }

    /// Sorts out all interrupted attempts, and counts those that were recovered as a
    /// whole.
    pub fn reconcile_startup_crashes(
        &self,
        snapshot: &CatalogSnapshot,
        attempts: &Vec<InterruptedAttempt>,
        now: UnixTimestamp,
    ) -> (r: (Vec<AttemptReport>, usize))
        requires
            all_complete(attempts@),
        ensures
            r.0@.len() == attempts@.len(),
            forall|i: int|
                0 <= i < attempts@.len() ==> is_report(
                    #[trigger] r.0@[i],
                    *snapshot,
                    attempts@[i],
                    now,
                ),
            r.1 == recovered_count(*snapshot, attempts@, attempts@.len() as int),
    {
        let mut reports: Vec<AttemptReport> = Vec::new();
        let mut count: usize = 0;
        let mut i: usize = 0;
        while i < attempts.len()
            invariant
                i <= attempts.len(),
                all_complete(attempts@),
                reports.len() == i,
                count <= i,
                count == recovered_count(*snapshot, attempts@, i as int),
                forall|j: int|
                    0 <= j < i ==> is_report(
                        #[trigger] reports@[j],
                        *snapshot,
                        attempts@[j],
                        now,
                    ),
            decreases attempts.len() - i,
        {
            let report = self.reconcile_attempt(snapshot, &attempts[i], now);
            if report.outcome == AttemptOutcome::Recovered {
                count = count + 1;
            }
            reports.push(report);
            i = i + 1;
        }
        (reports, count)
    }
}

/// An attempt counts as recovered exactly where every one of its intents was seen
/// to be carried out.
pub proof fn law_recovered_means_all_gone(snapshot: CatalogSnapshot, attempt: InterruptedAttempt)
    ensures
        attempt_outcome(snapshot, attempt) == AttemptOutcome::Recovered <==> forall|i: int|
            0 <= i < attempt.intents@.len() ==> ((#[trigger] finding(
                snapshot,
                attempt,
                i,
            )) matches Some(o) && o.is_gone()),
{
    let n = attempt.intents@.len() as int;
    if attempt_outcome(snapshot, attempt) == AttemptOutcome::Recovered {
        assert forall|i: int| 0 <= i < n implies ((#[trigger] finding(
            snapshot,
            attempt,
            i,
        )) matches Some(o) && o.is_gone()) by {
            let state = resolved_state(finding(snapshot, attempt, i));
            assert(state != IntentState::ResolvedUnknown);
            assert(state != IntentState::VerifiedFailed);
        }
    }
}

/// After a crash an intent is resolved by what is found: carried out where the item is
/// gone, failed where it is there, and unknown where neither can be told or the target
/// is not known any more. There is a result exactly where the target is known, for the
/// intent's own operation, and it reclaims what was expected exactly where the item is
/// gone.
pub proof fn law_intents_are_resolved_by_what_is_found(
    engine: &RecoveryEngine,
    snapshot: &CatalogSnapshot,
    attempt: &InterruptedAttempt,
    now: UnixTimestamp,
    r: AttemptReport,
    i: int,
)
    requires
        call_ensures(RecoveryEngine::reconcile_attempt, (engine, snapshot, attempt, now), r),
        0 <= i < attempt.intents@.len(),
    ensures
        r.attempt_id == attempt.attempt_id,
        r.job_id == attempt.job_id,
        r.verdicts@.len() == attempt.intents@.len(),
        ({
            let intent = attempt.intents@[i];
            let verdict = r.verdicts@[i];
            let known = snapshot.targets@.contains_key(intent.target_id@);
            let found = attempt.findings@[i];
            let gone = found == VerificationOutcome::ConfirmedDeleted || found
                == VerificationOutcome::AlreadyGone;
            let there = found == VerificationOutcome::StillPresent || found
                == VerificationOutcome::IdentityMismatch;
            &&& verdict.state == IntentState::VerifiedSuccess <==> known && gone
            &&& verdict.state == IntentState::VerifiedFailed <==> known && there
            &&& verdict.state == IntentState::ResolvedUnknown <==> !known || (!gone && !there)
            &&& verdict.result is Some <==> known
            &&& verdict.result matches Some(result) ==> {
                &&& result.op_id == intent.op_id
                &&& result.executed_at == now
                &&& result.status@ is Success <==> gone
                &&& result.status@ is Failed <==> there
                &&& result.status@ is Skipped <==> !gone && !there
                &&& gone ==> result.reclaimed_bytes == intent.estimated_bytes
                &&& !gone ==> result.reclaimed_bytes.0 == 0
            }
        }),
{
    assert(is_verdict(
        r.verdicts@[i],
        attempt.intents@[i],
        finding(*snapshot, *attempt, i),
        now,
    ));
}

/// An attempt is unresolved where one of its intents is, failed where one of them failed
/// and none is unresolved, and recovered where all were carried out.
pub proof fn law_attempt_is_what_its_intents_are(
    engine: &RecoveryEngine,
    snapshot: &CatalogSnapshot,
    attempt: &InterruptedAttempt,
    now: UnixTimestamp,
    r: AttemptReport,
)
    requires
        call_ensures(RecoveryEngine::reconcile_attempt, (engine, snapshot, attempt, now), r),
    ensures
        ({
            let unknown = exists|i: int|
                0 <= i < r.verdicts@.len() && (#[trigger] r.verdicts@[i]).state
                    == IntentState::ResolvedUnknown;
            let failed = exists|i: int|
                0 <= i < r.verdicts@.len() && (#[trigger] r.verdicts@[i]).state
                    == IntentState::VerifiedFailed;
            &&& r.outcome == AttemptOutcome::Unresolved <==> unknown
            &&& r.outcome == AttemptOutcome::Failed <==> failed && !unknown
            &&& r.outcome == AttemptOutcome::Recovered <==> !failed && !unknown
        }),
{
    let n = attempt.intents@.len() as int;
    assert forall|i: int| 0 <= i < n implies (#[trigger] r.verdicts@[i]).state == resolved_state(
        finding(*snapshot, *attempt, i),
    ) by {
        assert(is_verdict(
            r.verdicts@[i],
            attempt.intents@[i],
            finding(*snapshot, *attempt, i),
            now,
        ));
    }
    if some_resolved_to(*snapshot, *attempt, n, IntentState::ResolvedUnknown) {
        let i = choose|i: int|
            0 <= i < n && resolved_state(#[trigger] finding(*snapshot, *attempt, i))
                == IntentState::ResolvedUnknown;
        assert(r.verdicts@[i].state == IntentState::ResolvedUnknown);
    }
    if some_resolved_to(*snapshot, *attempt, n, IntentState::VerifiedFailed) {
        let i = choose|i: int|
            0 <= i < n && resolved_state(#[trigger] finding(*snapshot, *attempt, i))
                == IntentState::VerifiedFailed;
        assert(r.verdicts@[i].state == IntentState::VerifiedFailed);
    }
    if exists|i: int|
        0 <= i < r.verdicts@.len() && (#[trigger] r.verdicts@[i]).state
            == IntentState::ResolvedUnknown {
        let i = choose|i: int|
            0 <= i < r.verdicts@.len() && (#[trigger] r.verdicts@[i]).state
                == IntentState::ResolvedUnknown;
        let f = finding(*snapshot, *attempt, i);
        assert(resolved_state(f) == IntentState::ResolvedUnknown);
    }
    if exists|i: int|
        0 <= i < r.verdicts@.len() && (#[trigger] r.verdicts@[i]).state
            == IntentState::VerifiedFailed {
        let i = choose|i: int|
            0 <= i < r.verdicts@.len() && (#[trigger] r.verdicts@[i]).state
                == IntentState::VerifiedFailed;
        let f = finding(*snapshot, *attempt, i);
        assert(resolved_state(f) == IntentState::VerifiedFailed);
    }
}

/// The bytes of the results, added up.
pub open spec fn result_bytes(verdicts: Seq<IntentVerdict>) -> int
    decreases verdicts.len(),
{
    if verdicts.len() == 0 {
        0
    } else {
        result_bytes(verdicts.drop_last()) + match verdicts.last().result {
            Some(result) => result.reclaimed_bytes.0 as int,
            None => 0,
        }
    }
}

proof fn lemma_result_bytes(
    verdicts: Seq<IntentVerdict>,
    snapshot: CatalogSnapshot,
    attempt: InterruptedAttempt,
    now: UnixTimestamp,
    n: int,
)
    requires
        0 <= n <= verdicts.len(),
        forall|i: int|
            0 <= i < verdicts.len() ==> is_verdict(
                #[trigger] verdicts[i],
                attempt.intents@[i],
                finding(snapshot, attempt, i),
                now,
            ),
    ensures
        result_bytes(verdicts.take(n)) == recovered_bytes(snapshot, attempt, n),
    decreases n,
{
    if n > 0 {
        lemma_result_bytes(verdicts, snapshot, attempt, now, n - 1);
        assert(verdicts.take(n).drop_last() =~= verdicts.take(n - 1));
        assert(is_verdict(
            verdicts[n - 1],
            attempt.intents@[n - 1],
            finding(snapshot, attempt, n - 1),
            now,
        ));
    }
}

/// An attempt reclaims what its results reclaim together, as far as that can be held.
pub proof fn law_attempt_adds_up_its_results(
    engine: &RecoveryEngine,
    snapshot: &CatalogSnapshot,
    attempt: &InterruptedAttempt,
    now: UnixTimestamp,
    r: AttemptReport,
)
    requires
        call_ensures(RecoveryEngine::reconcile_attempt, (engine, snapshot, attempt, now), r),
    ensures
        result_bytes(r.verdicts@) <= u64::MAX ==> r.total_reclaimed.0 == result_bytes(r.verdicts@),
        result_bytes(r.verdicts@) > u64::MAX ==> r.total_reclaimed.0 == u64::MAX,
{
    let n = r.verdicts@.len() as int;
    lemma_result_bytes(r.verdicts@, *snapshot, *attempt, now, n);
    assert(r.verdicts@.take(n) =~= r.verdicts@);
}

/// The reports among these that are of recovered attempts.
pub open spec fn recovered_among(reports: Seq<AttemptReport>) -> int
    decreases reports.len(),
{
    if reports.len() == 0 {
        0
    } else {
        recovered_among(reports.drop_last()) + if reports.last().outcome
            == AttemptOutcome::Recovered {
            1int
        } else {
            0
        }
    }
}

proof fn lemma_recovered_among(
    reports: Seq<AttemptReport>,
    snapshot: CatalogSnapshot,
    attempts: Seq<InterruptedAttempt>,
    now: UnixTimestamp,
    n: int,
)
    requires
        0 <= n <= reports.len() == attempts.len(),
        forall|i: int|
            0 <= i < attempts.len() ==> is_report(#[trigger] reports[i], snapshot, attempts[i], now),
    ensures
        recovered_among(reports.take(n)) == recovered_count(snapshot, attempts, n),
    decreases n,
{
    if n > 0 {
        lemma_recovered_among(reports, snapshot, attempts, now, n - 1);
        assert(reports.take(n).drop_last() =~= reports.take(n - 1));
        assert(is_report(reports[n - 1], snapshot, attempts[n - 1], now));
    }
}

/// Every interrupted attempt gets its report, in their order, and those are counted that
/// were recovered.
pub proof fn law_every_attempt_is_reported(
    engine: &RecoveryEngine,
    snapshot: &CatalogSnapshot,
    attempts: &Vec<InterruptedAttempt>,
    now: UnixTimestamp,
    r: (Vec<AttemptReport>, usize),
)
    requires
        call_ensures(
            RecoveryEngine::reconcile_startup_crashes,
            (engine, snapshot, attempts, now),
            r,
        ),
    ensures
        r.0@.len() == attempts@.len(),
        forall|i: int|
            0 <= i < attempts@.len() ==> (#[trigger] r.0@[i]).attempt_id == attempts@[i].attempt_id
                && r.0@[i].job_id == attempts@[i].job_id && r.0@[i].verdicts@.len()
                == attempts@[i].intents@.len(),
        r.1 == recovered_among(r.0@),
{
    let n = attempts@.len() as int;
    lemma_recovered_among(r.0@, *snapshot, attempts@, now, n);
    assert(r.0@.take(n) =~= r.0@);
    assert forall|i: int| 0 <= i < attempts@.len() implies (#[trigger] r.0@[i]).attempt_id
        == attempts@[i].attempt_id && r.0@[i].job_id == attempts@[i].job_id
        && r.0@[i].verdicts@.len() == attempts@[i].intents@.len() by {
        assert(is_report(r.0@[i], *snapshot, attempts@[i], now));
    }
}

/// What is stored for an attempt and its job is told by how it was sorted out.
pub proof fn law_outcomes_are_stored(
    o: &AttemptOutcome,
    attempt: &'static str,
    job: &'static str,
)
    requires
        call_ensures(AttemptOutcome::attempt_state, (o,), attempt),
        call_ensures(AttemptOutcome::job_state, (o,), job),
    ensures
        *o is Recovered ==> attempt@ == "RECONCILED"@ && job@ == "RECOVERED"@,
        *o is Unresolved ==> attempt@ == "UNRESOLVED"@ && job@ == "PARTIALLY_RECONCILED"@,
        *o is Failed ==> attempt@ == "FAILED"@ && job@ == "FAILED"@,
{
}

} // verus!
