//! Carries out a plan, one operation at a time.
//!
//! The executor decides; whoever runs it touches the disk and the store. Each
//! method is told what came of the last step and says what to do next.
use std::collections::HashSet;
use vstd::prelude::*;

use crate::auth;
use crate::catalog::CatalogSnapshot;
use crate::domain::grant;
use crate::domain::grant::{AuthorizedPlan, Capability};
use crate::domain::intent::{IntentState, MutationType, OperationIntent};
use crate::domain::plan::{OperationType, PlannedOperation};
use crate::domain::result::{
    JobResult, OperationFinalResult, OperationStatus, ResultModel, StatusModel,
};
use crate::domain::target::TargetSafetyTier;
use crate::domain::types;
use crate::domain::types::{
    AttemptId, ByteCount, ConfigGeneration, FileIdentity, OperationId, RelativePath, TargetId,
    UnixTimestamp,
};
use crate::error::CleanerError;
use crate::paths;
use crate::planner;
use crate::postcondition::VerificationOutcome;
use crate::resource::{ReservationId, ResourceManager, Taken, TargetLockPermit};
use crate::safety;
use crate::safety::SafetyGate;
use crate::text;

verus! {

/// How far the current operation has come.
#[derive(Debug, Clone, Copy, PartialEq, Eq, Structural)]
pub enum Stage {
    /// No operation is under way.
    Idle,
    /// Waiting for the rate limit.
    Throttling,
    /// The intent is being stored.
    Committing,
    /// The intent is being marked as under way.
    Marking,
    /// The change is being made and checked.
    Mutating,
    /// The intent is being resolved.
    Resolving,
    /// The result is being recorded.
    Recording,
    /// The run was given up.
    Aborted,
}

/// A change to make: open the parent directory, or reuse the one that is open, then
/// remove the item there and look whether it is gone.
#[derive(Debug)]
pub struct MutationOrder {
    pub base_path: String,
    pub parent: Vec<String>,
    pub leaf: String,
    pub expected_identity: FileIdentity,
    pub is_dir: bool,
    pub reuse_parent: bool,
}

/// What came of a change.
#[derive(Debug)]
pub enum MutationReport {
    /// The parent directory could not be opened.
    ParentFailed(String),
    /// The change was tried, with this error if any, and this was found after it.
    Tried { error: Option<String>, outcome: VerificationOutcome },
}

/// A result to record.
#[derive(Debug)]
pub struct RecordOrder {
    pub target_id: TargetId,
    pub kind: MutationType,
    pub rel_path: RelativePath,
    pub expected_identity: FileIdentity,
    pub estimated_bytes: ByteCount,
    pub result: OperationFinalResult,
}

/// What to do next.
#[derive(Debug)]
pub enum Step {
    /// Nothing: the plan is done.
    Finished,
    /// Begin the next operation.
    Settled,
    /// Wait for the rate limit.
    Throttle,
    /// Store the intent.
    Commit(OperationIntent),
    /// Mark the intent as under way.
    Mark,
    /// Make the change.
    Mutate(MutationOrder),
    /// Store how the intent was resolved.
    Resolve(IntentState),
    /// Record the result.
    Record(RecordOrder),
    /// Stop: the store failed.
    Abort,
}

/// The directory that is open.
#[derive(Debug)]
struct OpenParent {
    target: TargetId,
    parent: Vec<String>,
}

/// The operation with this number succeeded.
pub open spec fn succeeded_in(results: Seq<ResultModel>, id: OperationId) -> bool {
    exists|i: int|
        0 <= i < results.len() && (#[trigger] results[i]).op_id == id && results[i].status
            == StatusModel::Success
}

/// Every operation that `op` waits for succeeded.
pub open spec fn deps_met(results: Seq<ResultModel>, op: PlannedOperation) -> bool {
    forall|d: int|
        0 <= d < op.dependencies@.len() ==> succeeded_in(results, #[trigger] op.dependencies@[d])
}

/// The plan's grant covers `op`.
pub open spec fn is_granted(plan: AuthorizedPlan, op: PlannedOperation) -> bool {
    grant::allowed_by(plan.grant.capabilities@).contains(auth::needed(op.op_type))
}

/// The operation removes a file or an empty directory.
pub open spec fn is_removal(op: OperationType) -> bool {
    op is DeleteFile || op is DeleteDirEmpty
}

/// The number of results that are successes.
pub open spec fn successes(results: Seq<ResultModel>) -> nat
    decreases results.len(),
{
    if results.len() == 0 {
        0
    } else {
        successes(results.drop_last()) + if results.last().status == StatusModel::Success {
            1nat
        } else {
            0nat
        }
    }
}

/// The number of results that are failures.
pub open spec fn failures(results: Seq<ResultModel>) -> nat
    decreases results.len(),
{
    if results.len() == 0 {
        0
    } else {
        failures(results.drop_last()) + if results.last().status is Failed
            || results.last().status is VerificationFailed {
            1nat
        } else {
            0nat
        }
    }
}

/// The number of results that say that nothing was done.
pub open spec fn skips(results: Seq<ResultModel>) -> nat
    decreases results.len(),
{
    if results.len() == 0 {
        0
    } else {
        skips(results.drop_last()) + if results.last().status is Skipped
            || results.last().status is Preempted {
            1nat
        } else {
            0nat
        }
    }
}

/// The bytes reclaimed by all results together.
pub open spec fn reclaimed(results: Seq<ResultModel>) -> int
    decreases results.len(),
{
    if results.len() == 0 {
        0
    } else {
        reclaimed(results.drop_last()) + results.last().reclaimed_bytes.0
    }
}

/// The result reclaims no more than the operation was expected to, and nothing
/// where it is no success.
pub open spec fn is_bounded(result: ResultModel, op: PlannedOperation) -> bool {
    result.reclaimed_bytes.0 <= if result.status == StatusModel::Success {
        estimate(op.op_type).0
    } else {
        0
    }
}

/// The bytes that all operations together are expected to reclaim.
pub open spec fn estimates(ops: Seq<PlannedOperation>) -> int
    decreases ops.len(),
{
    if ops.len() == 0 {
        0
    } else {
        estimates(ops.drop_last()) + estimate(ops.last().op_type).0
    }
}

proof fn lemma_counts(results: Seq<ResultModel>)
    ensures
        successes(results) + failures(results) + skips(results) == results.len(),
        reclaimed(results) >= 0,
    decreases results.len(),
{
    if results.len() > 0 {
        lemma_counts(results.drop_last());
    }
}

/// A run, in terms of characters.
pub struct RunModel {
    pub plan: AuthorizedPlan,
    pub catalog: CatalogSnapshot,
    pub attempt_id: AttemptId,
    pub results: Seq<ResultModel>,
    pub stage: Stage,
    pub held: Option<(Seq<char>, ReservationId)>,
    pub pending: Option<ResultModel>,
    pub open_parent: Option<(Seq<char>, Seq<Seq<char>>)>,
}

impl RunModel {
    /// The operations of the plan.
    pub open spec fn ops(self) -> Seq<PlannedOperation> {
        self.plan.plan.operations@
    }

    /// The operation under way, or the next one.
    pub open spec fn current(self) -> PlannedOperation {
        self.ops()[self.results.len() as int]
    }

    /// A lock is held in this stage.
    pub open spec fn is_locked(self) -> bool {
        self.stage == Stage::Committing || self.stage == Stage::Marking || self.stage
            == Stage::Mutating || self.stage == Stage::Resolving || self.stage == Stage::Recording
    }

    /// What holds at every moment of a run: one result per operation settled, in
    /// the order of the plan; success only where everything waited for succeeded
    /// before and the grant covers the operation; and the lock on the operation's
    /// target as long as it is under way.
    pub open spec fn is_sound(self) -> bool {
        &&& self.results.len() <= self.ops().len()
        &&& forall|i: int|
            0 <= i < self.results.len() ==> (#[trigger] self.results[i]).op_id
                == self.ops()[i].op_id
        &&& forall|i: int|
            0 <= i < self.results.len() && (#[trigger] self.results[i]).status
                == StatusModel::Success ==> deps_met(self.results.take(i), self.ops()[i])
                && is_granted(self.plan, self.ops()[i]) && is_removal(self.ops()[i].op_type)
        &&& forall|i: int|
            0 <= i < self.results.len() ==> is_bounded(#[trigger] self.results[i], self.ops()[i])
        &&& self.stage != Stage::Idle && self.stage != Stage::Aborted ==> self.results.len()
            < self.ops().len() && deps_met(self.results, self.current()) && is_granted(
            self.plan,
            self.current(),
        )
        &&& self.is_locked() <==> self.held is Some
        &&& self.is_locked() ==> is_removal(self.current().op_type) && Some((self.held->0).0)
            == self.current().op_type.target() && self.catalog.targets@.contains_key(
            (self.held->0).0,
        )
        &&& self.stage == Stage::Mutating ==> paths::leaf(
            removed_path(self.current().op_type),
        ) is Some
        &&& (self.stage == Stage::Resolving || self.stage == Stage::Recording)
            <==> self.pending is Some
        &&& self.pending is Some ==> self.pending->0.op_id == self.current().op_id && is_bounded(
            self.pending->0,
            self.current(),
        )
    }

    /// After the current operation was settled with a result.
    pub open spec fn settled(
        self,
        status: StatusModel,
        reclaimed_bytes: ByteCount,
        now: UnixTimestamp,
    ) -> RunModel {
        RunModel {
            results: self.results.push(
                ResultModel {
                    op_id: self.current().op_id,
                    status,
                    reclaimed_bytes,
                    executed_at: now,
                },
            ),
            stage: Stage::Idle,
            held: None,
            pending: None,
            ..self
        }
    }

    /// After the run was given up.
    pub open spec fn aborted(self) -> RunModel {
        RunModel { stage: Stage::Aborted, held: None, pending: None, ..self }
    }

    /// The locks after the one held was given back.
    pub open spec fn unlocked(self, taken: Taken) -> Taken {
        match self.held {
            Some((target, reservation)) => taken.without_target(target, reservation),
            None => taken,
        }
    }
}

/// The message where the grant does not cover an operation.
pub open spec fn not_granted() -> Seq<char> {
    "Capability authorization denial: operation not granted in CapabilityGrant"@
}

/// Why the operation is settled before anything is done for it.
pub open spec fn early_status(run: RunModel, cancelled: bool) -> Option<StatusModel> {
    if cancelled {
        Some(StatusModel::Preempted)
    } else if !deps_met(run.results, run.current()) {
        Some(StatusModel::Skipped("Precondition dependency failed or unfulfilled"@))
    } else if !is_granted(run.plan, run.current()) {
        Some(StatusModel::Failed(not_granted()))
    } else {
        None
    }
}

/// The path that a removal removes.
pub open spec fn removed_path(op: OperationType) -> Seq<char> {
    match op {
        OperationType::DeleteFile { rel_path, .. } => rel_path@,
        OperationType::DeleteDirEmpty { rel_path, .. } => rel_path@,
        _ => Seq::empty(),
    }
}

/// What a removal expects to find.
pub open spec fn expected(op: OperationType) -> FileIdentity {
    match op {
        OperationType::DeleteFile { expected_identity, .. } => expected_identity,
        OperationType::DeleteDirEmpty { expected_identity, .. } => expected_identity,
        OperationType::PruneDirRecursive { expected_identity, .. } => expected_identity,
        _ => arbitrary(),
    }
}

/// The bytes that a removal is expected to reclaim.
pub open spec fn estimate(op: OperationType) -> ByteCount {
    match op {
        OperationType::DeleteFile { estimated_size, .. } => estimated_size,
        _ => ByteCount(0),
    }
}

/// The kind of a removal.
pub open spec fn kind(op: OperationType) -> MutationType {
    if op is DeleteFile {
        MutationType::DeleteFile
    } else {
        MutationType::DeleteDirEmpty
    }
}

/// Why the operation is settled once the rate limit let it pass, given the locks
/// that are taken.
pub open spec fn gate_status(run: RunModel, taken: Taken) -> Option<StatusModel> {
    let op = run.current().op_type;
    if op is PruneDirRecursive {
        Some(
            StatusModel::Skipped(
                "PruneDirRecursive is deprecated in favor of hierarchical DAG atomic deletions"@,
            ),
        )
    } else if op is TrimFilesystem || op is VacuumDatabase {
        Some(StatusModel::Skipped("Maintenance operation delegated to subsystem"@))
    } else {
        let id = op.target()->0;
        if !run.catalog.targets@.contains_key(id) {
            Some(
                StatusModel::Failed(
                    "Target "@ + ("target:"@ + id) + " not found in catalog snapshot"@,
                ),
            )
        } else if taken.targets.contains_key(id) {
            Some(
                StatusModel::Failed(
                    "Target lock collision: "@ + ("Safety violation: "@
                        + ResourceManager::collision(id, taken.targets[id].attempt_id)),
                ),
            )
        } else {
            match safety::boundary_complaint(
                run.catalog.targets@[id],
                removed_path(op),
                expected(op),
                run.catalog.generation,
            ) {
                Some(m) => Some(
                    StatusModel::Failed(
                        "Safety gate boundary rejection: "@ + ("Safety violation: "@ + m),
                    ),
                ),
                None => None,
            }
        }
    }
}

/// The locks after a target was locked and at once given back.
pub open spec fn touched(taken: Taken, target: Seq<char>, attempt: AttemptId) -> Taken {
    taken.with_target(target, attempt).without_target(
        target,
        ReservationId(taken.next_reservation),
    )
}

/// The locks after the checks settled an operation: as before, but for the number
/// spent where only the last check refused.
pub open spec fn settled_taken(run: RunModel, taken: Taken) -> Taken {
    let op = run.current().op_type;
    if is_removal(op) && run.catalog.targets@.contains_key(op.target()->0)
        && !taken.targets.contains_key(op.target()->0) {
        touched(taken, op.target()->0, run.attempt_id)
    } else {
        taken
    }
}

/// The intent of the current operation.
pub open spec fn is_intent(intent: OperationIntent, run: RunModel, now: UnixTimestamp) -> bool {
    let op = run.current();
    &&& intent.intent_id is None
    &&& intent.job_id == run.plan.plan.job_id
    &&& intent.attempt_id == run.attempt_id
    &&& intent.op_id == op.op_id
    &&& Some(intent.target_id@) == op.op_type.target()
    &&& intent.rel_path@ == removed_path(op.op_type)
    &&& intent.expected_identity == expected(op.op_type)
    &&& intent.estimated_bytes == estimate(op.op_type)
    &&& intent.mutation_type == kind(op.op_type)
    &&& intent.state == IntentState::Committed
    &&& intent.catalog_generation == run.catalog.generation
    &&& intent.config_generation == run.plan.grant.config_generation
    &&& intent.committed_at == now
    &&& intent.resolved_at is None
}

/// What is said in front of the reason why the parent directory could not be
/// opened.
pub open spec fn parent_lead(op: OperationType) -> Seq<char> {
    if op is DeleteFile {
        "Failed to resolve parent directory: "@
    } else {
        "Failed to resolve parent directory for rmdir: "@
    }
}

/// The order to make the change of the current operation.
pub open spec fn is_order(order: MutationOrder, run: RunModel) -> bool {
    let op = run.current().op_type;
    let path = removed_path(op);
    &&& order.base_path@ == run.catalog.targets@[op.target()->0].base_path@
    &&& text::texts(order.parent@) == paths::parent(path)
    &&& Some(order.leaf@) == paths::leaf(path)
    &&& order.expected_identity == expected(op)
    &&& order.is_dir == (op is DeleteDirEmpty)
    &&& order.reuse_parent == (run.open_parent == Some((op.target()->0, paths::parent(path))))
}

/// A change that failed left the disk in a state that nobody saw.
pub open spec fn is_blind(outcome: VerificationOutcome) -> bool {
    outcome == VerificationOutcome::Unknown || outcome == VerificationOutcome::ParentUnavailable
        || outcome == VerificationOutcome::TargetUnavailable
}

/// What comes of a removal, given its error if any and what was found after it.
pub open spec fn removal_status(
    is_file: bool,
    error: Option<Seq<char>>,
    outcome: VerificationOutcome,
) -> StatusModel {
    if outcome.is_gone() {
        StatusModel::Success
    } else {
        match error {
            None => if outcome.is_there() {
                StatusModel::VerificationFailed(
                    if is_file {
                        "Postcondition verification failed: "@ + outcome.shown()
                    } else {
                        "Rmdir postcondition verification failed: StillPresent/Mismatch"@
                    },
                )
            } else {
                StatusModel::VerificationFailed(
                    if is_file {
                        "Postcondition verification unresolved: "@ + outcome.shown()
                    } else {
                        "Rmdir postcondition unresolved: "@ + outcome.shown()
                    },
                )
            },
            Some(e) => if is_blind(outcome) {
                StatusModel::Failed(
                    if is_file {
                        "Mutation error with unknown disk outcome: "@ + e
                    } else {
                        "Rmdir error with unknown disk outcome: "@ + e
                    },
                )
            } else {
                StatusModel::Failed(
                    if is_file {
                        e
                    } else {
                        "Rmdir failed: "@ + e
                    },
                )
            },
        }
    }
}

/// How the intent of a removal is resolved.
pub open spec fn removal_intent(failed: bool, outcome: VerificationOutcome) -> IntentState {
    if outcome.is_gone() {
        IntentState::VerifiedSuccess
    } else if failed {
        if is_blind(outcome) {
            IntentState::ResolvedUnknown
        } else {
            IntentState::VerifiedFailed
        }
    } else if outcome.is_there() {
        IntentState::VerifiedFailed
    } else {
        IntentState::ResolvedUnknown
    }
}

/// The bytes that a removal reclaimed: what it was expected to, where it was done
/// here and now.
pub open spec fn removal_bytes(
    op: OperationType,
    failed: bool,
    outcome: VerificationOutcome,
) -> ByteCount {
    if outcome.is_gone() && !failed {
        estimate(op)
    } else {
        ByteCount(0)
    }
}

/// The characters of an optional text.
pub open spec fn text_of(t: Option<String>) -> Option<Seq<char>> {
    match t {
        Some(s) => Some(s@),
        None => None,
    }
}

fn covers(capability: &Capability, op: &OperationType) -> (r: bool)
    ensures
        r == (capability@ == auth::needed(*op)),
{
    match (capability, op) {
        (
            Capability::DeleteFile(t, p),
            OperationType::DeleteFile { target_id, rel_path, .. },
        ) => t.same(target_id) && p.same(rel_path),
        (
            Capability::DeleteDirectory(t, p),
            OperationType::DeleteDirEmpty { target_id, rel_path, .. },
        ) => t.same(target_id) && p.same(rel_path),
        (
            Capability::DeleteDirectory(t, p),
            OperationType::PruneDirRecursive { target_id, rel_path, .. },
        ) => t.same(target_id) && p.same(rel_path),
        (
            Capability::TrimMount(p),
            OperationType::TrimFilesystem { mount_path },
        ) => paths::same_path(p.as_str(), mount_path.as_str()),
        (
            Capability::VacuumDatabase(p),
            OperationType::VacuumDatabase { db_path },
        ) => paths::same_path(p.as_str(), db_path.as_str()),
        _ => false,
    }
}

fn has_capability(authorized: &AuthorizedPlan, op: &PlannedOperation) -> (r: bool)
    ensures
        r == is_granted(*authorized, *op),
{
    let list = &authorized.grant.capabilities;
    let ghost all = grant::allowed_by(list@);
    let mut i: usize = 0;
    while i < list.len()
        invariant
            i <= list.len(),
            all == grant::allowed_by(list@),
            all == grant::allowed_by(authorized.grant.capabilities@),
            forall|j: int| 0 <= j < i ==> (#[trigger] all[j]) != auth::needed(op.op_type),
        decreases list.len() - i,
    {
        if covers(&list[i], &op.op_type) {
            assert(all[i as int] == auth::needed(op.op_type));
            return true;
        }
        i = i + 1;
    }
    false
}

fn removal_outcome(
    is_file: bool,
    error: &Option<String>,
    outcome: VerificationOutcome,
) -> (r: OperationStatus)
    ensures
        r@ == removal_status(is_file, text_of(*error), outcome),
{
    if outcome.gone() {
        return OperationStatus::Success;
    }
    match error {
        None => {
            let reason = if outcome.there() {
                if is_file {
                    text::with_lead("Postcondition verification failed: ", outcome.as_str())
                } else {
                    "Rmdir postcondition verification failed: StillPresent/Mismatch".to_owned()
                }
            } else if is_file {
                text::with_lead("Postcondition verification unresolved: ", outcome.as_str())
            } else {
                text::with_lead("Rmdir postcondition unresolved: ", outcome.as_str())
            };
            OperationStatus::VerificationFailed { reason }
        },
        Some(e) => {
            let blind = matches!(
                outcome,
                VerificationOutcome::Unknown
                    | VerificationOutcome::ParentUnavailable
                    | VerificationOutcome::TargetUnavailable
            );
            let error = if blind {
                if is_file {
                    text::with_lead("Mutation error with unknown disk outcome: ", e.as_str())
                } else {
                    text::with_lead("Rmdir error with unknown disk outcome: ", e.as_str())
                }
            } else if is_file {
                e.clone()
            } else {
                text::with_lead("Rmdir failed: ", e.as_str())
            };
            OperationStatus::Failed { error }
        },
    }
}

fn intent_outcome(failed: bool, outcome: VerificationOutcome) -> (r: IntentState)
    ensures
        r == removal_intent(failed, outcome),
{
    if outcome.gone() {
        return IntentState::VerifiedSuccess;
    }
    if failed {
        match outcome {
            VerificationOutcome::Unknown
            | VerificationOutcome::ParentUnavailable
            | VerificationOutcome::TargetUnavailable => IntentState::ResolvedUnknown,
            _ => IntentState::VerifiedFailed,
        }
    } else if outcome.there() {
        IntentState::VerifiedFailed
    } else {
        IntentState::ResolvedUnknown
    }
}

/// What a removal removes.
struct Removal {
    target_id: TargetId,
    rel_path: RelativePath,
    expected_identity: FileIdentity,
    estimated: ByteCount,
    is_file: bool,
}

fn removal_of(op: &OperationType) -> (r: Option<Removal>)
    ensures
        r is Some <==> is_removal(*op),
        r matches Some(x) ==> {
            &&& Some(x.target_id@) == op.target()
            &&& x.rel_path@ == removed_path(*op)
            &&& x.expected_identity == expected(*op)
            &&& x.estimated == estimate(*op)
            &&& x.is_file == (op is DeleteFile)
        },
{
    match op {
        OperationType::DeleteFile { target_id, rel_path, expected_identity, estimated_size } =>
            Some(
            Removal {
                target_id: target_id.copy(),
                rel_path: rel_path.copy(),
                expected_identity: *expected_identity,
                estimated: *estimated_size,
                is_file: true,
            },
        ),
        OperationType::DeleteDirEmpty { target_id, rel_path, expected_identity } => Some(
            Removal {
                target_id: target_id.copy(),
                rel_path: rel_path.copy(),
                expected_identity: *expected_identity,
                estimated: ByteCount(0),
                is_file: false,
            },
        ),
        _ => None,
    }
}

/// A plan being carried out.
#[derive(Debug)]
pub struct PlanRun {
    authorized: AuthorizedPlan,
    catalog: CatalogSnapshot,
    attempt_id: AttemptId,
    results: Vec<OperationFinalResult>,
    total_reclaimed: ByteCount,
    success_count: usize,
    failed_count: usize,
    skipped_count: usize,
    succeeded: HashSet<u64>,
    stage: Stage,
    held: Option<TargetLockPermit>,
    pending: Option<OperationFinalResult>,
    open_parent: Option<OpenParent>,
}

/// The results, in terms of characters.
pub open spec fn result_models(results: Seq<OperationFinalResult>) -> Seq<ResultModel> {
    results.map_values(|r: OperationFinalResult| r@)
}

impl View for PlanRun {
    type V = RunModel;

    closed spec fn view(&self) -> RunModel {
        RunModel {
            plan: self.authorized,
            catalog: self.catalog,
            attempt_id: self.attempt_id,
            results: result_models(self.results@),
            stage: self.stage,
            held: match self.held {
                Some(p) => Some((p.target_id@, p.reservation_id)),
                None => None,
            },
            pending: match self.pending {
                Some(p) => Some(p@),
                None => None,
            },
            open_parent: match self.open_parent {
                Some(p) => Some((p.target@, text::texts(p.parent@))),
                None => None,
            },
        }
    }
}

impl PlanRun {
    /// The run is sound, and its sums are those of its results.
    pub closed spec fn is_valid(self) -> bool {
        &&& self@.is_sound()
        &&& self.success_count == successes(self@.results)
        &&& self.failed_count == failures(self@.results)
        &&& self.skipped_count == skips(self@.results)
        &&& self.total_reclaimed.0 == planner::capped(reclaimed(self@.results))
        &&& forall|id: u64|
            self.succeeded@.contains(id) <==> succeeded_in(self@.results, OperationId(id))
    }

    /// A run that is valid is sound.
    pub proof fn law_valid_run_is_sound(self)
        requires
            self.is_valid(),
        ensures
            self@.is_sound(),
    {
    }

    fn settle(&mut self, status: OperationStatus, reclaimed_bytes: ByteCount, now: UnixTimestamp)
        requires
            old(self).is_valid(),
            old(self)@.results.len() < old(self)@.ops().len(),
            status is Success ==> deps_met(old(self)@.results, old(self)@.current()) && is_granted(
                old(self)@.plan,
                old(self)@.current(),
            ) && is_removal(old(self)@.current().op_type),
            reclaimed_bytes.0 <= if status is Success {
                estimate(old(self)@.current().op_type).0
            } else {
                0
            },
        ensures
            final(self).is_valid(),
            final(self)@ == old(self)@.settled(status@, reclaimed_bytes, now),
    {
        broadcast use vstd::std_specs::hash::group_hash_axioms;

        let ghost before = *self;
        let ghost models = self@.results;
        let total: usize = self.authorized.plan.operations.len();
        let op_id = self.authorized.plan.operations[self.results.len()].op_id;
        let success = status.is_success();
        let failed = matches!(
            status,
            OperationStatus::Failed { .. } | OperationStatus::VerificationFailed { .. }
        );
        let result = OperationFinalResult { op_id, status, reclaimed_bytes, executed_at: now };
        let ghost next = models.push(result@);
        proof {
            lemma_counts(models);
            lemma_counts(next);
            assert(next.drop_last() =~= models);
            assert(next.last() == result@);
            assert(models.len() < total);
        }
        self.results.push(result);
        assert(self@.results =~= next);
        self.total_reclaimed = self.total_reclaimed.saturating_add(reclaimed_bytes);
        if success {
            self.success_count = self.success_count + 1;
            self.succeeded.insert(op_id.0);
        } else if failed {
            self.failed_count = self.failed_count + 1;
        } else {
            self.skipped_count = self.skipped_count + 1;
        }
        self.stage = Stage::Idle;
        self.held = None;
        self.pending = None;
        proof {
            assert forall|id: u64| self.succeeded@.contains(id) <==> succeeded_in(
                next,
                OperationId(id),
            ) by {
                if succeeded_in(models, OperationId(id)) {
                    let i = choose|i: int|
                        0 <= i < models.len() && (#[trigger] models[i]).op_id == OperationId(id)
                            && models[i].status == StatusModel::Success;
                    assert(next[i] == models[i]);
                }
                if succeeded_in(next, OperationId(id)) {
                    let i = choose|i: int|
                        0 <= i < next.len() && (#[trigger] next[i]).op_id == OperationId(id)
                            && next[i].status == StatusModel::Success;
                    if i < models.len() {
                        assert(models[i] == next[i]);
                    }
                }
                if success && id == op_id.0 {
                    assert(next[models.len() as int].op_id == OperationId(id));
                }
                assert(before.succeeded@.contains(id) <==> succeeded_in(models, OperationId(id)));
            }
            assert forall|i: int| 0 <= i < next.len() implies (#[trigger] next[i]).op_id
                == self@.ops()[i].op_id by {
                if i < models.len() {
                    assert(models[i] == next[i]);
                }
            }
            assert forall|i: int|
                0 <= i < next.len() && (#[trigger] next[i]).status
                    == StatusModel::Success implies deps_met(next.take(i), self@.ops()[i])
                && is_granted(self@.plan, self@.ops()[i]) && is_removal(
                self@.ops()[i].op_type,
            ) by {
                if i < models.len() {
                    assert(models[i] == next[i]);
                    assert(next.take(i) =~= models.take(i));
                } else {
                    assert(next.take(i) =~= models);
                }
            }
            assert forall|i: int| 0 <= i < next.len() implies is_bounded(
                #[trigger] next[i],
                self@.ops()[i],
            ) by {
                if i < models.len() {
                    assert(models[i] == next[i]);
                }
            }
        }
    }

    fn release(&mut self, locks: &mut ResourceManager)
        ensures
            final(locks)@ == old(self)@.unlocked(old(locks)@),
            final(self)@ == (RunModel { held: None, ..old(self)@ }),
            final(self).results == old(self).results,
            final(self).total_reclaimed == old(self).total_reclaimed,
            final(self).success_count == old(self).success_count,
            final(self).failed_count == old(self).failed_count,
            final(self).skipped_count == old(self).skipped_count,
            final(self).succeeded == old(self).succeeded,
    {
        let mut held: Option<TargetLockPermit> = None;
        std::mem::swap(&mut held, &mut self.held);
        match held {
            Some(permit) => locks.release_target_lock(permit),
            None => {},
        }
    }

    fn fail(
        &mut self,
        locks: &mut ResourceManager,
        error: String,
        now: UnixTimestamp,
    )
        requires
            old(self).is_valid(),
            old(self)@.is_locked(),
        ensures
            final(self).is_valid(),
            final(self)@ == old(self)@.settled(StatusModel::Failed(error@), ByteCount(0), now),
            final(locks)@ == old(self)@.unlocked(old(locks)@),
    {
        let ghost before = self@;
        self.release(locks);
        self.stage = Stage::Idle;
        self.pending = None;
        proof {
            assert(self@.results == before.results);
            assert(self.is_valid());
        }
        self.settle(OperationStatus::Failed { error }, ByteCount(0), now);
    }

    fn abort(&mut self, locks: &mut ResourceManager)
        requires
            old(self).is_valid(),
        ensures
            final(self).is_valid(),
            final(self)@ == old(self)@.aborted(),
            final(locks)@ == old(self)@.unlocked(old(locks)@),
    {
        self.release(locks);
        self.stage = Stage::Aborted;
        self.pending = None;
    }

    /// Takes up the next operation. `cancelled` says whether the job was cancelled.
    pub fn begin_operation(&mut self, cancelled: bool, now: UnixTimestamp) -> (r: Step)
        requires
            old(self).is_valid(),
            old(self)@.stage == Stage::Idle,
        ensures
            final(self).is_valid(),
            old(self)@.results.len() == old(self)@.ops().len() ==> r is Finished && final(self)@
                == old(self)@,
            old(self)@.results.len() < old(self)@.ops().len() ==> match early_status(
                old(self)@,
                cancelled,
            ) {
                Some(status) => r is Settled && final(self)@ == old(self)@.settled(
                    status,
                    ByteCount(0),
                    now,
                ),
                None => r is Throttle && final(self)@ == (RunModel {
                    stage: Stage::Throttling,
                    ..old(self)@
                }),
            },
    {
        broadcast use vstd::std_specs::hash::group_hash_axioms;

        let n: usize = self.results.len();
        assert(n == self@.results.len());
        if n == self.authorized.plan.operations.len() {
            return Step::Finished;
        }
        if cancelled {
            self.settle(OperationStatus::Preempted, ByteCount(0), now);
            return Step::Settled;
        }
        let op = &self.authorized.plan.operations[n];
        let mut d: usize = 0;
        let mut met = true;
        while d < op.dependencies.len()
            invariant
                d <= op.dependencies.len(),
                *op == self@.current(),
                self.is_valid(),
                met <==> forall|j: int|
                    0 <= j < d ==> succeeded_in(self@.results, #[trigger] op.dependencies@[j]),
            decreases op.dependencies.len() - d,
        {
            broadcast use vstd::std_specs::hash::group_hash_axioms;

            if !self.succeeded.contains(&op.dependencies[d].0) {
                assert(!succeeded_in(self@.results, op.dependencies@[d as int]));
                met = false;
            } else {
                assert(succeeded_in(self@.results, op.dependencies@[d as int]));
            }
            d = d + 1;
        }
        let granted = has_capability(&self.authorized, op);
        if !met {
            self.settle(
                OperationStatus::Skipped {
                    reason: "Precondition dependency failed or unfulfilled".to_owned(),
                },
                ByteCount(0),
                now,
            );
            return Step::Settled;
        }
        if !granted {
            self.settle(
                OperationStatus::Failed {
                    error: "Capability authorization denial: operation not granted in CapabilityGrant".to_owned(),
                },
                ByteCount(0),
                now,
            );
            return Step::Settled;
        }
        self.stage = Stage::Throttling;
        Step::Throttle
    }

    /// Locks the target of the operation and checks it once more, after the rate
    /// limit let it pass.
    pub fn throttled(&mut self, locks: &mut ResourceManager, now: UnixTimestamp) -> (r: Step)
        requires
            old(self).is_valid(),
            old(self)@.stage == Stage::Throttling,
        ensures
            final(self).is_valid(),
            match gate_status(old(self)@, old(locks)@) {
                Some(status) => {
                    &&& r is Settled
                    &&& final(self)@ == old(self)@.settled(status, ByteCount(0), now)
                    &&& final(locks)@ == settled_taken(old(self)@, old(locks)@)
                },
                None => {
                    let target = old(self)@.current().op_type.target()->0;
                    &&& r matches Step::Commit(intent)
                    &&& is_intent(intent, old(self)@, now)
                    &&& final(self)@ == (RunModel {
                        stage: Stage::Committing,
                        held: Some((target, ReservationId(old(locks)@.next_reservation))),
                        ..old(self)@
                    })
                    &&& final(locks)@ == old(locks)@.with_target(target, old(self)@.attempt_id)
                },
            },
    {
        let ghost run = self@;
        let n: usize = self.results.len();
        assert(n == self@.results.len());
        let op = &self.authorized.plan.operations[n];
        let op_id = op.op_id;
        let removal = match removal_of(&op.op_type) {
            Some(removal) => removal,
            None => {
                let reason = match &op.op_type {
                    OperationType::PruneDirRecursive { .. } =>
                        "PruneDirRecursive is deprecated in favor of hierarchical DAG atomic deletions".to_owned(),
                    _ => "Maintenance operation delegated to subsystem".to_owned(),
                };
                self.settle(OperationStatus::Skipped { reason }, ByteCount(0), now);
                return Step::Settled;
            },
        };
        let target = match self.catalog.get(&removal.target_id) {
            Some(target) => target.copy(),
            None => {
                let mut error = "Target ".to_owned();
                error.append(removal.target_id.to_text().as_str());
                error.append(" not found in catalog snapshot");
                self.settle(OperationStatus::Failed { error }, ByteCount(0), now);
                return Step::Settled;
            },
        };
        let ghost taken = locks@;
        let permit = match locks.acquire_target_lock_for_attempt(
            &removal.target_id,
            self.attempt_id,
        ) {
            Ok(permit) => permit,
            Err(e) => {
                let error = text::with_lead("Target lock collision: ", e.message().as_str());
                self.settle(OperationStatus::Failed { error }, ByteCount(0), now);
                return Step::Settled;
            },
        };
        let gate = SafetyGate::new();
        match gate.validate_mutation_boundary_at(
            &target,
            removal.rel_path.as_path(),
            &removal.expected_identity,
            op_id,
            self.catalog.generation,
            self.authorized.grant.config_generation,
            now,
        ) {
            Ok(_) => {},
            Err(e) => {
                let error = text::with_lead("Safety gate boundary rejection: ", e.message().as_str());
                locks.release_target_lock(permit);
                self.settle(OperationStatus::Failed { error }, ByteCount(0), now);
                return Step::Settled;
            },
        }
        let intent = OperationIntent {
            intent_id: None,
            job_id: self.authorized.plan.job_id,
            attempt_id: self.attempt_id,
            op_id,
            target_id: removal.target_id,
            rel_path: removal.rel_path,
            expected_identity: removal.expected_identity,
            estimated_bytes: removal.estimated,
            mutation_type: if removal.is_file {
                MutationType::DeleteFile
            } else {
                MutationType::DeleteDirEmpty
            },
            state: IntentState::Committed,
            catalog_generation: self.catalog.generation,
            config_generation: self.authorized.grant.config_generation,
            committed_at: now,
            resolved_at: None,
        };
        self.held = Some(permit);
        self.stage = Stage::Committing;
        Step::Commit(intent)
    }

    /// Goes on after the intent was stored, or fails the operation where it could
    /// not be.
    pub fn intent_committed(
        &mut self,
        locks: &mut ResourceManager,
        error: Option<String>,
        now: UnixTimestamp,
    ) -> (r: Step)
        requires
            old(self).is_valid(),
            old(self)@.stage == Stage::Committing,
        ensures
            final(self).is_valid(),
            match error {
                Some(e) => {
                    &&& r is Settled
                    &&& final(self)@ == old(self)@.settled(
                        StatusModel::Failed(
                            "Intent commit failed (mutation not attempted): "@ + e@,
                        ),
                        ByteCount(0),
                        now,
                    )
                    &&& final(locks)@ == old(self)@.unlocked(old(locks)@)
                },
                None => {
                    &&& r is Mark
                    &&& final(self)@ == (RunModel { stage: Stage::Marking, ..old(self)@ })
                    &&& final(locks)@ == old(locks)@
                },
            },
    {
        match error {
            Some(e) => {
                let error = text::with_lead(
                    "Intent commit failed (mutation not attempted): ",
                    e.as_str(),
                );
                self.fail(locks, error, now);
                Step::Settled
            },
            None => {
                self.stage = Stage::Marking;
                Step::Mark
            },
        }
    }

    /// Orders the change once the intent is marked as under way, or gives the run up
    /// where that could not be stored.
    pub fn marked(
        &mut self,
        locks: &mut ResourceManager,
        stored: bool,
        now: UnixTimestamp,
    ) -> (r: Step)
        requires
            old(self).is_valid(),
            old(self)@.stage == Stage::Marking,
        ensures
            final(self).is_valid(),
            !stored ==> r is Abort && final(self)@ == old(self)@.aborted() && final(locks)@
                == old(self)@.unlocked(old(locks)@),
            stored && paths::leaf(removed_path(old(self)@.current().op_type)) is None ==> {
                &&& r is Settled
                &&& final(self)@ == old(self)@.settled(
                    StatusModel::Failed(
                        parent_lead(old(self)@.current().op_type)
                            + "Safety violation: Invalid UTF-8 in leaf filename"@,
                    ),
                    ByteCount(0),
                    now,
                )
                &&& final(locks)@ == old(self)@.unlocked(old(locks)@)
            },
            stored && paths::leaf(removed_path(old(self)@.current().op_type)) is Some ==> {
                &&& r matches Step::Mutate(order)
                &&& is_order(order, old(self)@)
                &&& final(self)@ == (RunModel { stage: Stage::Mutating, ..old(self)@ })
                &&& final(locks)@ == old(locks)@
            },
    {
        if !stored {
            self.abort(locks);
            return Step::Abort;
        }
        let n: usize = self.results.len();
        assert(n == self@.results.len());
        let op = &self.authorized.plan.operations[n];
        let removal = match removal_of(&op.op_type) {
            Some(removal) => removal,
            None => {
                return Step::Abort;
            },
        };
        match paths::split_leaf(removal.rel_path.as_path()) {
            Some((parent, leaf)) => {
                let base_path = match self.catalog.get(&removal.target_id) {
                    Some(target) => target.base_path.clone(),
                    None => String::new(),
                };
                let reuse_parent = match &self.open_parent {
                    Some(open) => open.target.same(&removal.target_id) && same_parts(
                        &open.parent,
                        &parent,
                    ),
                    None => false,
                };
                self.stage = Stage::Mutating;
                Step::Mutate(
                    MutationOrder {
                        base_path,
                        parent,
                        leaf,
                        expected_identity: removal.expected_identity,
                        is_dir: !removal.is_file,
                        reuse_parent,
                    },
                )
            },
            None => {
                let error = if removal.is_file {
                    text::with_lead(
                        "Failed to resolve parent directory: ",
                        "Safety violation: Invalid UTF-8 in leaf filename",
                    )
                } else {
                    text::with_lead(
                        "Failed to resolve parent directory for rmdir: ",
                        "Safety violation: Invalid UTF-8 in leaf filename",
                    )
                };
                self.fail(locks, error, now);
                Step::Settled
            },
        }
    }

    /// The run after a change was tried: the directory stays open unless it may have
    /// changed itself, and the result is pending.
    pub open spec fn after_change(
        run: RunModel,
        error: Option<Seq<char>>,
        outcome: VerificationOutcome,
    ) -> RunModel {
        let op = run.current().op_type;
        RunModel {
            stage: Stage::Resolving,
            pending: Some(
                ResultModel {
                    op_id: run.current().op_id,
                    status: removal_status(op is DeleteFile, error, outcome),
                    reclaimed_bytes: removal_bytes(op, error is Some, outcome),
                    executed_at: UnixTimestamp(0),
                },
            ),
            open_parent: if op is DeleteFile {
                Some((op.target()->0, paths::parent(removed_path(op))))
            } else {
                None
            },
            ..run
        }
    }

    /// Takes note of what came of the change.
    pub fn mutated(
        &mut self,
        locks: &mut ResourceManager,
        report: MutationReport,
        now: UnixTimestamp,
    ) -> (r: Step)
        requires
            old(self).is_valid(),
            old(self)@.stage == Stage::Mutating,
        ensures
            final(self).is_valid(),
            match report {
                MutationReport::ParentFailed(e) => {
                    &&& r is Settled
                    &&& final(self)@ == old(self)@.settled(
                        StatusModel::Failed(parent_lead(old(self)@.current().op_type) + e@),
                        ByteCount(0),
                        now,
                    )
                    &&& final(locks)@ == old(self)@.unlocked(old(locks)@)
                },
                MutationReport::Tried { error, outcome } => {
                    &&& r matches Step::Resolve(state)
                    &&& state == removal_intent(error is Some, outcome)
                    &&& final(self)@ == PlanRun::after_change(old(self)@, text_of(error), outcome)
                    &&& final(locks)@ == old(locks)@
                },
            },
    {
        let n: usize = self.results.len();
        assert(n == self@.results.len());
        let op = &self.authorized.plan.operations[n];
        let op_id = op.op_id;
        let removal = match removal_of(&op.op_type) {
            Some(removal) => removal,
            None => {
                return Step::Abort;
            },
        };
        match report {
            MutationReport::ParentFailed(e) => {
                let error = if removal.is_file {
                    text::with_lead("Failed to resolve parent directory: ", e.as_str())
                } else {
                    text::with_lead("Failed to resolve parent directory for rmdir: ", e.as_str())
                };
                self.fail(locks, error, now);
                Step::Settled
            },
            MutationReport::Tried { error, outcome } => {
                let failed = error.is_some();
                let status = removal_outcome(removal.is_file, &error, outcome);
                let reclaimed_bytes = if outcome.gone() && !failed {
                    removal.estimated
                } else {
                    ByteCount(0)
                };
                self.open_parent = match paths::split_leaf(removal.rel_path.as_path()) {
                    Some((parent, _)) => if removal.is_file {
                        Some(OpenParent { target: removal.target_id, parent })
                    } else {
                        None
                    },
                    None => None,
                };
                self.pending = Some(
                    OperationFinalResult {
                        op_id,
                        status,
                        reclaimed_bytes,
                        executed_at: UnixTimestamp(0),
                    },
                );
                self.stage = Stage::Resolving;
                Step::Resolve(intent_outcome(failed, outcome))
            },
        }
    }

    /// Orders the result to be recorded once the intent is resolved, or gives the run
    /// up where that could not be stored.
    pub fn resolved(
        &mut self,
        locks: &mut ResourceManager,
        stored: bool,
        now: UnixTimestamp,
    ) -> (r: Step)
        requires
            old(self).is_valid(),
            old(self)@.stage == Stage::Resolving,
        ensures
            final(self).is_valid(),
            !stored ==> r is Abort && final(self)@ == old(self)@.aborted() && final(locks)@
                == old(self)@.unlocked(old(locks)@),
            stored ==> {
                let op = old(self)@.current().op_type;
                let result = ResultModel { executed_at: now, ..old(self)@.pending->0 };
                &&& r matches Step::Record(order)
                &&& Some(order.target_id@) == op.target()
                &&& order.kind == kind(op)
                &&& order.rel_path@ == removed_path(op)
                &&& order.expected_identity == expected(op)
                &&& order.estimated_bytes == estimate(op)
                &&& order.result@ == result
                &&& final(self)@ == (RunModel {
                    stage: Stage::Recording,
                    pending: Some(result),
                    ..old(self)@
                })
                &&& final(locks)@ == old(locks)@
            },
    {
        if !stored {
            self.abort(locks);
            return Step::Abort;
        }
        let n: usize = self.results.len();
        assert(n == self@.results.len());
        let op = &self.authorized.plan.operations[n];
        let removal = match removal_of(&op.op_type) {
            Some(removal) => removal,
            None => {
                return Step::Abort;
            },
        };
        let mut pending: Option<OperationFinalResult> = None;
        std::mem::swap(&mut pending, &mut self.pending);
        let mut result = match pending {
            Some(result) => result,
            None => {
                return Step::Abort;
            },
        };
        result.executed_at = now;
        let order = RecordOrder {
            target_id: removal.target_id,
            kind: if removal.is_file {
                MutationType::DeleteFile
            } else {
                MutationType::DeleteDirEmpty
            },
            rel_path: removal.rel_path,
            expected_identity: removal.expected_identity,
            estimated_bytes: removal.estimated,
            result: result.copy(),
        };
        self.pending = Some(result);
        self.stage = Stage::Recording;
        Step::Record(order)
    }

    /// Settles the operation after its result was recorded, or could not be.
    pub fn recorded(&mut self, locks: &mut ResourceManager) -> (r: Step)
        requires
            old(self).is_valid(),
            old(self)@.stage == Stage::Recording,
        ensures
            final(self).is_valid(),
            r is Settled,
            final(self)@ == old(self)@.settled(
                old(self)@.pending->0.status,
                old(self)@.pending->0.reclaimed_bytes,
                old(self)@.pending->0.executed_at,
            ),
            final(locks)@ == old(self)@.unlocked(old(locks)@),
    {
        let ghost before = self@;
        let mut pending: Option<OperationFinalResult> = None;
        std::mem::swap(&mut pending, &mut self.pending);
        self.release(locks);
        self.stage = Stage::Idle;
        proof {
            assert(self@.results == before.results);
            assert(self.is_valid());
        }
        match pending {
            Some(result) => {
                self.settle(result.status, result.reclaimed_bytes, result.executed_at);
            },
            None => {},
        }
        Step::Settled
    }

    /// How far the current operation has come.
    pub fn stage(&self) -> (r: Stage)
        ensures
            r == self@.stage,
    {
        self.stage
    }

    /// The results so far.
    pub fn results(&self) -> (r: &Vec<OperationFinalResult>)
        ensures
            result_models(r@) == self@.results,
    {
        &self.results
    }

    /// The sums over the whole run, which took `duration_ms`.
    pub fn finish(&self, duration_ms: u64) -> (r: JobResult)
        requires
            self.is_valid(),
        ensures
            r.job_id == self@.plan.plan.job_id,
            r.attempt_id == self@.attempt_id,
            r.total_reclaimed.0 == planner::capped(reclaimed(self@.results)),
            r.total_reclaimed.0 <= planner::capped(estimates(self@.ops())),
            r.total_operations == self@.ops().len(),
            r.successful_operations == successes(self@.results),
            r.failed_operations == failures(self@.results),
            r.skipped_operations == skips(self@.results),
            r.duration_ms == duration_ms,
    {
        proof {
            law_reclaims_no_more_than_planned(self@);
        }
        JobResult {
            job_id: self.authorized.plan.job_id,
            attempt_id: self.attempt_id,
            total_reclaimed: self.total_reclaimed,
            total_operations: self.authorized.plan.operations.len(),
            successful_operations: self.success_count,
            failed_operations: self.failed_count,
            skipped_operations: self.skipped_count,
            duration_ms,
        }
    }
}

fn same_parts(a: &Vec<String>, b: &Vec<String>) -> (r: bool)
    ensures
        r == (text::texts(a@) == text::texts(b@)),
{
    if a.len() != b.len() {
        assert(text::texts(a@).len() != text::texts(b@).len());
        return false;
    }
    let r = paths::begins_with_components(a, b);
    assert(text::texts(a@).subrange(0, b.len() as int) =~= text::texts(a@));
    r
}

/// Carries out plans.
#[derive(Debug)]
pub struct CleanupExecutor;

impl Default for CleanupExecutor {
    fn default() -> (r: Self) {
        CleanupExecutor
    }
}

impl CleanupExecutor {
    pub fn new() -> (r: Self) {
        CleanupExecutor
    }

    /// Begins to carry out a plan at `now`, where it may run under the catalog and
    /// the configuration in force.
    pub fn execute_plan(
        &self,
        authorized: AuthorizedPlan,
        catalog: CatalogSnapshot,
        current_config_gen: ConfigGeneration,
        attempt_id: AttemptId,
        now: UnixTimestamp,
    ) -> (r: Result<PlanRun, CleanerError>)
        ensures
            r is Ok <==> authorized.may_run(now, catalog.generation, current_config_gen),
            r matches Ok(run) ==> {
                &&& run.is_valid()
                &&& run@ == (RunModel {
                    plan: authorized,
                    catalog,
                    attempt_id,
                    results: Seq::empty(),
                    stage: Stage::Idle,
                    held: None,
                    pending: None,
                    open_parent: None,
                })
            },
            r matches Err(e) ==> (e matches CleanerError::SafetyViolation(m) && m@
                == "Execution rejected: AuthorizedPlan has expired or generation is invalid"@),
    {
        broadcast use vstd::std_specs::hash::group_hash_axioms;

        if !authorized.is_authorized_for_execution(now, catalog.generation, current_config_gen) {
            return Err(
                CleanerError::SafetyViolation(
                    "Execution rejected: AuthorizedPlan has expired or generation is invalid".to_owned(),
                ),
            );
        }
        let run = PlanRun {
            authorized,
            catalog,
            attempt_id,
            results: Vec::new(),
            total_reclaimed: ByteCount(0),
            success_count: 0,
            failed_count: 0,
            skipped_count: 0,
            succeeded: HashSet::new(),
            stage: Stage::Idle,
            held: None,
            pending: None,
            open_parent: None,
        };
        assert(run@.results =~= Seq::<ResultModel>::empty());
        Ok(run)
    }
}

/// When every operation is settled, each counts once: as done, as failed or as
/// left out.
pub proof fn law_counts_add_up(run: RunModel)
    requires
        run.is_sound(),
        run.results.len() == run.ops().len(),
    ensures
        successes(run.results) + failures(run.results) + skips(run.results) == run.ops().len(),
{
    lemma_counts(run.results);
}

/// A run reclaims no more than its plan was expected to.
pub proof fn law_reclaims_no_more_than_planned(run: RunModel)
    requires
        run.is_sound(),
    ensures
        reclaimed(run.results) <= estimates(run.ops()),
        planner::capped(reclaimed(run.results)) <= planner::capped(estimates(run.ops())),
{
    lemma_reclaimed_within(run.results, run.ops());
}

proof fn lemma_reclaimed_within(results: Seq<ResultModel>, ops: Seq<PlannedOperation>)
    requires
        results.len() <= ops.len(),
        forall|i: int|
            0 <= i < results.len() ==> is_bounded(#[trigger] results[i], ops[i]),
    ensures
        reclaimed(results) <= estimates(ops),
        0 <= estimates(ops),
    decreases ops.len(),
{
    if ops.len() > 0 {
        if results.len() < ops.len() {
            assert forall|i: int| 0 <= i < results.len() implies is_bounded(
                #[trigger] results[i],
                ops.drop_last()[i],
            ) by {
                assert(is_bounded(results[i], ops[i]));
            }
            lemma_reclaimed_within(results, ops.drop_last());
        } else {
            let before = results.drop_last();
            assert forall|i: int| 0 <= i < before.len() implies is_bounded(
                #[trigger] before[i],
                ops.drop_last()[i],
            ) by {
                assert(is_bounded(results[i], ops[i]));
            }
            lemma_reclaimed_within(before, ops.drop_last());
            assert(is_bounded(results[results.len() - 1], ops[results.len() - 1]));
        }
    }
}

/// An operation that succeeded was covered by the grant, removed something, and
/// came after the success of everything that it waited for.
pub proof fn law_success_is_earned(run: RunModel, i: int)
    requires
        run.is_sound(),
        0 <= i < run.results.len(),
        run.results[i].status == StatusModel::Success,
    ensures
        deps_met(run.results.take(i), run.ops()[i]),
        is_granted(run.plan, run.ops()[i]),
        is_removal(run.ops()[i].op_type),
{
}

/// A removal succeeds exactly where the item was seen to be gone, its intent is then
/// resolved as a success, and only a removal without error reclaims bytes.
pub proof fn law_success_means_gone(
    op: OperationType,
    is_file: bool,
    error: Option<Seq<char>>,
    outcome: VerificationOutcome,
)
    ensures
        removal_status(is_file, error, outcome) == StatusModel::Success <==> outcome.is_gone(),
        removal_intent(error is Some, outcome) == IntentState::VerifiedSuccess
            <==> outcome.is_gone(),
        removal_bytes(op, error is Some, outcome).0 > 0 ==> outcome.is_gone() && error is None,
{
}

/// Where nobody saw what became of an item, its intent is left open for recovery
/// and the operation counts as failed.
pub proof fn law_unseen_is_unresolved(
    is_file: bool,
    error: Option<Seq<char>>,
    outcome: VerificationOutcome,
)
    requires
        is_blind(outcome),
    ensures
        removal_intent(error is Some, outcome) == IntentState::ResolvedUnknown,
        removal_status(is_file, error, outcome) is Failed || removal_status(
            is_file,
            error,
            outcome,
        ) is VerificationFailed,
{
}

/// Once a job is cancelled, every operation that has not begun is left out.
pub proof fn law_cancelled_does_nothing(run: RunModel)
    ensures
        early_status(run, true) == Some(StatusModel::Preempted),
{
}

/// A target is locked only where it is free, is in the catalog, and passes the last
/// check under the catalog's own generation.
pub proof fn law_lock_needs_every_gate(run: RunModel, taken: Taken)
    requires
        gate_status(run, taken) is None,
    ensures
        is_removal(run.current().op_type),
        run.catalog.targets@.contains_key(run.current().op_type.target()->0),
        !taken.targets.contains_key(run.current().op_type.target()->0),
        safety::boundary_complaint(
            run.catalog.targets@[run.current().op_type.target()->0],
            removed_path(run.current().op_type),
            expected(run.current().op_type),
            run.catalog.generation,
        ) is None,
{
}

/// An operation that is settled, or a run that is given up, leaves no lock behind:
/// what it took, it gives back.
pub proof fn law_no_lock_is_left_behind(
    run: RunModel,
    taken: Taken,
    target: Seq<char>,
    attempt: AttemptId,
)
    requires
        !taken.targets.contains_key(target),
        run.held == Some((target, ReservationId(taken.next_reservation))),
    ensures
        run.unlocked(taken.with_target(target, attempt)).targets == taken.targets,
        run.aborted().held is None,
{
    assert(run.unlocked(taken.with_target(target, attempt)).targets =~= taken.targets);
}

/// An order leads to the item of the operation under way and to no other: the
/// directory named in it and the name of the item make up the operation's path,
/// component by component, taken from the directory of the operation's target. The
/// item has to have the identity that was planned, it is removed as a directory where
/// the plan says so and nowhere else, and an open directory is used again only where
/// it is the very directory that the item stands in.
pub proof fn law_order_leads_to_the_item(
    run: &mut PlanRun,
    locks: &mut ResourceManager,
    stored: bool,
    now: UnixTimestamp,
    order: MutationOrder,
    target_id: TargetId,
    rel_path: RelativePath,
    expected_identity: FileIdentity,
)
    requires
        call_ensures(PlanRun::marked, (run, locks, stored, now), Step::Mutate(order)),
        old(run).is_valid(),
        old(run)@.stage == Stage::Marking,
        match old(run)@.plan.plan.operations@[old(run)@.results.len() as int].op_type {
            OperationType::DeleteFile { target_id: t, rel_path: p, expected_identity: e, .. } => t
                == target_id && p == rel_path && e == expected_identity,
            OperationType::DeleteDirEmpty { target_id: t, rel_path: p, expected_identity: e } => t
                == target_id && p == rel_path && e == expected_identity,
            _ => false,
        },
    ensures
        stored,
        text::texts(order.parent@).push(order.leaf@) == paths::components(rel_path@),
        order.base_path@ == old(run)@.catalog.targets@[target_id@].base_path@,
        types::is_relative(rel_path@) ==> paths::components(order.base_path@) + text::texts(
            order.parent@,
        ) + seq![order.leaf@] == paths::components(
            paths::joined(old(run)@.catalog.targets@[target_id@].base_path@, rel_path@),
        ),
        order.expected_identity == expected_identity,
        order.is_dir
            <==> old(run)@.plan.plan.operations@[old(run)@.results.len() as int].op_type is DeleteDirEmpty,
        order.reuse_parent <==> old(run)@.open_parent == Some(
            (target_id@, text::texts(order.parent@)),
        ),
        final(run)@.results == old(run)@.results,
        final(run)@.stage == Stage::Mutating,
        final(locks)@ == old(locks)@,
{
    let path = rel_path@;
    assert(text::texts(order.parent@).push(order.leaf@) =~= paths::components(path));
    if types::is_relative(path) {
        let base = old(run)@.catalog.targets@[target_id@].base_path@;
        paths::lemma_components_of_join(base, path);
        assert(paths::components(order.base_path@) + text::texts(order.parent@) + seq![order.leaf@]
            =~= paths::components(base) + text::texts(order.parent@).push(order.leaf@));
    }
}

/// Where the mark could not be stored nothing is ordered, and where the path names no
/// item the operation fails: a change is ordered exactly where the mark was stored and
/// the path ends in a name.
pub proof fn law_change_is_ordered_once_marked(
    run: &mut PlanRun,
    locks: &mut ResourceManager,
    stored: bool,
    now: UnixTimestamp,
    r: Step,
)
    requires
        call_ensures(PlanRun::marked, (run, locks, stored, now), r),
    ensures
        !stored <==> r is Abort,
        r is Abort ==> final(run)@.stage == Stage::Aborted && final(run)@.held is None,
        r is Abort || r is Mutate ==> final(run)@.results == old(run)@.results,
        r is Mutate || r is Abort || r is Settled,
        r is Settled ==> {
            &&& final(run)@.results.len() == old(run)@.results.len() + 1
            &&& final(run)@.results.last().status is Failed
            &&& final(run)@.results.last().reclaimed_bytes.0 == 0
            &&& final(run)@.results.last().executed_at == now
            &&& final(run)@.held is None
        },
{
}

/// The operation succeeded, by its number.
pub open spec fn has_succeeded(results: Seq<ResultModel>, id: OperationId) -> bool {
    exists|i: int|
        #![trigger results[i]]
        0 <= i < results.len() && results[i].op_id == id && results[i].status is Success
}

/// One of the capabilities is for this very operation: to remove that file or directory
/// of that target, to trim that mount or to compact that database.
pub open spec fn has_leave(capabilities: Seq<Capability>, op: OperationType) -> bool {
    exists|i: int|
        #![trigger capabilities[i]]
        0 <= i < capabilities.len() && match (capabilities[i], op) {
            (
                Capability::DeleteFile(t, p),
                OperationType::DeleteFile { target_id, rel_path, .. },
            ) => t@ == target_id@ && paths::components(p@) == paths::components(rel_path@),
            (
                Capability::DeleteDirectory(t, p),
                OperationType::DeleteDirEmpty { target_id, rel_path, .. },
            ) => t@ == target_id@ && paths::components(p@) == paths::components(rel_path@),
            (
                Capability::DeleteDirectory(t, p),
                OperationType::PruneDirRecursive { target_id, rel_path, .. },
            ) => t@ == target_id@ && paths::components(p@) == paths::components(rel_path@),
            (Capability::TrimMount(p), OperationType::TrimFilesystem { mount_path }) =>
                paths::components(p@) == paths::components(mount_path@),
            (Capability::VacuumDatabase(p), OperationType::VacuumDatabase { db_path }) =>
                paths::components(p@) == paths::components(db_path@),
            _ => false,
        }
}

proof fn lemma_has_leave(capabilities: Seq<Capability>, op: OperationType)
    ensures
        has_leave(capabilities, op) <==> grant::allowed_by(capabilities).contains(auth::needed(op)),
{
    let allowed = grant::allowed_by(capabilities);
    assert(allowed.len() == capabilities.len());
    if allowed.contains(auth::needed(op)) {
        let i = choose|i: int| 0 <= i < allowed.len() && allowed[i] == auth::needed(op);
        assert(capabilities[i]@ == auth::needed(op));
    }
    if has_leave(capabilities, op) {
        let i = choose|i: int|
            #![trigger capabilities[i]]
            0 <= i < capabilities.len() && match (capabilities[i], op) {
                (
                    Capability::DeleteFile(t, p),
                    OperationType::DeleteFile { target_id, rel_path, .. },
                ) => t@ == target_id@ && paths::components(p@) == paths::components(rel_path@),
                (
                    Capability::DeleteDirectory(t, p),
                    OperationType::DeleteDirEmpty { target_id, rel_path, .. },
                ) => t@ == target_id@ && paths::components(p@) == paths::components(rel_path@),
                (
                    Capability::DeleteDirectory(t, p),
                    OperationType::PruneDirRecursive { target_id, rel_path, .. },
                ) => t@ == target_id@ && paths::components(p@) == paths::components(rel_path@),
                (Capability::TrimMount(p), OperationType::TrimFilesystem { mount_path }) =>
                    paths::components(p@) == paths::components(mount_path@),
                (Capability::VacuumDatabase(p), OperationType::VacuumDatabase { db_path }) =>
                    paths::components(p@) == paths::components(db_path@),
                _ => false,
            };
        assert(allowed[i] == auth::needed(op));
    }
}

/// The next operation is taken up exactly where there is one, the job was not cancelled,
/// everything that it waits for has succeeded and there is leave for it. Else it is
/// settled at once, with nothing reclaimed: as preempted where the job was cancelled, as
/// left out where something that it waits for has not succeeded, and as failed where
/// there is no leave for it. The run is finished exactly where no operation is left.
pub proof fn law_operation_is_taken_up_where_it_may_be(
    run: &mut PlanRun,
    cancelled: bool,
    now: UnixTimestamp,
    r: Step,
)
    requires
        call_ensures(PlanRun::begin_operation, (run, cancelled, now), r),
        old(run)@.results.len() <= old(run)@.plan.plan.operations@.len(),
    ensures
        r is Finished <==> old(run)@.results.len() == old(run)@.plan.plan.operations@.len(),
        r is Finished ==> final(run)@ == old(run)@,
        r is Finished || r is Settled || r is Throttle,
        !(r is Finished) ==> {
            let op = old(run)@.plan.plan.operations@[old(run)@.results.len() as int];
            let ready = forall|d: int|
                0 <= d < op.dependencies@.len() ==> has_succeeded(
                    old(run)@.results,
                    #[trigger] op.dependencies@[d],
                );
            let leave = has_leave(old(run)@.plan.grant.capabilities@, op.op_type);
            &&& r is Throttle <==> !cancelled && ready && leave
            &&& r is Throttle ==> final(run)@.results == old(run)@.results && final(run)@.stage
                == Stage::Throttling
            &&& r is Settled ==> {
                let result = final(run)@.results.last();
                &&& final(run)@.results.len() == old(run)@.results.len() + 1
                &&& final(run)@.results.drop_last() == old(run)@.results
                &&& result.op_id == op.op_id
                &&& result.reclaimed_bytes.0 == 0
                &&& result.executed_at == now
                &&& result.status is Preempted <==> cancelled
                &&& result.status is Skipped <==> !cancelled && !ready
                &&& result.status is Failed <==> !cancelled && ready && !leave
                &&& final(run)@.stage == Stage::Idle
            }
        },
{
    if old(run)@.results.len() < old(run)@.plan.plan.operations@.len() {
        let op = old(run)@.plan.plan.operations@[old(run)@.results.len() as int];
        lemma_has_leave(old(run)@.plan.grant.capabilities@, op.op_type);
        assert forall|d: int| 0 <= d < op.dependencies@.len() implies (has_succeeded(
            old(run)@.results,
            #[trigger] op.dependencies@[d],
        ) <==> succeeded_in(old(run)@.results, op.dependencies@[d])) by {
            lemma_has_succeeded(old(run)@.results, op.dependencies@[d]);
        }
        if r is Settled {
            assert(final(run)@.results.drop_last() =~= old(run)@.results);
        }
    }
}

proof fn lemma_has_succeeded(results: Seq<ResultModel>, id: OperationId)
    ensures
        has_succeeded(results, id) <==> succeeded_in(results, id),
{
    if has_succeeded(results, id) {
        let i = choose|i: int|
            #![trigger results[i]]
            0 <= i < results.len() && results[i].op_id == id && results[i].status is Success;
        assert(results[i].status == StatusModel::Success);
    }
}

/// The intent of an operation is stored exactly where it removes a file or an empty
/// directory, its target is in the catalog and not locked, and the target still passes
/// the last check. The target is locked from then on, for this attempt; an operation
/// that is settled instead leaves every lock as it was and reclaims nothing.
pub proof fn law_intent_is_stored_where_every_gate_is_passed(
    run: &mut PlanRun,
    locks: &mut ResourceManager,
    now: UnixTimestamp,
    r: Step,
)
    requires
        call_ensures(PlanRun::throttled, (run, locks, now), r),
        old(run).is_valid(),
        old(run)@.stage == Stage::Throttling,
    ensures
        ({
            let op = old(run)@.plan.plan.operations@[old(run)@.results.len() as int].op_type;
            let (id, path, identity): (Seq<char>, Seq<char>, FileIdentity) = match op {
                OperationType::DeleteFile { target_id, rel_path, expected_identity, .. } => (
                    target_id@,
                    rel_path@,
                    expected_identity,
                ),
                OperationType::DeleteDirEmpty { target_id, rel_path, expected_identity } => (
                    target_id@,
                    rel_path@,
                    expected_identity,
                ),
                _ => arbitrary(),
            };
            let removal = op is DeleteFile || op is DeleteDirEmpty;
            let target = old(run)@.catalog.targets@[id];
            let passes = {
                &&& old(run)@.catalog.targets@.contains_key(id)
                &&& !old(locks)@.targets.contains_key(id)
                &&& target.safety_tier == TargetSafetyTier::StandardCache || target.safety_tier
                    == TargetSafetyTier::RequiresColdApp
                &&& !safety::belongs_to_the_platform(target.base_path@)
                &&& path.len() > 0
                &&& identity.dev == target.dev
                &&& target.catalog_generation == old(run)@.catalog.generation
            };
            &&& r is Commit <==> removal && passes
            &&& r is Commit || r is Settled
            &&& r is Commit ==> {
                &&& final(run)@.results == old(run)@.results
                &&& final(run)@.stage == Stage::Committing
                &&& final(locks)@.targets.contains_key(id)
                &&& final(locks)@.targets[id].attempt_id == old(run)@.attempt_id
                &&& final(locks)@.targets.remove(id) == old(locks)@.targets
            }
            &&& r is Settled ==> {
                let result = final(run)@.results.last();
                &&& final(run)@.results.len() == old(run)@.results.len() + 1
                &&& final(run)@.results.drop_last() == old(run)@.results
                &&& result.op_id == old(run)@.plan.plan.operations@[old(run)@.results.len() as int].op_id
                &&& result.reclaimed_bytes.0 == 0
                &&& result.executed_at == now
                &&& removal <==> result.status is Failed
                &&& !removal <==> result.status is Skipped
                &&& final(run)@.stage == Stage::Idle
                &&& final(locks)@.targets == old(locks)@.targets
            }
        }),
        final(locks)@.storages == old(locks)@.storages,
        final(locks)@.mounts == old(locks)@.mounts,
        final(locks)@.active_fds == old(locks)@.active_fds,
{
    let op = old(run)@.plan.plan.operations@[old(run)@.results.len() as int].op_type;
    assert(op == old(run)@.current().op_type);
    if op is DeleteFile || op is DeleteDirEmpty {
        let id = op.target()->0;
        safety::lemma_platform_complaint(old(run)@.catalog.targets@[id].base_path@);
        if r is Commit {
            assert(final(locks)@.targets.remove(id) =~= old(locks)@.targets);
        } else {
            assert(final(locks)@.targets =~= old(locks)@.targets);
        }
    }
    if r is Settled {
        assert(final(run)@.results.drop_last() =~= old(run)@.results);
    }
}

/// An intent tells the operation that it is for: job, attempt, number, target, path,
/// identity, kind and size, and the generations in force.
pub proof fn law_intent_tells_its_operation(
    run: &mut PlanRun,
    locks: &mut ResourceManager,
    now: UnixTimestamp,
    intent: OperationIntent,
)
    requires
        call_ensures(PlanRun::throttled, (run, locks, now), Step::Commit(intent)),
    ensures
        ({
            let op = old(run)@.plan.plan.operations@[old(run)@.results.len() as int];
            &&& intent.op_id == op.op_id
            &&& match op.op_type {
                OperationType::DeleteFile {
                    target_id,
                    rel_path,
                    expected_identity,
                    estimated_size,
                } => {
                    &&& intent.target_id@ == target_id@
                    &&& intent.rel_path@ == rel_path@
                    &&& intent.expected_identity == expected_identity
                    &&& intent.estimated_bytes == estimated_size
                    &&& intent.mutation_type == MutationType::DeleteFile
                },
                OperationType::DeleteDirEmpty { target_id, rel_path, expected_identity } => {
                    &&& intent.target_id@ == target_id@
                    &&& intent.rel_path@ == rel_path@
                    &&& intent.expected_identity == expected_identity
                    &&& intent.estimated_bytes.0 == 0
                    &&& intent.mutation_type == MutationType::DeleteDirEmpty
                },
                _ => false,
            }
        }),
        intent.job_id == old(run)@.plan.plan.job_id,
        intent.attempt_id == old(run)@.attempt_id,
        intent.state == IntentState::Committed,
        intent.catalog_generation == old(run)@.catalog.generation,
        intent.config_generation == old(run)@.plan.grant.config_generation,
        intent.committed_at == now,
        intent.intent_id is None,
        intent.resolved_at is None,
{
}

/// Nothing is marked or changed whose intent could not be stored: the operation fails
/// and gives its lock back.
pub proof fn law_nothing_changes_without_an_intent(
    run: &mut PlanRun,
    locks: &mut ResourceManager,
    error: Option<String>,
    now: UnixTimestamp,
    r: Step,
)
    requires
        call_ensures(PlanRun::intent_committed, (run, locks, error, now), r),
    ensures
        r is Mark <==> error is None,
        r is Mark ==> final(run)@.results == old(run)@.results && final(run)@.held == old(run)@.held
            && final(run)@.stage == Stage::Marking && final(locks)@ == old(locks)@,
        error is Some ==> {
            &&& r is Settled
            &&& final(run)@.results.len() == old(run)@.results.len() + 1
            &&& final(run)@.results.last().status is Failed
            &&& final(run)@.results.last().reclaimed_bytes.0 == 0
            &&& final(run)@.held is None
            &&& final(run)@.stage == Stage::Idle
        },
{
}

/// What came of a change is what was seen after it: the operation succeeds exactly where
/// the item is seen to be gone, fails where an error was reported, and is unverified
/// where neither. Bytes are reclaimed, the size of the file, exactly where a file is gone
/// and no error was reported. Where nothing could be seen the intent stays unknown.
pub proof fn law_success_is_what_was_seen(
    run: &mut PlanRun,
    locks: &mut ResourceManager,
    error: Option<String>,
    outcome: VerificationOutcome,
    now: UnixTimestamp,
    r: Step,
)
    requires
        call_ensures(
            PlanRun::mutated,
            (run, locks, (MutationReport::Tried { error, outcome }), now),
            r,
        ),
    ensures
        ({
            let op = old(run)@.plan.plan.operations@[old(run)@.results.len() as int];
            let gone = outcome == VerificationOutcome::ConfirmedDeleted || outcome
                == VerificationOutcome::AlreadyGone;
            let there = outcome == VerificationOutcome::StillPresent || outcome
                == VerificationOutcome::IdentityMismatch;
            let blind = outcome == VerificationOutcome::Unknown || outcome
                == VerificationOutcome::ParentUnavailable || outcome
                == VerificationOutcome::TargetUnavailable;
            let result = final(run)@.pending->0;
            &&& final(run)@.pending is Some
            &&& result.op_id == op.op_id
            &&& result.status is Success <==> gone
            &&& result.status is Failed <==> !gone && error is Some
            &&& result.status is VerificationFailed <==> !gone && error is None
            &&& result.reclaimed_bytes.0 == match op.op_type {
                OperationType::DeleteFile { estimated_size, .. } => if gone && error is None {
                    estimated_size.0
                } else {
                    0
                },
                _ => 0,
            }
            &&& r == Step::Resolve(IntentState::VerifiedSuccess) <==> gone
            &&& r == Step::Resolve(IntentState::VerifiedFailed) <==> there || (outcome
                == VerificationOutcome::Stale && error is Some)
            &&& r == Step::Resolve(IntentState::ResolvedUnknown) <==> blind || (outcome
                == VerificationOutcome::Stale && error is None)
        }),
        final(run)@.results == old(run)@.results,
        final(run)@.held == old(run)@.held,
        final(run)@.stage == Stage::Resolving,
        final(locks)@ == old(locks)@,
{
}

/// After a file was dealt with its directory stays open, and after a directory was none
/// does.
pub proof fn law_open_directory_is_that_of_the_last_file(
    run: &mut PlanRun,
    locks: &mut ResourceManager,
    error: Option<String>,
    outcome: VerificationOutcome,
    now: UnixTimestamp,
    r: Step,
)
    requires
        call_ensures(
            PlanRun::mutated,
            (run, locks, (MutationReport::Tried { error, outcome }), now),
            r,
        ),
    ensures
        match old(run)@.plan.plan.operations@[old(run)@.results.len() as int].op_type {
            OperationType::DeleteFile { target_id, rel_path, .. } => paths::components(
                rel_path@,
            ).len() > 0 ==> final(run)@.open_parent == Some(
                (target_id@, paths::components(rel_path@).drop_last()),
            ),
            _ => final(run)@.open_parent is None,
        },
{
}

/// Where the directory of an item could not be opened the operation fails with nothing
/// reclaimed, and gives its lock back.
pub proof fn law_unopened_directory_fails_the_operation(
    run: &mut PlanRun,
    locks: &mut ResourceManager,
    error: String,
    now: UnixTimestamp,
    r: Step,
)
    requires
        call_ensures(PlanRun::mutated, (run, locks, MutationReport::ParentFailed(error), now), r),
    ensures
        r is Settled,
        final(run)@.results.len() == old(run)@.results.len() + 1,
        final(run)@.results.last().status is Failed,
        final(run)@.results.last().reclaimed_bytes.0 == 0,
        final(run)@.results.last().executed_at == now,
        final(run)@.held is None,
        final(run)@.stage == Stage::Idle,
{
}

/// What is recorded is the operation under way and what came of it, as it was found,
/// with the time of the record.
pub proof fn law_record_tells_the_operation(
    run: &mut PlanRun,
    locks: &mut ResourceManager,
    stored: bool,
    now: UnixTimestamp,
    r: Step,
)
    requires
        call_ensures(PlanRun::resolved, (run, locks, stored, now), r),
        old(run).is_valid(),
        old(run)@.stage == Stage::Resolving,
    ensures
        r is Abort <==> !stored,
        r is Record <==> stored,
        r is Abort ==> final(run)@.stage == Stage::Aborted && final(run)@.held is None && final(run)@.results == old(run)@.results,
        r matches Step::Record(order) ==> {
            let op = old(run)@.plan.plan.operations@[old(run)@.results.len() as int];
            &&& order.result.op_id == op.op_id
            &&& order.result.status@ == old(run)@.pending->0.status
            &&& order.result.reclaimed_bytes == old(run)@.pending->0.reclaimed_bytes
            &&& order.result.executed_at == now
            &&& match op.op_type {
                OperationType::DeleteFile {
                    target_id,
                    rel_path,
                    expected_identity,
                    estimated_size,
                } => {
                    &&& order.target_id@ == target_id@
                    &&& order.rel_path@ == rel_path@
                    &&& order.expected_identity == expected_identity
                    &&& order.estimated_bytes == estimated_size
                    &&& order.kind == MutationType::DeleteFile
                },
                OperationType::DeleteDirEmpty { target_id, rel_path, expected_identity } => {
                    &&& order.target_id@ == target_id@
                    &&& order.rel_path@ == rel_path@
                    &&& order.expected_identity == expected_identity
                    &&& order.estimated_bytes.0 == 0
                    &&& order.kind == MutationType::DeleteDirEmpty
                },
                _ => false,
            }
            &&& final(run)@.pending == Some(order.result@)
            &&& final(run)@.results == old(run)@.results
        },
{
    assert(old(run)@.pending is Some);
}

/// A recorded result is the result of the operation, and the lock on its target is given
/// back.
pub proof fn law_recorded_result_stays(run: &mut PlanRun, locks: &mut ResourceManager, r: Step)
    requires
        call_ensures(PlanRun::recorded, (run, locks), r),
        old(run).is_valid(),
        old(run)@.stage == Stage::Recording,
    ensures
        r is Settled,
        final(run)@.results.len() == old(run)@.results.len() + 1,
        final(run)@.results.drop_last() == old(run)@.results,
        final(run)@.results.last() == old(run)@.pending->0,
        final(run)@.stage == Stage::Idle,
        final(run)@.held is None,
        final(run)@.pending is None,
        old(run)@.held matches Some((target, reservation)) ==> (old(locks)@.targets.contains_key(
            target,
        ) && old(locks)@.targets[target].reservation_id == reservation ==> final(locks)@.targets
            == old(locks)@.targets.remove(target)),
{
    assert(final(run)@.results.drop_last() =~= old(run)@.results);
}

/// The sums of a run before its first result are all zero.
pub proof fn law_sums_begin_at_zero(run: &PlanRun, duration_ms: u64, r: JobResult)
    requires
        call_ensures(PlanRun::finish, (run, duration_ms), r),
        run@.results.len() == 0,
    ensures
        r.total_reclaimed.0 == 0,
        r.successful_operations == 0,
        r.failed_operations == 0,
        r.skipped_operations == 0,
        r.total_operations == run@.plan.plan.operations@.len(),
        r.duration_ms == duration_ms,
        r.job_id == run@.plan.plan.job_id,
        r.attempt_id == run@.attempt_id,
{
}

/// Two runs, the second of which has one result more: that result adds its bytes, and
/// one to the successes, the failures or the omissions, by its status.
pub proof fn law_each_result_counts_once(
    before: &PlanRun,
    after: &PlanRun,
    a: JobResult,
    b: JobResult,
    duration_ms: u64,
)
    requires
        call_ensures(PlanRun::finish, (before, duration_ms), a),
        call_ensures(PlanRun::finish, (after, duration_ms), b),
        after@.results.len() == before@.results.len() + 1,
        after@.results.drop_last() == before@.results,
    ensures
        ({
            let result = after@.results.last();
            &&& b.successful_operations == a.successful_operations + if result.status is Success {
                1int
            } else {
                0
            }
            &&& b.failed_operations == a.failed_operations + if result.status is Failed
                || result.status is VerificationFailed {
                1int
            } else {
                0
            }
            &&& b.skipped_operations == a.skipped_operations + if result.status is Skipped
                || result.status is Preempted {
                1int
            } else {
                0
            }
            &&& b.total_reclaimed.0 < u64::MAX ==> b.total_reclaimed.0 == a.total_reclaimed.0
                + result.reclaimed_bytes.0
        }),
{
    lemma_counts(before@.results);
}

/// A plan is carried out exactly where plan and grant were made for the catalog and the
/// configuration in force and the grant has not run out. It begins with no result and no
/// lock.
pub proof fn law_stale_plans_are_not_carried_out(
    executor: &CleanupExecutor,
    authorized: AuthorizedPlan,
    catalog: CatalogSnapshot,
    config_gen: ConfigGeneration,
    attempt_id: AttemptId,
    now: UnixTimestamp,
    r: Result<PlanRun, CleanerError>,
)
    requires
        call_ensures(
            CleanupExecutor::execute_plan,
            (executor, authorized, catalog, config_gen, attempt_id, now),
            r,
        ),
    ensures
        r is Ok <==> {
            &&& authorized.plan.catalog_generation == catalog.generation
            &&& authorized.grant.catalog_generation == catalog.generation
            &&& authorized.plan.config_generation == config_gen
            &&& authorized.grant.config_generation == config_gen
            &&& now.0 <= authorized.grant.expires_at.0
        },
        r matches Ok(run) ==> {
            &&& run.is_valid()
            &&& run@.plan == authorized
            &&& run@.catalog == catalog
            &&& run@.attempt_id == attempt_id
            &&& run@.results.len() == 0
            &&& run@.stage == Stage::Idle
            &&& run@.held is None
            &&& run@.open_parent is None
        },
        r matches Err(e) ==> e is SafetyViolation,
{
}

/// An operation that is not taken up is settled with the reason.
pub proof fn law_operations_not_taken_up_are_told_why(
    run: &mut PlanRun,
    cancelled: bool,
    now: UnixTimestamp,
)
    requires
        call_ensures(PlanRun::begin_operation, (run, cancelled, now), Step::Settled),
        old(run)@.results.len() < old(run)@.plan.plan.operations@.len(),
    ensures
        final(run)@.results.last().status matches StatusModel::Skipped(m) ==> m
            == "Precondition dependency failed or unfulfilled"@,
        final(run)@.results.last().status matches StatusModel::Failed(m) ==> m
            == "Capability authorization denial: operation not granted in CapabilityGrant"@,
{
}

/// An operation that passes no gate is settled with the reason: what is no removal is left
/// out, a target that is not known or is locked is a failure.
pub proof fn law_gates_tell_why(
    run: &mut PlanRun,
    locks: &mut ResourceManager,
    now: UnixTimestamp,
)
    requires
        call_ensures(PlanRun::throttled, (run, locks, now), Step::Settled),
        old(run).is_valid(),
        old(run)@.stage == Stage::Throttling,
    ensures
        ({
            let op = old(run)@.plan.plan.operations@[old(run)@.results.len() as int].op_type;
            let status = final(run)@.results.last().status;
            &&& op is PruneDirRecursive ==> status == StatusModel::Skipped(
                "PruneDirRecursive is deprecated in favor of hierarchical DAG atomic deletions"@,
            )
            &&& op is TrimFilesystem || op is VacuumDatabase ==> status == StatusModel::Skipped(
                "Maintenance operation delegated to subsystem"@,
            )
            &&& op matches OperationType::DeleteFile { target_id, .. } ==> (
            !old(run)@.catalog.targets@.contains_key(target_id@) ==> status == StatusModel::Failed(
                "Target "@ + ("target:"@ + target_id@) + " not found in catalog snapshot"@,
            ))
            &&& op matches OperationType::DeleteFile { target_id, .. } ==> (
            old(run)@.catalog.targets@.contains_key(target_id@) && old(locks)@.targets.contains_key(
                target_id@,
            ) ==> status == StatusModel::Failed(
                "Target lock collision: "@ + ("Safety violation: "@ + (
                "Concurrent mutation collision: Target "@ + ("target:"@ + target_id@)
                    + " is already locked by attempt "@ + crate::numerals::decimal(
                    old(locks)@.targets[target_id@].attempt_id.0 as nat,
                ))),
            ))
        }),
{
}

} // verus!
