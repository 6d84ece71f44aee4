//! The record made before a file system is changed.
use vstd::prelude::*;

use crate::domain::types::{
    AttemptId, ByteCount, CatalogGeneration, ConfigGeneration, FileIdentity, JobId, OperationId,
    RelativePath, TargetId, UnixTimestamp,
};

verus! {

/// The change to be made.
#[derive(Debug, Clone, Copy, PartialEq, Eq, Structural)]
pub enum MutationType {
    DeleteFile,
    DeleteDirEmpty,
    PruneDirRecursive,
}

impl MutationType {
    /// The text stored for it.
    pub open spec fn shown(self) -> Seq<char> {
        match self {
            MutationType::DeleteFile => "DELETE_FILE"@,
            MutationType::DeleteDirEmpty => "DELETE_DIR_EMPTY"@,
            MutationType::PruneDirRecursive => "PRUNE_DIR_RECURSIVE"@,
        }
    }

    /// The text stored for it.
    pub fn as_str(&self) -> (r: &'static str)
        ensures
            r@ == self.shown(),
    {
        match self {
            MutationType::DeleteFile => "DELETE_FILE",
            MutationType::DeleteDirEmpty => "DELETE_DIR_EMPTY",
            MutationType::PruneDirRecursive => "PRUNE_DIR_RECURSIVE",
        }
    }
}

/// How far the change has come.
#[derive(Debug, Clone, Copy, PartialEq, Eq, Structural)]
pub enum IntentState {
    Committed,
    Mutating,
    VerifiedSuccess,
    VerifiedFailed,
    ResolvedUnknown,
}

impl IntentState {
    /// The text stored for it.
    pub open spec fn shown(self) -> Seq<char> {
        match self {
            IntentState::Committed => "COMMITTED"@,
            IntentState::Mutating => "MUTATING"@,
            IntentState::VerifiedSuccess => "VERIFIED_SUCCESS"@,
            IntentState::VerifiedFailed => "VERIFIED_FAILED"@,
            IntentState::ResolvedUnknown => "RESOLVED_UNKNOWN"@,
        }
    }

    /// The text stored for it.
    pub fn as_str(&self) -> (r: &'static str)
        ensures
            r@ == self.shown(),
    {
        match self {
            IntentState::Committed => "COMMITTED",
            IntentState::Mutating => "MUTATING",
            IntentState::VerifiedSuccess => "VERIFIED_SUCCESS",
            IntentState::VerifiedFailed => "VERIFIED_FAILED",
            IntentState::ResolvedUnknown => "RESOLVED_UNKNOWN",
        }
    }
}

/// A change that is stored before it is made, so that a crash leaves a trace.
#[derive(Debug, Clone, PartialEq, Eq)]
pub struct OperationIntent {
    pub intent_id: Option<i64>,
    pub job_id: JobId,
    pub attempt_id: AttemptId,
    pub op_id: OperationId,
    pub target_id: TargetId,
    pub rel_path: RelativePath,
    pub expected_identity: FileIdentity,
    pub estimated_bytes: ByteCount,
    pub mutation_type: MutationType,
    pub state: IntentState,
    pub catalog_generation: CatalogGeneration,
    pub config_generation: ConfigGeneration,
    pub committed_at: UnixTimestamp,
    pub resolved_at: Option<UnixTimestamp>,
}

impl OperationIntent {
    /// An intent committed just now and not resolved yet.
    #[allow(clippy::too_many_arguments)]
    pub fn new(
        job_id: JobId,
        attempt_id: AttemptId,
        op_id: OperationId,
        target_id: TargetId,
        rel_path: RelativePath,
        expected_identity: FileIdentity,
        estimated_bytes: ByteCount,
        mutation_type: MutationType,
        catalog_generation: CatalogGeneration,
        config_generation: ConfigGeneration,
    ) -> (r: Self)
        ensures
            r == (OperationIntent {
                intent_id: None,
                job_id,
                attempt_id,
                op_id,
                target_id,
                rel_path,
                expected_identity,
                estimated_bytes,
                mutation_type,
                state: IntentState::Committed,
                catalog_generation,
                config_generation,
                committed_at: r.committed_at,
                resolved_at: None,
            }),
    {
        OperationIntent {
            intent_id: None,
            job_id,
            attempt_id,
            op_id,
            target_id,
            rel_path,
            expected_identity,
            estimated_bytes,
            mutation_type,
            state: IntentState::Committed,
            catalog_generation,
            config_generation,
            committed_at: UnixTimestamp::now(),
            resolved_at: None,
        }
    }
}

/// A change and how far it came are stored under names of their own.
pub proof fn law_stored_names_tell_apart(
    m: &MutationType,
    m2: &MutationType,
    mr: &'static str,
    mr2: &'static str,
    s: &IntentState,
    s2: &IntentState,
    sr: &'static str,
    sr2: &'static str,
)
    requires
        call_ensures(MutationType::as_str, (m,), mr),
        call_ensures(MutationType::as_str, (m2,), mr2),
        call_ensures(IntentState::as_str, (s,), sr),
        call_ensures(IntentState::as_str, (s2,), sr2),
    ensures
        mr@ == mr2@ <==> *m == *m2,
        sr@ == sr2@ <==> *s == *s2,
        *m is DeleteFile ==> mr@ == "DELETE_FILE"@,
        *m is DeleteDirEmpty ==> mr@ == "DELETE_DIR_EMPTY"@,
        *m is PruneDirRecursive ==> mr@ == "PRUNE_DIR_RECURSIVE"@,
        *s is Committed ==> sr@ == "COMMITTED"@,
        *s is Mutating ==> sr@ == "MUTATING"@,
        *s is VerifiedSuccess ==> sr@ == "VERIFIED_SUCCESS"@,
        *s is VerifiedFailed ==> sr@ == "VERIFIED_FAILED"@,
        *s is ResolvedUnknown ==> sr@ == "RESOLVED_UNKNOWN"@,
{
    reveal_strlit("DELETE_FILE");
    reveal_strlit("DELETE_DIR_EMPTY");
    reveal_strlit("PRUNE_DIR_RECURSIVE");
    reveal_strlit("COMMITTED");
    reveal_strlit("MUTATING");
    reveal_strlit("VERIFIED_SUCCESS");
    reveal_strlit("VERIFIED_FAILED");
    reveal_strlit("RESOLVED_UNKNOWN");
    assert("DELETE_FILE"@.len() == 11 && "DELETE_DIR_EMPTY"@.len() == 16
        && "PRUNE_DIR_RECURSIVE"@.len() == 19);
    assert("COMMITTED"@.len() == 9 && "MUTATING"@.len() == 8 && "VERIFIED_SUCCESS"@[9] == 'S'
        && "VERIFIED_FAILED"@.len() == 15 && "RESOLVED_UNKNOWN"@[0] == 'R');
    assert("VERIFIED_SUCCESS"@[0] == 'V' && "VERIFIED_SUCCESS"@.len() == 16
        && "RESOLVED_UNKNOWN"@.len() == 16);
}

/// A new intent holds what it was made of, is committed, and is not resolved.
pub proof fn law_new_intents_hold_what_they_were_made_of(
    job: JobId,
    attempt: AttemptId,
    op: OperationId,
    target: TargetId,
    path: RelativePath,
    identity: FileIdentity,
    bytes: ByteCount,
    mutation: MutationType,
    catalog: CatalogGeneration,
    config: ConfigGeneration,
    r: OperationIntent,
)
    requires
        call_ensures(
            OperationIntent::new,
            (job, attempt, op, target, path, identity, bytes, mutation, catalog, config),
            r,
        ),
    ensures
        r.job_id == job && r.attempt_id == attempt && r.op_id == op,
        r.target_id@ == target@ && r.rel_path@ == path@,
        r.expected_identity == identity && r.estimated_bytes == bytes,
        r.mutation_type == mutation,
        r.catalog_generation == catalog && r.config_generation == config,
        r.state == IntentState::Committed,
        r.resolved_at is None && r.intent_id is None,
{
}

} // verus!
