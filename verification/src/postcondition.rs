//! What a look at the disk shows after a change.
use vstd::prelude::*;

verus! {

/// What was found where an item had been.
#[derive(Debug, Clone, Copy, PartialEq, Eq, Structural)]
pub enum VerificationOutcome {
    ConfirmedDeleted,
    AlreadyGone,
    StillPresent,
    /// Another item stands there.
    IdentityMismatch,
    ParentUnavailable,
    TargetUnavailable,
    Stale,
    Unknown,
}

impl VerificationOutcome {
    /// The name of the outcome.
    pub open spec fn shown(self) -> Seq<char> {
        match self {
            VerificationOutcome::ConfirmedDeleted => "ConfirmedDeleted"@,
            VerificationOutcome::AlreadyGone => "AlreadyGone"@,
            VerificationOutcome::StillPresent => "StillPresent"@,
            VerificationOutcome::IdentityMismatch => "IdentityMismatch"@,
            VerificationOutcome::ParentUnavailable => "ParentUnavailable"@,
            VerificationOutcome::TargetUnavailable => "TargetUnavailable"@,
            VerificationOutcome::Stale => "Stale"@,
            VerificationOutcome::Unknown => "Unknown"@,
        }
    }

    /// The name of the outcome.
    pub fn as_str(&self) -> (r: &'static str)
        ensures
            r@ == self.shown(),
    {
        match self {
            VerificationOutcome::ConfirmedDeleted => "ConfirmedDeleted",
            VerificationOutcome::AlreadyGone => "AlreadyGone",
            VerificationOutcome::StillPresent => "StillPresent",
            VerificationOutcome::IdentityMismatch => "IdentityMismatch",
            VerificationOutcome::ParentUnavailable => "ParentUnavailable",
            VerificationOutcome::TargetUnavailable => "TargetUnavailable",
            VerificationOutcome::Stale => "Stale",
            VerificationOutcome::Unknown => "Unknown",
        }
    }

    /// The item is gone.
    pub open spec fn is_gone(self) -> bool {
        self == VerificationOutcome::ConfirmedDeleted || self == VerificationOutcome::AlreadyGone
    }

    /// Something is still there.
    pub open spec fn is_there(self) -> bool {
        self == VerificationOutcome::StillPresent || self == VerificationOutcome::IdentityMismatch
    }

    /// `true` where the item is gone.
    pub fn gone(&self) -> (r: bool)
        ensures
            r == self.is_gone(),
    {
        matches!(self, VerificationOutcome::ConfirmedDeleted | VerificationOutcome::AlreadyGone)
    }

    /// `true` where something is still there.
    pub fn there(&self) -> (r: bool)
        ensures
            r == self.is_there(),
    {
        matches!(self, VerificationOutcome::StillPresent | VerificationOutcome::IdentityMismatch)
    }
}

/// An item is gone only where it was seen to be deleted or was not there, and something
/// is there only where something was seen; a look that could not be made tells neither.
pub proof fn law_outcomes_tell_what_was_seen(
    outcome: &VerificationOutcome,
    gone: bool,
    there: bool,
    name: &'static str,
)
    requires
        call_ensures(VerificationOutcome::gone, (outcome,), gone),
        call_ensures(VerificationOutcome::there, (outcome,), there),
        call_ensures(VerificationOutcome::as_str, (outcome,), name),
    ensures
        !(gone && there),
        *outcome is ConfirmedDeleted || *outcome is AlreadyGone ==> gone,
        *outcome is StillPresent || *outcome is IdentityMismatch ==> there,
        *outcome is ParentUnavailable || *outcome is TargetUnavailable || *outcome is Stale
            || *outcome is Unknown ==> !gone && !there,
        *outcome is ConfirmedDeleted ==> name@ == "ConfirmedDeleted"@,
        *outcome is AlreadyGone ==> name@ == "AlreadyGone"@,
        *outcome is StillPresent ==> name@ == "StillPresent"@,
        *outcome is IdentityMismatch ==> name@ == "IdentityMismatch"@,
        *outcome is ParentUnavailable ==> name@ == "ParentUnavailable"@,
        *outcome is TargetUnavailable ==> name@ == "TargetUnavailable"@,
        *outcome is Stale ==> name@ == "Stale"@,
        *outcome is Unknown ==> name@ == "Unknown"@,
{
}

} // verus!
