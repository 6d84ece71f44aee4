//! What the policy decides on a candidate.
use vstd::prelude::*;

use crate::domain::candidate::SafetyValidatedCandidate;
use crate::domain::types::UnixTimestamp;

verus! {

/// Why a decision was made.
#[derive(Debug, Clone, PartialEq, Eq)]
pub enum DecisionReason {
    /// Older than the minimum age.
    ExceedsRetentionAge,
    /// Storage is short.
    StoragePressureThreshold,
    /// Younger than the minimum age.
    WithinRetentionGracePeriod,
    /// The package is on the whitelist.
    PackageWhitelisted,
    /// Compiled code or its metadata.
    ProtectedBytecode,
    /// The target may only be inspected.
    TargetIsReadOnly,
    /// The job's time or item budget is used up.
    BudgetExceeded,
    /// A configured rule matched.
    RuleMatch(String),
}

impl DecisionReason {
    /// The text shown for it.
    pub open spec fn shown(self) -> Seq<char> {
        match self {
            DecisionReason::ExceedsRetentionAge => "Exceeds retention age"@,
            DecisionReason::StoragePressureThreshold => "Storage pressure threshold triggered"@,
            DecisionReason::WithinRetentionGracePeriod => "Within retention grace period"@,
            DecisionReason::PackageWhitelisted => "Package is whitelisted"@,
            DecisionReason::ProtectedBytecode => "Protected bytecode/JIT artifact"@,
            DecisionReason::TargetIsReadOnly => "Target is read-only"@,
            DecisionReason::BudgetExceeded => "Execution budget exceeded"@,
            DecisionReason::RuleMatch(rule) => "Rule match: "@ + rule@,
        }
    }

    /// The text shown for it.
    pub fn to_text(&self) -> (r: String)
        ensures
            r@ == self.shown(),
    {
        match self {
            DecisionReason::ExceedsRetentionAge => "Exceeds retention age".to_owned(),
            DecisionReason::StoragePressureThreshold =>
                "Storage pressure threshold triggered".to_owned(),
            DecisionReason::WithinRetentionGracePeriod =>
                "Within retention grace period".to_owned(),
            DecisionReason::PackageWhitelisted => "Package is whitelisted".to_owned(),
            DecisionReason::ProtectedBytecode => "Protected bytecode/JIT artifact".to_owned(),
            DecisionReason::TargetIsReadOnly => "Target is read-only".to_owned(),
            DecisionReason::BudgetExceeded => "Execution budget exceeded".to_owned(),
            DecisionReason::RuleMatch(rule) => {
                let mut r = "Rule match: ".to_owned();
                r.append(rule.as_str());
                r
            },
        }
    }
}

/// The candidate may be removed.
#[derive(Debug, Clone, PartialEq, Eq)]
pub struct PolicyPermit {
    pub candidate: SafetyValidatedCandidate,
    pub priority: u32,
    pub reason: DecisionReason,
    pub decided_at: UnixTimestamp,
}

/// The candidate must stay.
#[derive(Debug, Clone, PartialEq, Eq)]
pub struct PolicyDeny {
    pub candidate: SafetyValidatedCandidate,
    pub reason: DecisionReason,
    pub decided_at: UnixTimestamp,
}

/// The candidate is passed over this time.
#[derive(Debug, Clone, PartialEq, Eq)]
pub struct PolicySkip {
    pub candidate: SafetyValidatedCandidate,
    pub reason: DecisionReason,
    pub decided_at: UnixTimestamp,
}

/// The decision on one candidate.
#[derive(Debug, Clone, PartialEq, Eq)]
pub enum PolicyDecision {
    Allow(PolicyPermit),
    Deny(PolicyDeny),
    Skip(PolicySkip),
}

impl PolicyDecision {
    pub fn is_allowed(&self) -> (r: bool)
        ensures
            r == (self is Allow),
    {
        matches!(self, PolicyDecision::Allow(_))
    }

    pub fn is_denied(&self) -> (r: bool)
        ensures
            r == (self is Deny),
    {
        matches!(self, PolicyDecision::Deny(_))
    }
}

/// A decision allows or denies, or does neither where it passes over.
pub proof fn law_decisions_are_told_apart(d: &PolicyDecision, allowed: bool, denied: bool)
    requires
        call_ensures(PolicyDecision::is_allowed, (d,), allowed),
        call_ensures(PolicyDecision::is_denied, (d,), denied),
    ensures
        !(allowed && denied),
        *d is Allow ==> allowed,
        *d is Deny ==> denied,
        *d is Skip ==> !allowed && !denied,
{
}

/// Every reason has a text of its own, and a rule is named in it.
pub proof fn law_reasons_are_told(reason: &DecisionReason, r: String)
    requires
        call_ensures(DecisionReason::to_text, (reason,), r),
    ensures
        *reason is ExceedsRetentionAge ==> r@ == "Exceeds retention age"@,
        *reason is StoragePressureThreshold ==> r@ == "Storage pressure threshold triggered"@,
        *reason is WithinRetentionGracePeriod ==> r@ == "Within retention grace period"@,
        *reason is PackageWhitelisted ==> r@ == "Package is whitelisted"@,
        *reason is ProtectedBytecode ==> r@ == "Protected bytecode/JIT artifact"@,
        *reason is TargetIsReadOnly ==> r@ == "Target is read-only"@,
        *reason is BudgetExceeded ==> r@ == "Execution budget exceeded"@,
        *reason matches DecisionReason::RuleMatch(rule) ==> r@ == "Rule match: "@ + rule@,
{
}

} // verus!
