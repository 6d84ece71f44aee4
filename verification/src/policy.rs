//! Decides which of the safe candidates are worth removing.
use vstd::prelude::*;

use crate::config_pipeline::EffectiveConfig;
use crate::domain::candidate::{Candidate, SafetyValidatedCandidate};
use crate::domain::decision::{DecisionReason, PolicyDecision, PolicyDeny, PolicyPermit};
use crate::domain::target::TargetDescriptor;
use crate::domain::types::UnixTimestamp;
use crate::text;

verus! {

/// The path names compiled code.
pub open spec fn is_bytecode(path: Seq<char>) -> bool {
    text::ends_with_one_of(path, seq![".dex"@, ".oat"@, ".art"@, ".vdex"@]) || text::has_part(
        path,
        "code_cache"@,
    )
}

/// Seconds from `then` to `now`; zero where `then` lies ahead.
pub open spec fn age(then: UnixTimestamp, now: UnixTimestamp) -> int {
    if now.0 >= then.0 {
        now.0 - then.0
    } else {
        0
    }
}

/// Why the candidate must stay; nothing where it may be removed.
pub open spec fn denial(
    candidate: Candidate,
    target: TargetDescriptor,
    config: EffectiveConfig,
    now: UnixTimestamp,
) -> Option<DecisionReason> {
    if target.package_name is Some && config.whitelists(target.package_name->0@) {
        Some(DecisionReason::PackageWhitelisted)
    } else if is_bytecode(candidate.rel_path@) {
        Some(DecisionReason::ProtectedBytecode)
    } else if age(candidate.mtime, now) < config.validated.min_app_cache_age_secs {
        Some(DecisionReason::WithinRetentionGracePeriod)
    } else {
        None
    }
}

/// The decision on a candidate.
pub open spec fn is_decision(
    decision: PolicyDecision,
    validated: SafetyValidatedCandidate,
    target: TargetDescriptor,
    config: EffectiveConfig,
    now: UnixTimestamp,
    is_frozen: bool,
) -> bool {
    match denial(validated.candidate, target, config, now) {
        Some(reason) => decision matches PolicyDecision::Deny(d) && d.candidate == validated
            && d.reason == reason,
        None => decision matches PolicyDecision::Allow(p) && p.candidate == validated && p.reason
            == DecisionReason::ExceedsRetentionAge && p.priority == if is_frozen {
            200u32
        } else {
            100u32
        },
    }
}

fn path_is_bytecode(path: &str) -> (r: bool)
    ensures
        r == is_bytecode(path@),
{
    let endings = [".dex", ".oat", ".art", ".vdex"];
    assert(text::literals(endings@) =~= seq![".dex"@, ".oat"@, ".art"@, ".vdex"@]);
    text::ends_with_one(path, &endings) || text::contains_text(path, "code_cache")
}

/// Applies the configured rules.
#[derive(Debug)]
pub struct PolicyEngine;

impl Default for PolicyEngine {
    fn default() -> (r: Self) {
        PolicyEngine
    }
}

impl PolicyEngine {
    pub fn new() -> (r: Self) {
        PolicyEngine
    }

    /// Decides on a candidate whose application is running.
    pub fn evaluate_candidate(
        &self,
        validated: SafetyValidatedCandidate,
        target: &TargetDescriptor,
        config: &EffectiveConfig,
        now: UnixTimestamp,
    ) -> (r: PolicyDecision)
        ensures
            is_decision(r, validated, *target, *config, now, false),
    {
        self.evaluate_candidate_with_freezer(validated, target, config, now, false)
    }

    /// Decides on a candidate. `is_frozen` says whether its application is frozen,
    /// which makes its removal more urgent.
    pub fn evaluate_candidate_with_freezer(
        &self,
        validated: SafetyValidatedCandidate,
        target: &TargetDescriptor,
        config: &EffectiveConfig,
        now: UnixTimestamp,
        is_frozen: bool,
    ) -> (r: PolicyDecision)
        ensures
            is_decision(r, validated, *target, *config, now, is_frozen),
    {
        let decided_at = UnixTimestamp::now();
        match &target.package_name {
            Some(pkg) => {
                if config.is_package_whitelisted(pkg.as_str()) {
                    return PolicyDecision::Deny(
                        PolicyDeny {
                            candidate: validated,
                            reason: DecisionReason::PackageWhitelisted,
                            decided_at,
                        },
                    );
                }
            },
            None => {},
        }
        if path_is_bytecode(validated.candidate.rel_path.as_str()) {
            return PolicyDecision::Deny(
                PolicyDeny {
                    candidate: validated,
                    reason: DecisionReason::ProtectedBytecode,
                    decided_at,
                },
            );
        }
        let age_secs: u64 = validated.candidate.mtime.age_secs(now);
        if age_secs < config.validated.min_app_cache_age_secs {
            return PolicyDecision::Deny(
                PolicyDeny {
                    candidate: validated,
                    reason: DecisionReason::WithinRetentionGracePeriod,
                    decided_at,
                },
            );
        }
        let priority: u32 = if is_frozen {
            200u32
        } else {
            100u32
        };
        PolicyDecision::Allow(
            PolicyPermit {
                candidate: validated,
                priority,
                reason: DecisionReason::ExceedsRetentionAge,
                decided_at,
            },
        )
    }
}

/// A candidate of a whitelisted package is never allowed to go, however old it is.
pub proof fn law_whitelist_beats_age(
    candidate: Candidate,
    target: TargetDescriptor,
    config: EffectiveConfig,
    now: UnixTimestamp,
)
    requires
        target.package_name is Some,
        config.whitelists(target.package_name->0@),
    ensures
        denial(candidate, target, config, now) == Some(DecisionReason::PackageWhitelisted),
{
}

/// A candidate that is allowed to go at one time is allowed to go at every later
/// time.
pub proof fn law_allowed_stays_allowed(
    candidate: Candidate,
    target: TargetDescriptor,
    config: EffectiveConfig,
    now: UnixTimestamp,
    later: UnixTimestamp,
)
    requires
        denial(candidate, target, config, now) is None,
        now.0 <= later.0,
    ensures
        denial(candidate, target, config, later) is None,
{
}

/// A candidate may go exactly where its package is on no whitelist, its path names no
/// compiled code, and it was last changed at least the configured time before `now`. It
/// goes as it was checked, and sooner where its application is frozen. Where several
/// things keep a candidate the first of these is named.
pub proof fn law_only_old_unprotected_candidates_go(
    engine: &PolicyEngine,
    validated: SafetyValidatedCandidate,
    target: &TargetDescriptor,
    config: &EffectiveConfig,
    now: UnixTimestamp,
    is_frozen: bool,
    r: PolicyDecision,
)
    requires
        call_ensures(
            PolicyEngine::evaluate_candidate_with_freezer,
            (engine, validated, target, config, now, is_frozen),
            r,
        ),
    ensures
        ({
            let listed = target.package_name is Some && exists|i: int|
                0 <= i < config.validated.whitelist_packages@.len() && text::same_but_case(
                    (#[trigger] config.validated.whitelist_packages@[i])@,
                    target.package_name->0@,
                );
            let path = validated.candidate.rel_path@;
            let code = text::ends_in_one(path, seq![".dex"@, ".oat"@, ".art"@, ".vdex"@])
                || text::holds_one(path, seq!["code_cache"@]);
            let least = config.validated.min_app_cache_age_secs;
            let young = least > 0 && now.0 < validated.candidate.mtime.0 + least;
            &&& r is Allow <==> !listed && !code && !young
            &&& r matches PolicyDecision::Allow(permit) ==> permit.candidate == validated
                && permit.reason == DecisionReason::ExceedsRetentionAge && permit.priority
                == if is_frozen {
                200u32
            } else {
                100u32
            }
            &&& !(r is Allow) ==> (r matches PolicyDecision::Deny(deny) && deny.candidate
                == validated && deny.reason == if listed {
                DecisionReason::PackageWhitelisted
            } else if code {
                DecisionReason::ProtectedBytecode
            } else {
                DecisionReason::WithinRetentionGracePeriod
            })
        }),
{
    let path = validated.candidate.rel_path@;
    text::lemma_ends_in_one(path, seq![".dex"@, ".oat"@, ".art"@, ".vdex"@]);
    let one = seq!["code_cache"@];
    text::lemma_holds_one(path, one);
    assert(text::has_part_of(path, one) <==> text::has_part(path, "code_cache"@)) by {
        assert(one[0] == "code_cache"@);
    }
}

/// A candidate whose application runs is decided on as any other, and goes at the usual
/// priority.
pub proof fn law_running_applications_are_not_urgent(
    engine: &PolicyEngine,
    validated: SafetyValidatedCandidate,
    target: &TargetDescriptor,
    config: &EffectiveConfig,
    now: UnixTimestamp,
    is_frozen: bool,
    plain: PolicyDecision,
    with_freezer: PolicyDecision,
)
    requires
        call_ensures(
            PolicyEngine::evaluate_candidate,
            (engine, validated, target, config, now),
            plain,
        ),
        call_ensures(
            PolicyEngine::evaluate_candidate_with_freezer,
            (engine, validated, target, config, now, is_frozen),
            with_freezer,
        ),
    ensures
        plain is Allow <==> with_freezer is Allow,
        plain is Deny <==> with_freezer is Deny,
        plain matches PolicyDecision::Allow(permit) ==> permit.priority == 100 && permit.candidate
            == validated,
        plain matches PolicyDecision::Deny(deny) ==> (with_freezer matches PolicyDecision::Deny(
            other,
        ) && deny.reason == other.reason && deny.candidate == validated),
{
}

} // verus!
