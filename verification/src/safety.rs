//! The checks that nothing may pass before it is changed.
use vstd::prelude::*;

use crate::config_pipeline;
use crate::domain::candidate::{Candidate, SafetyValidatedCandidate};
use crate::domain::target::{TargetDescriptor, TargetSafetyTier};
use crate::domain::types::{
    CatalogGeneration, ConfigGeneration, FileIdentity, OperationId, TargetId, UnixTimestamp,
};
use crate::error::CleanerError;
use crate::paths;
use crate::text;

verus! {

/// How long a proof is good, in seconds.
pub const PROOF_LIFETIME_SECS: u64 = 30;

/// Shows that an operation passed the last check, and for how long that counts.
#[derive(Debug, Clone, PartialEq, Eq)]
pub struct SafetyProof {
    pub target_id: TargetId,
    pub expected_identity: FileIdentity,
    pub operation_id: OperationId,
    pub catalog_generation: CatalogGeneration,
    pub config_generation: ConfigGeneration,
    pub validated_at: UnixTimestamp,
    pub expires_at: UnixTimestamp,
}

impl SafetyProof {
    pub fn is_expired(&self, now: UnixTimestamp) -> (r: bool)
        ensures
            r == (now.0 > self.expires_at.0),
    {
        now.as_secs() > self.expires_at.as_secs()
    }

    /// The proof counts for this operation at `now` under these generations.
    pub open spec fn counts_for(
        self,
        op_id: OperationId,
        now: UnixTimestamp,
        catalog_gen: CatalogGeneration,
        config_gen: ConfigGeneration,
    ) -> bool {
        &&& self.operation_id == op_id
        &&& self.catalog_generation == catalog_gen
        &&& self.config_generation == config_gen
        &&& now.0 <= self.expires_at.0
    }

    pub fn is_valid_for(
        &self,
        op_id: OperationId,
        now: UnixTimestamp,
        catalog_gen: CatalogGeneration,
        config_gen: ConfigGeneration,
    ) -> (r: bool)
        ensures
            r == self.counts_for(op_id, now, catalog_gen, config_gen),
    {
        self.operation_id == op_id && self.catalog_generation == catalog_gen
            && self.config_generation == config_gen && !self.is_expired(now)
    }
}

/// The name of a tier.
pub open spec fn tier_name(tier: TargetSafetyTier) -> Seq<char> {
    match tier {
        TargetSafetyTier::StandardCache => "StandardCache"@,
        TargetSafetyTier::RequiresColdApp => "RequiresColdApp"@,
        TargetSafetyTier::ReadOnlyInspection => "ReadOnlyInspection"@,
        TargetSafetyTier::ProtectedSystem => "ProtectedSystem"@,
    }
}

fn tier_text(tier: TargetSafetyTier) -> (r: &'static str)
    ensures
        r@ == tier_name(tier),
{
    match tier {
        TargetSafetyTier::StandardCache => "StandardCache",
        TargetSafetyTier::RequiresColdApp => "RequiresColdApp",
        TargetSafetyTier::ReadOnlyInspection => "ReadOnlyInspection",
        TargetSafetyTier::ProtectedSystem => "ProtectedSystem",
    }
}

/// The path is the root directory, or no path at all.
pub open spec fn is_root(path: Seq<char>) -> bool {
    paths::components(path).len() == 0 || paths::components(path) == seq![seq!['/']]
}

/// The first of `roots` that the path is or stands below.
pub open spec fn first_root_above(path: Seq<char>, roots: Seq<Seq<char>>) -> Option<Seq<char>>
    decreases roots.len(),
{
    if roots.len() == 0 {
        None
    } else if paths::is_under(path, roots[0]) {
        Some(roots[0])
    } else {
        first_root_above(path, roots.drop_first())
    }
}

/// Why a target may not stand at `path`: it is the root directory, or it belongs to
/// the platform.
pub open spec fn root_complaint(path: Seq<char>) -> Option<Seq<char>> {
    if is_root(path) {
        Some("Critical invariant violation: Root '/' must never be targeted for mutation"@)
    } else {
        match first_root_above(path, config_pipeline::platform_paths()) {
            Some(root) => Some(
                "Critical invariant violation: Protected system root '"@ + root
                    + "' must never be targeted for mutation (path: "@ + path + ")"@,
            ),
            None => None,
        }
    }
}

/// Why a candidate is refused, the first reason found.
pub open spec fn candidate_complaint(candidate: Candidate, target: TargetDescriptor) -> Option<
    Seq<char>,
> {
    if !target.allows_mutation() {
        Some(
            "Target "@ + ("target:"@ + target.target_id@) + " safety tier "@ + tier_name(
                target.safety_tier,
            ) + " strictly forbids mutation"@,
        )
    } else if candidate.target_id@ != target.target_id@ {
        Some(
            "Candidate target ID mismatch: candidate "@ + ("target:"@ + candidate.target_id@)
                + " vs target "@ + ("target:"@ + target.target_id@),
        )
    } else if candidate.identity.dev != target.dev {
        Some(
            "Mount boundary violation: candidate dev "@ + candidate.identity.dev.shown()
                + " != target root dev "@ + target.dev.shown(),
        )
    } else if candidate.rel_path@.len() == 0 {
        Some("Attempted to validate root target directory itself as a deletion candidate"@)
    } else {
        root_complaint(target.base_path@)
    }
}

/// Why a change is refused at the last moment, the first reason found.
pub open spec fn boundary_complaint(
    target: TargetDescriptor,
    rel_path: Seq<char>,
    expected_identity: FileIdentity,
    catalog_generation: CatalogGeneration,
) -> Option<Seq<char>> {
    if !target.allows_mutation() {
        Some(
            "Mutation boundary rejected: Target "@ + ("target:"@ + target.target_id@)
                + " safety tier "@ + tier_name(target.safety_tier) + " is read-only"@,
        )
    } else if root_complaint(target.base_path@) is Some {
        root_complaint(target.base_path@)
    } else if rel_path.len() == 0 {
        Some("Mutation boundary rejected: Attempted to mutate target root directory directly"@)
    } else if expected_identity.dev != target.dev {
        Some(
            "Mutation boundary rejected: Device mismatch expected "@
                + expected_identity.dev.shown() + " vs target root "@ + target.dev.shown(),
        )
    } else if target.catalog_generation != catalog_generation {
        Some(
            "Catalog generation mismatch: target "@ + target.catalog_generation.shown()
                + " vs expected "@ + catalog_generation.shown(),
        )
    } else {
        None
    }
}

/// Keeps changes within what is safe.
#[derive(Debug)]
pub struct SafetyGate;

impl Default for SafetyGate {
    fn default() -> (r: Self) {
        SafetyGate
    }
}

impl SafetyGate {
    pub fn new() -> (r: Self) {
        SafetyGate
    }

    /// Checks a candidate against its target, as of now.
    pub fn validate_candidate(&self, candidate: Candidate, target: &TargetDescriptor) -> (r: Result<
        SafetyValidatedCandidate,
        CleanerError,
    >)
        ensures
            r is Ok <==> candidate_complaint(candidate, *target) is None,
            r matches Ok(v) ==> v.candidate == candidate && v.trusted_root_dev == target.dev
                && v.trusted_root_ino == target.ino,
            r matches Err(e) ==> (e matches CleanerError::SafetyViolation(m) && Some(m@)
                == candidate_complaint(candidate, *target)),
    {
        if !target.is_mutation_allowed() {
            let mut m = "Target ".to_owned();
            m.append(target.target_id.to_text().as_str());
            m.append(" safety tier ");
            m.append(tier_text(target.safety_tier));
            m.append(" strictly forbids mutation");
            return Err(CleanerError::SafetyViolation(m));
        }
        if !candidate.target_id.same(&target.target_id) {
            let mut m = "Candidate target ID mismatch: candidate ".to_owned();
            m.append(candidate.target_id.to_text().as_str());
            m.append(" vs target ");
            m.append(target.target_id.to_text().as_str());
            return Err(CleanerError::SafetyViolation(m));
        }
        if candidate.identity.dev != target.dev {
            let mut m = "Mount boundary violation: candidate dev ".to_owned();
            m.append(candidate.identity.dev.to_text().as_str());
            m.append(" != target root dev ");
            m.append(target.dev.to_text().as_str());
            return Err(CleanerError::SafetyViolation(m));
        }
        if candidate.rel_path.as_path().is_empty() {
            return Err(
                CleanerError::SafetyViolation(
                    "Attempted to validate root target directory itself as a deletion candidate".to_owned(),
                ),
            );
        }
        match self.verify_target_root_safety(target.base_path.as_str()) {
            Ok(()) => {},
            Err(e) => {
                return Err(e);
            },
        }
        Ok(SafetyValidatedCandidate::new(candidate, target.dev, target.ino))
    }

    /// Checks an operation right before it is carried out, as of now.
    pub fn validate_mutation_boundary(
        &self,
        target: &TargetDescriptor,
        rel_path: &str,
        expected_identity: &FileIdentity,
        operation_id: OperationId,
        catalog_generation: CatalogGeneration,
        config_generation: ConfigGeneration,
    ) -> (r: Result<SafetyProof, CleanerError>)
        ensures
            r is Ok <==> boundary_complaint(
                *target,
                rel_path@,
                *expected_identity,
                catalog_generation,
            ) is None,
            r matches Ok(p) ==> p == SafetyGate::proof_of(
                *target,
                *expected_identity,
                operation_id,
                catalog_generation,
                config_generation,
                p.validated_at,
            ),
            r matches Err(e) ==> (e matches CleanerError::SafetyViolation(m) && Some(m@)
                == boundary_complaint(*target, rel_path@, *expected_identity, catalog_generation)),
    {
        self.validate_mutation_boundary_at(
            target,
            rel_path,
            expected_identity,
            operation_id,
            catalog_generation,
            config_generation,
            UnixTimestamp::now(),
        )
    }

    /// The proof given at `now`.
    pub open spec fn proof_of(
        target: TargetDescriptor,
        expected_identity: FileIdentity,
        operation_id: OperationId,
        catalog_generation: CatalogGeneration,
        config_generation: ConfigGeneration,
        now: UnixTimestamp,
    ) -> SafetyProof {
        SafetyProof {
            target_id: target.target_id,
            expected_identity,
            operation_id,
            catalog_generation,
            config_generation,
            validated_at: now,
            expires_at: if now.0 + PROOF_LIFETIME_SECS <= u64::MAX {
                UnixTimestamp((now.0 + PROOF_LIFETIME_SECS) as u64)
            } else {
                UnixTimestamp(u64::MAX)
            },
        }
    }

    /// Checks an operation right before it is carried out, at `now`.
    #[allow(clippy::too_many_arguments)]
    pub fn validate_mutation_boundary_at(
        &self,
        target: &TargetDescriptor,
        rel_path: &str,
        expected_identity: &FileIdentity,
        operation_id: OperationId,
        catalog_generation: CatalogGeneration,
        config_generation: ConfigGeneration,
        now: UnixTimestamp,
    ) -> (r: Result<SafetyProof, CleanerError>)
        ensures
            r is Ok <==> boundary_complaint(
                *target,
                rel_path@,
                *expected_identity,
                catalog_generation,
            ) is None,
            r matches Ok(p) ==> p == SafetyGate::proof_of(
                *target,
                *expected_identity,
                operation_id,
                catalog_generation,
                config_generation,
                now,
            ),
            r matches Err(e) ==> (e matches CleanerError::SafetyViolation(m) && Some(m@)
                == boundary_complaint(*target, rel_path@, *expected_identity, catalog_generation)),
    {
        if !target.is_mutation_allowed() {
            let mut m = "Mutation boundary rejected: Target ".to_owned();
            m.append(target.target_id.to_text().as_str());
            m.append(" safety tier ");
            m.append(tier_text(target.safety_tier));
            m.append(" is read-only");
            return Err(CleanerError::SafetyViolation(m));
        }
        match self.verify_target_root_safety(target.base_path.as_str()) {
            Ok(()) => {},
            Err(e) => {
                return Err(e);
            },
        }
        if rel_path.is_empty() {
            return Err(
                CleanerError::SafetyViolation(
                    "Mutation boundary rejected: Attempted to mutate target root directory directly".to_owned(),
                ),
            );
        }
        if expected_identity.dev != target.dev {
            let mut m = "Mutation boundary rejected: Device mismatch expected ".to_owned();
            m.append(expected_identity.dev.to_text().as_str());
            m.append(" vs target root ");
            m.append(target.dev.to_text().as_str());
            return Err(CleanerError::SafetyViolation(m));
        }
        if target.catalog_generation != catalog_generation {
            let mut m = "Catalog generation mismatch: target ".to_owned();
            m.append(target.catalog_generation.to_text().as_str());
            m.append(" vs expected ");
            m.append(catalog_generation.to_text().as_str());
            return Err(CleanerError::SafetyViolation(m));
        }
        Ok(
            SafetyProof {
                target_id: target.target_id.copy(),
                expected_identity: *expected_identity,
                operation_id,
                catalog_generation,
                config_generation,
                validated_at: now,
                expires_at: UnixTimestamp(now.0.saturating_add(PROOF_LIFETIME_SECS)),
            },
        )
    }

    fn verify_target_root_safety(&self, path: &str) -> (r: Result<(), CleanerError>)
        ensures
            r is Ok <==> root_complaint(path@) is None,
            r matches Err(e) ==> (e matches CleanerError::SafetyViolation(m) && Some(m@)
                == root_complaint(path@)),
    {
        let parts = paths::path_components(path);
        proof {
            reveal_strlit("/");
            assert("/"@ =~= seq!['/']);
            assert(text::texts(parts@).len() == parts.len());
            if parts.len() == 1 {
                assert(paths::components(path@)[0] == parts@[0]@);
                assert(parts@[0]@ == "/"@ ==> paths::components(path@) =~= seq![seq!['/']]);
            }
        }
        if parts.len() == 0 || (parts.len() == 1 && text::same_text(parts[0].as_str(), "/")) {
            return Err(
                CleanerError::SafetyViolation(
                    "Critical invariant violation: Root '/' must never be targeted for mutation".to_owned(),
                ),
            );
        }
        let roots = config_pipeline::platform_protected_paths();
        let ghost all = config_pipeline::platform_paths();
        let mut i: usize = 0;
        assert(all.subrange(0, all.len() as int) =~= all);
        while i < roots.len()
            invariant
                i <= roots.len(),
                all == text::literals(roots@),
                all == config_pipeline::platform_paths(),
                all.len() == roots.len(),
                !is_root(path@),
                text::texts(parts@) == paths::components(path@),
                first_root_above(path@, all) == first_root_above(
                    path@,
                    all.subrange(i as int, all.len() as int),
                ),
            decreases roots.len() - i,
        {
            let ghost rest = all.subrange(i as int, all.len() as int);
            assert(rest[0] == roots@[i as int]@);
            if paths::begins_with_components(&parts, &paths::path_components(roots[i])) {
                let mut m = "Critical invariant violation: Protected system root '".to_owned();
                m.append(roots[i]);
                m.append("' must never be targeted for mutation (path: ");
                m.append(path);
                m.append(")");
                return Err(CleanerError::SafetyViolation(m));
            }
            assert(rest.drop_first() =~= all.subrange(i + 1, all.len() as int));
            i = i + 1;
        }
        Ok(())
    }
}

proof fn lemma_root_above_found(path: Seq<char>, roots: Seq<Seq<char>>, root: Seq<char>)
    requires
        roots.contains(root),
        paths::is_under(path, root),
    ensures
        first_root_above(path, roots) is Some,
    decreases roots.len(),
{
    if !paths::is_under(path, roots[0]) {
        let i = choose|i: int| 0 <= i < roots.len() && roots[i] == root;
        assert(roots.drop_first()[i - 1] == root);
        lemma_root_above_found(path, roots.drop_first(), root);
    }
}

/// A target below one of the platform's paths never has a candidate accepted nor
/// an operation carried out, whatever else is said of it.
pub proof fn law_platform_is_never_changed(
    candidate: Candidate,
    target: TargetDescriptor,
    rel_path: Seq<char>,
    identity: FileIdentity,
    generation: CatalogGeneration,
    root: Seq<char>,
)
    requires
        config_pipeline::platform_paths().contains(root),
        paths::is_under(target.base_path@, root),
    ensures
        candidate_complaint(candidate, target) is Some,
        boundary_complaint(target, rel_path, identity, generation) is Some,
{
    lemma_root_above_found(target.base_path@, config_pipeline::platform_paths(), root);
}

/// The base directory of a target is never itself removed.
pub proof fn law_target_root_is_never_removed(
    candidate: Candidate,
    target: TargetDescriptor,
    identity: FileIdentity,
    generation: CatalogGeneration,
)
    ensures
        candidate.rel_path@.len() == 0 ==> candidate_complaint(candidate, target) is Some,
        boundary_complaint(target, Seq::empty(), identity, generation) is Some,
{
}

/// Whatever passes the checks stands on the target's own device: no mount point is
/// ever crossed.
pub proof fn law_no_mount_is_crossed(
    candidate: Candidate,
    target: TargetDescriptor,
    rel_path: Seq<char>,
    identity: FileIdentity,
    generation: CatalogGeneration,
)
    ensures
        candidate_complaint(candidate, target) is None ==> candidate.identity.dev == target.dev,
        boundary_complaint(target, rel_path, identity, generation) is None ==> identity.dev
            == target.dev,
{
}

/// A proof counts from the moment it is given, for thirty seconds and no longer,
/// for its own operation and generations alone.
pub proof fn law_proof_is_short_lived(
    target: TargetDescriptor,
    identity: FileIdentity,
    op: OperationId,
    other: OperationId,
    catalog: CatalogGeneration,
    config: ConfigGeneration,
    given: UnixTimestamp,
    now: UnixTimestamp,
)
    requires
        given.0 + PROOF_LIFETIME_SECS <= u64::MAX,
    ensures
        SafetyGate::proof_of(target, identity, op, catalog, config, given).counts_for(
            other,
            now,
            catalog,
            config,
        ) <==> other == op && now.0 <= given.0 + PROOF_LIFETIME_SECS,
{
}

/// Nothing may be changed below this path: it is the root directory, or no path at all,
/// or one of the platform's own paths, or stands below one of those.
pub open spec fn belongs_to_the_platform(path: Seq<char>) -> bool {
    ||| paths::components(path).len() == 0
    ||| paths::components(path).len() == 1 && paths::components(path)[0] == seq!['/']
    ||| exists|root: Seq<char>|
        seq![
            "/system"@,
            "/vendor"@,
            "/product"@,
            "/system_ext"@,
            "/apex"@,
            "/data/system"@,
            "/data/misc"@,
            "/data/bootchart"@,
            "/metadata"@,
            "/boot"@,
            "/etc"@,
        ].contains(root) && #[trigger] paths::is_under(path, root)
}

proof fn lemma_first_root_above(path: Seq<char>, roots: Seq<Seq<char>>)
    ensures
        first_root_above(path, roots) is Some <==> exists|root: Seq<char>|
            roots.contains(root) && #[trigger] paths::is_under(path, root),
        first_root_above(path, roots) matches Some(root) ==> roots.contains(root)
            && paths::is_under(path, root),
    decreases roots.len(),
{
    if roots.len() > 0 {
        let rest = roots.drop_first();
        lemma_first_root_above(path, rest);
        assert(roots.contains(roots[0]));
        assert forall|root: Seq<char>| rest.contains(root) implies roots.contains(root) by {
            let i = choose|i: int| 0 <= i < rest.len() && rest[i] == root;
            assert(roots[i + 1] == root);
        }
        assert forall|root: Seq<char>|
            roots.contains(root) && root != roots[0] implies rest.contains(root) by {
            let i = choose|i: int| 0 <= i < roots.len() && roots[i] == root;
            assert(rest[i - 1] == root);
        }
    }
}

/// The places that nothing may be changed below are those that the checks complain of.
pub proof fn lemma_platform_complaint(path: Seq<char>)
    ensures
        root_complaint(path) is Some <==> belongs_to_the_platform(path),
{
    lemma_first_root_above(path, config_pipeline::platform_paths());
    if paths::components(path).len() == 1 && paths::components(path)[0] == seq!['/'] {
        assert(paths::components(path) =~= seq![seq!['/']]);
    }
}

/// A candidate passes exactly where its target may be changed and is the one that the
/// candidate was found in, the candidate stands on the target's device and below its
/// directory, and that directory does not belong to the platform. What passes is the
/// candidate as it was, together with the device and inode of the target.
pub proof fn law_candidate_passes_every_check(
    gate: &SafetyGate,
    candidate: Candidate,
    target: &TargetDescriptor,
    r: Result<SafetyValidatedCandidate, CleanerError>,
)
    requires
        call_ensures(SafetyGate::validate_candidate, (gate, candidate, target), r),
    ensures
        r is Ok <==> {
            &&& target.safety_tier == TargetSafetyTier::StandardCache || target.safety_tier
                == TargetSafetyTier::RequiresColdApp
            &&& candidate.target_id@ == target.target_id@
            &&& candidate.identity.dev == target.dev
            &&& candidate.rel_path@.len() > 0
            &&& !belongs_to_the_platform(target.base_path@)
        },
        r matches Ok(passed) ==> passed.candidate == candidate && passed.trusted_root_dev
            == target.dev && passed.trusted_root_ino == target.ino,
        r matches Err(e) ==> e is SafetyViolation,
{
    lemma_platform_complaint(target.base_path@);
}

/// An operation passes the last check exactly where its target may be changed, stands
/// outside the platform and belongs to the catalog in force, the operation is on
/// something below the target's directory, and what it expects stands on the target's
/// device. The proof is for that operation, target and item and for those generations,
/// and is good for thirty seconds.
pub proof fn law_operation_passes_every_check(
    gate: &SafetyGate,
    target: &TargetDescriptor,
    rel_path: &str,
    expected: &FileIdentity,
    op: OperationId,
    catalog: CatalogGeneration,
    config: ConfigGeneration,
    now: UnixTimestamp,
    r: Result<SafetyProof, CleanerError>,
)
    requires
        call_ensures(
            SafetyGate::validate_mutation_boundary_at,
            (gate, target, rel_path, expected, op, catalog, config, now),
            r,
        ),
    ensures
        r is Ok <==> {
            &&& target.safety_tier == TargetSafetyTier::StandardCache || target.safety_tier
                == TargetSafetyTier::RequiresColdApp
            &&& !belongs_to_the_platform(target.base_path@)
            &&& rel_path@.len() > 0
            &&& expected.dev == target.dev
            &&& target.catalog_generation == catalog
        },
        r matches Ok(given) ==> {
            &&& given.target_id == target.target_id
            &&& given.expected_identity == *expected
            &&& given.operation_id == op
            &&& given.catalog_generation == catalog
            &&& given.config_generation == config
            &&& given.validated_at == now
            &&& now.0 + 30 <= u64::MAX ==> given.expires_at.0 == now.0 + 30
            &&& now.0 + 30 > u64::MAX ==> given.expires_at.0 == u64::MAX
        },
        r matches Err(e) ==> e is SafetyViolation,
{
    lemma_platform_complaint(target.base_path@);
}

/// The check that reads the clock decides as the one that is told the time, and its
/// proof is good for thirty seconds from the time that it names.
pub proof fn law_checks_agree_whatever_the_time(
    gate: &SafetyGate,
    target: &TargetDescriptor,
    rel_path: &str,
    expected: &FileIdentity,
    op: OperationId,
    catalog: CatalogGeneration,
    config: ConfigGeneration,
    now: UnixTimestamp,
    told: Result<SafetyProof, CleanerError>,
    read: Result<SafetyProof, CleanerError>,
)
    requires
        call_ensures(
            SafetyGate::validate_mutation_boundary_at,
            (gate, target, rel_path, expected, op, catalog, config, now),
            told,
        ),
        call_ensures(
            SafetyGate::validate_mutation_boundary,
            (gate, target, rel_path, expected, op, catalog, config),
            read,
        ),
    ensures
        told is Ok <==> read is Ok,
        read matches Ok(given) ==> given.target_id == target.target_id && given.expected_identity
            == *expected && given.operation_id == op && given.catalog_generation == catalog
            && given.config_generation == config,
        read matches Ok(given) ==> given.validated_at.0 + 30 <= u64::MAX ==> given.expires_at.0
            == given.validated_at.0 + 30,
{
}

/// A proof counts for the operation and the generations that it names, up to the moment
/// that it names, and for nothing else.
pub proof fn law_proof_counts_for_its_own(
    given: &SafetyProof,
    op: OperationId,
    now: UnixTimestamp,
    catalog: CatalogGeneration,
    config: ConfigGeneration,
    counts: bool,
    expired: bool,
)
    requires
        call_ensures(SafetyProof::is_valid_for, (given, op, now, catalog, config), counts),
        call_ensures(SafetyProof::is_expired, (given, now), expired),
    ensures
        expired <==> now.0 > given.expires_at.0,
        counts <==> !expired && op == given.operation_id && catalog == given.catalog_generation
            && config == given.config_generation,
{
}

/// The name of a tier as a refusal gives it.
pub open spec fn tier_as_told(tier: TargetSafetyTier) -> Seq<char> {
    match tier {
        TargetSafetyTier::StandardCache => "StandardCache"@,
        TargetSafetyTier::RequiresColdApp => "RequiresColdApp"@,
        TargetSafetyTier::ReadOnlyInspection => "ReadOnlyInspection"@,
        TargetSafetyTier::ProtectedSystem => "ProtectedSystem"@,
    }
}

/// A candidate is refused with the first check that it fails: the tier of its target, the
/// target itself, the device, and that it is no root.
pub proof fn law_refused_candidates_are_told_why(
    gate: &SafetyGate,
    candidate: Candidate,
    target: &TargetDescriptor,
    r: Result<SafetyValidatedCandidate, CleanerError>,
)
    requires
        call_ensures(SafetyGate::validate_candidate, (gate, candidate, target), r),
    ensures
        ({
            let open = target.safety_tier is StandardCache || target.safety_tier is RequiresColdApp;
            let own = candidate.target_id@ == target.target_id@;
            let same_dev = candidate.identity.dev == target.dev;
            let told = |m: Seq<char>|
                r matches Err(e) && (e matches CleanerError::SafetyViolation(s) && s@ == m);
            &&& !open ==> told(
                "Target "@ + ("target:"@ + target.target_id@) + " safety tier "@ + tier_as_told(
                    target.safety_tier,
                ) + " strictly forbids mutation"@,
            )
            &&& open && !own ==> told(
                "Candidate target ID mismatch: candidate "@ + ("target:"@ + candidate.target_id@)
                    + " vs target "@ + ("target:"@ + target.target_id@),
            )
            &&& open && own && !same_dev ==> told(
                "Mount boundary violation: candidate dev "@ + candidate.identity.dev.shown()
                    + " != target root dev "@ + target.dev.shown(),
            )
            &&& open && own && same_dev && candidate.rel_path@.len() == 0 ==> told(
                "Attempted to validate root target directory itself as a deletion candidate"@,
            )
        }),
{
}

/// An operation is refused with the first check that it fails.
pub proof fn law_refused_operations_are_told_why(
    gate: &SafetyGate,
    target: &TargetDescriptor,
    rel_path: &str,
    identity: &FileIdentity,
    op: OperationId,
    catalog: CatalogGeneration,
    config: ConfigGeneration,
    now: UnixTimestamp,
    r: Result<SafetyProof, CleanerError>,
)
    requires
        call_ensures(
            SafetyGate::validate_mutation_boundary_at,
            (gate, target, rel_path, identity, op, catalog, config, now),
            r,
        ),
    ensures
        ({
            let open = target.safety_tier is StandardCache || target.safety_tier is RequiresColdApp;
            let clear = open && root_complaint(target.base_path@) is None;
            let told = |m: Seq<char>|
                r matches Err(e) && (e matches CleanerError::SafetyViolation(s) && s@ == m);
            &&& !open ==> told(
                "Mutation boundary rejected: Target "@ + ("target:"@ + target.target_id@)
                    + " safety tier "@ + tier_as_told(target.safety_tier) + " is read-only"@,
            )
            &&& clear && rel_path@.len() == 0 ==> told(
                "Mutation boundary rejected: Attempted to mutate target root directory directly"@,
            )
            &&& clear && rel_path@.len() > 0 && identity.dev != target.dev ==> told(
                "Mutation boundary rejected: Device mismatch expected "@ + identity.dev.shown()
                    + " vs target root "@ + target.dev.shown(),
            )
            &&& clear && rel_path@.len() > 0 && identity.dev == target.dev
                && target.catalog_generation != catalog ==> told(
                "Catalog generation mismatch: target "@ + target.catalog_generation.shown()
                    + " vs expected "@ + catalog.shown(),
            )
        }),
{
}

} // verus!
