//! Gives leave to carry out plans.
use vstd::prelude::*;

use crate::domain::grant;
use crate::domain::grant::{Allowed, AuthorizedPlan, Capability, CapabilityGrant};
use crate::domain::plan::{OperationType, PlannedOperation, PlannedPlan};
use crate::domain::types::{GenerationId, GrantId, UnixTimestamp};
use crate::error::CleanerError;
use crate::paths;
use crate::resource;

verus! {

/// What an operation needs leave for.
pub open spec fn needed(op: OperationType) -> Allowed {
    match op {
        OperationType::DeleteFile { target_id, rel_path, .. } => Allowed::DeleteFile(
            target_id@,
            paths::components(rel_path@),
        ),
        OperationType::DeleteDirEmpty { target_id, rel_path, .. } => Allowed::DeleteDirectory(
            target_id@,
            paths::components(rel_path@),
        ),
        OperationType::PruneDirRecursive { target_id, rel_path, .. } => Allowed::DeleteDirectory(
            target_id@,
            paths::components(rel_path@),
        ),
        OperationType::TrimFilesystem { mount_path } => Allowed::Trim(
            paths::components(mount_path@),
        ),
        OperationType::VacuumDatabase { db_path } => Allowed::Vacuum(paths::components(db_path@)),
    }
}

/// Leave for every operation but the compaction of databases, in the order of the
/// operations.
pub open spec fn leave_for(ops: Seq<PlannedOperation>) -> Seq<Allowed>
    decreases ops.len(),
{
    if ops.len() == 0 {
        Seq::empty()
    } else {
        let done = leave_for(ops.drop_last());
        if ops.last().op_type is VacuumDatabase {
            done
        } else {
            done.push(needed(ops.last().op_type))
        }
    }
}

/// Gives leave, and numbers it.
#[derive(Debug)]
pub struct AuthorizationEngine {
    grant_id_counter: u64,
}

impl Default for AuthorizationEngine {
    fn default() -> (r: Self)
        ensures
            r.next_number() == 1,
    {
        AuthorizationEngine::new()
    }
}

impl AuthorizationEngine {
    /// The number of the next grant.
    pub closed spec fn next_number(self) -> u64 {
        self.grant_id_counter
    }

    pub fn new() -> (r: Self)
        ensures
            r.next_number() == 1,
    {
        AuthorizationEngine { grant_id_counter: 1 }
    }

    fn next_grant_id(&mut self) -> (r: GrantId)
        ensures
            r.0 == old(self).next_number(),
            final(self).next_number() == resource::next_number(old(self).next_number()),
    {
        let n: u64 = self.grant_id_counter;
        self.grant_id_counter = n.wrapping_add(1);
        GrantId(n)
    }

    /// The message where a plan was made for another generation of the catalog.
    pub open spec fn stale(plan_gen: GenerationId, catalog_gen: GenerationId) -> Seq<char> {
        "Authorization rejected: plan generation "@ + plan_gen.shown()
            + " is stale against catalog generation "@ + catalog_gen.shown()
    }

    /// The grant for a plan, given at `now`.
    pub open spec fn is_grant_for(
        given: CapabilityGrant,
        plan: PlannedPlan,
        number: u64,
        catalog_gen: GenerationId,
        ttl_secs: u64,
        config_gen: GenerationId,
        now: UnixTimestamp,
    ) -> bool {
        &&& given.grant_id.0 == number
        &&& grant::allowed_by(given.capabilities@) == leave_for(plan.operations@)
        &&& given.catalog_generation == catalog_gen
        &&& given.config_generation == config_gen
        &&& given.granted_at == now
        &&& given.expires_at.0 == if now.0 + ttl_secs <= u64::MAX {
            now.0 + ttl_secs
        } else {
            u64::MAX as int
        }
    }

    /// Gives leave, as of now, to carry out a plan that was made for the current
    /// catalog.
    pub fn authorize_plan(
        &mut self,
        plan: PlannedPlan,
        current_catalog_gen: GenerationId,
        ttl_secs: u64,
        config_gen: GenerationId,
    ) -> (r: Result<AuthorizedPlan, CleanerError>)
        ensures
            r is Ok <==> plan.catalog_generation == current_catalog_gen,
            r matches Ok(a) ==> {
                &&& a.plan == plan
                &&& AuthorizationEngine::is_grant_for(
                    a.grant,
                    plan,
                    old(self).next_number(),
                    current_catalog_gen,
                    ttl_secs,
                    config_gen,
                    a.grant.granted_at,
                )
                &&& final(self).next_number() == resource::next_number(old(self).next_number())
            },
            r matches Err(e) ==> {
                &&& final(self).next_number() == old(self).next_number()
                &&& e matches CleanerError::SafetyViolation(m)
                &&& m@ == AuthorizationEngine::stale(plan.catalog_generation, current_catalog_gen)
            },
    {
        self.authorize_plan_at(
            plan,
            current_catalog_gen,
            ttl_secs,
            config_gen,
            UnixTimestamp::now(),
        )
    }

    /// Gives leave, at `now`, to carry out a plan that was made for the current
    /// catalog.
    pub fn authorize_plan_at(
        &mut self,
        plan: PlannedPlan,
        current_catalog_gen: GenerationId,
        ttl_secs: u64,
        config_gen: GenerationId,
        now: UnixTimestamp,
    ) -> (r: Result<AuthorizedPlan, CleanerError>)
        ensures
            r is Ok <==> plan.catalog_generation == current_catalog_gen,
            r matches Ok(a) ==> {
                &&& a.plan == plan
                &&& AuthorizationEngine::is_grant_for(
                    a.grant,
                    plan,
                    old(self).next_number(),
                    current_catalog_gen,
                    ttl_secs,
                    config_gen,
                    now,
                )
                &&& final(self).next_number() == resource::next_number(old(self).next_number())
            },
            r matches Err(e) ==> {
                &&& final(self).next_number() == old(self).next_number()
                &&& e matches CleanerError::SafetyViolation(m)
                &&& m@ == AuthorizationEngine::stale(plan.catalog_generation, current_catalog_gen)
            },
    {
        if plan.catalog_generation != current_catalog_gen {
            let mut m = "Authorization rejected: plan generation ".to_owned();
            m.append(plan.catalog_generation.to_text().as_str());
            m.append(" is stale against catalog generation ");
            m.append(current_catalog_gen.to_text().as_str());
            return Err(CleanerError::SafetyViolation(m));
        }
        let capabilities = capabilities_for(&plan.operations);
        let grant = CapabilityGrant {
            grant_id: self.next_grant_id(),
            capabilities,
            catalog_generation: current_catalog_gen,
            config_generation: config_gen,
            granted_at: now,
            expires_at: UnixTimestamp(now.0.saturating_add(ttl_secs)),
        };
        Ok(AuthorizedPlan { plan, grant })
    }
}

fn capabilities_for(ops: &Vec<PlannedOperation>) -> (r: Vec<Capability>)
    ensures
        grant::allowed_by(r@) == leave_for(ops@),
{
    let mut r: Vec<Capability> = Vec::new();
    let mut i: usize = 0;
    proof {
        assert(ops@.subrange(0, 0) =~= Seq::<PlannedOperation>::empty());
        assert(grant::allowed_by(r@) =~= Seq::<Allowed>::empty());
    }
    while i < ops.len()
        invariant
            i <= ops.len(),
            grant::allowed_by(r@) == leave_for(ops@.subrange(0, i as int)),
        decreases ops.len() - i,
    {
        assert(ops@.subrange(0, i + 1).drop_last() =~= ops@.subrange(0, i as int));
        let ghost before = r@;
        let capability = match &ops[i].op_type {
            OperationType::DeleteFile { target_id, rel_path, .. } => Some(
                Capability::DeleteFile(target_id.copy(), rel_path.copy()),
            ),
            OperationType::DeleteDirEmpty { target_id, rel_path, .. } => Some(
                Capability::DeleteDirectory(target_id.copy(), rel_path.copy()),
            ),
            OperationType::PruneDirRecursive { target_id, rel_path, .. } => Some(
                Capability::DeleteDirectory(target_id.copy(), rel_path.copy()),
            ),
            OperationType::TrimFilesystem { mount_path } => Some(
                Capability::TrimMount(mount_path.clone()),
            ),
            OperationType::VacuumDatabase { .. } => None,
        };
        match capability {
            Some(c) => {
                r.push(c);
                assert(grant::allowed_by(r@) =~= grant::allowed_by(before).push(c@));
            },
            None => {},
        }
        i = i + 1;
    }
    assert(ops@.subrange(0, ops.len() as int) =~= ops@);
    r
}

/// A grant covers every operation of its plan but the compaction of databases.
pub proof fn law_grant_covers_plan(ops: Seq<PlannedOperation>, i: int)
    requires
        0 <= i < ops.len(),
        !(ops[i].op_type is VacuumDatabase),
    ensures
        leave_for(ops).contains(needed(ops[i].op_type)),
    decreases ops.len(),
{
    let done = leave_for(ops.drop_last());
    if i == ops.len() - 1 {
        assert(leave_for(ops)[done.len() as int] == needed(ops[i].op_type));
    } else {
        law_grant_covers_plan(ops.drop_last(), i);
        assert(ops.drop_last()[i] == ops[i]);
        let k = choose|k: int| 0 <= k < done.len() && done[k] == needed(ops[i].op_type);
        assert(leave_for(ops)[k] == needed(ops[i].op_type));
    }
}

/// A grant covers nothing but operations of its plan.
pub proof fn law_grant_covers_nothing_else(ops: Seq<PlannedOperation>, leave: Allowed)
    requires
        leave_for(ops).contains(leave),
    ensures
        exists|i: int| 0 <= i < ops.len() && needed((#[trigger] ops[i]).op_type) == leave,
    decreases ops.len(),
{
    let done = leave_for(ops.drop_last());
    let k = choose|k: int| 0 <= k < leave_for(ops).len() && leave_for(ops)[k] == leave;
    if k < done.len() {
        assert(done[k] == leave);
        law_grant_covers_nothing_else(ops.drop_last(), leave);
        let i = choose|i: int|
            0 <= i < ops.drop_last().len() && needed((#[trigger] ops.drop_last()[i]).op_type)
                == leave;
        assert(ops[i] == ops.drop_last()[i]);
    } else {
        assert(needed(ops[ops.len() - 1].op_type) == leave);
    }
}

/// A freshly authorized plan may run at once under the catalog it was authorized
/// against, and under the configuration it was planned for where that is the one
/// it was authorized for.
pub proof fn law_authorized_plan_may_run(
    authorized: AuthorizedPlan,
    number: u64,
    catalog_gen: GenerationId,
    ttl_secs: u64,
    config_gen: GenerationId,
    now: UnixTimestamp,
)
    requires
        authorized.plan.catalog_generation == catalog_gen,
        authorized.plan.config_generation == config_gen,
        AuthorizationEngine::is_grant_for(
            authorized.grant,
            authorized.plan,
            number,
            catalog_gen,
            ttl_secs,
            config_gen,
            now,
        ),
    ensures
        authorized.may_run(now, catalog_gen, config_gen),
{
}

/// The capability is leave for this operation: to remove that file or directory of that
/// target, or to trim that mount.
pub open spec fn is_leave_for(capability: Capability, op: OperationType) -> bool {
    match (capability, op) {
        (Capability::DeleteFile(t, p), OperationType::DeleteFile { target_id, rel_path, .. }) => t@
            == target_id@ && paths::components(p@) == paths::components(rel_path@),
        (
            Capability::DeleteDirectory(t, p),
            OperationType::DeleteDirEmpty { target_id, rel_path, .. },
        ) => t@ == target_id@ && paths::components(p@) == paths::components(rel_path@),
        (
            Capability::DeleteDirectory(t, p),
            OperationType::PruneDirRecursive { target_id, rel_path, .. },
        ) => t@ == target_id@ && paths::components(p@) == paths::components(rel_path@),
        (Capability::TrimMount(p), OperationType::TrimFilesystem { mount_path }) =>
            paths::components(p@) == paths::components(mount_path@),
        _ => false,
    }
}

/// Leave is given for a plan exactly where it was made for the catalog in force. It is
/// leave for each of its operations but the compaction of databases, and for nothing
/// else, under the generations given and from `now` for as long as asked.
pub proof fn law_leave_is_for_the_plan(
    engine: &mut AuthorizationEngine,
    plan: PlannedPlan,
    catalog: GenerationId,
    ttl_secs: u64,
    config: GenerationId,
    now: UnixTimestamp,
    r: Result<AuthorizedPlan, CleanerError>,
)
    requires
        call_ensures(
            AuthorizationEngine::authorize_plan_at,
            (engine, plan, catalog, ttl_secs, config, now),
            r,
        ),
    ensures
        r is Ok <==> plan.catalog_generation == catalog,
        r matches Ok(a) ==> {
            &&& a.plan == plan
            &&& a.grant.catalog_generation == catalog
            &&& a.grant.config_generation == config
            &&& a.grant.granted_at == now
            &&& now.0 + ttl_secs <= u64::MAX ==> a.grant.expires_at.0 == now.0 + ttl_secs
            &&& now.0 + ttl_secs > u64::MAX ==> a.grant.expires_at.0 == u64::MAX
            &&& a.grant.grant_id.0 == old(engine).next_number()
            &&& forall|i: int|
                0 <= i < plan.operations@.len() && !((
                #[trigger] plan.operations@[i]).op_type is VacuumDatabase) ==> exists|c: int|
                    0 <= c < a.grant.capabilities@.len() && is_leave_for(
                        #[trigger] a.grant.capabilities@[c],
                        plan.operations@[i].op_type,
                    )
            &&& forall|c: int|
                0 <= c < a.grant.capabilities@.len() ==> exists|i: int|
                    0 <= i < plan.operations@.len() && is_leave_for(
                        #[trigger] a.grant.capabilities@[c],
                        (#[trigger] plan.operations@[i]).op_type,
                    )
        },
        r is Err ==> final(engine).next_number() == old(engine).next_number(),
        r is Ok && old(engine).next_number() < u64::MAX ==> final(engine).next_number() == old(engine).next_number() + 1,
{
    if r is Ok {
        let ops = plan.operations@;
        let caps = r->Ok_0.grant.capabilities@;
        let allowed = grant::allowed_by(caps);
        assert(allowed.len() == caps.len());
        assert forall|i: int|
            0 <= i < ops.len() && !((#[trigger] ops[i]).op_type is VacuumDatabase) implies exists|
            c: int,
        |
            0 <= c < caps.len() && is_leave_for(#[trigger] caps[c], ops[i].op_type) by {
            law_grant_covers_plan(ops, i);
            let c = choose|c: int| 0 <= c < allowed.len() && allowed[c] == needed(ops[i].op_type);
            assert(caps[c]@ == needed(ops[i].op_type));
            assert(is_leave_for(caps[c], ops[i].op_type));
        }
        assert forall|c: int| 0 <= c < caps.len() implies exists|i: int|
            0 <= i < ops.len() && is_leave_for(
                #[trigger] caps[c],
                (#[trigger] ops[i]).op_type,
            ) by {
            assert(allowed[c] == caps[c]@);
            assert(allowed.contains(caps[c]@));
            lemma_leave_is_needed(ops, caps[c]@);
            let i = choose|i: int|
                0 <= i < ops.len() && needed((#[trigger] ops[i]).op_type) == caps[c]@ && !(
                ops[i].op_type is VacuumDatabase);
            assert(is_leave_for(caps[c], ops[i].op_type));
        }
    }
}

proof fn lemma_leave_is_needed(ops: Seq<PlannedOperation>, leave: Allowed)
    requires
        leave_for(ops).contains(leave),
    ensures
        exists|i: int|
            0 <= i < ops.len() && needed((#[trigger] ops[i]).op_type) == leave && !(
            ops[i].op_type is VacuumDatabase),
    decreases ops.len(),
{
    if ops.len() > 0 {
        let front = ops.drop_last();
        let done = leave_for(front);
        let all = leave_for(ops);
        let c = choose|c: int| 0 <= c < all.len() && all[c] == leave;
        if c < done.len() {
            assert(done[c] == leave);
            lemma_leave_is_needed(front, leave);
            let i = choose|i: int|
                0 <= i < front.len() && needed((#[trigger] front[i]).op_type) == leave && !(
                front[i].op_type is VacuumDatabase);
            assert(ops[i] == front[i]);
        } else {
            assert(ops[ops.len() - 1] == ops.last());
        }
    }
}

/// Leave that is given now is the same leave as at any time that it might name.
pub proof fn law_leave_given_now_is_the_same(
    told: &mut AuthorizationEngine,
    read: &mut AuthorizationEngine,
    plan: PlannedPlan,
    catalog: GenerationId,
    ttl_secs: u64,
    config: GenerationId,
    now: UnixTimestamp,
    a: Result<AuthorizedPlan, CleanerError>,
    b: Result<AuthorizedPlan, CleanerError>,
)
    requires
        call_ensures(
            AuthorizationEngine::authorize_plan_at,
            (told, plan, catalog, ttl_secs, config, now),
            a,
        ),
        call_ensures(
            AuthorizationEngine::authorize_plan,
            (read, plan, catalog, ttl_secs, config),
            b,
        ),
        old(told).next_number() == old(read).next_number(),
    ensures
        a is Ok <==> b is Ok,
        a is Ok ==> {
            &&& b->Ok_0.plan == plan
            &&& b->Ok_0.grant.grant_id == a->Ok_0.grant.grant_id
            &&& b->Ok_0.grant.catalog_generation == a->Ok_0.grant.catalog_generation
            &&& b->Ok_0.grant.config_generation == a->Ok_0.grant.config_generation
            &&& grant::allowed_by(b->Ok_0.grant.capabilities@) == grant::allowed_by(
                a->Ok_0.grant.capabilities@,
            )
            &&& b->Ok_0.grant.granted_at.0 + ttl_secs <= u64::MAX ==> b->Ok_0.grant.expires_at.0
                == b->Ok_0.grant.granted_at.0 + ttl_secs
        },
{
}

/// A plan for another generation of the catalog is refused by both generations.
pub proof fn law_stale_plans_are_told_why(plan: GenerationId, catalog: GenerationId)
    ensures
        AuthorizationEngine::stale(plan, catalog) == "Authorization rejected: plan generation "@ + (
        "gen-"@ + crate::numerals::decimal(plan.0 as nat)) + " is stale against catalog generation "@ + (
        "gen-"@ + crate::numerals::decimal(catalog.0 as nat)),
{
}

} // verus!
