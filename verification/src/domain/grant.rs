//! Leave to carry out a plan.
use vstd::prelude::*;

use crate::domain::plan::PlannedPlan;
use crate::domain::types::{
    CatalogGeneration, ConfigGeneration, GrantId, RelativePath, TargetId, UnixTimestamp,
};
use crate::paths;

verus! {

/// One thing that is allowed.
#[derive(Debug, Clone, PartialEq, Eq)]
pub enum Capability {
    ReadTarget(TargetId),
    EnumerateTarget(TargetId),
    DeleteFile(TargetId, RelativePath),
    DeleteDirectory(TargetId, RelativePath),
    TrimMount(String),
    VacuumDatabase(String),
}

/// What a capability allows, in terms of characters and path components.
pub enum Allowed {
    Read(Seq<char>),
    Enumerate(Seq<char>),
    DeleteFile(Seq<char>, Seq<Seq<char>>),
    DeleteDirectory(Seq<char>, Seq<Seq<char>>),
    Trim(Seq<Seq<char>>),
    Vacuum(Seq<Seq<char>>),
}

impl View for Capability {
    type V = Allowed;

    open spec fn view(&self) -> Allowed {
        match self {
            Capability::ReadTarget(t) => Allowed::Read(t@),
            Capability::EnumerateTarget(t) => Allowed::Enumerate(t@),
            Capability::DeleteFile(t, p) => Allowed::DeleteFile(t@, paths::components(p@)),
            Capability::DeleteDirectory(t, p) => Allowed::DeleteDirectory(
                t@,
                paths::components(p@),
            ),
            Capability::TrimMount(p) => Allowed::Trim(paths::components(p@)),
            Capability::VacuumDatabase(p) => Allowed::Vacuum(paths::components(p@)),
        }
    }
}

/// What a list of capabilities allows.
pub open spec fn allowed_by(capabilities: Seq<Capability>) -> Seq<Allowed> {
    capabilities.map_values(|c: Capability| c@)
}

/// A list of capabilities, good for one pair of generations and a time.
#[derive(Debug, Clone, PartialEq, Eq)]
pub struct CapabilityGrant {
    pub grant_id: GrantId,
    pub capabilities: Vec<Capability>,
    pub catalog_generation: CatalogGeneration,
    pub config_generation: ConfigGeneration,
    pub granted_at: UnixTimestamp,
    pub expires_at: UnixTimestamp,
}

impl CapabilityGrant {
    /// The grant is good at `now` for these generations.
    pub open spec fn is_good(
        self,
        now: UnixTimestamp,
        catalog: CatalogGeneration,
        config: ConfigGeneration,
    ) -> bool {
        self.catalog_generation == catalog && self.config_generation == config && now.0
            <= self.expires_at.0
    }

    pub fn is_valid_at(
        &self,
        now: UnixTimestamp,
        expected_cat_gen: CatalogGeneration,
        expected_cfg_gen: ConfigGeneration,
    ) -> (r: bool)
        ensures
            r == self.is_good(now, expected_cat_gen, expected_cfg_gen),
    {
        self.catalog_generation == expected_cat_gen && self.config_generation == expected_cfg_gen
            && now.as_secs() <= self.expires_at.as_secs()
    }
}

/// A plan with leave to be carried out.
#[derive(Debug, Clone, PartialEq, Eq)]
pub struct AuthorizedPlan {
    pub plan: PlannedPlan,
    pub grant: CapabilityGrant,
}

impl AuthorizedPlan {
    /// The plan may be carried out at `now` under these generations: it was made
    /// for them, and so was the grant, which has not run out.
    pub open spec fn may_run(
        self,
        now: UnixTimestamp,
        catalog: CatalogGeneration,
        config: ConfigGeneration,
    ) -> bool {
        &&& self.plan.catalog_generation == catalog
        &&& self.plan.config_generation == config
        &&& self.grant.is_good(now, catalog, config)
    }

    pub fn is_authorized_for_execution(
        &self,
        now: UnixTimestamp,
        current_cat_gen: CatalogGeneration,
        current_cfg_gen: ConfigGeneration,
    ) -> (r: bool)
        ensures
            r == self.may_run(now, current_cat_gen, current_cfg_gen),
    {
        if self.plan.config_generation != current_cfg_gen {
            return false;
        }
        self.grant.is_valid_at(now, current_cat_gen, current_cfg_gen)
            && self.plan.catalog_generation == current_cat_gen
    }
}

/// A plan never runs under another generation than the one it was made for, and
/// once its grant has run out it never runs again.
pub proof fn law_stale_plan_never_runs(
    plan: AuthorizedPlan,
    now: UnixTimestamp,
    later: UnixTimestamp,
    catalog: CatalogGeneration,
    config: ConfigGeneration,
)
    requires
        now.0 <= later.0,
    ensures
        plan.plan.catalog_generation != catalog ==> !plan.may_run(now, catalog, config),
        plan.plan.config_generation != config ==> !plan.may_run(now, catalog, config),
        now.0 > plan.grant.expires_at.0 ==> !plan.may_run(later, catalog, config),
{
}

/// A grant is good for its own generations, up to and at the moment at which it expires.
pub proof fn law_grant_is_good_for_its_own(
    given: &CapabilityGrant,
    now: UnixTimestamp,
    catalog: CatalogGeneration,
    config: ConfigGeneration,
    r: bool,
)
    requires
        call_ensures(CapabilityGrant::is_valid_at, (given, now, catalog, config), r),
    ensures
        r <==> given.catalog_generation.0 == catalog.0 && given.config_generation.0 == config.0
            && now.0 <= given.expires_at.0,
{
}

/// A plan may be carried out where both the plan and its grant were made for the
/// generations in force and the grant has not expired.
pub proof fn law_plan_runs_with_a_good_grant(
    plan: &AuthorizedPlan,
    now: UnixTimestamp,
    catalog: CatalogGeneration,
    config: ConfigGeneration,
    runs: bool,
    good: bool,
)
    requires
        call_ensures(
            AuthorizedPlan::is_authorized_for_execution,
            (plan, now, catalog, config),
            runs,
        ),
        call_ensures(CapabilityGrant::is_valid_at, (&plan.grant, now, catalog, config), good),
    ensures
        runs <==> good && plan.plan.catalog_generation == catalog && plan.plan.config_generation
            == config,
{
}

} // verus!
