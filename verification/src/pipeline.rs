//! The one way from a request to a report: what is found is checked, judged, planned,
//! authorized and carried out.
//!
//! The pipeline holds every decision between the steps; whoever runs it scans, removes
//! and keeps the records.
use std::collections::HashSet;

use vstd::prelude::*;

use crate::auth::AuthorizationEngine;
use crate::catalog::TargetCatalog;
use crate::config::DaemonConfig;
use crate::config::{NINETY_DEGREES, SIXTY_FIVE_DEGREES, TWENTY_DEGREES};
use crate::config_pipeline;
use crate::config_pipeline::{EffectiveConfig, RawConfig, ValidatedConfig};
use crate::domain::candidate::Candidate;
use crate::domain::decision::{DecisionReason, PolicyDecision, PolicyPermit};
use crate::domain::grant::AuthorizedPlan;
use crate::domain::result::JobResult;
use crate::domain::target::{TargetDescriptor, TargetSafetyTier};
use crate::domain::types::{
    AttemptId, ByteCount, CatalogGeneration, ConfigGeneration, GenerationId, JobId, RelativePath,
    UnixTimestamp,
};
use crate::error::CleanerError;
use crate::fs::SafeDirEntry;
use crate::hardware::f2fs::F2fsController;
use crate::ipc::protocol::{CleanParams, CleanReport, MemoryReport, StorageReport};
use crate::planner;
use crate::planner::CleanupPlanner;
use crate::policy;
use crate::policy::PolicyEngine;
use crate::resource;
use crate::safety;
use crate::safety::SafetyGate;
use crate::scanner::{CandidateScanner, EntryStep, TargetScan};
use crate::text;

verus! {

/// How long a grant and a lease last, in seconds.
pub const GRANT_LIFETIME_SECS: u64 = 300;

/// What a job was started by.
#[derive(Debug, Clone, Copy, PartialEq, Eq, Structural)]
pub enum TriggerSource {
    ManualIpc,
    PeriodicMaintenance,
}

/// The candidate may go: it is safe to remove, and no rule keeps it.
pub open spec fn may_go(
    candidate: Candidate,
    target: TargetDescriptor,
    config: EffectiveConfig,
    now: UnixTimestamp,
) -> bool {
    safety::candidate_complaint(candidate, target) is None && policy::denial(
        candidate,
        target,
        config,
        now,
    ) is None
}

/// The candidates of a target that may go, in the order in which they were found.
pub open spec fn admitted(
    candidates: Seq<Candidate>,
    target: TargetDescriptor,
    config: EffectiveConfig,
    now: UnixTimestamp,
) -> Seq<Candidate>
    decreases candidates.len(),
{
    if candidates.len() == 0 {
        Seq::empty()
    } else {
        let before = admitted(candidates.drop_last(), target, config, now);
        if may_go(candidates.last(), target, config, now) {
            before.push(candidates.last())
        } else {
            before
        }
    }
}

/// The target belongs to a frozen application.
pub open spec fn is_frozen(target: TargetDescriptor, frozen_uids: Set<u32>) -> bool {
    target.owner_uid > 0 && frozen_uids.contains(target.owner_uid)
}

/// The target may be cleaned by now: it need not wait for its application to be
/// frozen, or that has come.
pub open spec fn is_cold_enough(target: TargetDescriptor, frozen_uids: Set<u32>) -> bool {
    target.safety_tier == TargetSafetyTier::RequiresColdApp ==> is_frozen(target, frozen_uids)
}

/// The candidates of a target for which there are permits.
pub open spec fn permitted(
    candidates: Seq<Candidate>,
    target: TargetDescriptor,
    config: EffectiveConfig,
    frozen_uids: Set<u32>,
    now: UnixTimestamp,
) -> Seq<Candidate> {
    if is_cold_enough(target, frozen_uids) {
        admitted(candidates, target, config, now)
    } else {
        Seq::empty()
    }
}

/// A permit for a candidate of a target. What belongs to a frozen application goes
/// first.
pub open spec fn is_permit_for(
    permit: PolicyPermit,
    candidate: Candidate,
    target: TargetDescriptor,
    frozen_uids: Set<u32>,
) -> bool {
    &&& permit.candidate.candidate == candidate
    &&& permit.candidate.trusted_root_dev == target.dev
    &&& permit.candidate.trusted_root_ino == target.ino
    &&& permit.reason == DecisionReason::ExceedsRetentionAge
    &&& permit.priority == if is_frozen(target, frozen_uids) {
        200u32
    } else {
        100u32
    }
}

/// The permits after those for the candidates of a target were added.
pub open spec fn with_permits(
    before: Seq<PolicyPermit>,
    after: Seq<PolicyPermit>,
    allowed: Seq<Candidate>,
    target: TargetDescriptor,
    frozen_uids: Set<u32>,
) -> bool {
    &&& after.len() == before.len() + allowed.len()
    &&& after.take(before.len() as int) == before
    &&& forall|i: int|
        0 <= i < allowed.len() ==> is_permit_for(
            #[trigger] after[before.len() + i],
            allowed[i],
            target,
            frozen_uids,
        )
}

/// The raw configuration that a daemon's configuration stands for: its limits, and
/// the defaults for the rest.
pub open spec fn is_raw_for(raw: RawConfig, config: DaemonConfig) -> bool {
    &&& raw.min_screen_off_secs == Some(config.min_screen_off_secs)
    &&& raw.max_soc_temp_c == Some(config.max_soc_temp_c)
    &&& raw.max_battery_temp_c == Some(config.max_battery_temp_c)
    &&& exists|base: RawConfig| #[trigger]
        base.is_default() && raw == (RawConfig {
            min_screen_off_secs: raw.min_screen_off_secs,
            max_soc_temp_c: raw.max_soc_temp_c,
            max_battery_temp_c: raw.max_battery_temp_c,
            ..base
        })
}

/// What is wrong with the limits of a daemon's configuration.
pub open spec fn limits_complaint(config: DaemonConfig) -> Option<Seq<char>> {
    if config.min_screen_off_secs > 3600 {
        Some("min_screen_off_secs must be 0..3600"@)
    } else if !config.max_soc_temp_c.degrees.is_within(TWENTY_DEGREES, NINETY_DEGREES) {
        Some(
            config_pipeline::out_of_range(
                "max_soc_temp_c"@,
                config.max_soc_temp_c,
                "[20.0, 90.0]"@,
            ),
        )
    } else if !config.max_battery_temp_c.degrees.is_within(TWENTY_DEGREES, SIXTY_FIVE_DEGREES) {
        Some(
            config_pipeline::out_of_range(
                "max_battery_temp_c"@,
                config.max_battery_temp_c,
                "[20.0, 65.0]"@,
            ),
        )
    } else {
        None
    }
}

proof fn lemma_raw_complaint(raw: RawConfig, config: DaemonConfig)
    requires
        is_raw_for(raw, config),
    ensures
        raw.complaint() == limits_complaint(config),
{
    config_pipeline::lemma_default_lists(
        config_pipeline::listed_texts(raw.whitelist_packages),
        config_pipeline::listed_texts(raw.protected_paths),
    );
}

/// The report on a job.
pub open spec fn is_report_on(report: CleanReport, result: JobResult, fstrim_completed: bool) -> bool {
    &&& report == report.synced()
    &&& report.storage == (StorageReport {
        total_freed_bytes: result.total_reclaimed.0,
        deleted_files_count: result.successful_operations,
        skipped_files_count: result.skipped_operations,
        errors_count: result.failed_operations,
        app_cache_bytes: result.total_reclaimed.0,
        ..StorageReport::nothing()
    })
    &&& report.memory == MemoryReport::nothing()
    &&& report.trim.fstrim_completed == fstrim_completed
    &&& report.trim.trimmed_mounts@.len() == 0
    &&& !report.optimization.f2fs_gc_activated
    &&& report.duration_ms == result.duration_ms
    &&& report.plan_entries is None
    &&& report.cancel_reason is None
}

/// How a job ends in the records.
#[derive(Debug)]
pub struct JobClosing {
    pub job_state: &'static str,
    pub reclaimed: ByteCount,
    pub attempt_note: String,
}

/// The one way from a request to a report.
pub struct AuthoritativeCleanPipeline {
    config: DaemonConfig,
    catalog: TargetCatalog,
    auth: AuthorizationEngine,
    f2fs: F2fsController,
    config_generation: GenerationId,
}

impl AuthoritativeCleanPipeline {
    /// The configuration of this pipeline.
    pub closed spec fn spec_config(self) -> DaemonConfig {
        self.config
    }

    /// The catalog of this pipeline.
    pub closed spec fn spec_catalog(self) -> TargetCatalog {
        self.catalog
    }

    /// What gives leave to carry out plans.
    pub closed spec fn spec_auth(self) -> AuthorizationEngine {
        self.auth
    }

    /// The F2FS devices.
    pub closed spec fn spec_f2fs(self) -> F2fsController {
        self.f2fs
    }

    /// The generation of the configuration.
    pub closed spec fn spec_generation(self) -> GenerationId {
        self.config_generation
    }

    pub fn new(config: DaemonConfig, f2fs: F2fsController) -> (r: Self)
        ensures
            r.spec_config() == config,
            r.spec_f2fs() == f2fs,
            r.spec_generation().0 == 1,
            r.spec_auth().next_number() == 1,
            r.spec_catalog()@.generation.0 == 1,
            r.spec_catalog()@.targets.dom() == Set::<Seq<char>>::empty(),
    {
        AuthoritativeCleanPipeline {
            config,
            catalog: TargetCatalog::new(),
            auth: AuthorizationEngine::new(),
            f2fs,
            config_generation: GenerationId::initial(),
        }
    }

    pub fn config(&self) -> (r: &DaemonConfig)
        ensures
            *r == self.spec_config(),
    {
        &self.config
    }

    pub fn catalog(&self) -> (r: &TargetCatalog)
        ensures
            *r == self.spec_catalog(),
    {
        &self.catalog
    }

    /// The catalog, to be filled anew. Nothing else of the pipeline changes with it.
    pub fn catalog_mut(&mut self) -> (r: &mut TargetCatalog)
        ensures
            *r == old(self).spec_catalog(),
            final(self).spec_catalog() == *final(r),
            final(self).spec_config() == old(self).spec_config(),
            final(self).spec_auth() == old(self).spec_auth(),
            final(self).spec_f2fs() == old(self).spec_f2fs(),
            final(self).spec_generation() == old(self).spec_generation(),
    {
        &mut self.catalog
    }

    pub fn f2fs(&self) -> (r: &F2fsController)
        ensures
            *r == self.spec_f2fs(),
    {
        &self.f2fs
    }

    pub fn config_generation(&self) -> (r: GenerationId)
        ensures
            r == self.spec_generation(),
    {
        self.config_generation
    }

    /// Puts a configuration in force, under the next generation. Generations wrap
    /// around.
    pub fn update_config(&mut self, config: DaemonConfig)
        ensures
            final(self).spec_config() == config,
            final(self).spec_generation().0 == resource::next_number(
                old(self).spec_generation().0,
            ),
            final(self).spec_catalog() == old(self).spec_catalog(),
            final(self).spec_auth() == old(self).spec_auth(),
            final(self).spec_f2fs() == old(self).spec_f2fs(),
    {
        self.config = config;
        self.config_generation = GenerationId(self.config_generation.0.wrapping_add(1));
    }

    /// What a job with these parameters was started by.
    pub fn trigger(params: &CleanParams) -> (r: TriggerSource)
        ensures
            r == if params.deep {
                TriggerSource::ManualIpc
            } else {
                TriggerSource::PeriodicMaintenance
            },
    {
        if params.deep {
            TriggerSource::ManualIpc
        } else {
            TriggerSource::PeriodicMaintenance
        }
    }

    /// The configuration that a job goes by: the daemon's limits, and the defaults
    /// for the rest.
    pub fn effective_config(&self) -> (r: Result<EffectiveConfig, CleanerError>)
        ensures
            r is Ok <==> limits_complaint(self.spec_config()) is None,
            r matches Ok(config) ==> {
                &&& config.generation == self.spec_generation()
                &&& exists|raw: RawConfig| #[trigger]
                    is_raw_for(raw, self.spec_config()) && config_pipeline::is_validated(
                        raw,
                        config.validated,
                    )
            },
            r matches Err(e) ==> config_pipeline::reports(
                e,
                limits_complaint(self.spec_config())->0,
            ),
    {
        let base = RawConfig::default();
        let ghost usual = base;
        let raw = RawConfig {
            min_screen_off_secs: Some(self.config.min_screen_off_secs),
            max_soc_temp_c: Some(self.config.max_soc_temp_c.copy()),
            max_battery_temp_c: Some(self.config.max_battery_temp_c.copy()),
            ..base
        };
        assert(usual.is_default());
        assert(is_raw_for(raw, self.spec_config()));
        proof {
            lemma_raw_complaint(raw, self.spec_config());
        }
        match ValidatedConfig::from_raw(raw) {
            Ok(valid) => Ok(EffectiveConfig::new(self.config_generation, valid)),
            Err(e) => Err(e),
        }
    }

    /// Adds a permit for every candidate of a target that may go at `now`. There is
    /// none where the target has to wait for its application to be frozen.
    pub fn judge(
        target: &TargetDescriptor,
        candidates: &Vec<Candidate>,
        config: &EffectiveConfig,
        frozen_uids: &HashSet<u32>,
        now: UnixTimestamp,
        permits: &mut Vec<PolicyPermit>,
    )
        ensures
            with_permits(
                old(permits)@,
                final(permits)@,
                permitted(candidates@, *target, *config, frozen_uids@, now),
                *target,
                frozen_uids@,
            ),
    {
        broadcast use vstd::std_specs::hash::group_hash_axioms;

        let gate = SafetyGate::new();
        let engine = PolicyEngine::new();
        let frozen = target.owner_uid > 0 && frozen_uids.contains(&target.owner_uid);
        let ghost before = permits@;
        assert(permits@.take(before.len() as int) =~= before);
        if target.safety_tier == TargetSafetyTier::RequiresColdApp && !frozen {
            return ;
        }
        let mut i: usize = 0;
        assert(candidates@.take(0) =~= Seq::empty());
        while i < candidates.len()
            invariant
                i <= candidates.len(),
                frozen == is_frozen(*target, frozen_uids@),
                with_permits(
                    before,
                    permits@,
                    admitted(candidates@.take(i as int), *target, *config, now),
                    *target,
                    frozen_uids@,
                ),
            decreases candidates.len() - i,
        {
            let ghost so_far = permits@;
            let ghost allowed = admitted(candidates@.take(i as int), *target, *config, now);
            assert(candidates@.take(i + 1).drop_last() =~= candidates@.take(i as int));
            assert(candidates@.take(i + 1).last() == candidates@[i as int]);
            match gate.validate_candidate(candidates[i].copy(), target) {
                Ok(validated) => {
                    match engine.evaluate_candidate_with_freezer(
                        validated,
                        target,
                        config,
                        now,
                        frozen,
                    ) {
                        PolicyDecision::Allow(permit) => {
                            permits.push(permit);
                            assert(permits@.take(before.len() as int) =~= before);
                            assert forall|k: int|
                                0 <= k < allowed.push(candidates@[i as int]).len() implies is_permit_for(
                                #[trigger] permits@[before.len() + k],
                                allowed.push(candidates@[i as int])[k],
                                *target,
                                frozen_uids@,
                            ) by {
                                if k < allowed.len() {
                                    assert(permits@[before.len() + k] == so_far[before.len() + k]);
                                }
                            }
                        },
                        _ => {},
                    }
                },
                Err(_) => {},
            }
            i = i + 1;
        }
        assert(candidates@.take(i as int) =~= candidates@);
    }

    /// Plans the removal of everything permitted, and gives leave to carry it out.
    pub fn prepare(
        &mut self,
        job_id: JobId,
        catalog_generation: CatalogGeneration,
        config_generation: ConfigGeneration,
        permits: Vec<PolicyPermit>,
    ) -> (r: Result<AuthorizedPlan, CleanerError>)
        ensures
            r is Ok <==> permits@.len() <= planner::DEFAULT_MAX_OPERATIONS_PER_PLAN,
            r matches Err(e) ==> e == (CleanerError::PlanBudgetExceeded {
                count: permits@.len() as usize,
                limit: planner::DEFAULT_MAX_OPERATIONS_PER_PLAN,
            }) && *final(self) == *old(self),
            r matches Ok(a) ==> {
                &&& a.plan.job_id == job_id
                &&& a.plan.plan_id.0 == CleanupPlanner::plan_number(job_id, catalog_generation)
                &&& a.plan.catalog_generation == catalog_generation
                &&& a.plan.config_generation == config_generation
                &&& planner::is_plan_for(a.plan, permits@)
                &&& AuthorizationEngine::is_grant_for(
                    a.grant,
                    a.plan,
                    old(self).spec_auth().next_number(),
                    catalog_generation,
                    GRANT_LIFETIME_SECS,
                    config_generation,
                    a.grant.granted_at,
                )
                &&& final(self).spec_auth().next_number() == resource::next_number(
                    old(self).spec_auth().next_number(),
                )
                &&& final(self).spec_config() == old(self).spec_config()
                &&& final(self).spec_catalog() == old(self).spec_catalog()
                &&& final(self).spec_f2fs() == old(self).spec_f2fs()
                &&& final(self).spec_generation() == old(self).spec_generation()
            },
    {
        let plan = match CleanupPlanner::new().build_plan(
            job_id,
            catalog_generation,
            config_generation,
            permits,
        ) {
            Ok(plan) => plan,
            Err(e) => {
                return Err(e);
            },
        };
        self.auth.authorize_plan(plan, catalog_generation, GRANT_LIFETIME_SECS, config_generation)
    }

    /// What a job that only counts comes to: everything planned counts as done.
    pub fn dry_run_result(authorized: &AuthorizedPlan, job_id: JobId, attempt_id: AttemptId) -> (r:
        JobResult)
        ensures
            r == (JobResult {
                job_id,
                attempt_id,
                total_reclaimed: authorized.plan.total_estimated_reclaim,
                total_operations: authorized.plan.operations@.len() as usize,
                successful_operations: authorized.plan.operations@.len() as usize,
                failed_operations: 0,
                skipped_operations: 0,
                duration_ms: 0,
            }),
    {
        let total: usize = authorized.plan.operations.len();
        JobResult {
            job_id,
            attempt_id,
            total_reclaimed: authorized.plan.total_estimated_reclaim,
            total_operations: total,
            successful_operations: total,
            failed_operations: 0,
            skipped_operations: 0,
            duration_ms: 0,
        }
    }

    /// `true` where a job ends with a trim.
    pub fn wants_trim(params: &CleanParams) -> (r: bool)
        ensures
            r == (params.trim && !params.dry_run),
    {
        params.trim && !params.dry_run
    }

    /// The report on a job.
    pub fn report(result: &JobResult, fstrim_completed: bool) -> (r: CleanReport)
        ensures
            is_report_on(r, *result, fstrim_completed),
    {
        let mut report = CleanReport::default();
        report.storage = StorageReport {
            total_freed_bytes: result.total_reclaimed.as_u64(),
            deleted_files_count: result.successful_operations,
            skipped_files_count: result.skipped_operations,
            errors_count: result.failed_operations,
            app_cache_bytes: result.total_reclaimed.as_u64(),
            ..StorageReport::default()
        };
        report.trim.fstrim_completed = fstrim_completed;
        report.duration_ms = result.duration_ms;
        report.sync_compat_fields();
        report
    }

    /// How a job ends in the records: with the bytes that it freed, or with the text
    /// of the error that stopped it.
    pub fn close(outcome: Result<u64, &str>) -> (r: JobClosing)
        ensures
            outcome matches Ok(freed) ==> r.job_state@ == "COMPLETED"@ && r.reclaimed.0 == freed
                && r.attempt_note@ == "SUCCESS"@,
            outcome matches Err(e) ==> r.job_state@ == "FAILED"@ && r.reclaimed.0 == 0
                && r.attempt_note@ == "FAILED: "@ + e@,
    {
        match outcome {
            Ok(freed) => JobClosing {
                job_state: "COMPLETED",
                reclaimed: ByteCount::new(freed),
                attempt_note: "SUCCESS".to_owned(),
            },
            Err(e) => {
                let mut note = "FAILED: ".to_owned();
                note.append(e);
                JobClosing {
                    job_state: "FAILED",
                    reclaimed: ByteCount::zero(),
                    attempt_note: note,
                }
            },
        }
    }
}

/// How far a job has come.
#[derive(Debug, Clone, Copy, PartialEq, Eq, Structural)]
pub enum JobStage {
    /// This many targets were scanned.
    Scanned(usize),
    /// A plan was made and authorized.
    Planned,
    /// The plan was carried out, or counted.
    Done,
    /// The storage was trimmed.
    Trimmed,
    /// The result went to the audit log.
    Recorded,
}

/// What a job does next.
#[derive(Debug, Clone, Copy, PartialEq, Eq, Structural)]
pub enum JobStep {
    /// Scan the target at this place and judge what was found.
    Scan(usize),
    /// Make a plan and have it authorized.
    Plan,
    /// Carry the plan out.
    Execute,
    /// Count the plan as done.
    Count,
    /// Trim the storage.
    Trim,
    /// Write the result to the audit log.
    Record,
    /// Report the result.
    Report,
}

/// What a job does next. A job that was cancelled scans no further target; what was
/// found until then still goes through the plan.
pub open spec fn next_step(
    stage: JobStage,
    targets: usize,
    params: CleanParams,
    cancelled: bool,
) -> JobStep {
    match stage {
        JobStage::Scanned(n) => if n < targets && !cancelled {
            JobStep::Scan(n)
        } else {
            JobStep::Plan
        },
        JobStage::Planned => if params.dry_run {
            JobStep::Count
        } else {
            JobStep::Execute
        },
        JobStage::Done => if params.trim && !params.dry_run {
            JobStep::Trim
        } else {
            JobStep::Record
        },
        JobStage::Trimmed => JobStep::Record,
        JobStage::Recorded => JobStep::Report,
    }
}

/// How far a job has come once it took this step.
pub open spec fn stage_after(step: JobStep) -> JobStage {
    match step {
        JobStep::Scan(n) => JobStage::Scanned((n + 1) as usize),
        JobStep::Plan => JobStage::Planned,
        JobStep::Execute => JobStage::Done,
        JobStep::Count => JobStage::Done,
        JobStep::Trim => JobStage::Trimmed,
        JobStep::Record => JobStage::Recorded,
        JobStep::Report => JobStage::Recorded,
    }
}

/// The steps that a job takes from a stage on. `cancelled` says for each of them
/// whether the job was cancelled by then.
pub open spec fn steps_from(
    stage: JobStage,
    targets: usize,
    params: CleanParams,
    cancelled: Seq<bool>,
) -> Seq<JobStep>
    decreases cancelled.len(),
{
    if cancelled.len() == 0 {
        Seq::empty()
    } else {
        let step = next_step(stage, targets, params, cancelled[0]);
        seq![step] + steps_from(stage_after(step), targets, params, cancelled.drop_first())
    }
}

/// The steps of one job.
#[derive(Debug)]
pub struct JobRun {
    params: CleanParams,
    targets: usize,
    stage: JobStage,
}

impl JobRun {
    /// What the job was asked for.
    pub closed spec fn asked(self) -> CleanParams {
        self.params
    }

    /// The number of targets.
    pub closed spec fn targets(self) -> usize {
        self.targets
    }

    /// How far the job has come.
    pub closed spec fn reached(self) -> JobStage {
        self.stage
    }

    /// A job that has yet to begin.
    pub fn new(params: CleanParams, targets: usize) -> (r: Self)
        ensures
            r.asked() == params,
            r.targets() == targets,
            r.reached() == JobStage::Scanned(0),
    {
        JobRun { params, targets, stage: JobStage::Scanned(0) }
    }

    /// How far the job has come.
    pub fn stage(&self) -> (r: JobStage)
        ensures
            r == self.reached(),
    {
        self.stage
    }

    /// What the job does next. Whoever asks takes the step.
    pub fn advance(&mut self, cancelled: bool) -> (r: JobStep)
        ensures
            r == next_step(old(self).reached(), old(self).targets(), old(self).asked(), cancelled),
            final(self).reached() == stage_after(r),
            final(self).asked() == old(self).asked(),
            final(self).targets() == old(self).targets(),
    {
        match self.stage {
            JobStage::Scanned(n) => {
                if n < self.targets && !cancelled {
                    self.stage = JobStage::Scanned(n + 1);
                    JobStep::Scan(n)
                } else {
                    self.stage = JobStage::Planned;
                    JobStep::Plan
                }
            },
            JobStage::Planned => {
                self.stage = JobStage::Done;
                if self.params.dry_run {
                    JobStep::Count
                } else {
                    JobStep::Execute
                }
            },
            JobStage::Done => {
                if AuthoritativeCleanPipeline::wants_trim(&self.params) {
                    self.stage = JobStage::Trimmed;
                    JobStep::Trim
                } else {
                    self.stage = JobStage::Recorded;
                    JobStep::Record
                }
            },
            JobStage::Trimmed => {
                self.stage = JobStage::Recorded;
                JobStep::Record
            },
            JobStage::Recorded => JobStep::Report,
        }
    }
}

proof fn lemma_scans_are_over(
    stage: JobStage,
    targets: usize,
    params: CleanParams,
    cancelled: Seq<bool>,
)
    requires
        !(stage is Scanned),
    ensures
        forall|j: int|
            0 <= j < cancelled.len() ==> !(#[trigger] steps_from(
                stage,
                targets,
                params,
                cancelled,
            )[j] is Scan),
    decreases cancelled.len(),
{
    if cancelled.len() > 0 {
        let step = next_step(stage, targets, params, cancelled[0]);
        lemma_scans_are_over(stage_after(step), targets, params, cancelled.drop_first());
        law_every_question_is_a_step(stage_after(step), targets, params, cancelled.drop_first());
        let rest = steps_from(stage_after(step), targets, params, cancelled.drop_first());
        assert forall|j: int| 0 <= j < cancelled.len() implies !(#[trigger] steps_from(
            stage,
            targets,
            params,
            cancelled,
        )[j] is Scan) by {
            if j > 0 {
                assert(steps_from(stage, targets, params, cancelled)[j] == rest[j - 1]);
            }
        }
    }
}

/// A job takes one step for each time that it is asked.
pub proof fn law_every_question_is_a_step(
    stage: JobStage,
    targets: usize,
    params: CleanParams,
    cancelled: Seq<bool>,
)
    ensures
        steps_from(stage, targets, params, cancelled).len() == cancelled.len(),
    decreases cancelled.len(),
{
    if cancelled.len() > 0 {
        let step = next_step(stage, targets, params, cancelled[0]);
        law_every_question_is_a_step(
            stage_after(step),
            targets,
            params,
            cancelled.drop_first(),
        );
    }
}

/// A job that only counts carries nothing out and trims nothing, at no step.
pub proof fn law_dry_run_changes_nothing(
    stage: JobStage,
    targets: usize,
    params: CleanParams,
    cancelled: Seq<bool>,
    i: int,
)
    requires
        params.dry_run,
        0 <= i < cancelled.len(),
    ensures
        steps_from(stage, targets, params, cancelled)[i] != JobStep::Execute,
        steps_from(stage, targets, params, cancelled)[i] != JobStep::Trim,
    decreases cancelled.len(),
{
    let step = next_step(stage, targets, params, cancelled[0]);
    if i > 0 {
        law_dry_run_changes_nothing(
            stage_after(step),
            targets,
            params,
            cancelled.drop_first(),
            i - 1,
        );
        law_every_question_is_a_step(
            stage_after(step),
            targets,
            params,
            cancelled.drop_first(),
        );
    }
}

/// Once a job was cancelled, no further target is scanned.
pub proof fn law_cancelled_job_scans_no_more(
    stage: JobStage,
    targets: usize,
    params: CleanParams,
    cancelled: Seq<bool>,
    i: int,
    j: int,
)
    requires
        0 <= i <= j < cancelled.len(),
        cancelled[i],
    ensures
        !(steps_from(stage, targets, params, cancelled)[j] is Scan),
    decreases cancelled.len(),
{
    let step = next_step(stage, targets, params, cancelled[0]);
    let rest = steps_from(stage_after(step), targets, params, cancelled.drop_first());
    law_every_question_is_a_step(stage_after(step), targets, params, cancelled.drop_first());
    if i > 0 {
        law_cancelled_job_scans_no_more(
            stage_after(step),
            targets,
            params,
            cancelled.drop_first(),
            i - 1,
            j - 1,
        );
    } else if j > 0 {
        lemma_scans_are_over(stage_after(step), targets, params, cancelled.drop_first());
        assert(!(rest[j - 1] is Scan));
    }
}

/// A candidate is admitted exactly where it was found, is safe to remove and no rule
/// keeps it.
pub proof fn law_admitted_means_checked(
    candidates: Seq<Candidate>,
    target: TargetDescriptor,
    config: EffectiveConfig,
    now: UnixTimestamp,
    candidate: Candidate,
)
    ensures
        admitted(candidates, target, config, now).contains(candidate) <==> candidates.contains(
            candidate,
        ) && may_go(candidate, target, config, now),
    decreases candidates.len(),
{
    if candidates.len() > 0 {
        let front = candidates.drop_last();
        let last = candidates.last();
        law_admitted_means_checked(front, target, config, now, candidate);
        let before = admitted(front, target, config, now);
        let all = admitted(candidates, target, config, now);
        if candidates.contains(candidate) {
            let k = choose|k: int| 0 <= k < candidates.len() && candidates[k] == candidate;
            if k < front.len() {
                assert(front[k] == candidate);
            }
        }
        if front.contains(candidate) {
            let k = choose|k: int| 0 <= k < front.len() && front[k] == candidate;
            assert(candidates[k] == candidate);
        }
        if last == candidate {
            assert(candidates[candidates.len() - 1] == candidate);
        }
        if before.contains(candidate) {
            let k = choose|k: int| 0 <= k < before.len() && before[k] == candidate;
            assert(all[k] == candidate);
        }
        if may_go(last, target, config, now) {
            assert(all[before.len() as int] == last);
            if all.contains(candidate) {
                let k = choose|k: int| 0 <= k < all.len() && all[k] == candidate;
                if k < before.len() {
                    assert(before[k] == candidate);
                }
            }
        }
    }
}

/// What is to be left alone while its application is active is left alone then.
pub proof fn law_active_applications_keep_their_files(
    candidates: Seq<Candidate>,
    target: TargetDescriptor,
    config: EffectiveConfig,
    frozen_uids: Set<u32>,
    now: UnixTimestamp,
)
    requires
        target.safety_tier == TargetSafetyTier::RequiresColdApp,
        !frozen_uids.contains(target.owner_uid),
    ensures
        permitted(candidates, target, config, frozen_uids, now).len() == 0,
{
}

/// Nothing of a whitelisted package is admitted, nor anything of a target that must not
/// be changed.
pub proof fn law_protected_targets_lose_nothing(
    candidates: Seq<Candidate>,
    target: TargetDescriptor,
    config: EffectiveConfig,
    now: UnixTimestamp,
)
    requires
        !target.allows_mutation() || (target.package_name is Some && config.whitelists(
            target.package_name->0@,
        )),
    ensures
        admitted(candidates, target, config, now).len() == 0,
    decreases candidates.len(),
{
    if candidates.len() > 0 {
        law_protected_targets_lose_nothing(candidates.drop_last(), target, config, now);
    }
}

/// The candidate may go from the target at `now`, as far as can be told from what it is,
/// where it stands and how old it is.
pub open spec fn is_free_to_go(
    candidate: Candidate,
    target: TargetDescriptor,
    config: EffectiveConfig,
    frozen_uids: Set<u32>,
    now: UnixTimestamp,
) -> bool {
    &&& target.safety_tier == TargetSafetyTier::StandardCache || (target.safety_tier
        == TargetSafetyTier::RequiresColdApp && target.owner_uid > 0 && frozen_uids.contains(
        target.owner_uid,
    ))
    &&& candidate.target_id@ == target.target_id@
    &&& candidate.identity.dev == target.dev
    &&& candidate.rel_path@.len() > 0
    &&& !safety::belongs_to_the_platform(target.base_path@)
    &&& target.package_name is None || forall|i: int|
        0 <= i < config.validated.whitelist_packages@.len() ==> !text::same_but_case(
            (#[trigger] config.validated.whitelist_packages@[i])@,
            target.package_name->0@,
        )
    &&& !text::ends_in_one(candidate.rel_path@, seq![".dex"@, ".oat"@, ".art"@, ".vdex"@])
    &&& !text::holds_one(candidate.rel_path@, seq!["code_cache"@])
    &&& config.validated.min_app_cache_age_secs == 0 || now.0 >= candidate.mtime.0
        + config.validated.min_app_cache_age_secs
}

proof fn lemma_free_to_go(
    candidate: Candidate,
    target: TargetDescriptor,
    config: EffectiveConfig,
    frozen_uids: Set<u32>,
    now: UnixTimestamp,
)
    ensures
        is_free_to_go(candidate, target, config, frozen_uids, now) <==> may_go(
            candidate,
            target,
            config,
            now,
        ) && is_cold_enough(target, frozen_uids),
{
    safety::lemma_platform_complaint(target.base_path@);
    let path = candidate.rel_path@;
    text::lemma_ends_in_one(path, seq![".dex"@, ".oat"@, ".art"@, ".vdex"@]);
    let one = seq!["code_cache"@];
    text::lemma_holds_one(path, one);
    assert(text::has_part_of(path, one) <==> text::has_part(path, "code_cache"@)) by {
        assert(one[0] == "code_cache"@);
    }
}

/// A permit is given for a candidate that was found and is free to go, and for no other:
/// it is for that candidate as it was found, with the device and inode of the target,
/// and more urgent where the application is frozen. Permits that were there stay.
pub proof fn law_permits_are_for_what_is_free_to_go(
    target: &TargetDescriptor,
    candidates: &Vec<Candidate>,
    config: &EffectiveConfig,
    frozen_uids: &HashSet<u32>,
    now: UnixTimestamp,
    permits: &mut Vec<PolicyPermit>,
    i: int,
)
    requires
        call_ensures(
            AuthoritativeCleanPipeline::judge,
            (target, candidates, config, frozen_uids, now, permits),
            (),
        ),
        0 <= i < final(permits)@.len(),
    ensures
        final(permits)@.len() >= old(permits)@.len(),
        i < old(permits)@.len() ==> final(permits)@[i] == old(permits)@[i],
        i >= old(permits)@.len() ==> {
            let permit = final(permits)@[i];
            let candidate = permit.candidate.candidate;
            &&& candidates@.contains(candidate)
            &&& is_free_to_go(candidate, *target, *config, frozen_uids@, now)
            &&& permit.candidate.trusted_root_dev == target.dev
            &&& permit.candidate.trusted_root_ino == target.ino
            &&& permit.reason == DecisionReason::ExceedsRetentionAge
            &&& permit.priority == if target.owner_uid > 0 && frozen_uids@.contains(
                target.owner_uid,
            ) {
                200u32
            } else {
                100u32
            }
        },
{
    let before = old(permits)@;
    let after = final(permits)@;
    if i < before.len() {
        assert(after.take(before.len() as int)[i] == before[i]);
    } else {
        let allowed = permitted(candidates@, *target, *config, frozen_uids@, now);
        let j = i - before.len();
        assert(is_permit_for(after[before.len() + j], allowed[j], *target, frozen_uids@));
        let candidate = allowed[j];
        assert(allowed.contains(candidate));
        law_admitted_means_checked(candidates@, *target, *config, now, candidate);
        lemma_free_to_go(candidate, *target, *config, frozen_uids@, now);
    }
}

/// Every candidate that was found and is free to go gets its permit.
pub proof fn law_whatever_is_free_to_go_is_permitted(
    target: &TargetDescriptor,
    candidates: &Vec<Candidate>,
    config: &EffectiveConfig,
    frozen_uids: &HashSet<u32>,
    now: UnixTimestamp,
    permits: &mut Vec<PolicyPermit>,
    candidate: Candidate,
)
    requires
        call_ensures(
            AuthoritativeCleanPipeline::judge,
            (target, candidates, config, frozen_uids, now, permits),
            (),
        ),
        candidates@.contains(candidate),
        is_free_to_go(candidate, *target, *config, frozen_uids@, now),
    ensures
        exists|i: int|
            old(permits)@.len() <= i < final(permits)@.len() && (#[trigger] final(permits)@[i]).candidate.candidate == candidate,
{
    law_admitted_means_checked(candidates@, *target, *config, now, candidate);
    lemma_free_to_go(candidate, *target, *config, frozen_uids@, now);
    let allowed = permitted(candidates@, *target, *config, frozen_uids@, now);
    let j = choose|j: int| 0 <= j < allowed.len() && allowed[j] == candidate;
    let before = old(permits)@;
    assert(is_permit_for(final(permits)@[before.len() + j], allowed[j], *target, frozen_uids@));
}

proof fn lemma_admitted_once(
    candidates: Seq<Candidate>,
    target: TargetDescriptor,
    config: EffectiveConfig,
    now: UnixTimestamp,
)
    ensures
        admitted(candidates, target, config, now).len() <= candidates.len(),
    decreases candidates.len(),
{
    if candidates.len() > 0 {
        lemma_admitted_once(candidates.drop_last(), target, config, now);
    }
}

/// No more permits are given than there are candidates.
pub proof fn law_no_more_permits_than_candidates(
    target: &TargetDescriptor,
    candidates: &Vec<Candidate>,
    config: &EffectiveConfig,
    frozen_uids: &HashSet<u32>,
    now: UnixTimestamp,
    permits: &mut Vec<PolicyPermit>,
)
    requires
        call_ensures(
            AuthoritativeCleanPipeline::judge,
            (target, candidates, config, frozen_uids, now, permits),
            (),
        ),
    ensures
        final(permits)@.len() <= old(permits)@.len() + candidates@.len(),
{
    lemma_admitted_once(candidates@, *target, *config, now);
}

/// From the scan to the permit: an entry that was changed less than the configured time
/// before `now` is never permitted to go, however it was scanned and whatever else was
/// found.
pub proof fn law_young_entries_are_never_permitted(
    scan: &mut TargetScan,
    scanner: &mut CandidateScanner,
    rel_prefix: &RelativePath,
    entry: &SafeDirEntry,
    step: EntryStep,
    target: &TargetDescriptor,
    candidates: &Vec<Candidate>,
    config: &EffectiveConfig,
    frozen_uids: &HashSet<u32>,
    now: UnixTimestamp,
    permits: &mut Vec<PolicyPermit>,
    i: int,
)
    requires
        call_ensures(TargetScan::visit, (scan, scanner, rel_prefix, entry), step),
        step is Taken || step is Descend,
        call_ensures(
            AuthoritativeCleanPipeline::judge,
            (target, candidates, config, frozen_uids, now, permits),
            (),
        ),
        config.validated.min_app_cache_age_secs > 0,
        now.0 < entry.mtime_secs + config.validated.min_app_cache_age_secs,
        old(permits)@.len() <= i < final(permits)@.len(),
    ensures
        final(permits)@[i].candidate.candidate != final(scan)@.candidates.last(),
{
    law_permits_are_for_what_is_free_to_go(
        target,
        candidates,
        config,
        frozen_uids,
        now,
        permits,
        i,
    );
}

/// Everything permitted is planned, and leave is given for the plan, unless there is too
/// much of it: the plan is for the job and the generations that it is made for, and the
/// grant for that plan is good for five minutes.
pub proof fn law_preparing_plans_and_grants(
    pipeline: &mut AuthoritativeCleanPipeline,
    job_id: JobId,
    catalog: CatalogGeneration,
    config: ConfigGeneration,
    permits: Vec<PolicyPermit>,
    r: Result<AuthorizedPlan, CleanerError>,
)
    requires
        call_ensures(
            AuthoritativeCleanPipeline::prepare,
            (pipeline, job_id, catalog, config, permits),
            r,
        ),
    ensures
        r is Ok <==> permits@.len() <= 10_000,
        r matches Ok(a) ==> {
            &&& a.plan.job_id == job_id
            &&& a.plan.catalog_generation == catalog
            &&& a.plan.config_generation == config
            &&& a.plan.operations@.len() == permits@.len()
            &&& a.grant.catalog_generation == catalog
            &&& a.grant.config_generation == config
            &&& a.grant.granted_at.0 + 300 <= u64::MAX ==> a.grant.expires_at.0
                == a.grant.granted_at.0 + 300
            &&& a.may_run(a.grant.granted_at, catalog, config)
        },
        final(pipeline).spec_config() == old(pipeline).spec_config(),
        final(pipeline).spec_catalog() == old(pipeline).spec_catalog(),
        final(pipeline).spec_generation() == old(pipeline).spec_generation(),
{
    if r is Ok {
        planner::law_plan_is_sound(r->Ok_0.plan, permits@);
    }
}

/// A job that only counts comes to what is planned: every operation counts as done and
/// none as failed or left out, and the bytes are those expected.
pub proof fn law_dry_run_counts_the_plan(
    authorized: &AuthorizedPlan,
    job_id: JobId,
    attempt_id: AttemptId,
    r: JobResult,
)
    requires
        call_ensures(
            AuthoritativeCleanPipeline::dry_run_result,
            (authorized, job_id, attempt_id),
            r,
        ),
        authorized.plan.operations@.len() <= usize::MAX,
    ensures
        r.job_id == job_id,
        r.attempt_id == attempt_id,
        r.total_reclaimed == authorized.plan.total_estimated_reclaim,
        r.total_operations == authorized.plan.operations@.len(),
        r.successful_operations == authorized.plan.operations@.len(),
        r.failed_operations == 0,
        r.skipped_operations == 0,
        r.duration_ms == 0,
{
}

/// The report on a job tells its sums: bytes, removals, failures and omissions each in
/// their place and again among the repeated fields, and nothing of memory or the file
/// system but the trim.
pub proof fn law_report_tells_the_sums(result: &JobResult, trimmed: bool, r: CleanReport)
    requires
        call_ensures(AuthoritativeCleanPipeline::report, (result, trimmed), r),
    ensures
        r.storage.total_freed_bytes == result.total_reclaimed.0,
        r.storage.app_cache_bytes == result.total_reclaimed.0,
        r.storage.deleted_files_count == result.successful_operations,
        r.storage.skipped_files_count == result.skipped_operations,
        r.storage.errors_count == result.failed_operations,
        r.storage.oem_logs_bytes == 0,
        r.storage.crash_dumps_bytes == 0,
        r.storage.temp_apks_bytes == 0,
        r.storage.frozen_apps_cleaned == 0,
        r.storage.active_apps_cleaned == 0,
        r.total_freed_bytes == result.total_reclaimed.0,
        r.app_cache_freed_bytes == result.total_reclaimed.0,
        r.deleted_files_count == result.successful_operations,
        r.skipped_files_count == result.skipped_operations,
        r.errors_count == result.failed_operations,
        r.trim.fstrim_completed == trimmed,
        r.fstrim_completed == trimmed,
        r.duration_ms == result.duration_ms,
        !r.memory.memory_compacted && !r.memory.zram_compacted && !r.memory.cgroup_memory_reclaimed,
        !r.optimization.f2fs_gc_activated,
        r.plan_entries is None,
        r.cancel_reason is None,
{
}

/// A job scans its targets one after the other, each once and in their order, until all
/// are scanned or it is cancelled; then it plans, carries the plan out or only counts
/// it, trims where that is asked for and anything is changed at all, and records and
/// reports in the end.
pub proof fn law_job_takes_its_steps_in_order(run: &mut JobRun, cancelled: bool, r: JobStep)
    requires
        call_ensures(JobRun::advance, (run, cancelled), r),
    ensures
        ({
            let asked = old(run).asked();
            match old(run).reached() {
                JobStage::Scanned(n) => {
                    &&& r == JobStep::Scan(n) <==> n < old(run).targets() && !cancelled
                    &&& r == JobStep::Plan <==> n >= old(run).targets() || cancelled
                },
                JobStage::Planned => {
                    &&& r == JobStep::Count <==> asked.dry_run
                    &&& r == JobStep::Execute <==> !asked.dry_run
                },
                JobStage::Done => {
                    &&& r == JobStep::Trim <==> asked.trim && !asked.dry_run
                    &&& r == JobStep::Record <==> !asked.trim || asked.dry_run
                },
                JobStage::Trimmed => r == JobStep::Record,
                JobStage::Recorded => r == JobStep::Report,
            }
        }),
        r matches JobStep::Scan(n) ==> final(run).reached() == JobStage::Scanned((n + 1) as usize),
        r == JobStep::Plan ==> final(run).reached() == JobStage::Planned,
        r == JobStep::Execute || r == JobStep::Count ==> final(run).reached() == JobStage::Done,
        r == JobStep::Trim ==> final(run).reached() == JobStage::Trimmed,
        r == JobStep::Record || r == JobStep::Report ==> final(run).reached() == JobStage::Recorded,
        final(run).asked() == old(run).asked(),
        final(run).targets() == old(run).targets(),
{
}

/// A configuration that is put in force has the next generation; catalog and grants go
/// on as they were. A deep cleaning is somebody's request.
pub proof fn law_new_configuration_is_a_new_generation(
    pipeline: &mut AuthoritativeCleanPipeline,
    config: DaemonConfig,
    params: &CleanParams,
    by: TriggerSource,
    trims: bool,
)
    requires
        call_ensures(AuthoritativeCleanPipeline::update_config, (pipeline, config), ()),
        call_ensures(AuthoritativeCleanPipeline::trigger, (params,), by),
        call_ensures(AuthoritativeCleanPipeline::wants_trim, (params,), trims),
    ensures
        final(pipeline).spec_config() == config,
        old(pipeline).spec_generation().0 < u64::MAX ==> final(pipeline).spec_generation().0
            == old(pipeline).spec_generation().0 + 1,
        old(pipeline).spec_generation().0 == u64::MAX ==> final(pipeline).spec_generation().0 == 0,
        final(pipeline).spec_catalog() == old(pipeline).spec_catalog(),
        final(pipeline).spec_auth() == old(pipeline).spec_auth(),
        by == TriggerSource::ManualIpc <==> params.deep,
        trims <==> params.trim && !params.dry_run,
{
}

/// A job goes by the daemon's own limits, where they are within bounds, and by the
/// defaults for the rest: caches older than three days, no kind of junk beyond caches,
/// and the generation in force.
pub proof fn law_job_goes_by_the_limits(
    pipeline: &AuthoritativeCleanPipeline,
    r: Result<EffectiveConfig, CleanerError>,
)
    requires
        call_ensures(AuthoritativeCleanPipeline::effective_config, (pipeline,), r),
    ensures
        r matches Ok(config) ==> {
            &&& config.generation == pipeline.spec_generation()
            &&& config.validated.min_screen_off_secs == pipeline.spec_config().min_screen_off_secs
            &&& config.validated.max_soc_temp_c == pipeline.spec_config().max_soc_temp_c.degrees
            &&& config.validated.max_battery_temp_c
                == pipeline.spec_config().max_battery_temp_c.degrees
            &&& config.validated.min_screen_off_secs <= 3600
            &&& config.validated.maintenance_interval_secs == 3600
            &&& config.validated.min_app_cache_age_secs == 259_200
            &&& config.validated.app_cache_threshold_bytes.0 == 52_428_800
            &&& !config.validated.dry_run
            &&& config.validated.clean_app_cache
            &&& !config.validated.clean_code_cache
            &&& !config.validated.clean_tombstones
            &&& !config.validated.clean_oem_logs
            &&& !config.validated.clean_temp_apks
        },
        r matches Err(e) ==> e is ConfigError,
{
    if r is Ok {
        let raw = choose|raw: RawConfig| #[trigger]
            is_raw_for(raw, pipeline.spec_config()) && config_pipeline::is_validated(
                raw,
                r->Ok_0.validated,
            );
        let base = choose|base: RawConfig| #[trigger]
            base.is_default() && raw == (RawConfig {
                min_screen_off_secs: raw.min_screen_off_secs,
                max_soc_temp_c: raw.max_soc_temp_c,
                max_battery_temp_c: raw.max_battery_temp_c,
                ..base
            });
        assert(raw.min_app_cache_age_days == base.min_app_cache_age_days);
    }
}

/// A job ends as completed with the bytes that it freed, or as failed with none.
pub proof fn law_job_ends_in_the_records(outcome: Result<u64, &str>, r: JobClosing)
    requires
        call_ensures(AuthoritativeCleanPipeline::close, (outcome,), r),
    ensures
        outcome matches Ok(freed) ==> r.job_state@ == "COMPLETED"@ && r.reclaimed.0 == freed
            && r.attempt_note@ == "SUCCESS"@,
        outcome matches Err(e) ==> r.job_state@ == "FAILED"@ && r.reclaimed.0 == 0 && r.attempt_note@
            == "FAILED: "@ + e@,
{
}

/// A pipeline keeps what it was made of, under the first generation and with an empty
/// catalog.
pub proof fn law_pipeline_keeps_what_it_was_made_of(
    config: DaemonConfig,
    f2fs: F2fsController,
    r: AuthoritativeCleanPipeline,
    c: &DaemonConfig,
    f: &F2fsController,
    g: GenerationId,
    catalog: &TargetCatalog,
    id: Seq<char>,
)
    requires
        call_ensures(AuthoritativeCleanPipeline::new, (config, f2fs), r),
        call_ensures(AuthoritativeCleanPipeline::config, (&r,), c),
        call_ensures(AuthoritativeCleanPipeline::f2fs, (&r,), f),
        call_ensures(AuthoritativeCleanPipeline::config_generation, (&r,), g),
        call_ensures(AuthoritativeCleanPipeline::catalog, (&r,), catalog),
    ensures
        *c == config,
        *f == f2fs,
        g.0 == 1,
        catalog@.generation.0 == 1,
        !catalog@.targets.contains_key(id),
{
    assert(!catalog@.targets.dom().contains(id));
}

/// A job begins with the scan of the first target, and does what was asked for.
pub proof fn law_job_begins_with_the_first_target(
    params: CleanParams,
    targets: usize,
    r: JobRun,
    stage: JobStage,
)
    requires
        call_ensures(JobRun::new, (params, targets), r),
        call_ensures(JobRun::stage, (&r,), stage),
    ensures
        stage == JobStage::Scanned(0),
        r.asked() == params && r.targets() == targets,
{
}

/// The report on a job names no mount.
pub proof fn law_report_names_no_mount(result: &JobResult, trimmed: bool, r: CleanReport)
    requires
        call_ensures(AuthoritativeCleanPipeline::report, (result, trimmed), r),
    ensures
        r.trim.trimmed_mounts@.len() == 0,
        r.memory.reclaimed_mb == 0,
{
}

} // verus!
