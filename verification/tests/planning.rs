//! From candidates to plans, grants and results.
use std::collections::HashSet;

use cache_cleaner_daemon::auth::AuthorizationEngine;
use cache_cleaner_daemon::catalog::{CatalogSnapshot, DirFacts, TargetCatalog};
use cache_cleaner_daemon::config::{Celsius, DaemonConfig, TempLimit};
use cache_cleaner_daemon::config_pipeline::{EffectiveConfig, RawConfig, ValidatedConfig};
use cache_cleaner_daemon::domain::candidate::{Candidate, SafetyValidatedCandidate};
use cache_cleaner_daemon::domain::decision::{DecisionReason, PolicyDecision, PolicyPermit};
use cache_cleaner_daemon::domain::grant::{AuthorizedPlan, Capability};
use cache_cleaner_daemon::domain::intent::{IntentState, MutationType};
use cache_cleaner_daemon::domain::plan::{OperationType, PlannedPlan};
use cache_cleaner_daemon::domain::result::{JobResult, OperationStatus};
use cache_cleaner_daemon::domain::target::{TargetClass, TargetDescriptor, TargetSafetyTier};
use cache_cleaner_daemon::domain::types::{
    AttemptId, ByteCount, CandidateId, DeviceNumber, FileIdentity, GenerationId, InodeNumber,
    JobId, OperationId, RelativePath, TargetId, UnixTimestamp,
};
use cache_cleaner_daemon::error::CleanerError;
use cache_cleaner_daemon::executor::{CleanupExecutor, MutationReport, PlanRun, Stage, Step};
use cache_cleaner_daemon::hardware::f2fs::F2fsController;
use cache_cleaner_daemon::ipc::protocol::CleanParams;
use cache_cleaner_daemon::pipeline::{
    AuthoritativeCleanPipeline, JobRun, JobStage, JobStep, TriggerSource,
};
use cache_cleaner_daemon::planner::CleanupPlanner;
use cache_cleaner_daemon::policy::PolicyEngine;
use cache_cleaner_daemon::postcondition::VerificationOutcome;
use cache_cleaner_daemon::resource::ResourceManager;
use cache_cleaner_daemon::safety::SafetyGate;

const DAY: u64 = 86_400;
const NOW: UnixTimestamp = UnixTimestamp(100 * 86_400);

fn target() -> TargetDescriptor {
    TargetDescriptor {
        target_id: TargetId::new("cache".to_string()),
        target_class: TargetClass::AppCache,
        base_path: "/data/data/com.example.app/cache".to_string(),
        dev: DeviceNumber(7),
        ino: InodeNumber(70),
        owner_uid: 10_123,
        owner_gid: 10_123,
        package_name: Some("com.example.app".to_string()),
        safety_tier: TargetSafetyTier::StandardCache,
        catalog_generation: GenerationId(1),
    }
}

fn candidate(number: u64, path: &str, is_dir: bool, size: u64) -> Candidate {
    Candidate {
        candidate_id: CandidateId(number),
        target_id: TargetId::new("cache".to_string()),
        rel_path: RelativePath::parse(path).unwrap(),
        identity: FileIdentity::new(7, 1000 + number),
        size_bytes: ByteCount::new(size),
        mtime: UnixTimestamp(90 * DAY),
        atime: None,
        is_dir,
        is_symlink: false,
    }
}

fn permit(candidate: Candidate) -> PolicyPermit {
    PolicyPermit {
        candidate: SafetyValidatedCandidate::new(candidate, DeviceNumber(7), InodeNumber(70)),
        priority: 100,
        reason: DecisionReason::ExceedsRetentionAge,
        decided_at: NOW,
    }
}

fn config() -> EffectiveConfig {
    let valid = ValidatedConfig::from_raw(RawConfig::default()).unwrap();
    EffectiveConfig::new(GenerationId(1), valid)
}

fn small_plan() -> PlannedPlan {
    let permits = vec![
        permit(candidate(1, "d", true, 0)),
        permit(candidate(2, "d/x", false, 30)),
        permit(candidate(3, "a", false, 12)),
    ];
    CleanupPlanner::new()
        .build_plan(JobId(5), GenerationId(1), GenerationId(1), permits)
        .unwrap()
}

fn authorized() -> AuthorizedPlan {
    AuthorizationEngine::new()
        .authorize_plan_at(small_plan(), GenerationId(1), 300, GenerationId(1), NOW)
        .unwrap()
}

fn snapshot() -> CatalogSnapshot {
    let mut catalog = TargetCatalog::new();
    catalog.register_target(target());
    catalog.take_snapshot()
}

fn run() -> PlanRun {
    CleanupExecutor::new()
        .execute_plan(authorized(), snapshot(), GenerationId(1), AttemptId(9), NOW)
        .unwrap()
}

fn paths_of(plan: &PlannedPlan) -> Vec<String> {
    let mut r: Vec<String> = Vec::new();
    for op in &plan.operations {
        match &op.op_type {
            OperationType::DeleteFile { rel_path, .. } => r.push(rel_path.as_str().to_string()),
            OperationType::DeleteDirEmpty { rel_path, .. } => {
                r.push(format!("{}/", rel_path.as_str()))
            }
            other => panic!("{:?}", other),
        }
    }
    r
}

#[test]
fn contents_come_before_their_directory() {
    let plan = small_plan();
    assert_eq!(paths_of(&plan), vec!["d/x", "a", "d/"]);
    assert_eq!(plan.total_estimated_reclaim, ByteCount(42));
    assert_eq!(plan.plan_id.0, (5 << 16) ^ (1 << 8) ^ 1);
    assert_eq!(plan.operations[2].dependencies, vec![plan.operations[0].op_id]);
    assert!(plan.operations[0].dependencies.is_empty());
    assert!(CleanupPlanner::new().validate_plan(&plan).is_ok());
}

#[test]
fn planning_is_deterministic() {
    let mut permits = vec![
        permit(candidate(1, "b/c", false, 1)),
        permit(candidate(2, "a/b/c", false, 1)),
        permit(candidate(3, "a/a/c", false, 1)),
        permit(candidate(4, "b", true, 1)),
    ];
    let planner = CleanupPlanner::new();
    let one = planner.build_plan(JobId(1), GenerationId(1), GenerationId(1), permits.clone());
    permits.reverse();
    let two = planner.build_plan(JobId(1), GenerationId(1), GenerationId(1), permits);
    assert_eq!(paths_of(&one.unwrap()), vec!["a/a/c", "a/b/c", "b/c", "b/"]);
    assert_eq!(paths_of(&two.unwrap()), vec!["a/a/c", "a/b/c", "b/c", "b/"]);
}

#[test]
fn faulty_plans_are_refused() {
    let planner = CleanupPlanner::new();
    let mut twice = small_plan();
    twice.operations[1].op_id = twice.operations[0].op_id;
    assert!(matches!(planner.validate_plan(&twice), Err(CleanerError::PlanValidationFailed(_))));
    let mut ahead = small_plan();
    let last = ahead.operations[2].op_id;
    ahead.operations[0].dependencies.push(last);
    assert!(matches!(planner.validate_plan(&ahead), Err(CleanerError::PlanValidationFailed(_))));
    let mut unknown = small_plan();
    unknown.operations[0].dependencies.push(OperationId(999));
    assert!(matches!(planner.validate_plan(&unknown), Err(CleanerError::PlanValidationFailed(_))));
    let mut permits: Vec<PolicyPermit> = Vec::new();
    for i in 0..10_001u64 {
        permits.push(permit(candidate(i, &format!("f{}", i), false, 1)));
    }
    match planner.build_plan(JobId(1), GenerationId(1), GenerationId(1), permits) {
        Err(CleanerError::PlanBudgetExceeded { count, limit }) => {
            assert_eq!(count, 10_001);
            assert!(limit <= 10_000);
        }
        other => panic!("{:?}", other.is_ok()),
    }
}

#[test]
fn stale_plans_get_no_grant() {
    let mut engine = AuthorizationEngine::new();
    match engine.authorize_plan_at(small_plan(), GenerationId(2), 300, GenerationId(1), NOW) {
        Err(CleanerError::SafetyViolation(m)) => assert!(m.contains("is stale against")),
        other => panic!("{:?}", other.is_ok()),
    }
    let first = engine
        .authorize_plan_at(small_plan(), GenerationId(1), 300, GenerationId(1), NOW)
        .unwrap();
    assert_eq!(first.grant.grant_id.0, 1);
    assert_eq!(first.grant.expires_at, UnixTimestamp(NOW.0 + 300));
    assert_eq!(first.grant.capabilities.len(), 3);
    match &first.grant.capabilities[2] {
        Capability::DeleteDirectory(id, path) => {
            assert_eq!((id.0.as_str(), path.as_str()), ("cache", "d"))
        }
        other => panic!("{:?}", other),
    }
    assert!(first.is_authorized_for_execution(NOW, GenerationId(1), GenerationId(1)));
    assert!(!first.is_authorized_for_execution(NOW, GenerationId(1), GenerationId(5)));
    assert!(!first.is_authorized_for_execution(
        UnixTimestamp(NOW.0 + 301),
        GenerationId(1),
        GenerationId(1)
    ));
    assert!(CleanupExecutor::new()
        .execute_plan(first, snapshot(), GenerationId(5), AttemptId(1), NOW)
        .is_err());
}

#[test]
fn safety_comes_first() {
    let gate = SafetyGate::new();
    let good = gate.validate_candidate(candidate(1, "a", false, 1), &target()).unwrap();
    assert_eq!(good.trusted_root_ino, InodeNumber(70));
    let mut frozen_tier = target();
    frozen_tier.safety_tier = TargetSafetyTier::ReadOnlyInspection;
    assert!(gate.validate_candidate(candidate(1, "a", false, 1), &frozen_tier).is_err());
    let mut elsewhere = candidate(1, "a", false, 1);
    elsewhere.identity = FileIdentity::new(8, 1);
    match gate.validate_candidate(elsewhere, &target()) {
        Err(CleanerError::SafetyViolation(m)) => {
            assert!(m.starts_with("Mount boundary violation: candidate dev "))
        }
        other => panic!("{:?}", other.is_ok()),
    }
    let mut foreign = candidate(1, "a", false, 1);
    foreign.target_id = TargetId::new("other".to_string());
    assert!(gate.validate_candidate(foreign, &target()).is_err());
    let mut root = candidate(1, "a", false, 1);
    root.rel_path = RelativePath::empty();
    assert!(gate.validate_candidate(root, &target()).is_err());
    let mut system = target();
    system.base_path = "/system/app".to_string();
    match gate.validate_candidate(candidate(1, "a", false, 1), &system) {
        Err(e) => assert_eq!(
            e.message(),
            "Safety violation: Critical invariant violation: Protected system root '/system' \
             must never be targeted for mutation (path: /system/app)"
        ),
        Ok(_) => panic!(),
    }
}

#[test]
fn policy_keeps_what_it_must() {
    let engine = PolicyEngine::new();
    let judge = |c: Candidate, t: &TargetDescriptor| {
        let safe = SafetyValidatedCandidate::new(c, DeviceNumber(7), InodeNumber(70));
        engine.evaluate_candidate(safe, t, &config(), NOW)
    };
    assert!(judge(candidate(1, "a", false, 1), &target()).is_allowed());
    let mut young = candidate(1, "a", false, 1);
    young.mtime = UnixTimestamp(NOW.0 - 3 * DAY + 1);
    match judge(young, &target()) {
        PolicyDecision::Deny(d) => {
            assert_eq!(d.reason, DecisionReason::WithinRetentionGracePeriod)
        }
        other => panic!("{:?}", other),
    }
    match judge(candidate(1, "oat/base.vdex", false, 1), &target()) {
        PolicyDecision::Deny(d) => assert_eq!(d.reason, DecisionReason::ProtectedBytecode),
        other => panic!("{:?}", other),
    }
    let mut store = target();
    store.package_name = Some("COM.Android.Vending".to_string());
    match judge(candidate(1, "a", false, 1), &store) {
        PolicyDecision::Deny(d) => assert_eq!(d.reason, DecisionReason::PackageWhitelisted),
        other => panic!("{:?}", other),
    }
}

#[test]
fn only_checked_candidates_are_permitted() {
    let mut frozen: HashSet<u32> = HashSet::new();
    let mut permits: Vec<PolicyPermit> = Vec::new();
    let mut young = candidate(3, "young", false, 1);
    young.mtime = NOW;
    let found = vec![
        candidate(1, "a", false, 1),
        young,
        candidate(2, "x.dex", false, 1),
        candidate(4, "b", false, 1),
    ];
    AuthoritativeCleanPipeline::judge(&target(), &found, &config(), &frozen, NOW, &mut permits);
    assert_eq!(permits.len(), 2);
    assert_eq!(permits[0].candidate.candidate.candidate_id, CandidateId(1));
    assert_eq!(permits[1].candidate.candidate.candidate_id, CandidateId(4));
    assert_eq!(permits[0].priority, 100);
    frozen.insert(10_123);
    AuthoritativeCleanPipeline::judge(&target(), &found, &config(), &frozen, NOW, &mut permits);
    assert_eq!(permits.len(), 4);
    assert_eq!(permits[2].priority, 200);
    let mut sealed = target();
    sealed.safety_tier = TargetSafetyTier::ProtectedSystem;
    AuthoritativeCleanPipeline::judge(&sealed, &found, &config(), &frozen, NOW, &mut permits);
    assert_eq!(permits.len(), 4);
}

#[test]
fn active_applications_keep_their_files() {
    let mut frozen: HashSet<u32> = HashSet::new();
    let mut permits: Vec<PolicyPermit> = Vec::new();
    let found = vec![candidate(1, "a", false, 1)];
    let mut shy = target();
    shy.safety_tier = TargetSafetyTier::RequiresColdApp;
    AuthoritativeCleanPipeline::judge(&shy, &found, &config(), &frozen, NOW, &mut permits);
    assert!(permits.is_empty());
    frozen.insert(shy.owner_uid);
    AuthoritativeCleanPipeline::judge(&shy, &found, &config(), &frozen, NOW, &mut permits);
    assert_eq!(permits.len(), 1);
}

#[test]
fn pipeline_goes_by_its_configuration() {
    let mut pipeline = AuthoritativeCleanPipeline::new(
        DaemonConfig::default(),
        F2fsController::discover(&Vec::new()),
    );
    assert_eq!(pipeline.config_generation(), GenerationId(1));
    let effective = pipeline.effective_config().unwrap();
    assert_eq!(effective.generation, GenerationId(1));
    assert_eq!(effective.validated.min_app_cache_age_secs, 3 * DAY);
    let mut late = DaemonConfig::default();
    late.min_screen_off_secs = 3601;
    pipeline.update_config(late);
    assert_eq!(pipeline.config_generation(), GenerationId(2));
    assert!(matches!(pipeline.effective_config(), Err(CleanerError::ConfigError(_))));
    let mut hot = DaemonConfig::default();
    hot.max_soc_temp_c = TempLimit {
        degrees: Celsius { bits: 90.5f32.to_bits() },
        shown: "90.5".to_string(),
    };
    pipeline.update_config(hot);
    match pipeline.effective_config() {
        Err(CleanerError::ConfigError(m)) => {
            assert_eq!(m, "max_soc_temp_c 90.5 out of safe range [20.0, 90.0]")
        }
        other => panic!("{:?}", other.is_ok()),
    }
    assert!(!pipeline.f2fs().is_available());
    pipeline.catalog_mut().register_target(target());
    assert_eq!(pipeline.catalog().take_snapshot().len(), 1);
}

fn steps_of(params: CleanParams, targets: usize, cancelled_from: usize) -> Vec<JobStep> {
    let mut job = JobRun::new(params, targets);
    let mut steps: Vec<JobStep> = Vec::new();
    loop {
        let step = job.advance(steps.len() >= cancelled_from);
        steps.push(step);
        if step == JobStep::Report {
            assert_eq!(job.stage(), JobStage::Recorded);
            return steps;
        }
    }
}

#[test]
fn jobs_go_step_by_step() {
    let full = CleanParams { deep: true, trim: true, zram_compact: false, dry_run: false };
    assert_eq!(
        steps_of(full, 2, usize::MAX),
        vec![
            JobStep::Scan(0),
            JobStep::Scan(1),
            JobStep::Plan,
            JobStep::Execute,
            JobStep::Trim,
            JobStep::Record,
            JobStep::Report,
        ]
    );
    let light = CleanParams { trim: false, ..full };
    assert_eq!(
        steps_of(light, 0, usize::MAX),
        vec![JobStep::Plan, JobStep::Execute, JobStep::Record, JobStep::Report]
    );
}

#[test]
fn dry_run_changes_nothing() {
    let dry = CleanParams { deep: true, trim: true, zram_compact: true, dry_run: true };
    assert_eq!(
        steps_of(dry, 1, usize::MAX),
        vec![
            JobStep::Scan(0),
            JobStep::Plan,
            JobStep::Count,
            JobStep::Record,
            JobStep::Report,
        ]
    );
}

#[test]
fn cancelled_job_scans_no_more() {
    let full = CleanParams { deep: false, trim: false, zram_compact: false, dry_run: false };
    assert_eq!(
        steps_of(full, 5, 2),
        vec![
            JobStep::Scan(0),
            JobStep::Scan(1),
            JobStep::Plan,
            JobStep::Execute,
            JobStep::Record,
            JobStep::Report,
        ]
    );
}

#[test]
fn order_of_permits_does_not_matter() {
    let permits = vec![
        permit(candidate(1, "b", true, 0)),
        permit(candidate(2, "b/c", false, 4)),
        permit(candidate(3, "a", false, 2)),
    ];
    let planner = CleanupPlanner::new();
    let plan = |order: [usize; 3]| {
        let list: Vec<PolicyPermit> = order.iter().map(|i| permits[*i].clone()).collect();
        planner.build_plan(JobId(1), GenerationId(1), GenerationId(1), list).unwrap()
    };
    let first = plan([0, 1, 2]);
    for order in [[0, 2, 1], [1, 0, 2], [1, 2, 0], [2, 0, 1], [2, 1, 0]] {
        let other = plan(order);
        assert_eq!(other.operations, first.operations);
        assert_eq!(other.total_estimated_reclaim, first.total_estimated_reclaim);
    }
}

#[test]
fn pipeline_prepares_and_reports() {
    let mut pipeline = AuthoritativeCleanPipeline::new(
        DaemonConfig::default(),
        F2fsController::discover(&Vec::new()),
    );
    let plan = pipeline
        .prepare(
            JobId(3),
            GenerationId(1),
            GenerationId(1),
            vec![permit(candidate(1, "a", false, 64))],
        )
        .unwrap();
    assert_eq!(plan.grant.grant_id.0, 1);
    assert_eq!(plan.grant.expires_at.0, plan.grant.granted_at.0 + 300);
    let dry = AuthoritativeCleanPipeline::dry_run_result(&plan, JobId(3), AttemptId(4));
    assert_eq!((dry.total_operations, dry.successful_operations), (1, 1));
    assert_eq!(dry.total_reclaimed, ByteCount(64));
    let result = JobResult {
        job_id: JobId(3),
        attempt_id: AttemptId(4),
        total_reclaimed: ByteCount(500),
        total_operations: 9,
        successful_operations: 6,
        failed_operations: 2,
        skipped_operations: 1,
        duration_ms: 33,
    };
    let report = AuthoritativeCleanPipeline::report(&result, true);
    assert_eq!(report.storage.total_freed_bytes, 500);
    assert_eq!(report.app_cache_freed_bytes, 500);
    assert_eq!((report.deleted_files_count, report.errors_count), (6, 2));
    assert_eq!(report.skipped_files_count, 1);
    assert!(report.fstrim_completed);
    assert_eq!(report.duration_ms, 33);
    let done = AuthoritativeCleanPipeline::close(Ok(500));
    assert_eq!((done.job_state, done.reclaimed, done.attempt_note.as_str()), ("COMPLETED", ByteCount(500), "SUCCESS"));
    let failed = AuthoritativeCleanPipeline::close(Err("no store"));
    assert_eq!((failed.job_state, failed.attempt_note.as_str()), ("FAILED", "FAILED: no store"));
    let deep = CleanParams { deep: true, trim: true, zram_compact: false, dry_run: true };
    assert_eq!(AuthoritativeCleanPipeline::trigger(&deep), TriggerSource::ManualIpc);
    assert!(!AuthoritativeCleanPipeline::wants_trim(&deep));
    let light = CleanParams { deep: false, trim: true, zram_compact: false, dry_run: false };
    assert_eq!(AuthoritativeCleanPipeline::trigger(&light), TriggerSource::PeriodicMaintenance);
    assert!(AuthoritativeCleanPipeline::wants_trim(&light));
}

#[test]
fn run_removes_and_records() {
    let mut run = run();
    let mut locks = ResourceManager::new(4);
    let id = TargetId::new("cache".to_string());
    for (path, leaf) in [("d/x", "x"), ("a", "a"), ("d", "d")] {
        assert!(matches!(run.begin_operation(false, NOW), Step::Throttle));
        match run.throttled(&mut locks, NOW) {
            Step::Commit(intent) => {
                assert_eq!(intent.rel_path.as_str(), path);
                assert_eq!(intent.state, IntentState::Committed);
            }
            other => panic!("{:?}", other),
        }
        assert!(locks.is_target_locked(&id));
        assert!(matches!(run.intent_committed(&mut locks, None, NOW), Step::Mark));
        match run.marked(&mut locks, true, NOW) {
            Step::Mutate(order) => {
                assert_eq!(order.leaf, leaf);
                assert_eq!(order.base_path, "/data/data/com.example.app/cache");
                assert_eq!(order.is_dir, leaf == "d");
            }
            other => panic!("{:?}", other),
        }
        let report = MutationReport::Tried {
            error: None,
            outcome: VerificationOutcome::ConfirmedDeleted,
        };
        match run.mutated(&mut locks, report, NOW) {
            Step::Resolve(state) => assert_eq!(state, IntentState::VerifiedSuccess),
            other => panic!("{:?}", other),
        }
        match run.resolved(&mut locks, true, NOW) {
            Step::Record(order) => {
                assert_eq!(order.rel_path.as_str(), path);
                assert!(order.result.status.is_success());
                assert_eq!(order.kind == MutationType::DeleteFile, leaf != "d");
            }
            other => panic!("{:?}", other),
        }
        assert!(matches!(run.recorded(&mut locks), Step::Settled));
        assert!(!locks.is_target_locked(&id));
    }
    assert!(matches!(run.begin_operation(false, NOW), Step::Finished));
    let result = run.finish(12);
    assert_eq!(result.total_reclaimed, ByteCount(42));
    assert_eq!(small_plan().total_estimated_reclaim, ByteCount(42));
    assert_eq!((result.successful_operations, result.failed_operations), (3, 0));
    assert_eq!(result.duration_ms, 12);
}

#[test]
fn failed_contents_keep_their_directory() {
    let mut run = run();
    let mut locks = ResourceManager::new(4);
    run.begin_operation(false, NOW);
    run.throttled(&mut locks, NOW);
    run.intent_committed(&mut locks, None, NOW);
    run.marked(&mut locks, true, NOW);
    let report = MutationReport::Tried {
        error: Some("busy".to_string()),
        outcome: VerificationOutcome::StillPresent,
    };
    match run.mutated(&mut locks, report, NOW) {
        Step::Resolve(state) => assert_eq!(state, IntentState::VerifiedFailed),
        other => panic!("{:?}", other),
    }
    run.resolved(&mut locks, true, NOW);
    run.recorded(&mut locks);
    run.begin_operation(false, NOW);
    run.throttled(&mut locks, NOW);
    match run.intent_committed(&mut locks, Some("disk full".to_string()), NOW) {
        Step::Settled => {}
        other => panic!("{:?}", other),
    }
    assert!(matches!(run.begin_operation(false, NOW), Step::Settled));
    let results = run.results();
    assert!(matches!(results[0].status, OperationStatus::Failed { .. }));
    match &results[1].status {
        OperationStatus::Failed { error } => {
            assert_eq!(error, "Intent commit failed (mutation not attempted): disk full")
        }
        other => panic!("{:?}", other),
    }
    match &results[2].status {
        OperationStatus::Skipped { reason } => {
            assert_eq!(reason, "Precondition dependency failed or unfulfilled")
        }
        other => panic!("{:?}", other),
    }
    let result = run.finish(0);
    assert_eq!((result.failed_operations, result.skipped_operations), (2, 1));
    assert_eq!(result.total_reclaimed, ByteCount(0));
}

#[test]
fn cancelled_run_preempts_the_rest() {
    let mut run = run();
    for _ in 0..3 {
        assert!(matches!(run.begin_operation(true, NOW), Step::Settled));
    }
    assert!(matches!(run.begin_operation(true, NOW), Step::Finished));
    assert!(run.results().iter().all(|r| matches!(r.status, OperationStatus::Preempted)));
    assert_eq!(run.finish(0).skipped_operations, 3);
}

#[test]
fn unseen_outcome_stays_open() {
    let mut run = run();
    let mut locks = ResourceManager::new(4);
    run.begin_operation(false, NOW);
    run.throttled(&mut locks, NOW);
    run.intent_committed(&mut locks, None, NOW);
    run.marked(&mut locks, true, NOW);
    let report =
        MutationReport::Tried { error: None, outcome: VerificationOutcome::ParentUnavailable };
    match run.mutated(&mut locks, report, NOW) {
        Step::Resolve(state) => assert_eq!(state, IntentState::ResolvedUnknown),
        other => panic!("{:?}", other),
    }
    assert!(matches!(run.resolved(&mut locks, false, NOW), Step::Abort));
    assert_eq!(run.stage(), Stage::Aborted);
    assert!(!locks.is_target_locked(&TargetId::new("cache".to_string())));
}

#[test]
fn held_target_is_left_alone() {
    let mut run = run();
    let mut locks = ResourceManager::new(4);
    let id = TargetId::new("cache".to_string());
    let permit = locks.acquire_target_lock_for_attempt(&id, AttemptId(77)).unwrap();
    run.begin_operation(false, NOW);
    assert!(matches!(run.throttled(&mut locks, NOW), Step::Settled));
    assert!(!run.results()[0].status.is_success());
    locks.release_target_lock(permit);
    run.begin_operation(false, NOW);
    assert!(matches!(run.throttled(&mut locks, NOW), Step::Commit(_)));
}

#[test]
fn simple_targets_are_registered() {
    let mut catalog = TargetCatalog::new();
    let facts = DirFacts {
        dev: DeviceNumber(1),
        ino: InodeNumber(2),
        owner_uid: 3,
        owner_gid: 4,
    };
    catalog.register_target_simple(
        "t",
        "/data/x".to_string(),
        TargetSafetyTier::RequiresColdApp,
        TargetClass::TempDir,
        "",
        facts,
    );
    let snapshot = catalog.take_snapshot();
    let found = snapshot.get(&TargetId::new("t".to_string())).unwrap();
    assert_eq!(found.package_name, None);
    assert_eq!(found.safety_tier, TargetSafetyTier::RequiresColdApp);
    assert_eq!(found.ino, InodeNumber(2));
    assert_eq!(catalog.refresh_generation(), GenerationId(2));
    assert_eq!(catalog.take_snapshot().generation, GenerationId(2));
    assert!(snapshot.get(&TargetId::new("u".to_string())).is_none());
}
