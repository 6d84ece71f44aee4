//! Jobs, their records, errors and the configuration.
use cache_cleaner_daemon::audit::{must_rotate, JobAuditRecord, MAX_AUDIT_LOG_SIZE_BYTES};
use cache_cleaner_daemon::config::{
    config_candidates, Celsius, CleaningRulesConfig, DaemonConfig, SafetyConfig, SafetyMode,
    TempLimit,
};
use cache_cleaner_daemon::config_pipeline::{
    platform_protected_paths, EffectiveConfig, RawConfig, ValidatedConfig,
};
use cache_cleaner_daemon::domain::decision::DecisionReason;
use cache_cleaner_daemon::domain::intent::{IntentState, MutationType};
use cache_cleaner_daemon::domain::job::{JobAttempt, JobState};
use cache_cleaner_daemon::domain::result::JobResult;
use cache_cleaner_daemon::domain::target::TargetClass;
use cache_cleaner_daemon::domain::types::{
    AttemptId, ByteCount, FileIdentity, GenerationId, JobId, OperationId, TargetId, UnixTimestamp,
};
use cache_cleaner_daemon::engine::rules::{
    Decision, JunkCategory, JunkType, RuleEngine, SkipReason,
};
use cache_cleaner_daemon::error::CleanerError;
use cache_cleaner_daemon::recovery::AttemptOutcome;
use cache_cleaner_daemon::safety::SafetyGate;
use cache_cleaner_daemon::domain::target::{TargetDescriptor, TargetSafetyTier};
use cache_cleaner_daemon::domain::types::{DeviceNumber, InodeNumber};

fn c(degrees: f32) -> Celsius {
    Celsius { bits: degrees.to_bits() }
}

fn limit(degrees: f32) -> TempLimit {
    TempLimit { degrees: c(degrees), shown: degrees.to_string() }
}

#[test]
fn temperatures_order_like_floating_point() {
    let samples = [
        -1.0f32, -0.0, 0.0, 1.0, 19.999, 20.0, 39.5, 90.0, 90.0001, f32::MAX, f32::INFINITY,
        f32::NEG_INFINITY, f32::NAN, f32::MIN_POSITIVE, -40.25, 65.0,
    ];
    for a in samples {
        for b in samples {
            assert_eq!(c(a).below(c(b)), a < b, "{} {}", a, b);
        }
        assert_eq!(
            c(a).within(20.0f32.to_bits(), 90.0f32.to_bits()),
            (20.0..=90.0).contains(&a),
            "{}",
            a
        );
    }
}

#[test]
fn default_configuration_is_valid() {
    let config = DaemonConfig::default();
    assert!(config.validate().is_ok());
    assert_eq!(config.max_soc_temp_c.degrees, c(44.0));
    assert_eq!(config.max_soc_temp_c.shown, 44.0f32.to_string());
    assert_eq!(config.max_battery_temp_c.degrees, c(39.5));
    assert_eq!(config.max_battery_temp_c.shown, 39.5f32.to_string());
}

#[test]
fn faulty_configurations_are_refused() {
    let message = |config: &DaemonConfig| match config.validate() {
        Err(e) => e.message(),
        Ok(()) => panic!(),
    };
    let mut config = DaemonConfig::default();
    config.safety.protected_directory_names = Vec::new();
    assert!(message(&config).ends_with("safety.protected_directory_names cannot be empty"));
    config.max_battery_temp_c = limit(65.5);
    assert!(message(&config)
        .ends_with("max_battery_temp_c must be between 20.0\u{b0}C and 65.0\u{b0}C"));
    config.max_soc_temp_c = limit(95.5);
    assert!(message(&config).ends_with("max_soc_temp_c must be between 20.0\u{b0}C and 95.0\u{b0}C"));
    config.maintenance_interval_secs = 29;
    assert!(message(&config).ends_with("maintenance_interval_secs must be at least 30 seconds"));
}

#[test]
fn configuration_is_looked_for_in_order() {
    assert_eq!(
        config_candidates(Some("/x.toml")),
        vec!["/x.toml", "/data/adb/cleaner/config.toml", "config.toml"]
    );
    assert_eq!(config_candidates(None), vec!["/data/adb/cleaner/config.toml", "config.toml"]);
}

#[test]
fn raw_configuration_is_checked() {
    let refuse = |raw: RawConfig| match ValidatedConfig::from_raw(raw) {
        Err(e) => e,
        Ok(_) => panic!(),
    };
    let base = RawConfig::default;
    let text = |raw: RawConfig| match refuse(raw) {
        CleanerError::ConfigError(m) => m,
        other => panic!("{:?}", other),
    };
    assert_eq!(
        text(RawConfig { maintenance_interval_secs: Some(59), ..base() }),
        "maintenance_interval_secs must be 60..604800"
    );
    assert_eq!(
        text(RawConfig { min_screen_off_secs: Some(3601), ..base() }),
        "min_screen_off_secs must be 0..3600"
    );
    assert_eq!(
        text(RawConfig { max_soc_temp_c: Some(limit(f32::NAN)), ..base() }),
        "max_soc_temp_c NaN out of safe range [20.0, 90.0]"
    );
    assert_eq!(
        refuse(RawConfig { max_battery_temp_c: Some(limit(65.1)), ..base() }).message(),
        "Configuration error: max_battery_temp_c 65.1 out of safe range [20.0, 65.0]"
    );
    assert_eq!(
        text(RawConfig { whitelist_packages: Some(vec!["x".to_string(); 513]), ..base() }),
        "whitelist_packages exceeds 512 entries"
    );
    assert_eq!(
        text(RawConfig { whitelist_packages: Some(vec!["a/b".to_string()]), ..base() }),
        "invalid whitelist package 'a/b'"
    );
    assert_eq!(
        text(RawConfig { whitelist_packages: Some(vec!["com.a\n".to_string()]), ..base() }),
        "invalid whitelist package 'com.a\n'"
    );
    assert_eq!(
        text(RawConfig { protected_paths: Some(vec!["".to_string()]), ..base() }),
        "invalid protected path ''"
    );
    assert_eq!(
        text(RawConfig { fstrim_interval_hours: Some(0), ..base() }),
        "fstrim_interval_hours must be 1..720"
    );
    assert_eq!(
        text(RawConfig { vacuum_db_interval_hours: Some(721), ..base() }),
        "vacuum_db_interval_hours must be 1..720"
    );
}

#[test]
fn platform_paths_stay_protected() {
    let raw = RawConfig {
        whitelist_packages: Some(vec!["b".to_string(), "a".to_string(), "b".to_string()]),
        protected_paths: Some(vec!["/data/keep".to_string()]),
        min_file_age_hours: Some(2),
        ..RawConfig::default()
    };
    let valid = ValidatedConfig::from_raw(raw).unwrap();
    assert_eq!(valid.whitelist_packages, vec!["a", "b"]);
    assert_eq!(valid.min_app_cache_age_secs, 7200);
    assert_eq!(valid.app_cache_threshold_bytes, ByteCount(50 * 1024 * 1024));
    let config = EffectiveConfig::new(GenerationId(1), valid);
    for path in platform_protected_paths() {
        assert!(config.is_path_protected(&format!("{}/x", path)));
    }
    assert!(config.is_path_protected("/data/keep/file"));
    assert!(!config.is_path_protected("/data/keeper"));
    assert!(config.is_package_whitelisted("A"));
    assert!(!config.is_package_whitelisted("c"));
}

#[test]
fn jobs_end_once() {
    let mut attempt = JobAttempt::new(AttemptId(4), JobId(2), 1);
    assert_eq!(attempt.state_version, 1);
    assert!(attempt.transition_at(JobState::Queued, 1, UnixTimestamp(5)).is_ok());
    assert_eq!(
        attempt.transition_at(JobState::Admitted, 1, UnixTimestamp(6)),
        Err("CAS failed for attempt attempt-4: expected version 1, actual 2".to_string())
    );
    assert_eq!(
        attempt.transition_at(JobState::Completed, 2, UnixTimestamp(6)),
        Err("Illegal state transition from 'Queued' to 'Completed' for attempt attempt-4"
            .to_string())
    );
    let reason = "low".to_string();
    assert!(attempt.transition_with_cas(JobState::Cancelled { reason }, 2).is_ok());
    assert!(attempt.finished_at.is_some());
    assert!(attempt.state.is_terminal());
    assert_eq!(attempt.state.to_text(), "Cancelled(low)");
    assert!(attempt.transition_to(JobState::Queued).is_err());
}

#[test]
fn job_reaches_completion() {
    let mut attempt =
        JobAttempt::new_with_generations(AttemptId(1), JobId(1), 1, GenerationId(3), GenerationId(4));
    assert_eq!(attempt.catalog_generation, GenerationId(3));
    for next in [
        JobState::Admitted,
        JobState::Scanning,
        JobState::Planning,
        JobState::Authorized,
        JobState::Executing,
        JobState::Verifying,
    ] {
        assert!(attempt.transition_to(next).is_ok());
        assert!(attempt.finished_at.is_none());
    }
    assert!(attempt.transition_to(JobState::Completed).is_ok());
    assert!(attempt.finished_at.is_some());
}

#[test]
fn audit_records_repeat_the_result() {
    let result = JobResult {
        job_id: JobId(3),
        attempt_id: AttemptId(4),
        total_reclaimed: ByteCount(500),
        total_operations: 9,
        successful_operations: 6,
        failed_operations: 0,
        skipped_operations: 3,
        duration_ms: 33,
    };
    let record = JobAuditRecord::at(&result, UnixTimestamp(8));
    assert_eq!((record.attempt_id, record.total_reclaimed_bytes), (4, 500));
    assert_eq!((record.operations_successful, record.operations_skipped), (6, 3));
    assert!(record.success);
    assert_eq!(record.recorded_at, UnixTimestamp(8));
    let failed = JobResult { failed_operations: 1, ..result };
    assert!(!JobAuditRecord::from(&failed).success);
    assert!(JobAuditRecord::from(&failed).recorded_at.as_secs() > 8);
    assert!(must_rotate(MAX_AUDIT_LOG_SIZE_BYTES));
    assert!(!must_rotate(MAX_AUDIT_LOG_SIZE_BYTES - 1));
    assert_eq!(MAX_AUDIT_LOG_SIZE_BYTES, 10 * 1024 * 1024);
}

#[test]
fn errors_have_messages() {
    let io = std::io::Error::new(std::io::ErrorKind::Other, "disk");
    assert_eq!(CleanerError::from(io).message(), "I/O error: disk");
    let json = serde_json::from_str::<u8>("x").unwrap_err();
    let told = format!("JSON parse error: {}", json);
    assert_eq!(CleanerError::from(json).message(), told);
    let toml = toml::from_str::<toml::Value>("=").unwrap_err();
    let told = format!("TOML decode error: {}", toml);
    assert_eq!(CleanerError::from(toml).message(), told);
    let named = |e: CleanerError| e.message();
    assert_eq!(named(CleanerError::Ipc("x".to_string())), "IPC error: x");
    assert_eq!(named(CleanerError::Config("x".to_string())), "Configuration error: x");
    assert_eq!(named(CleanerError::Storage("x".to_string())), "Storage error: x");
    assert_eq!(named(CleanerError::Internal("x".to_string())), "Internal error: x");
    assert_eq!(named(CleanerError::Platform("x".to_string())), "Platform error: x");
    assert_eq!(named(CleanerError::Other("x".to_string())), "Error: x");
    assert_eq!(
        named(CleanerError::PlanValidationFailed("x".to_string())),
        "Plan validation failed: x"
    );
    assert_eq!(
        named(CleanerError::PlanBudgetExceeded { count: 5, limit: 4 }),
        "Plan budget exceeded: candidate count 5 exceeds limit 4"
    );
    assert_eq!(
        named(CleanerError::DaemonAlreadyRunning(7)),
        "Daemon is already running with PID 7"
    );
    assert_eq!(named(CleanerError::DaemonNotRunning), "Daemon is not running");
    assert_eq!(named(CleanerError::Cancelled), "Operation was cancelled / preempted");
}

#[test]
fn names_are_stored() {
    assert_eq!(MutationType::PruneDirRecursive.as_str(), "PRUNE_DIR_RECURSIVE");
    assert_eq!(IntentState::VerifiedFailed.as_str(), "VERIFIED_FAILED");
    assert_eq!(TargetClass::ShaderCache.as_str(), "ShaderCache");
    assert_eq!(
        DecisionReason::RuleMatch("r".to_string()).to_text(),
        "Rule match: r"
    );
    assert_eq!(AttemptOutcome::Unresolved.attempt_state(), "UNRESOLVED");
    assert_eq!(AttemptOutcome::Unresolved.job_state(), "PARTIALLY_RECONCILED");
}

#[test]
fn system_and_whitelist_are_never_deleted() {
    let rules = CleaningRulesConfig {
        clean_code_cache: true,
        clean_thumbnails: true,
        ..CleaningRulesConfig::default()
    };
    let safety = SafetyConfig { mode: SafetyMode::Aggressive, ..SafetyConfig::default() };
    let engine = RuleEngine::new(rules, safety);
    match engine.evaluate_path("/system/app/cache/x", true) {
        Decision::Skip { reason: SkipReason::ProtectedDirectory(name) } => {
            assert_eq!(name, "system_immutable_partition")
        }
        other => panic!("{:?}", other),
    }
    match engine.evaluate_path("/data/data/com.android.systemui/cache/x", true) {
        Decision::Skip { reason: SkipReason::WhitelistedPackage(name) } => {
            assert_eq!(name, "com.android.systemui")
        }
        other => panic!("{:?}", other),
    }
    let code = engine.evaluate_path("/data/data/com.example.app/code_cache/x", true);
    assert_eq!(code.category(), Some(JunkCategory::CodeCache));
    assert!(code.is_delete());
    assert_eq!(
        engine.classify_path("/data/media/0/DCIM/.thumbnails/1.jpg", true),
        JunkType::Thumbnail
    );
}

#[test]
fn safe_mode_deletes_app_caches_only() {
    let safe = RuleEngine::new(
        CleaningRulesConfig::default(),
        SafetyConfig { mode: SafetyMode::Safe, ..SafetyConfig::default() },
    );
    let web = "/data/data/com.example.app/app_webview/Default/Cache/x";
    let image = "/data/data/com.example.app/cache/image_cache/x";
    for (path, setting) in [
        (web, "webview_cache_disabled_in_safe_mode"),
        (image, "image_caches_disabled_in_safe_mode"),
    ] {
        match safe.evaluate_path(path, true) {
            Decision::Skip { reason: SkipReason::DisabledByConfig(name) } => {
                assert_eq!(name, setting)
            }
            other => panic!("{} {:?}", path, other),
        }
    }
    let app = safe.evaluate_path("/data/data/com.example.app/cache/a", true);
    assert_eq!(app.category(), Some(JunkCategory::AppCache));
    let balanced = RuleEngine::new(
        CleaningRulesConfig::default(),
        SafetyConfig { mode: SafetyMode::Balanced, ..SafetyConfig::default() },
    );
    assert_eq!(balanced.evaluate_path(web, true).category(), Some(JunkCategory::WebViewCache));
    assert_eq!(balanced.evaluate_path(image, true).category(), Some(JunkCategory::ImageCache));
}

#[test]
fn last_check_guards_every_change() {
    let gate = SafetyGate::new();
    let target = TargetDescriptor {
        target_id: TargetId::new("t".to_string()),
        target_class: TargetClass::AppCache,
        base_path: "/data/data/app/cache".to_string(),
        dev: DeviceNumber(1),
        ino: InodeNumber(2),
        owner_uid: 1,
        owner_gid: 1,
        package_name: None,
        safety_tier: TargetSafetyTier::StandardCache,
        catalog_generation: GenerationId(1),
    };
    let check = |path: &str, dev: u64, generation: u64| {
        gate.validate_mutation_boundary_at(
            &target,
            path,
            &FileIdentity::new(dev, 5),
            OperationId(1),
            GenerationId(generation),
            GenerationId(1),
            UnixTimestamp(100),
        )
    };
    let proof = check("a/b", 1, 1).unwrap();
    assert!(proof.is_valid_for(OperationId(1), UnixTimestamp(100), GenerationId(1), GenerationId(1)));
    assert!(!proof.is_valid_for(OperationId(2), UnixTimestamp(100), GenerationId(1), GenerationId(1)));
    assert!(proof.is_expired(UnixTimestamp(u64::MAX)));
    assert!(check("", 1, 1).is_err());
    assert!(check("a", 2, 1).is_err());
    assert!(check("a", 1, 2).is_err());
}
