//! Cancellation, storage, memory and the stages of a cleaning.
use cache_cleaner_daemon::config::OptimizationConfig;
use cache_cleaner_daemon::engine::cancellation::{CancelReason, CancellationToken};
use cache_cleaner_daemon::engine::memory::MemoryOptimizer;
use cache_cleaner_daemon::engine::pipeline::app_cache::UserDirs;
use cache_cleaner_daemon::engine::pipeline::memory_opt::MemoryResults;
use cache_cleaner_daemon::engine::pipeline::system_junk::JunkOrder;
use cache_cleaner_daemon::engine::pipeline::{
    AppCacheStage, CleanPipeline, CleanStage, MemoryOptStage, StageKind, StorageOptStage,
    SystemJunkStage,
};
use cache_cleaner_daemon::engine::rules::JunkCategory;
use cache_cleaner_daemon::engine::storage::{
    get_fstrim_state_path, mark_fstrim_completed, mark_fstrim_completed_at,
    record_freed_bytes_for_trim, should_run_fstrim, should_run_fstrim_at, FstrimPersistedState,
    StorageOptimizer,
};
use cache_cleaner_daemon::ipc::protocol::{CleanParams, CleanReport};
use cache_cleaner_daemon::platform::encryption::StorageState;
use cache_cleaner_daemon::platform::users::AndroidUser;

const MOUNTS: &str = "/dev/block/dm-5 /data f2fs rw,lazytime 0 0\n\
/dev/block/sda3 /metadata ext4 rw 0 0\n\
/dev/block/dm-1 /system ext4 ro,seclabel 0 0\n\
/dev/block/loop3 /apex/com.android.art ext4 rw 0 0\n\
tmpfs /mnt tmpfs rw 0 0\n\
/dev/block/dm-5 /mnt/pass_through/0 f2fs rw 0 0\n\
/dev/block/dm-7 /cache vfat rw 0 0\n\
/dev/root / ext4 relatime,rw 0 0\n\
short line here\n";

fn params(deep: bool, trim: bool, zram: bool, dry: bool) -> CleanParams {
    CleanParams { deep, trim, zram_compact: zram, dry_run: dry }
}

#[test]
fn first_reason_stays() {
    let mut token = CancellationToken::new();
    assert!(!token.is_cancelled());
    assert_eq!(token.get_cancel_reason(), None);
    token.cancel_with_reason(CancelReason::BatteryLow);
    token.cancel_with_reason(CancelReason::ScreenOn);
    token.cancel();
    assert!(token.is_cancelled());
    assert_eq!(token.get_cancel_reason(), Some(CancelReason::BatteryLow));
    token.reset();
    assert!(!token.is_cancelled());
    assert_eq!(token.get_cancel_reason(), None);
    token.cancel();
    assert_eq!(token.get_cancel_reason(), Some(CancelReason::ManualCancel));
}

#[test]
fn every_reason_comes_back() {
    let reasons = [
        (CancelReason::ScreenOn, "ScreenOn"),
        (CancelReason::UserActivity, "UserActivity"),
        (CancelReason::ThermalCritical, "ThermalCritical"),
        (CancelReason::BatteryLow, "BatteryLow"),
        (CancelReason::Unplugged, "Unplugged"),
        (CancelReason::Shutdown, "Shutdown"),
        (CancelReason::Timeout, "Timeout"),
        (CancelReason::ManualCancel, "ManualCancel"),
    ];
    for (reason, name) in reasons {
        let mut token = CancellationToken::default();
        token.cancel_with_reason(reason);
        assert_eq!(token.get_cancel_reason(), Some(reason));
        assert_eq!(reason.as_str(), name);
    }
}

#[test]
fn trim_cools_down() {
    let mut state = FstrimPersistedState::default();
    assert!(should_run_fstrim_at(&state, false, 5));
    mark_fstrim_completed_at(&mut state, 1000);
    assert_eq!(state.last_trim_unix_secs, 1000);
    assert!(!should_run_fstrim_at(&state, false, 1000 + 86_399));
    assert!(should_run_fstrim_at(&state, false, 1000 + 86_400));
    assert!(!should_run_fstrim_at(&state, false, 10));
    assert!(should_run_fstrim_at(&state, true, 1001));
    record_freed_bytes_for_trim(&mut state, 499_999_999);
    assert!(!should_run_fstrim_at(&state, false, 1001));
    record_freed_bytes_for_trim(&mut state, 1);
    assert!(should_run_fstrim_at(&state, false, 1001));
    record_freed_bytes_for_trim(&mut state, u64::MAX);
    assert_eq!(state.bytes_deleted_since_trim, 499_999_999);
    assert!(should_run_fstrim(&state, true));
    mark_fstrim_completed(&mut state);
    assert!(state.last_trim_unix_secs > 1_600_000_000);
    assert_eq!(state.bytes_deleted_since_trim, 0);
    assert!(!should_run_fstrim(&state, false));
}

#[test]
fn state_is_kept_with_the_daemon() {
    assert_eq!(get_fstrim_state_path(true), "/data/adb/cleaner/fstrim_state.json");
    assert_eq!(get_fstrim_state_path(false), "fstrim_state.json");
}

#[test]
fn discovered_mounts_are_real() {
    let found = StorageOptimizer::discover_trimmable_mounts(MOUNTS);
    assert_eq!(found, vec!["/data", "/metadata", "/"]);
    let configured = vec!["/cache".to_string()];
    assert_eq!(StorageOptimizer::trim_mounts(&configured, MOUNTS), configured);
    assert_eq!(StorageOptimizer::trim_mounts(&Vec::new(), MOUNTS), found);
    assert!(StorageOptimizer::any_trimmed(&vec![false, true]));
    assert!(!StorageOptimizer::any_trimmed(&vec![false, false]));
    assert!(!StorageOptimizer::any_trimmed(&Vec::new()));
}

#[test]
fn memory_is_reclaimed_in_shares() {
    let plan = MemoryOptimizer::reclaim_cgroup_memory(512, 44).unwrap();
    assert_eq!(plan.root_payload, "536870912\n");
    assert_eq!(plan.share_payload, "12201611\n");
    let capped = MemoryOptimizer::reclaim_cgroup_memory(1 << 40, 1).unwrap();
    assert_eq!(capped.root_payload, "2147483648\n");
    assert!(MemoryOptimizer::reclaim_cgroup_memory(512, 0).is_none());
    assert!(MemoryOptimizer::is_zram("zram0"));
    assert!(!MemoryOptimizer::is_zram("sda"));
    assert_eq!(MemoryOptimizer::zram_fallbacks()[1], "/sys/block/zram1/compact");
}

#[test]
fn stages_run_in_order_until_cancelled() {
    let pipeline = CleanPipeline::build_standard();
    let mut names: Vec<&'static str> = Vec::new();
    while let Some(stage) = pipeline.execute(names.len(), false) {
        names.push(stage.name());
    }
    assert_eq!(
        names,
        vec![
            "AppCacheMultiUser",
            "SystemJunkAndLogs",
            "MemoryOptimization",
            "StorageOptimization"
        ]
    );
    assert_eq!(pipeline.execute(0, true), None);
    assert_eq!(pipeline.execute(2, false), Some(StageKind::MemoryOpt));
}

#[test]
fn locked_users_keep_their_data() {
    let user = AndroidUser {
        user_id: 10,
        ce_path: "/data/user/10".to_string(),
        de_path: "/data/user_de/10".to_string(),
        media_path: "/data/media/10".to_string(),
    };
    let there = UserDirs { de: true, ce: true, external: true };
    let locked = StorageState { ce_available: false, de_available: true, user_unlocked: false };
    assert_eq!(AppCacheStage::targets(&user, &locked, there), vec!["/data/user_de/10"]);
    let open = StorageState { ce_available: true, de_available: true, user_unlocked: true };
    assert_eq!(
        AppCacheStage::targets(&user, &open, there),
        vec!["/data/user_de/10", "/data/user/10", "/data/media/10/Android/data"]
    );
    let nothing = UserDirs { de: false, ce: false, external: false };
    assert!(AppCacheStage::targets(&user, &open, nothing).is_empty());
}

#[test]
fn system_junk_is_sorted_by_kind() {
    assert_eq!(SystemJunkStage::order("/data/tombstones", 3), JunkOrder::KeepNewest(3));
    assert_eq!(SystemJunkStage::order("/data/anr", 3), JunkOrder::KeepNewest(3));
    assert_eq!(SystemJunkStage::order("/data/system/dropbox", 3), JunkOrder::KeepNewest(3));
    assert_eq!(SystemJunkStage::order("/data/log", 3), JunkOrder::ByRules);
    assert_eq!(SystemJunkStage::category("/data/log"), Some(JunkCategory::OemLog));
    assert_eq!(SystemJunkStage::category("/data/tombstones"), Some(JunkCategory::CrashDump));
    assert_eq!(SystemJunkStage::category("/data/local/tmp"), Some(JunkCategory::TempApk));
    assert_eq!(SystemJunkStage::category("/data/user"), None);
}

#[test]
fn idle_job_leaves_memory_alone() {
    let config = OptimizationConfig {
        zram_compaction: true,
        compact_memory: true,
        cgroup_memory_reclaim: true,
        cgroup_reclaim_amount_mb: 256,
        ..OptimizationConfig::default()
    };
    let all = MemoryOptStage::actions(false, &params(false, false, false, false), &config);
    assert!(all.compact_memory && all.compact_zram);
    assert_eq!(all.reclaim_mb, Some(256));
    let none = MemoryOptStage::actions(true, &params(true, true, true, false), &config);
    assert!(!none.compact_memory && !none.compact_zram && none.reclaim_mb.is_none());
    let dry = MemoryOptStage::actions(false, &params(true, true, true, true), &config);
    assert_eq!(dry, none);
    let results =
        MemoryResults { memory_compacted: true, zram_compacted: false, memory_reclaimed: true };
    let mut report = CleanReport::default();
    MemoryOptStage::record(&mut report, &all, &results);
    assert!(report.memory.memory_compacted && report.memory_compacted);
    assert!(!report.memory.zram_compacted);
    assert!(report.cgroup_memory_reclaimed);
    assert_eq!(report.memory.reclaimed_mb, 256);
    let mut untouched = CleanReport::default();
    MemoryOptStage::record(&mut untouched, &none, &results);
    assert!(!untouched.memory.memory_compacted && untouched.memory.reclaimed_mb == 0);
}

#[test]
fn idle_job_leaves_storage_alone() {
    let config = OptimizationConfig {
        f2fs_gc_urgent: true,
        fstrim_partitions: true,
        ..OptimizationConfig::default()
    };
    let mut report = CleanReport::default();
    report.storage.total_freed_bytes = 100;
    let mut state = FstrimPersistedState { last_trim_unix_secs: 50, bytes_deleted_since_trim: 1 };
    let idle = StorageOptStage::actions(
        false,
        &params(false, true, false, true),
        &config,
        true,
        &mut report,
        &mut state,
        60,
    );
    assert!(idle.gc_urgent.is_none() && !idle.trim);
    assert_eq!(state.bytes_deleted_since_trim, 1);
    let manual = StorageOptStage::actions(
        false,
        &params(false, true, false, false),
        &config,
        true,
        &mut report,
        &mut state,
        60,
    );
    assert_eq!(manual.gc_urgent, Some(2));
    assert!(manual.trim);
    assert_eq!(state.bytes_deleted_since_trim, 101);
    assert!(report.optimization.f2fs_gc_activated);
    let cool = StorageOptStage::actions(
        false,
        &params(false, false, false, false),
        &config,
        false,
        &mut report,
        &mut state,
        60,
    );
    assert!(!cool.trim && cool.gc_urgent.is_none());
    StorageOptStage::trimmed(&mut report, &mut state, &config, false, 70);
    assert!(!report.fstrim_completed);
    assert_eq!(state.last_trim_unix_secs, 50);
    StorageOptStage::trimmed(&mut report, &mut state, &config, true, 70);
    assert!(report.trim.fstrim_completed && report.fstrim_completed);
    assert_eq!(report.trim.trimmed_mounts, config.trim_mount_points);
    assert_eq!((state.last_trim_unix_secs, state.bytes_deleted_since_trim), (70, 0));
}
