//! Commands, reports, frames and who may give which command.
use cache_cleaner_daemon::engine::rules::JunkCategory;
use cache_cleaner_daemon::engine::walker::WalkStats;
use cache_cleaner_daemon::error::CleanerError;
use cache_cleaner_daemon::ipc::client::IpcClient;
use cache_cleaner_daemon::ipc::protocol::{
    frame_message, payload_length, CleanParams, CleanReport, Command, StorageReport,
    MAX_IPC_FRAME_SIZE,
};
use cache_cleaner_daemon::ipc::server::{
    abstract_address, command_refusal, is_command_authorized, is_uid_allowed, receive, refusal,
    Admission,
};

fn clean(deep: bool, trim: bool) -> Command {
    Command::TriggerClean(CleanParams { deep, trim, zram_compact: false, dry_run: false })
}

fn stats(bytes: u64) -> WalkStats {
    WalkStats {
        files_deleted: 2,
        bytes_freed: bytes,
        frozen_apps_affected: 1,
        active_apps_affected: 3,
        skipped_files: 4,
        errors_count: 5,
    }
}

#[test]
fn reports_add_up() {
    let mut report = CleanReport::default();
    assert_eq!(report.storage, StorageReport::default());
    report.record_app_cache_stats(&stats(100));
    report.record_system_junk_stats(&stats(10), JunkCategory::OemLog);
    report.record_system_junk_stats(&stats(20), JunkCategory::CrashDump);
    report.record_system_junk_stats(&stats(30), JunkCategory::TempApk);
    let s = report.storage;
    assert_eq!(s.total_freed_bytes, 160);
    assert_eq!((s.app_cache_bytes, s.oem_logs_bytes), (100, 10));
    assert_eq!((s.crash_dumps_bytes, s.temp_apks_bytes), (20, 30));
    assert_eq!((s.deleted_files_count, s.skipped_files_count, s.errors_count), (8, 16, 20));
    assert_eq!((s.frozen_apps_cleaned, s.active_apps_cleaned), (1, 3));
    assert_eq!(report.total_freed_bytes, 160);
    assert_eq!(report.crash_dumps_freed_bytes, 20);
    report.record_system_junk_stats(&stats(1), JunkCategory::Thumbnail);
    assert_eq!(report.storage.total_freed_bytes, 161);
    assert_eq!(report.total_freed_bytes, 161);
    report.memory.zram_compacted = true;
    report.trim.fstrim_completed = true;
    report.finalize_totals(77);
    assert!(report.zram_compacted && report.fstrim_completed);
    assert_eq!(report.duration_ms, 77);
    assert!(report.storage.has_room_for_app_cache(&stats(1)));
    assert!(!report.storage.has_room_for_app_cache(&stats(u64::MAX)));
}

#[test]
fn sums_that_do_not_fit_are_seen() {
    let mut storage = StorageReport::default();
    storage.oem_logs_bytes = u64::MAX;
    assert!(!storage.has_room_for_system_junk(&stats(1), JunkCategory::OemLog));
    assert!(storage.has_room_for_system_junk(&stats(1), JunkCategory::CrashDump));
    assert!(storage.has_room_for_system_junk(&stats(1), JunkCategory::Thumbnail));
    assert!(storage.has_room_for_app_cache(&stats(1)));
    storage.frozen_apps_cleaned = usize::MAX;
    assert!(!storage.has_room_for_app_cache(&stats(1)));
    assert!(storage.has_room_for_system_junk(&stats(1), JunkCategory::TempApk));
    storage.total_freed_bytes = u64::MAX;
    assert!(!storage.has_room_for_system_junk(&stats(1), JunkCategory::TempApk));
    assert!(storage.has_room_for_system_junk(&stats(0), JunkCategory::TempApk));
}

#[test]
fn frame_reads_back() {
    let payload: Vec<u8> = (0..300).map(|i| (i % 251) as u8).collect();
    let frame = frame_message(&payload).unwrap();
    assert_eq!(&frame[..4], &[0, 0, 1, 44]);
    assert_eq!(&frame[4..], &payload[..]);
    assert_eq!(payload_length([frame[0], frame[1], frame[2], frame[3]]).unwrap(), 300);
    let empty = frame_message(&Vec::new()).unwrap();
    assert_eq!(empty, vec![0, 0, 0, 0]);
}

#[test]
fn frames_are_bounded() {
    assert_eq!(MAX_IPC_FRAME_SIZE, 64 * 1024);
    assert!(frame_message(&vec![0; 65_536]).is_ok());
    match frame_message(&vec![0; 65_537]) {
        Err(CleanerError::Ipc(m)) => {
            assert_eq!(m, "Outgoing message size 65537 exceeded 64KB safety limit")
        }
        other => panic!("{:?}", other),
    }
    assert_eq!(payload_length([0, 1, 0, 0]).unwrap(), 65_536);
    match payload_length([255, 255, 255, 255]) {
        Err(CleanerError::Ipc(m)) => {
            assert_eq!(m, "Payload size 4294967295 exceeded 64KB safety limit")
        }
        other => panic!("{:?}", other),
    }
}

#[test]
fn root_may_do_everything() {
    for cmd in [
        Command::Ping,
        Command::GetStatus,
        Command::GetStats,
        Command::GetIdleAssessment,
        Command::Cancel,
        Command::ReloadConfig,
        Command::StopDaemon,
        clean(true, true),
    ] {
        assert!(is_command_authorized(0, &cmd));
        assert!(!is_command_authorized(10_050, &cmd));
        assert_eq!(command_refusal(0, &cmd), None);
    }
}

#[test]
fn strong_commands_are_for_root() {
    for uid in [1000, 2000] {
        assert!(is_command_authorized(uid, &Command::Cancel));
        assert!(is_command_authorized(uid, &Command::GetStatus));
        assert!(!is_command_authorized(uid, &Command::StopDaemon));
        assert!(!is_command_authorized(uid, &Command::ReloadConfig));
        assert!(!is_command_authorized(uid, &clean(true, false)));
        assert!(!is_command_authorized(uid, &clean(false, true)));
    }
    assert!(is_command_authorized(1000, &clean(false, false)));
    assert!(!is_command_authorized(2000, &clean(false, false)));
    assert_eq!(
        command_refusal(2000, &Command::StopDaemon),
        Some("Permission denied: Insufficient privileges for this command")
    );
}

#[test]
fn strangers_and_crowds_are_refused() {
    assert!(is_uid_allowed(10_001, 10_001));
    assert!(!is_uid_allowed(10_002, 10_001));
    assert_eq!(receive(Some(2000), 0, 3), Admission::Serve(2000));
    assert_eq!(receive(Some(2000), 0, 4), Admission::Busy);
    assert_eq!(receive(Some(10_050), 0, 0), Admission::Stranger);
    assert_eq!(receive(None, 0, 0), Admission::Stranger);
    assert_eq!(refusal(Admission::Serve(0)), None);
    assert_eq!(refusal(Admission::Stranger), Some("Unauthorized caller UID"));
    assert_eq!(refusal(Admission::Busy), Some("Daemon IPC busy, please retry shortly"));
}

#[test]
fn abstract_names_fit_their_address() {
    assert_eq!(abstract_address("ab", 108), vec![0, b'a', b'b']);
    assert_eq!(abstract_address("abcdef", 5), vec![0, b'a', b'b', b'c']);
    assert_eq!(abstract_address("abcdef", 2), vec![0]);
}

#[test]
fn clients_wait_longer_for_a_cleaning() {
    assert_eq!(IpcClient::timeout_secs(&clean(false, false)), 60);
    assert_eq!(IpcClient::timeout_secs(&Command::Ping), 10);
    match IpcClient::unreachable() {
        CleanerError::Ipc(m) => assert_eq!(
            m,
            "Could not connect to cleaner daemon at /data/adb/cleaner/run/daemon. \
             Is the daemon running?"
        ),
        other => panic!("{:?}", other),
    }
}
