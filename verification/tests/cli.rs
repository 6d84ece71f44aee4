//! What the command line says and decides.
use cache_cleaner_daemon::cli::clean::{
    clean_params, on_lock_failure, on_poll, on_reply, on_standalone, on_start, CleanNext,
    DaemonReply, PollReply,
};
use cache_cleaner_daemon::cli::daemon_ctrl::{
    already_running, cancel_operation, must_stop, reload_config, reload_signalled, start_daemon, start_wait, started,
    stop_daemon, stop_wait, stopped, CancelReply, ReloadReply, StartStep, StopStage, StopStep, WaitStep,
};
use cache_cleaner_daemon::cli::diagnostics::{
    explain_path, init_config, show_idle_assessment, show_platform_info, show_stats, show_status,
    CgroupInfo, FreezerInfo, HardwareInfo, IdleInfo, IdleReply, ItemFacts, KernelInfo, PathFacts, Pressure, PsiInfo, StatusInfo, StatusReply,
    UsageInfo, UserLine,
};
use cache_cleaner_daemon::cli::output::print_clean_report;
use cache_cleaner_daemon::config::DaemonConfig;
use cache_cleaner_daemon::hardware::uevent::{ChargerState, ScreenState};
use cache_cleaner_daemon::ipc::protocol::CleanReport;
use cache_cleaner_daemon::platform::android_prop::AndroidSystemInfo;
use cache_cleaner_daemon::platform::encryption::EncryptionState;
use cache_cleaner_daemon::platform::selinux::SelinuxMode;

#[test]
fn deep_cleaning_trims_and_compacts() {
    let deep = clean_params(true, false, false, true);
    assert!(deep.deep && deep.trim && deep.zram_compact && deep.dry_run);
    let light = clean_params(false, true, false, false);
    assert!(!light.deep && light.trim && !light.zram_compact && !light.dry_run);
}

#[test]
fn programs_read_objects() {
    let refused = on_reply(DaemonReply::Refused("no".to_string()), 7, true);
    assert_eq!(refused.lines.len(), 1);
    assert!(!refused.lines[0].to_stderr);
    assert_eq!(refused.lines[0].text, "{\"error\": \"no\"}");
    let people = on_reply(DaemonReply::Refused("no".to_string()), 7, false);
    assert!(people.lines[0].to_stderr);
    assert_eq!(people.lines[0].text, "[!] Daemon returned error: no");
    let message = on_reply(DaemonReply::Message("hi".to_string()), 7, true);
    assert_eq!(message.lines[0].text, "{\"message\": \"hi\"}");
    let odd = on_reply(DaemonReply::Unexpected, 7, true);
    assert_eq!(odd.lines[0].text, "{\"error\": \"Unexpected response from daemon\"}");
    let gone = on_reply(DaemonReply::Unreachable("gone".to_string()), 7, false);
    assert_eq!(
        gone.lines[0].text,
        "[!] Failed to communicate with daemon (PID: 7): gone"
    );
    assert!(on_start(Some(7), true).is_empty());
    assert_eq!(
        on_start(Some(7), false)[0].text,
        "[*] Active daemon detected (PID: 7). Delegating clean job via IPC..."
    );
    assert_eq!(
        on_start(None, false)[0].text,
        "[*] Daemon is offline. Running standalone clean mode..."
    );
}

#[test]
fn polling_goes_on_until_done() {
    let accepted = DaemonReply::JobAccepted { job_id: 9, message: "queued".to_string() };
    let answer = on_reply(accepted, 7, false);
    assert_eq!(answer.next, CleanNext::Poll(9));
    assert_eq!(answer.lines[1].text, "[*] Tracking progress for job #9...");
    let busy = PollReply::Status {
        is_completed: false,
        has_report: false,
        state: "EXECUTING".to_string(),
    };
    assert_eq!(on_poll(busy, 9, false).next, CleanNext::Poll(9));
    assert_eq!(on_poll(PollReply::Unexpected, 9, true).next, CleanNext::Poll(9));
    let done =
        PollReply::Status { is_completed: true, has_report: true, state: "DONE".to_string() };
    let shown = on_poll(done, 9, false);
    assert_eq!(shown.next, CleanNext::ShowReport);
    assert_eq!(shown.lines[0].text, "[+] Clean job #9 completed via Daemon IPC:");
    let bare =
        PollReply::Status { is_completed: true, has_report: false, state: "FAILED".to_string() };
    let told = on_poll(bare, 9, true);
    assert_eq!(told.next, CleanNext::Finished);
    assert_eq!(told.lines[0].text, "{\"job_id\": 9, \"status\": \"FAILED\"}");
    let lost = on_poll(PollReply::Unreachable("x".to_string()), 9, false);
    assert_eq!(lost.lines[0].text, "[!] Connection lost while polling job #9: x");
    let refused = on_poll(PollReply::Refused("x".to_string()), 9, false);
    assert_eq!(refused.lines[0].text, "[!] Error polling job #9: x");
}

#[test]
fn standalone_cleaning_is_told() {
    assert_eq!(
        on_lock_failure("held", false)[0].text,
        "[!] Cannot run standalone clean: held"
    );
    assert_eq!(on_lock_failure("held", true)[0].text, "{\"error\": \"held\"}");
    let done = on_standalone(Ok(()), false);
    assert_eq!(done.next, CleanNext::ShowReport);
    assert_eq!(done.lines[0].text, "[+] Standalone Clean Completed:");
    let failed = on_standalone(Err("boom"), true);
    assert_eq!(failed.next, CleanNext::Finished);
    assert_eq!(failed.lines[0].text, "[-] Clean execution failed: boom");
}

#[test]
fn force_is_the_last_resort() {
    assert_eq!(stop_daemon(StopStage::Asked, false), StopStep::Conclude);
    assert_eq!(stop_daemon(StopStage::Asked, true), StopStep::Terminate);
    assert_eq!(stop_daemon(StopStage::Terminated, true), StopStep::Kill);
    assert_eq!(stop_daemon(StopStage::Killed, true), StopStep::Conclude);
    assert!(must_stop(false, true) && !must_stop(false, false));
    assert_eq!(stopped(Some(5), true).text, "[!] Warning: Could not terminate PID 5.");
    assert_eq!(stopped(Some(5), false).text, "[+] Cleaner daemon (PID: 5) stopped completely.");
    assert_eq!(stopped(None, false).text, "[+] Stop signal sent to cleaner daemon.");
}

#[test]
fn starting_is_told() {
    assert_eq!(start_daemon(Some(3), true), StartStep::AlreadyRunning(3));
    assert_eq!(start_daemon(None, true), StartStep::Foreground);
    assert_eq!(start_daemon(None, false), StartStep::Spawn);
    assert_eq!(already_running(3).text, "[!] Cleaner daemon is already running (PID: 3).");
    assert_eq!(
        started(3, true, true).text,
        "[+] Cleaner daemon started successfully (PID: 3)."
    );
    assert_eq!(started(3, false, true).text, "[+] Cleaner daemon is running (PID: 3).");
    assert!(started(3, false, false).to_stderr);
}

#[test]
fn reloading_falls_back_on_a_signal() {
    assert!(reload_config(&ReloadReply::Other).is_none());
    let told = reload_config(&ReloadReply::Message("ok".to_string())).unwrap();
    assert_eq!((told.to_stderr, told.text.as_str()), (false, "[+] ok"));
    let refused = reload_config(&ReloadReply::Refused("bad".to_string())).unwrap();
    assert_eq!((refused.to_stderr, refused.text.as_str()), (true, "[!] Config reload rejected: bad"));
    assert_eq!(
        reload_signalled(Some(4)).text,
        "[+] Sent SIGHUP reload signal to daemon (PID: 4)"
    );
    assert!(reload_signalled(None).to_stderr);
}

#[test]
fn reports_are_printed() {
    let mut report = CleanReport::default();
    report.storage.total_freed_bytes = 1536;
    report.storage.deleted_files_count = 3;
    report.storage.app_cache_bytes = 1536;
    report.duration_ms = 12;
    assert_eq!(
        print_clean_report(&report),
        vec![
            "  [Storage Deletion]",
            "    Total Freed    : 1.50 KiB",
            "    Files Deleted  : 3",
            "    App Cache      : 1.50 KiB",
            "  [Memory Optimization]",
            "    ZRAM Compacted : false",
            "    RAM Compacted  : false",
            "    Cgroup Reclaim : false (0 MB)",
            "  [Storage Maintenance]",
            "    FITRIM Status  : false",
            "    F2FS GC Urgent : false",
            "    Job Duration   : 12 ms",
        ]
    );
    report.storage.oem_logs_bytes = 1;
    report.storage.crash_dumps_bytes = 2;
    report.storage.temp_apks_bytes = 3;
    report.storage.active_apps_cleaned = 4;
    report.storage.skipped_files_count = 5;
    report.storage.errors_count = 6;
    report.trim.trimmed_mounts = vec!["/data".to_string(), "/cache".to_string()];
    let full = print_clean_report(&report);
    assert_eq!(full[4], "    OEM Logs       : 1 B");
    assert_eq!(full[7], "    Frozen Apps    : 0 cleaned");
    assert_eq!(full[9], "    Skipped Files  : 5 (Protected / Age / Inaccessible)");
    assert_eq!(full[10], "    Errors/Denied  : 6");
    assert_eq!(full[17], "    Mounts Trimmed : /data, /cache");
}

#[test]
fn decisions_are_explained() {
    let config = DaemonConfig::default();
    let path = "/data/data/com.example.app/cache/a";
    let facts = PathFacts {
        exists: true,
        item: Some(ItemFacts { dev: 1, ino: 2, uid: 3, gid: 4, is_symlink: false, size: 5 }),
    };
    let lines = explain_path(&config, path, true, &facts);
    assert_eq!(lines[3], "  Target Path   : /data/data/com.example.app/cache/a");
    assert_eq!(lines[5], "  Device / Inode: 1 / 2");
    assert_eq!(lines[6], "  UID / GID     : 3 / 4");
    assert_eq!(lines[8], "  File Size     : 5 B");
    assert_eq!(lines[10], "  Action        : DELETE (Eligible for cleanup)");
    assert_eq!(lines[11], "  Category      : AppCache");
    assert_eq!(lines.len(), 15);
    let nothing = PathFacts { exists: false, item: None };
    let system = "/system/bin";
    let kept = explain_path(&config, system, false, &nothing);
    assert_eq!(kept[6], "  Action        : SKIP (Protected / Ignored)");
    assert_eq!(
        kept[7],
        "  Skip Reason   : Matched protected directory component: 'system_immutable_partition'"
    );
}

#[test]
fn platform_is_described() {
    let sys = AndroidSystemInfo {
        api_level: 34,
        release_version: "14".to_string(),
        manufacturer: "google".to_string(),
        brand: "google".to_string(),
        model: "Pixel".to_string(),
        is_encrypted: true,
    };
    let users = vec![UserLine {
        user_id: 0,
        state: EncryptionState::FullyUnlocked,
        ce_path: "/data/data".to_string(),
    }];
    let hardware = HardwareInfo {
        soc_temp: "41.0 \u{b0}C".to_string(),
        battery_temp: "30.0 \u{b0}C".to_string(),
        charger: ChargerState::Full,
        screen: ScreenState::Off,
        f2fs_available: true,
    };
    let mut kernel = KernelInfo {
        cgroup: CgroupInfo {
            detected_version: "v2".to_string(),
            supports_memory_reclaim: true,
            controllers_available: vec!["cpu".to_string(), "memory".to_string()],
            current_process_cgroups: vec!["0::/a".to_string(), "1::/b".to_string()],
        },
        freezer: FreezerInfo {
            is_cached_apps_freezer_enabled: true,
            freezer_cgroup_version: "v2".to_string(),
            total_frozen_uids_count: 12,
        },
        psi: PsiInfo {
            is_supported: true,
            current_level: "None".to_string(),
            memory: Some(Pressure { some: "1.25".to_string(), full: Some("0.10".to_string()) }),
            io: Some(Pressure { some: "2.00".to_string(), full: None }),
        },
    };
    let selinux = SelinuxMode::Enforcing;
    let lines = show_platform_info(&sys, selinux, &users, &hardware, &kernel);
    assert_eq!(lines[3], "  API Level     : 34 (Android 14)");
    assert_eq!(lines[5], "  Brand / Model : google / Pixel");
    assert_eq!(lines[7], "  SELinux Mode  : Enforcing");
    assert_eq!(lines[10], "  - User ID: 0 | State: FullyUnlocked | Path: /data/data");
    assert_eq!(lines[13], "  - SoC Temp     : 41.0 \u{b0}C");
    assert_eq!(lines[15], "  - Charger State: Full");
    assert_eq!(lines[17], "  - F2FS GC Avail: true");
    assert_eq!(
        &lines[18..],
        &[
            "",
            "[+] Cgroups & Kernel Resource Isolation:",
            "  - Hierarchy    : v2",
            "  - Mem Reclaim  : Supported (Cgroup v2)",
            "  - Controllers  : cpu, memory",
            "  - Current Group: 0::/a",
            "",
            "[+] Android App Freezer (Cgroup Freezer):",
            "  - App Freezer  : Enabled (Active)",
            "  - Hierarchy    : v2",
            "  - Frozen UIDs  : 12 processes currently frozen in RAM",
            "",
            "[+] Kernel Pressure Stall Information (PSI):",
            "  - PSI Supported: Yes (/proc/pressure active)",
            "  - Pressure Lvl : None",
            "  - Mem Pressure : some avg10=1.25%, full avg10=0.10%",
            "  - I/O Pressure : some avg10=2.00%, full avg10=N/A",
            "==================================================",
        ]
    );
    kernel.cgroup.supports_memory_reclaim = false;
    kernel.cgroup.controllers_available = Vec::new();
    kernel.cgroup.current_process_cgroups = Vec::new();
    kernel.freezer.is_cached_apps_freezer_enabled = false;
    kernel.psi = PsiInfo {
        is_supported: false,
        current_level: "Unknown".to_string(),
        memory: None,
        io: None,
    };
    let bare = show_platform_info(&sys, selinux, &users, &hardware, &kernel);
    assert_eq!(bare[21], "  - Mem Reclaim  : Not Available / v1");
    assert_eq!(bare[24], "  - App Freezer  : Disabled / Inactive");
    assert_eq!(bare[29], "  - PSI Supported: No / Kernel PSI disabled");
    assert_eq!(bare[31], "==================================================");
    assert_eq!(bare.len(), 32);
}

fn usage() -> UsageInfo {
    UsageInfo {
        cpu_usage: "0.50".to_string(),
        pss_bytes: 1,
        rss_bytes: 2,
        vm_size_bytes: 2048,
    }
}

fn status() -> StatusInfo {
    StatusInfo {
        state: "Idle".to_string(),
        uptime_secs: 61,
        usage: usage(),
        total_freed_bytes: 7,
        last_freed_bytes: 0,
        is_charging: true,
        screen_state: "Off".to_string(),
        soc_temp: "41.0 \u{b0}C".to_string(),
        battery_temp: "30.0 \u{b0}C".to_string(),
    }
}

#[test]
fn status_is_shown() {
    let lines = show_status(None, &StatusReply::Status(status()));
    let texts: Vec<&str> = lines.iter().map(|l| l.text.as_str()).collect();
    assert!(lines.iter().all(|l| !l.to_stderr));
    assert_eq!(
        texts,
        vec![
            "==================================================",
            "          ANDROID CACHE CLEANER DAEMON            ",
            "==================================================",
            "  PID           : N/A",
            "  State         : Idle",
            "  Uptime        : 61 seconds",
            "  CPU Usage     : 0.50%",
            "  RAM (PSS)     : 1 B",
            "  RAM (RSS)     : 2 B",
            "  RAM (Total/VM): 2.00 KiB",
            "  Total Freed   : 7 B",
            "  Last Freed    : 0 B",
            "  Charging      : true",
            "  Screen State  : Off",
            "  SoC Temp      : 41.0 \u{b0}C",
            "  Battery Temp  : 30.0 \u{b0}C",
            "==================================================",
        ]
    );
    let known = show_status(Some(42), &StatusReply::Status(status()));
    assert_eq!(known[3].text, "  PID           : 42");
    assert_eq!(show_status(None, &StatusReply::Other).len(), 0);
    let refused = show_status(None, &StatusReply::Refused("no".to_string()));
    assert_eq!(refused.len(), 1);
    assert!(refused[0].to_stderr);
    assert_eq!(refused[0].text, "Daemon returned error: no");
}

#[test]
fn silent_daemons_are_told_apart() {
    let silent = StatusReply::Unreachable { error: "gone".to_string(), usage: usage() };
    let alive = show_status(Some(42), &silent);
    assert_eq!(alive[3].text, "  PID           : 42");
    assert_eq!(alive[4].text, "  State         : Active (IPC unreachable: gone)");
    assert_eq!(alive[5].text, "  CPU Usage     : 0.50%");
    assert_eq!(alive.len(), 10);
    let offline = show_status(None, &silent);
    assert_eq!(offline.len(), 2);
    assert_eq!(offline[0].text, "[!] Daemon is currently OFFLINE.");
    assert_eq!(
        offline[1].text,
        "    Run `cleaner start` to start the daemon in the background."
    );
    let stats = show_stats(&silent);
    assert!(stats[0].to_stderr);
    assert_eq!(stats[0].text, "Failed to retrieve stats: gone");
}

#[test]
fn stats_are_shown() {
    let lines = show_stats(&StatusReply::Status(status()));
    let texts: Vec<&str> = lines.iter().map(|l| l.text.as_str()).collect();
    assert_eq!(
        texts,
        vec![
            "Daemon Lifetime Stats:",
            "  Uptime        : 61 seconds",
            "  CPU Usage     : 0.50%",
            "  RAM (PSS)     : 1 B",
            "  RAM (RSS)     : 2 B",
            "  RAM (Total/VM): 2.00 KiB",
            "  Total Freed   : 7 B",
        ]
    );
    assert!(show_stats(&StatusReply::Refused("no".to_string())).is_empty());
    assert!(show_stats(&StatusReply::Other).is_empty());
}

#[test]
fn waits_end() {
    assert_eq!(start_wait(0, false), WaitStep::Pause(150));
    assert_eq!(start_wait(2499, false), WaitStep::Pause(150));
    assert_eq!(start_wait(2500, false), WaitStep::Conclude);
    assert_eq!(start_wait(0, true), WaitStep::Conclude);
    assert_eq!(stop_wait(1499, true), WaitStep::Pause(100));
    assert_eq!(stop_wait(1500, true), WaitStep::Conclude);
    assert_eq!(stop_wait(0, false), WaitStep::Conclude);
}

#[test]
fn idleness_is_explained() {
    let mut idle = IdleInfo {
        state: "Idle".to_string(),
        score: 80,
        thermal_state: "Nominal".to_string(),
        standard_maintenance: "true".to_string(),
        heavy_maintenance: "false".to_string(),
        rate_limit_ops_per_sec: "50".to_string(),
        secs_until_next_transition: Some(9),
        positives: vec!["screen is off".to_string()],
        blockers: Vec::new(),
    };
    let texts = |idle: &IdleInfo, explain: bool| -> Vec<String> {
        let lines = show_idle_assessment(&IdleReply::Idle(idle.clone()), explain);
        assert!(lines.iter().all(|l| !l.to_stderr));
        lines.into_iter().map(|l| l.text).collect()
    };
    let short = texts(&idle, false);
    assert_eq!(
        &short[3..],
        &[
            "  Idle State    : Idle",
            "  Idle Score    : 80 / 100",
            "  Thermal State : Nominal",
            "  Standard Clean: true",
            "  Heavy Clean   : false",
            "  Work Rate     : 50 ops/sec",
            "  Next Transition: in 9s",
            "==================================================",
        ]
    );
    assert_eq!(
        &texts(&idle, true)[10..],
        &[
            "--------------------------------------------------",
            "  Positive Factors:",
            "    \u{2022} screen is off",
            "==================================================",
        ]
    );
    idle.blockers = vec!["hot".to_string(), "busy".to_string()];
    idle.secs_until_next_transition = None;
    assert_eq!(
        &texts(&idle, true)[12..],
        &[
            "  Active Blockers:",
            "    \u{2717} hot",
            "    \u{2717} busy",
            "==================================================",
        ]
    );
    let gone = show_idle_assessment(&IdleReply::Unreachable("gone".to_string()), true);
    assert!(gone[0].to_stderr);
    assert_eq!(gone[0].text, "Daemon is unreachable via IPC (gone)");
    let refused = show_idle_assessment(&IdleReply::Refused("no".to_string()), false);
    assert_eq!(refused[0].text, "Daemon returned error: no");
    assert!(show_idle_assessment(&IdleReply::Other, true).is_empty());
}

#[test]
fn small_requests_are_answered() {
    let done = cancel_operation(&CancelReply::Message("stopped".to_string())).unwrap();
    assert_eq!((done.to_stderr, done.text.as_str()), (false, "[+] stopped"));
    let gone = cancel_operation(&CancelReply::Unreachable("gone".to_string())).unwrap();
    assert_eq!((gone.to_stderr, gone.text.as_str()), (true, "Failed to cancel operation: gone"));
    assert!(cancel_operation(&CancelReply::Other).is_none());
    let written = init_config("./cleaner.toml", Ok(()));
    assert_eq!(written.text, "[+] Generated default configuration at: ./cleaner.toml");
    let failed = init_config("./cleaner.toml", Err("denied"));
    assert_eq!((failed.to_stderr, failed.text.as_str()), (true, "Failed to write configuration: denied"));
}
