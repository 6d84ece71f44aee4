//! Users, storage, properties, directory entries, scans and the catalog.
use cache_cleaner_daemon::catalog::{
    known_cache_list, system_junk_list, DeviceStorage, DirFacts, ExternalDir, PackageDir,
    TargetCatalog, UserStorage,
};
use cache_cleaner_daemon::domain::intent::{IntentState, MutationType, OperationIntent};
use cache_cleaner_daemon::domain::target::{TargetClass, TargetDescriptor, TargetSafetyTier};
use cache_cleaner_daemon::domain::types::{
    AttemptId, ByteCount, DeviceNumber, FileIdentity, GenerationId, InodeNumber, JobId,
    OperationId, RelativePath, TargetId, UnixTimestamp,
};
use cache_cleaner_daemon::error::CleanerError;
use cache_cleaner_daemon::fs::{
    as_unsigned, careful_open_failed, check_identity, check_same_device, is_still_the_same,
    validate_single_component, CarefulOpen, EntryKind, EntryStat, SafeDirEntry, TrustedRoot,
    EACCES, EINVAL, ELOOP, ENOENT, ENOSYS, EPERM, EXDEV,
};
use cache_cleaner_daemon::platform::android_prop::{
    get_property, AndroidSystemInfo, PropertySources, SystemProperties,
};
use cache_cleaner_daemon::platform::encryption::{
    ce_user_dir, check_encryption_state, de_user_dir, EncryptionState, EntryAccess, StorageFacts,
    StorageState,
};
use cache_cleaner_daemon::platform::selinux::{get_selinux_mode, mode_of_answer, SelinuxMode};
use cache_cleaner_daemon::platform::users::{user_ids, AndroidUser, UserListings};
use cache_cleaner_daemon::postcondition::VerificationOutcome;
use cache_cleaner_daemon::recovery::{AttemptOutcome, InterruptedAttempt, RecoveryEngine};
use cache_cleaner_daemon::resource::{FdAnswer, MountId, ResourceManager, StorageId};
use cache_cleaner_daemon::scanner::{
    CandidateScanner, EntryStep, RootOpening, ScanStatus, DEFAULT_SCAN_CHUNK_SIZE, MAX_SCAN_DEPTH,
};

const NOW: UnixTimestamp = UnixTimestamp(5000);

fn facts(ino: u64) -> DirFacts {
    DirFacts { dev: DeviceNumber(7), ino: InodeNumber(ino), owner_uid: 10_001, owner_gid: 10_001 }
}

fn package(dir: &str, name: &str, ino: u64) -> PackageDir {
    let mut caches: Vec<Option<DirFacts>> = vec![None; known_cache_list().len()];
    caches[0] = Some(facts(ino));
    PackageDir { path: format!("{}/{}", dir, name), name: name.to_string(), caches }
}

fn entry(name: &str, kind: EntryKind) -> SafeDirEntry {
    let stat = EntryStat { dev: 7, ino: 9, uid: 0, mode: 0, size: 20, mtime: 30 };
    SafeDirEntry::accept(name.as_bytes(), kind, Some(stat)).unwrap()
}

fn descriptor() -> TargetDescriptor {
    TargetDescriptor {
        target_id: TargetId::new("cache".to_string()),
        target_class: TargetClass::AppCache,
        base_path: "/data/data/app/cache".to_string(),
        dev: DeviceNumber(7),
        ino: InodeNumber(70),
        owner_uid: 10_001,
        owner_gid: 10_001,
        package_name: None,
        safety_tier: TargetSafetyTier::StandardCache,
        catalog_generation: GenerationId(1),
    }
}

#[test]
fn numbers_of_errors_are_the_systems() {
    assert_eq!(EINVAL, libc::EINVAL);
    assert_eq!(EXDEV, libc::EXDEV);
    assert_eq!(ELOOP, libc::ELOOP);
    assert_eq!(EPERM, libc::EPERM);
    assert_eq!(EACCES, libc::EACCES);
    assert_eq!(ENOENT, libc::ENOENT);
    assert_eq!(ENOSYS, libc::ENOSYS);
    assert_eq!(ENOSYS, rustix::io::Errno::NOSYS.raw_os_error());
    assert_eq!(cache_cleaner_daemon::platform::encryption::ENOKEY, libc::ENOKEY);
    assert_eq!(cache_cleaner_daemon::platform::encryption::EIO, libc::EIO);
}

#[test]
fn kinds_come_from_modes() {
    let stat = |mode: u32| Some(EntryStat { dev: 1, ino: 2, uid: 0, mode, size: 0, mtime: 0 });
    assert!(is_still_the_same(1, 2, EntryKind::RegularFile, stat(0o100644)));
    assert!(is_still_the_same(1, 2, EntryKind::Directory, stat(0o040755)));
    assert!(is_still_the_same(1, 2, EntryKind::Symlink, stat(0o120777)));
    assert!(is_still_the_same(1, 2, EntryKind::Fifo, stat(0o010644)));
    assert!(is_still_the_same(1, 2, EntryKind::Socket, stat(0o140644)));
    assert!(is_still_the_same(1, 2, EntryKind::CharacterDevice, stat(0o020644)));
    assert!(is_still_the_same(1, 2, EntryKind::BlockDevice, stat(0o060644)));
    assert!(is_still_the_same(1, 2, EntryKind::Unknown, stat(0)));
    assert!(!is_still_the_same(1, 2, EntryKind::RegularFile, stat(0o120777)));
    assert!(!is_still_the_same(1, 3, EntryKind::RegularFile, stat(0o100644)));
    assert!(!is_still_the_same(2, 2, EntryKind::RegularFile, stat(0o100644)));
    assert!(!is_still_the_same(1, 2, EntryKind::RegularFile, None));
}

#[test]
fn entries_are_accepted_with_care() {
    let stat = Some(EntryStat { dev: 7, ino: 9, uid: 0, mode: 0, size: -1, mtime: -1 });
    assert!(SafeDirEntry::accept(b".", EntryKind::Directory, stat).is_none());
    assert!(SafeDirEntry::accept(b"a", EntryKind::Fifo, stat).is_none());
    assert!(SafeDirEntry::accept(&[0xc3], EntryKind::RegularFile, stat).is_none());
    assert!(SafeDirEntry::accept(b"a", EntryKind::RegularFile, None).is_none());
    let odd = SafeDirEntry::accept("caf\u{e9}".as_bytes(), EntryKind::Symlink, stat).unwrap();
    assert_eq!((odd.name.as_str(), odd.is_symlink, odd.size_bytes), ("caf\u{e9}", true, 0));
    assert_eq!(odd.mtime_secs, u64::MAX);
    for n in [0i64, 1, i64::MAX, -1, i64::MIN] {
        assert_eq!(as_unsigned(n), n as u64);
    }
}

#[test]
fn names_are_single_components() {
    assert!(validate_single_component("file.txt").is_ok());
    for bad in ["", ".", "..", "a/b", "a\0"] {
        assert_eq!(validate_single_component(bad), Err(EINVAL));
    }
    assert!(matches!(TrustedRoot::new("/data".to_string()), Ok(_)));
    match TrustedRoot::new("data".to_string()) {
        Err(CleanerError::SafetyViolation(m)) => {
            assert_eq!(m, "TrustedRoot must be absolute: data")
        }
        other => panic!("{:?}", other.is_ok()),
    }
    match TrustedRoot::new("/data/../system".to_string()) {
        Err(CleanerError::SafetyViolation(m)) => {
            assert_eq!(m, "TrustedRoot must not be traversable: /data/../system")
        }
        other => panic!("{:?}", other.is_ok()),
    }
    assert!(matches!(TrustedRoot::new("/data/a..b".to_string()), Ok(_)));
}

#[test]
fn careful_opening_is_given_up_only_where_it_is_unknown() {
    assert_eq!(careful_open_failed(ENOSYS), CarefulOpen::Unsupported);
    assert_eq!(careful_open_failed(EPERM), CarefulOpen::Refused(EACCES));
    assert_eq!(careful_open_failed(ELOOP), CarefulOpen::Refused(ELOOP));
    assert_eq!(careful_open_failed(5), CarefulOpen::Refused(5));
    assert_eq!(check_same_device(1, 2), Err(EXDEV));
    assert_eq!(check_same_device(2, 2), Ok(()));
    let here = FileIdentity::new(1, 2);
    assert!(check_identity(false, "a", here, here).is_ok());
    match check_identity(true, "a", here, FileIdentity::new(1, 3)) {
        Err(e) => assert_eq!(
            e.message(),
            "Safety violation: TOCTOU race detected: dir a identity [dev:1:ino:2] does not \
             match expected [dev:1:ino:3]"
        ),
        Ok(()) => panic!(),
    }
}

#[test]
fn users_are_found_by_name() {
    let listings = UserListings {
        descriptions: vec!["0.xml".to_string(), "10.xml".to_string(), "userlist.xml".to_string()],
        directories: vec![
            vec!["10".to_string(), "999".to_string()],
            vec!["0".to_string(), "junk".to_string(), "-1".to_string()],
        ],
    };
    assert_eq!(user_ids(&listings), vec![0, 10, 999]);
    let first = AndroidUser::describe(0, true, None, None, Some("/m".to_string()));
    assert_eq!((first.ce_path.as_str(), first.media_path.as_str()), ("/data/data", "/m"));
    let second = AndroidUser::describe(10, true, None, None, None);
    assert_eq!(second.ce_path, "/data/user/10");
    assert_eq!(second.de_path, "/data/user_de/10");
}

#[test]
fn unlocked_means_seen() {
    let mut storage = StorageFacts {
        data_exists: true,
        ce_exists: true,
        de_exists: true,
        ce_entries: Some(vec![EntryAccess::Readable]),
    };
    assert_eq!(check_encryption_state(&storage), EncryptionState::FullyUnlocked);
    assert!(StorageState::for_user(&storage).ce_available);
    storage.ce_entries = Some(vec![EntryAccess::Readable, EntryAccess::Refused(Some(126))]);
    assert_eq!(check_encryption_state(&storage), EncryptionState::DeviceEncryptedOnly);
    assert!(!StorageState::for_user(&storage).ce_available);
    storage.ce_entries = Some(Vec::new());
    assert_eq!(check_encryption_state(&storage), EncryptionState::DeviceEncryptedOnly);
    storage.de_exists = false;
    assert_eq!(check_encryption_state(&storage), EncryptionState::Unknown);
    storage.data_exists = false;
    assert_eq!(check_encryption_state(&storage), EncryptionState::Unencrypted);
    assert_eq!(ce_user_dir(0), "/data/data");
    assert_eq!(de_user_dir(11), "/data/user_de/11");
}

#[test]
fn properties_come_from_the_first_source() {
    let mut sources = PropertySources {
        native: None,
        files: vec![
            "# ro.x=0\n\n ro.y = 1 \n".to_string(),
            "ro.x=first\nro.x=second\n".to_string(),
        ],
        answer: Some("  told\n".to_string()),
    };
    assert_eq!(get_property("ro.x", &sources), Some("first".to_string()));
    assert_eq!(get_property("ro.y", &sources), Some("1".to_string()));
    assert_eq!(get_property("ro.z", &sources), Some("told".to_string()));
    sources.answer = Some(" \n".to_string());
    assert_eq!(get_property("ro.z", &sources), None);
    sources.native = Some(" n ".to_string());
    assert_eq!(get_property("ro.x", &sources), Some("n".to_string()));
}

#[test]
fn system_is_detected() {
    let some = |s: &str| Some(s.to_string());
    let info = AndroidSystemInfo::detect(&SystemProperties {
        sdk: some("34"),
        release: some("14"),
        manufacturer: some("SAMSUNG \u{c4}"),
        brand: None,
        model: some("SM-X"),
        crypto_state: some("encrypted"),
    });
    assert_eq!((info.api_level, info.release_version.as_str()), (34, "14"));
    assert_eq!((info.manufacturer.as_str(), info.brand.as_str()), ("samsung \u{e4}", "unknown"));
    assert!(info.is_encrypted);
    let bare = AndroidSystemInfo::detect(&SystemProperties {
        sdk: some("tiramisu"),
        release: None,
        manufacturer: None,
        brand: None,
        model: None,
        crypto_state: None,
    });
    assert_eq!((bare.api_level, bare.release_version.as_str()), (28, "9.0"));
    assert_eq!(bare.model, "Generic Android");
    assert!(!bare.is_encrypted);
}

#[test]
fn selinux_is_told_by_file_or_answer() {
    assert_eq!(get_selinux_mode(Some("1\n"), None), SelinuxMode::Enforcing);
    assert_eq!(get_selinux_mode(Some("0"), Some("Enforcing")), SelinuxMode::Permissive);
    assert_eq!(get_selinux_mode(Some("?"), Some("Permissive\n")), SelinuxMode::Permissive);
    assert_eq!(get_selinux_mode(None, Some("Disabled")), SelinuxMode::Disabled);
    assert_eq!(get_selinux_mode(None, None), SelinuxMode::Unknown);
    assert_eq!(mode_of_answer("ENFORCING"), SelinuxMode::Unknown);
}

#[test]
fn discovered_targets_are_current() {
    let device = DeviceStorage {
        users: vec![
            UserStorage {
                user_id: 0,
                state: EncryptionState::FullyUnlocked,
                ce: vec![package("/data/data", "com.example.a", 11)],
                de: vec![
                    package("/data/user_de/0", "com.example.a", 16),
                    package("/data/user_de/0", "com.example.c", 12),
                ],
                media: vec![ExternalDir {
                    path: "/data/media/0/Android/data/com.example.a".to_string(),
                    name: "com.example.a".to_string(),
                    cache: Some(facts(13)),
                }],
            },
            UserStorage {
                user_id: 10,
                state: EncryptionState::DeviceEncryptedOnly,
                ce: vec![package("/data/user/10", "com.example.b", 14)],
                de: Vec::new(),
                media: Vec::new(),
            },
        ],
        fallback: Vec::new(),
        system: vec![None, Some(facts(15)), None, None],
    };
    let mut catalog = TargetCatalog::new();
    catalog.discover_all_targets(&device);
    let snapshot = catalog.take_snapshot();
    assert_eq!(snapshot.generation, GenerationId(2));
    let inodes: Vec<u64> = snapshot.iter().iter().map(|t| t.ino.0).collect();
    assert!(inodes.contains(&11) && inodes.contains(&12));
    assert!(inodes.contains(&13) && inodes.contains(&15));
    // The first directory found for an identifier stays.
    assert!(!inodes.contains(&16));
    // What a locked user keeps is not looked at.
    assert!(!inodes.contains(&14));
    assert!(snapshot.iter().iter().all(|t| t.catalog_generation == GenerationId(2)));
    assert_eq!(system_junk_list()[1].0, "/data/tombstones");
}

#[test]
fn snapshots_list_every_target_once() {
    let mut catalog = TargetCatalog::new();
    assert!(catalog.take_snapshot().iter().is_empty());
    for (id, ino) in [("b", 1), ("a", 2), ("b", 3)] {
        let mut target = descriptor();
        target.target_id = TargetId::new(id.to_string());
        target.ino = InodeNumber(ino);
        catalog.register_target(target);
    }
    let snapshot = catalog.take_snapshot();
    let listed = snapshot.iter();
    assert_eq!((listed.len(), snapshot.len()), (2, 2));
    assert_eq!((listed[0].ino, listed[1].ino), (InodeNumber(2), InodeNumber(3)));
    for target in listed {
        assert_eq!(snapshot.get(&target.target_id), Some(target));
    }
}

#[test]
fn empty_discovery_keeps_the_catalog() {
    let mut catalog = TargetCatalog::new();
    catalog.register_target(descriptor());
    let nothing = DeviceStorage { users: Vec::new(), fallback: Vec::new(), system: Vec::new() };
    catalog.discover_all_targets(&nothing);
    assert_eq!(catalog.take_snapshot().generation, GenerationId(1));
    assert_eq!(catalog.take_snapshot().len(), 1);
}

#[test]
fn scans_take_what_leads_down() {
    let mut scanner = CandidateScanner::new();
    let mut scan = scanner.scan_target(&descriptor());
    let root = RelativePath::empty();
    assert!(scan.enter(0));
    assert!(scan.enter(MAX_SCAN_DEPTH - 1));
    assert!(!scan.enter(MAX_SCAN_DEPTH));
    assert!(matches!(
        scan.visit(&mut scanner, &root, &entry("a", EntryKind::RegularFile)),
        EntryStep::Taken
    ));
    match scan.visit(&mut scanner, &root, &entry("d", EntryKind::Directory)) {
        EntryStep::Descend(path) => assert_eq!(path.as_str(), "d"),
        other => panic!("{:?}", other),
    }
    scan.unreadable(&RelativePath::parse("d").unwrap(), "denied");
    let done = scan.finish();
    assert_eq!(done.status, ScanStatus::Partial);
    assert_eq!(done.errors, vec!["Failed to read directory d: denied"]);
    assert_eq!(done.candidates.len(), 2);
    assert_eq!(done.candidates[0].size_bytes, ByteCount(20));
    assert_eq!(done.candidates[1].size_bytes, ByteCount(0));
    assert_eq!(done.candidates[1].candidate_id.0, 2);
}

#[test]
fn scans_tell_how_they_began() {
    let scanner = CandidateScanner::default();
    let missing = scanner.scan_target_with_resource(&descriptor(), RootOpening::Missing);
    assert_eq!(missing.unwrap_err().status, ScanStatus::Complete);
    let refused = RootOpening::Refused("denied".to_string());
    let failed = scanner.scan_target_with_resource(&descriptor(), refused).unwrap_err();
    assert_eq!(failed.status, ScanStatus::Failed);
    assert_eq!(failed.errors, vec!["Failed to open target root /data/data/app/cache: denied"]);
    assert!(scanner.scan_target_with_resource(&descriptor(), RootOpening::Opened).is_ok());
    assert_eq!(DEFAULT_SCAN_CHUNK_SIZE, 500);
}

#[test]
fn streams_hand_on_full_chunks() {
    let mut scanner = CandidateScanner::new();
    let mut scan = scanner.scan_target_streaming(&descriptor(), 2, &RootOpening::Opened).unwrap();
    let root = RelativePath::empty();
    assert!(scan.visit(&mut scanner, &root, &entry("a", EntryKind::RegularFile)).chunk.is_none());
    let step = scan.visit(&mut scanner, &root, &entry("b", EntryKind::Directory));
    assert_eq!(step.chunk.unwrap().len(), 2);
    assert_eq!(step.descend.unwrap().as_str(), "b");
    scan.answered(Ok(true));
    assert!(!scan.is_over());
    scan.visit(&mut scanner, &root, &entry("c", EntryKind::RegularFile));
    assert_eq!(scan.rest().unwrap().len(), 1);
    assert!(scan.rest().is_none());
    assert!(scan.finish().is_ok());
    assert!(scanner.scan_target_streaming(&descriptor(), 2, &RootOpening::Missing).is_none());
    let refused = RootOpening::Refused("denied".to_string());
    assert!(scanner.scan_target_streaming(&descriptor(), 2, &refused).is_none());
}

#[test]
fn streams_end_once() {
    let mut scanner = CandidateScanner::new();
    let root = RelativePath::empty();
    let mut scan = scanner.scan_target_streaming(&descriptor(), 0, &RootOpening::Opened).unwrap();
    assert!(scan.enter(0));
    assert!(!scan.enter(MAX_SCAN_DEPTH));
    let step = scan.visit(&mut scanner, &root, &entry("a", EntryKind::RegularFile));
    assert_eq!(step.chunk.unwrap().len(), 1);
    scan.answered(Ok(false));
    assert!(scan.is_over() && !scan.enter(0));
    let late = scan.visit(&mut scanner, &root, &entry("b", EntryKind::Directory));
    assert!(late.chunk.is_none() && late.descend.is_none());
    scan.answered(Err(CleanerError::Cancelled));
    assert!(scan.rest().is_none());
    assert!(scan.finish().is_ok());
    let mut failing =
        scanner.scan_target_streaming(&descriptor(), 1, &RootOpening::Opened).unwrap();
    failing.visit(&mut scanner, &root, &entry("a", EntryKind::RegularFile));
    failing.answered(Err(CleanerError::Cancelled));
    assert!(failing.is_over());
    assert!(matches!(failing.finish(), Err(CleanerError::Cancelled)));
}

#[test]
fn release_undoes_acquire() {
    let mut locks = ResourceManager::new(1);
    let permit = match locks.acquire_fd_permit(0, false) {
        FdAnswer::Granted(permit) => permit,
        other => panic!("{:?}", other),
    };
    match locks.acquire_fd_permit(200, false) {
        FdAnswer::Wait { remaining_ms } => assert_eq!(remaining_ms, 300),
        other => panic!("{:?}", other),
    }
    match locks.acquire_fd_permit(500, false) {
        FdAnswer::Exhausted(e) => assert_eq!(
            e.message(),
            "Resource exhausted: Resource pool exhausted: maximum concurrent FD limit (1) \
             reached after waiting 500ms"
        ),
        other => panic!("{:?}", other),
    }
    assert!(matches!(locks.acquire_fd_permit(0, true), FdAnswer::Exhausted(_)));
    locks.release_fd_permit(permit);
    assert_eq!(locks.active_fd_count(), 0);
    assert!(matches!(locks.acquire_fd_permit_timeout(9, 0, false), FdAnswer::Granted(_)));
}

#[test]
fn locks_are_exclusive() {
    let mut locks = ResourceManager::new(1);
    let id = TargetId::new("t".to_string());
    let first = locks.acquire_target_lock_for_attempt(&id, AttemptId(3)).unwrap();
    match locks.acquire_target_lock(&id) {
        Err(e) => assert!(e
            .message()
            .ends_with("Concurrent mutation collision: Target target:t is already locked by attempt 3")),
        Ok(_) => panic!(),
    }
    locks.release_target_lock(first);
    assert!(!locks.is_target_locked(&id));
    let storage = StorageId::new("s".to_string());
    let held = locks.acquire_storage_lock(&storage).unwrap();
    assert!(locks.acquire_storage_lock(&storage).is_err());
    locks.release_storage_lock(held);
    assert!(!locks.is_storage_locked(&storage));
    let mount = MountId::new("m".to_string());
    let held = locks.acquire_mount_lock(&mount).unwrap();
    assert!(locks.is_mount_locked(&mount));
    locks.release_mount_lock(held);
    assert!(locks.acquire_mount_lock(&mount).is_ok());
}

#[test]
fn recovery_goes_by_what_is_found() {
    let mut catalog = TargetCatalog::new();
    catalog.register_target(descriptor());
    let snapshot = catalog.take_snapshot();
    let intent = |op: u64, target: &str| {
        OperationIntent::new(
            JobId(1),
            AttemptId(2),
            OperationId(op),
            TargetId::new(target.to_string()),
            RelativePath::parse("a").unwrap(),
            FileIdentity::new(7, 8),
            ByteCount(100),
            MutationType::DeleteFile,
            GenerationId(1),
            GenerationId(1),
        )
    };
    let attempt = |intents: Vec<OperationIntent>, findings: Vec<VerificationOutcome>| {
        InterruptedAttempt { attempt_id: AttemptId(2), job_id: JobId(1), intents, findings }
    };
    let engine = RecoveryEngine::new();
    let gone = attempt(
        vec![intent(1, "cache"), intent(2, "cache")],
        vec![VerificationOutcome::ConfirmedDeleted, VerificationOutcome::AlreadyGone],
    );
    let report = engine.reconcile_attempt(&snapshot, &gone, NOW);
    assert_eq!(report.outcome, AttemptOutcome::Recovered);
    assert_eq!(report.total_reclaimed, ByteCount(200));
    assert_eq!(report.verdicts[0].state, IntentState::VerifiedSuccess);
    let there = attempt(
        vec![intent(1, "cache"), intent(2, "cache")],
        vec![VerificationOutcome::ConfirmedDeleted, VerificationOutcome::StillPresent],
    );
    let report = engine.reconcile_attempt(&snapshot, &there, NOW);
    assert_eq!(report.outcome, AttemptOutcome::Failed);
    assert_eq!(report.total_reclaimed, ByteCount(100));
    let lost = attempt(vec![intent(1, "gone")], vec![VerificationOutcome::ConfirmedDeleted]);
    let report = engine.reconcile_attempt(&snapshot, &lost, NOW);
    assert_eq!(report.outcome, AttemptOutcome::Unresolved);
    let all = vec![gone, there, lost];
    let (reports, recovered) = engine.reconcile_startup_crashes(&snapshot, &all, NOW);
    assert_eq!((reports.len(), recovered), (3, 1));
}

#[test]
fn parts_of_the_device_are_discovered_alone() {
    let mut catalog = TargetCatalog::new();
    let packages = vec![package("/data/data", "com.example.a", 11)];
    assert_eq!(catalog.discover_android_user_targets(&packages).unwrap(), 1);
    assert_eq!(catalog.discover_android_user_targets_for_user(&packages, 10).unwrap(), 1);
    let media = vec![
        ExternalDir {
            path: "/data/media/0/Android/data/com.example.a".to_string(),
            name: "com.example.a".to_string(),
            cache: Some(facts(13)),
        },
        ExternalDir {
            path: "/data/media/0/Android/data/com.example.b".to_string(),
            name: "com.example.b".to_string(),
            cache: None,
        },
    ];
    assert_eq!(catalog.discover_android_external_targets(&media, 0).unwrap(), 1);
    let system = vec![None, Some(facts(15)), None, Some(facts(17))];
    assert_eq!(catalog.discover_system_targets(&system).unwrap(), 2);
    assert_eq!(catalog.take_snapshot().len(), 5);
}
