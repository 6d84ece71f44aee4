//! Walks through directory trees.
use std::collections::HashSet;

use cache_cleaner_daemon::config::{CleaningRulesConfig, SafetyConfig, SafetyMode};
use cache_cleaner_daemon::engine::rules::RuleEngine;
use cache_cleaner_daemon::engine::walker::{
    CrashFile, DirectoryWalk, DirectoryWalker, EntryFacts, RootFacts, WalkStats, WalkStep,
};
use cache_cleaner_daemon::fs::{EntryKind, EntryStat};

const ROOT_DEV: u64 = 7;
const NOW: u64 = 1_000_000;

fn engine() -> RuleEngine {
    RuleEngine::new(CleaningRulesConfig::default(), SafetyConfig::default())
}

fn stat(ino: u64, size: i64, mtime: i64) -> EntryStat {
    EntryStat { dev: ROOT_DEV, ino, uid: 10_123, mode: 0, size, mtime }
}

fn show(walk: &mut DirectoryWalk, name: &str, kind: EntryKind, st: Option<EntryStat>) {
    let entry = EntryFacts::Found {
        name: name.as_bytes(),
        kind,
        stat: st,
        is_file: kind == EntryKind::RegularFile,
    };
    walk.visit(&entry, NOW);
}

fn open_root<'a>(walker: &'a DirectoryWalker<'a>, root: &str) -> DirectoryWalk<'a> {
    let mut walk = walker.clean_directory(root, RootFacts::Dev(ROOT_DEV));
    match walk.next_step(false) {
        WalkStep::Open(dir) => assert_eq!(dir, root),
        other => panic!("{:?}", other),
    }
    walk.opened(true);
    walk
}

#[test]
fn root_that_cannot_be_opened_is_skipped() {
    let rules = engine();
    let walker = DirectoryWalker::new(&rules, 0, false);
    let mut walk = walker.clean_directory("/data/data", RootFacts::Unopened);
    assert_eq!(walk.stats().skipped_files, 1);
    assert!(matches!(walk.next_step(false), WalkStep::Done));
    let mut unknown = walker.clean_directory("/data/data", RootFacts::Unknown);
    assert_eq!(unknown.stats(), WalkStats::default());
    assert!(matches!(unknown.next_step(false), WalkStep::Done));
}

#[test]
fn junk_file_is_removed_and_counted() {
    let rules = engine();
    let walker = DirectoryWalker::new(&rules, 0, false);
    let mut walk = open_root(&walker, "/data/data/com.example.app/cache");
    assert!(matches!(walk.next_step(false), WalkStep::Read));
    show(&mut walk, "a.tmp", EntryKind::RegularFile, Some(stat(11, 4096, 5)));
    match walk.next_step(false) {
        WalkStep::Unlink(item) => {
            assert_eq!(item.name, "a.tmp");
            assert_eq!(item.ino, 11);
            assert_eq!(item.kind, EntryKind::RegularFile);
            assert_eq!(item.bytes, 4096);
        }
        other => panic!("{:?}", other),
    }
    assert_eq!(walk.stats().files_deleted, 0);
    walk.unlinked(true);
    assert_eq!(walk.stats().files_deleted, 1);
    assert_eq!(walk.stats().bytes_freed, 4096);
    show(&mut walk, "link", EntryKind::Symlink, Some(stat(12, 99, 5)));
    walk.unlinked(false);
    assert_eq!(walk.stats().errors_count, 1);
    assert_eq!(walk.stats().bytes_freed, 4096);
    walk.end_of_directory();
    assert!(matches!(walk.next_step(false), WalkStep::Leave(true)));
    assert!(matches!(walk.next_step(false), WalkStep::Done));
}

#[test]
fn walk_stays_on_the_device() {
    let rules = engine();
    let walker = DirectoryWalker::new(&rules, 0, false);
    let mut walk = open_root(&walker, "/data/data/com.example.app/cache");
    let other = EntryStat { dev: ROOT_DEV + 1, ..stat(11, 1, 1) };
    show(&mut walk, "mnt", EntryKind::Directory, Some(other));
    show(&mut walk, "file", EntryKind::RegularFile, Some(other));
    assert_eq!(walk.stats().skipped_files, 2);
    assert!(matches!(walk.next_step(false), WalkStep::Read));
}

#[test]
fn only_junk_goes() {
    let rules = engine();
    let walker = DirectoryWalker::new(&rules, 0, false);
    let mut walk = open_root(&walker, "/data/data/com.example.app");
    show(&mut walk, "notes.txt", EntryKind::RegularFile, Some(stat(11, 10, 1)));
    assert_eq!(walk.stats(), WalkStats::default());
    assert!(matches!(walk.next_step(false), WalkStep::Read));
    show(&mut walk, "files", EntryKind::Directory, Some(stat(12, 10, 1)));
    assert!(matches!(walk.next_step(false), WalkStep::Open(_)));
}

#[test]
fn safe_mode_spares_the_last_day() {
    let safety = SafetyConfig { mode: SafetyMode::Safe, ..SafetyConfig::default() };
    let rules = RuleEngine::new(CleaningRulesConfig::default(), safety);
    let walker = DirectoryWalker::new(&rules, 1, false);
    let mut walk = open_root(&walker, "/data/data/com.example.app/cache");
    let now = NOW as i64;
    show(&mut walk, "today", EntryKind::RegularFile, Some(stat(1, 1, now - 86_399)));
    assert_eq!(walk.stats().skipped_files, 1);
    show(&mut walk, "old", EntryKind::RegularFile, Some(stat(2, 1, now - 86_400)));
    assert!(matches!(walk.next_step(false), WalkStep::Unlink(_)));
}

#[test]
fn young_and_future_files_stay() {
    let safety = SafetyConfig { mode: SafetyMode::Balanced, ..SafetyConfig::default() };
    let rules = RuleEngine::new(CleaningRulesConfig::default(), safety);
    let walker = DirectoryWalker::new(&rules, 1, false);
    let mut walk = open_root(&walker, "/data/data/com.example.app/cache");
    let now = NOW as i64;
    show(&mut walk, "young", EntryKind::RegularFile, Some(stat(1, 1, now - 3599)));
    show(&mut walk, "future", EntryKind::RegularFile, Some(stat(2, 1, now + 10)));
    assert_eq!(walk.stats().skipped_files, 2);
    show(&mut walk, "old", EntryKind::RegularFile, Some(stat(3, 1, now - 3600)));
    assert!(matches!(walk.next_step(false), WalkStep::Unlink(_)));
    walk.unlinked(true);
    show(&mut walk, "ancient", EntryKind::RegularFile, Some(stat(4, 1, -5)));
    assert!(matches!(walk.next_step(false), WalkStep::Unlink(_)));
}

#[test]
fn dry_run_removes_nothing() {
    let rules = engine();
    let walker = DirectoryWalker::new(&rules, 0, true);
    assert!(walker.is_dry_run());
    let mut walk = open_root(&walker, "/data/data/com.example.app/cache");
    show(&mut walk, "a", EntryKind::RegularFile, Some(stat(1, 100, 1)));
    show(&mut walk, "b", EntryKind::Symlink, Some(stat(2, 100, 1)));
    assert_eq!(walk.stats().files_deleted, 2);
    assert_eq!(walk.stats().bytes_freed, 100);
    assert!(matches!(walk.next_step(false), WalkStep::Read));
}

#[test]
fn folder_of_a_purged_directory_goes_after_its_contents() {
    let rules = engine();
    let walker = DirectoryWalker::new(&rules, 0, false);
    let mut walk = open_root(&walker, "/data/data/com.example.app");
    show(&mut walk, "cache", EntryKind::Directory, Some(stat(20, 0, 1)));
    match walk.next_step(false) {
        WalkStep::Open(dir) => assert_eq!(dir, "/data/data/com.example.app/cache"),
        other => panic!("{:?}", other),
    }
    walk.opened(true);
    show(&mut walk, "sub", EntryKind::Directory, Some(stat(21, 0, 1)));
    assert!(matches!(walk.next_step(false), WalkStep::Open(_)));
    walk.opened(true);
    walk.end_of_directory();
    assert!(matches!(walk.next_step(false), WalkStep::Leave(true)));
    match walk.next_step(false) {
        WalkStep::RemoveFolder(folder) => {
            assert_eq!(folder.name, "sub");
            assert_eq!(folder.ino, 21);
        }
        other => panic!("{:?}", other),
    }
    walk.end_of_directory();
    assert!(matches!(walk.next_step(false), WalkStep::Leave(true)));
    // The outermost junk directory itself stays.
    assert!(matches!(walk.next_step(false), WalkStep::Read));
}

#[test]
fn unclear_entries_count_only_while_walking() {
    let rules = engine();
    let walker = DirectoryWalker::new(&rules, 0, false);
    let mut walk = open_root(&walker, "/data/data/com.example.app");
    walk.visit(&EntryFacts::Unreadable, NOW);
    show(&mut walk, "gone", EntryKind::RegularFile, None);
    assert_eq!(walk.stats().errors_count, 2);
    let bad: [u8; 2] = [0xff, 0xfe];
    let entry = EntryFacts::Found {
        name: &bad,
        kind: EntryKind::RegularFile,
        stat: Some(stat(1, 1, 1)),
        is_file: true,
    };
    walk.visit(&entry, NOW);
    assert_eq!(walk.stats().skipped_files, 1);
    show(&mut walk, ".", EntryKind::Directory, Some(stat(1, 1, 1)));
    show(&mut walk, "..", EntryKind::Directory, Some(stat(1, 1, 1)));
    show(&mut walk, "cache", EntryKind::Directory, Some(stat(2, 1, 1)));
    assert!(matches!(walk.next_step(false), WalkStep::Open(_)));
    walk.opened(true);
    walk.visit(&EntryFacts::Unreadable, NOW);
    walk.visit(&entry, NOW);
    show(&mut walk, "gone", EntryKind::RegularFile, None);
    assert_eq!(walk.stats().errors_count, 2);
    assert_eq!(walk.stats().skipped_files, 1);
}

#[test]
fn frozen_and_active_applications_are_told_apart() {
    let rules = engine();
    let mut frozen: HashSet<u32> = HashSet::new();
    frozen.insert(10_123);
    let walker = DirectoryWalker::new(&rules, 0, true).with_frozen_uids(Some(&frozen));
    let mut walk = open_root(&walker, "/data/data");
    show(&mut walk, "com.example.a", EntryKind::Directory, Some(stat(1, 0, 1)));
    assert_eq!(walk.stats().frozen_apps_affected, 1);
    walk.next_step(true);
    let active = EntryStat { uid: 10_124, ..stat(2, 0, 1) };
    show(&mut walk, "com.example.b", EntryKind::Directory, Some(active));
    assert_eq!(walk.stats().active_apps_affected, 1);
    walk.next_step(true);
    let system = EntryStat { uid: 1000, ..stat(3, 0, 1) };
    show(&mut walk, "com.example.c", EntryKind::Directory, Some(system));
    assert_eq!(walk.stats().frozen_apps_affected, 1);
    assert_eq!(walk.stats().active_apps_affected, 1);
}

#[test]
fn depth_is_bounded() {
    let rules = engine();
    let walker = DirectoryWalker::new(&rules, 0, false);
    let mut walk = open_root(&walker, "/data/data");
    let mut opened: usize = 1;
    loop {
        show(&mut walk, "d", EntryKind::Directory, Some(stat(1, 0, 1)));
        match walk.next_step(false) {
            WalkStep::Open(_) => {
                walk.opened(true);
                opened += 1;
            }
            WalkStep::Leave(entered) => {
                assert!(!entered);
                break;
            }
            other => panic!("{:?}", other),
        }
    }
    assert_eq!(opened, 21);
}

#[test]
fn cancelled_walk_leaves_everything() {
    let rules = engine();
    let walker = DirectoryWalker::new(&rules, 0, false);
    let mut walk = open_root(&walker, "/data/data");
    show(&mut walk, "d", EntryKind::Directory, Some(stat(1, 0, 1)));
    assert!(matches!(walk.next_step(true), WalkStep::Leave(false)));
    assert!(matches!(walk.next_step(true), WalkStep::Leave(true)));
    assert!(matches!(walk.next_step(true), WalkStep::Done));
}

#[test]
fn directory_that_cannot_be_opened_counts_while_walking() {
    let rules = engine();
    let walker = DirectoryWalker::new(&rules, 0, false);
    let mut walk = walker.clean_directory("/data/data", RootFacts::Dev(ROOT_DEV));
    walk.next_step(false);
    walk.opened(false);
    assert_eq!(walk.stats().skipped_files, 1);
    assert!(matches!(walk.next_step(false), WalkStep::Leave(true)));
    assert_eq!(walk.root_dev(), ROOT_DEV);
}

#[test]
fn newest_crash_dumps_stay() {
    let rules = engine();
    let walker = DirectoryWalker::new(&rules, 0, false);
    let mut files: Vec<CrashFile> = Vec::new();
    for (name, mtime) in [("t0", 30), ("t1", 50), ("t2", 10), ("t3", 50), ("t4", 20)] {
        let file = CrashFile::accept(
            name.as_bytes(),
            EntryKind::RegularFile,
            Some(stat(1, 8, mtime)),
        );
        files.push(file.unwrap());
    }
    assert_eq!(walker.clean_crash_dumps_directory(&files, 2), vec![0, 4, 2]);
    assert_eq!(walker.clean_crash_dumps_directory(&files, 0), vec![1, 3, 0, 4, 2]);
    assert!(walker.clean_crash_dumps_directory(&files, 5).is_empty());
    assert!(walker.clean_crash_dumps_directory(&files, 50).is_empty());
}

#[test]
fn crash_dumps_are_plain_files() {
    let st = Some(stat(1, 8, -4));
    assert!(CrashFile::accept(b"x", EntryKind::Directory, st).is_none());
    assert!(CrashFile::accept(b"x", EntryKind::RegularFile, None).is_none());
    assert!(CrashFile::accept(&[0xff], EntryKind::RegularFile, st).is_none());
    assert!(CrashFile::accept(b"..", EntryKind::RegularFile, st).is_none());
    let file = CrashFile::accept(b"x", EntryKind::RegularFile, st).unwrap();
    assert_eq!((file.mtime_secs, file.size, file.ino), (0, 8, 1));
}

#[test]
fn crash_dump_removals_are_counted() {
    let rules = engine();
    let mut stats = WalkStats::default();
    DirectoryWalker::new(&rules, 0, false).crash_dump_done(&mut stats, true, 5);
    DirectoryWalker::new(&rules, 0, false).crash_dump_done(&mut stats, false, 5);
    DirectoryWalker::new(&rules, 0, true).crash_dump_done(&mut stats, false, 7);
    assert_eq!((stats.files_deleted, stats.errors_count, stats.bytes_freed), (2, 1, 12));
    assert!(stats.has_room(u64::MAX - 12));
    assert!(!stats.has_room(u64::MAX - 11));
}
