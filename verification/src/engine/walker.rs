//! Goes through a directory tree and removes the junk in it.
//!
//! The walk decides what is opened, read and removed; whoever runs it talks to the
//! file system and says how that went.
use std::collections::HashSet;

use vstd::prelude::*;

use crate::config::SafetyMode;
use crate::engine::rules::{Decision, RuleEngine};
use crate::fs;
use crate::fs::{EntryKind, EntryStat};
use crate::paths;
use crate::sorting;
use crate::sorting::SortKey;

verus! {

/// The depth below which no directory is listed.
pub const MAX_WALK_DEPTH: usize = 20;

/// The lowest user id of an application.
pub const FIRST_APP_UID: u32 = 10_000;

/// What a walk did.
#[derive(Debug, Clone, Copy, PartialEq, Eq, Structural)]
pub struct WalkStats {
    pub files_deleted: usize,
    pub bytes_freed: u64,
    pub frozen_apps_affected: usize,
    pub active_apps_affected: usize,
    pub skipped_files: usize,
    pub errors_count: usize,
}

impl Default for WalkStats {
    fn default() -> (r: Self)
        ensures
            r == WalkStats::none(),
    {
        WalkStats {
            files_deleted: 0,
            bytes_freed: 0,
            frozen_apps_affected: 0,
            active_apps_affected: 0,
            skipped_files: 0,
            errors_count: 0,
        }
    }
}

impl WalkStats {
    /// Nothing done.
    pub open spec fn none() -> WalkStats {
        WalkStats {
            files_deleted: 0,
            bytes_freed: 0,
            frozen_apps_affected: 0,
            active_apps_affected: 0,
            skipped_files: 0,
            errors_count: 0,
        }
    }

    /// One more event can be counted, with this many bytes.
    pub open spec fn fits(self, bytes: int) -> bool {
        &&& self.files_deleted < usize::MAX
        &&& self.frozen_apps_affected < usize::MAX
        &&& self.active_apps_affected < usize::MAX
        &&& self.skipped_files < usize::MAX
        &&& self.errors_count < usize::MAX
        &&& self.bytes_freed + bytes <= u64::MAX
    }

    /// One more item skipped.
    pub open spec fn with_skipped(self) -> WalkStats {
        WalkStats { skipped_files: (self.skipped_files + 1) as usize, ..self }
    }

    /// One more error.
    pub open spec fn with_error(self) -> WalkStats {
        WalkStats { errors_count: (self.errors_count + 1) as usize, ..self }
    }

    /// One more item removed, with this many bytes.
    pub open spec fn with_removed(self, bytes: u64) -> WalkStats {
        WalkStats {
            files_deleted: (self.files_deleted + 1) as usize,
            bytes_freed: (self.bytes_freed + bytes) as u64,
            ..self
        }
    }

    /// One more application entered.
    pub open spec fn with_app(self, frozen: bool) -> WalkStats {
        if frozen {
            WalkStats { frozen_apps_affected: (self.frozen_apps_affected + 1) as usize, ..self }
        } else {
            WalkStats { active_apps_affected: (self.active_apps_affected + 1) as usize, ..self }
        }
    }

    /// `true` where one more event can be counted, with this many bytes.
    pub fn has_room(&self, bytes: u64) -> (r: bool)
        ensures
            r == self.fits(bytes as int),
    {
        self.files_deleted < usize::MAX && self.frozen_apps_affected < usize::MAX
            && self.active_apps_affected < usize::MAX && self.skipped_files < usize::MAX
            && self.errors_count < usize::MAX && self.bytes_freed <= u64::MAX - bytes
    }

    /// Counts a removal, or the error where it failed.
    pub fn count_removal(&mut self, ok: bool, bytes: u64)
        requires
            old(self).fits(bytes as int),
        ensures
            *final(self) == if ok {
                old(self).with_removed(bytes)
            } else {
                old(self).with_error()
            },
    {
        if ok {
            self.files_deleted = self.files_deleted + 1;
            self.bytes_freed = self.bytes_freed + bytes;
        } else {
            self.errors_count = self.errors_count + 1;
        }
    }
}

/// How a directory is gone through.
#[derive(Debug, Clone, Copy, PartialEq, Eq, Structural)]
pub enum WalkMode {
    /// Its entries may be junk.
    Walk,
    /// It is junk itself, and so its folders go too.
    Purge,
}

/// What is known of an entry.
#[derive(Debug)]
pub enum EntryFacts<'a> {
    /// It could not be read.
    Unreadable,
    /// Its name, its kind, what the system says of it, and whether a regular file
    /// stands at its path.
    Found { name: &'a [u8], kind: EntryKind, stat: Option<EntryStat>, is_file: bool },
}

/// What becomes of an entry.
pub enum Outcome {
    /// Nothing.
    Pass,
    /// It counts as an error.
    Error,
    /// It counts as skipped.
    Skipped,
    /// It is a directory to be gone through. `app` says of an application's
    /// directory whether the application is frozen; `folder` tells that the
    /// directory is removed afterwards.
    Enter { path: Seq<char>, mode: WalkMode, app: Option<bool>, folder: Option<FolderModel> },
    /// It counts as removed, and stays.
    Counted { bytes: u64 },
    /// It is removed.
    Unlink(UnlinkModel),
}

/// A folder to be removed, by its name and inode.
pub struct FolderModel {
    pub name: Seq<char>,
    pub ino: u64,
}

/// An item to be removed.
pub struct UnlinkModel {
    pub name: Seq<char>,
    pub ino: u64,
    pub kind: EntryKind,
    pub bytes: u64,
}

/// Goes through directories by the rules of an engine.
pub struct DirectoryWalker<'a> {
    rule_engine: &'a RuleEngine,
    min_age_secs: u64,
    dry_run: bool,
    frozen_uids: Option<&'a HashSet<u32>>,
}

/// The age in hours below which nothing goes in safe mode.
pub const SAFE_MODE_HOURS: u32 = 24;

/// The age in hours from which on a file may go where this age is asked for.
pub open spec fn least_hours(mode: SafetyMode, asked: u32) -> u32 {
    if mode == SafetyMode::Safe && asked < SAFE_MODE_HOURS {
        SAFE_MODE_HOURS
    } else {
        asked
    }
}

/// The time of a change, in seconds. One before the epoch counts as the epoch.
pub open spec fn change_secs(mtime: i64) -> u64 {
    if mtime >= 0 {
        mtime as u64
    } else {
        0
    }
}

impl<'a> DirectoryWalker<'a> {
    /// The rules that this walker goes by.
    pub closed spec fn engine(self) -> RuleEngine {
        *self.rule_engine
    }

    /// The age in seconds from which on a file may go.
    pub closed spec fn min_age(self) -> u64 {
        self.min_age_secs
    }

    /// The walker only counts.
    pub closed spec fn only_counts(self) -> bool {
        self.dry_run
    }

    /// The user ids of frozen applications, where they are known.
    pub closed spec fn frozen(self) -> Option<Set<u32>> {
        match self.frozen_uids {
            Some(uids) => Some(uids@),
            None => None,
        }
    }

    /// A walker that goes by these rules. In safe mode nothing younger than a day
    /// goes, whatever age is asked for.
    pub fn new(rule_engine: &'a RuleEngine, min_age_hours: u32, dry_run: bool) -> (r: Self)
        ensures
            r.engine() == *rule_engine,
            r.min_age() == least_hours(rule_engine.spec_safety().mode, min_age_hours) * 3600,
            r.only_counts() == dry_run,
            r.frozen() is None,
    {
        let hours: u32 = if rule_engine.safety().mode == SafetyMode::Safe && min_age_hours
            < SAFE_MODE_HOURS {
            SAFE_MODE_HOURS
        } else {
            min_age_hours
        };
        DirectoryWalker {
            rule_engine,
            min_age_secs: (hours as u64) * 3600,
            dry_run,
            frozen_uids: None,
        }
    }

    pub fn with_frozen_uids(self, frozen_uids: Option<&'a HashSet<u32>>) -> (r: Self)
        ensures
            r.engine() == self.engine(),
            r.min_age() == self.min_age(),
            r.only_counts() == self.only_counts(),
            r.frozen() is Some <==> frozen_uids is Some,
            frozen_uids is Some ==> r.frozen()->0 == frozen_uids->0@,
    {
        DirectoryWalker { frozen_uids, ..self }
    }

    /// A file last changed at `mtime` is too young to go: the walker asks for an
    /// age, and the file has not reached it or was changed in the future.
    pub open spec fn too_young(self, mtime: i64, now: u64) -> bool {
        self.min_age() > 0 && now < change_secs(mtime) + self.min_age()
    }

    fn is_too_young(&self, mtime: i64, now: u64) -> (r: bool)
        ensures
            r == self.too_young(mtime, now),
    {
        if self.min_age_secs == 0 {
            return false;
        }
        let changed: u64 = if mtime >= 0 {
            mtime as u64
        } else {
            0
        };
        now < changed || now - changed < self.min_age_secs
    }

    /// What becomes of an entry that the rules let go.
    pub open spec fn junk_outcome(
        self,
        mode: WalkMode,
        path: Seq<char>,
        name: Seq<char>,
        kind: EntryKind,
        stat: EntryStat,
        now: u64,
    ) -> Outcome {
        if kind == EntryKind::Directory {
            Outcome::Enter {
                path,
                mode: WalkMode::Purge,
                app: None,
                folder: if mode == WalkMode::Purge && !self.only_counts() {
                    Some(FolderModel { name, ino: stat.ino })
                } else {
                    None
                },
            }
        } else if kind == EntryKind::RegularFile && self.too_young(stat.mtime, now) {
            Outcome::Skipped
        } else if kind == EntryKind::Symlink || kind == EntryKind::RegularFile {
            let bytes = if kind == EntryKind::RegularFile {
                fs::unsigned(stat.size)
            } else {
                0
            };
            if self.only_counts() {
                Outcome::Counted { bytes }
            } else {
                Outcome::Unlink(UnlinkModel { name, ino: stat.ino, kind, bytes })
            }
        } else {
            Outcome::Pass
        }
    }

    /// Whether a directory belongs to a frozen application, where it is one of an
    /// application at all and the frozen ones are known.
    pub open spec fn app_state(self, mode: WalkMode, depth: nat, uid: u32) -> Option<bool> {
        if mode == WalkMode::Walk && depth == 0 && uid >= FIRST_APP_UID && self.frozen() is Some {
            Some(self.frozen()->0.contains(uid))
        } else {
            None
        }
    }

    /// What becomes of an entry of the directory `dir`.
    pub open spec fn outcome(
        self,
        mode: WalkMode,
        depth: nat,
        dir: Seq<char>,
        root_dev: u64,
        entry: EntryFacts,
        now: u64,
    ) -> Outcome {
        // Where the directory itself goes, what cannot be looked at is passed over.
        let unclear = if mode == WalkMode::Walk {
            Outcome::Error
        } else {
            Outcome::Pass
        };
        match entry {
            EntryFacts::Unreadable => unclear,
            EntryFacts::Found { name, kind, stat, is_file } => {
                if fs::is_dots(name@) {
                    Outcome::Pass
                } else if !vstd::utf8::valid_utf8(name@) {
                    if mode == WalkMode::Walk {
                        Outcome::Skipped
                    } else {
                        Outcome::Pass
                    }
                } else {
                    match stat {
                        None => unclear,
                        Some(st) => {
                            let text = vstd::utf8::decode_utf8(name@);
                            let path = paths::joined(dir, text);
                            if st.dev != root_dev {
                                Outcome::Skipped
                            } else if self.engine().verdict_on(path, is_file) is Delete {
                                self.junk_outcome(mode, path, text, kind, st, now)
                            } else if kind == EntryKind::Directory {
                                Outcome::Enter {
                                    path,
                                    mode: WalkMode::Walk,
                                    app: self.app_state(mode, depth, st.uid),
                                    folder: None,
                                }
                            } else {
                                Outcome::Pass
                            }
                        },
                    }
                }
            },
        }
    }
}

/// How far a directory of the walk has come.
#[derive(Debug, Clone, Copy, PartialEq, Eq, Structural)]
pub enum FrameState {
    /// It is not open yet.
    New,
    /// Its entries are being read.
    Open,
    /// Nothing more is read from it.
    Closed,
}

/// A folder to be removed, by its name and inode.
#[derive(Debug)]
pub struct Folder {
    pub name: String,
    pub ino: u64,
}

impl View for Folder {
    type V = FolderModel;

    open spec fn view(&self) -> FolderModel {
        FolderModel { name: self.name@, ino: self.ino }
    }
}

/// An item to be removed.
#[derive(Debug)]
pub struct Unlinking {
    pub name: String,
    pub ino: u64,
    pub kind: EntryKind,
    pub bytes: u64,
}

impl View for Unlinking {
    type V = UnlinkModel;

    open spec fn view(&self) -> UnlinkModel {
        UnlinkModel { name: self.name@, ino: self.ino, kind: self.kind, bytes: self.bytes }
    }
}

impl Unlinking {
    fn copy(&self) -> (r: Self)
        ensures
            r@ == self@,
    {
        Unlinking { name: self.name.clone(), ino: self.ino, kind: self.kind, bytes: self.bytes }
    }
}

/// A directory that the walk is in.
#[derive(Debug)]
struct Frame {
    path: String,
    mode: WalkMode,
    state: FrameState,
    folder: Option<Folder>,
}

/// A directory that the walk is in.
pub struct FrameModel {
    pub path: Seq<char>,
    pub mode: WalkMode,
    pub state: FrameState,
    /// The directory as its parent removes it, where it does.
    pub folder: Option<FolderModel>,
}

/// The model of what may be there.
pub open spec fn folder_view(folder: Option<Folder>) -> Option<FolderModel> {
    match folder {
        Some(f) => Some(f@),
        None => None,
    }
}

/// The model of what may be there.
pub open spec fn unlink_view(item: Option<Unlinking>) -> Option<UnlinkModel> {
    match item {
        Some(i) => Some(i@),
        None => None,
    }
}

impl View for Frame {
    type V = FrameModel;

    closed spec fn view(&self) -> FrameModel {
        FrameModel {
            path: self.path@,
            mode: self.mode,
            state: self.state,
            folder: folder_view(self.folder),
        }
    }
}

/// What a walk asks for next.
#[derive(Debug)]
pub enum WalkStep {
    /// Nothing: it is over.
    Done,
    /// That this directory be opened.
    Open(String),
    /// That the next entry of the innermost directory be read.
    Read,
    /// That this item of the innermost directory be removed.
    Unlink(Unlinking),
    /// That the innermost directory be left. It was asked to be opened before, or
    /// not.
    Leave(bool),
    /// That this folder of the innermost directory be removed.
    RemoveFolder(Folder),
}

/// What a walk asks for next, in terms of characters.
pub enum StepModel {
    Done,
    Open(Seq<char>),
    Read,
    Unlink(UnlinkModel),
    Leave(bool),
    RemoveFolder(FolderModel),
}

impl View for WalkStep {
    type V = StepModel;

    open spec fn view(&self) -> StepModel {
        match self {
            WalkStep::Done => StepModel::Done,
            WalkStep::Open(path) => StepModel::Open(path@),
            WalkStep::Read => StepModel::Read,
            WalkStep::Unlink(item) => StepModel::Unlink(item@),
            WalkStep::Leave(entered) => StepModel::Leave(*entered),
            WalkStep::RemoveFolder(folder) => StepModel::RemoveFolder(folder@),
        }
    }
}

/// How a root directory answered.
#[derive(Debug, Clone, Copy, PartialEq, Eq, Structural)]
pub enum RootFacts {
    /// It could not be opened.
    Unopened,
    /// It is open, and its device is not known.
    Unknown,
    /// It is open, and stands on this device.
    Dev(u64),
}

/// A walk under way.
pub struct DirectoryWalk<'a> {
    walker: &'a DirectoryWalker<'a>,
    root_dev: u64,
    stack: Vec<Frame>,
    awaiting: Option<Unlinking>,
    removal: Option<Folder>,
    stats: WalkStats,
}

/// A walk: the directories that it is in, the innermost last, the item whose
/// removal it waits for, the folder to be removed next, and what it did so far.
pub struct WalkModel {
    pub stack: Seq<FrameModel>,
    pub awaiting: Option<UnlinkModel>,
    pub removal: Option<FolderModel>,
    pub stats: WalkStats,
}

impl WalkModel {
    /// The walk waits for an entry of the innermost directory.
    pub open spec fn reads(self) -> bool {
        &&& self.awaiting is None
        &&& self.removal is None
        &&& self.stack.len() > 0
        &&& self.stack.last().state == FrameState::Open
    }

    /// The walk waits for the innermost directory to be opened.
    pub open spec fn opens(self) -> bool {
        &&& self.awaiting is None
        &&& self.removal is None
        &&& self.stack.len() > 0
        &&& self.stack.last().state == FrameState::New
    }

    /// The innermost directory in another state.
    pub open spec fn in_state(self, state: FrameState) -> WalkModel {
        WalkModel {
            stack: self.stack.drop_last().push(FrameModel { state, ..self.stack.last() }),
            ..self
        }
    }

    /// The depth of the innermost directory.
    pub open spec fn depth(self) -> int {
        self.stack.len() - 1
    }

    /// The innermost directory is to be left.
    pub open spec fn leaves(self, cancelled: bool) -> bool {
        match self.stack.last().state {
            FrameState::New => self.depth() > MAX_WALK_DEPTH || cancelled,
            FrameState::Open => cancelled,
            FrameState::Closed => true,
        }
    }

    /// What the walk asks for next.
    pub open spec fn step(self, cancelled: bool) -> StepModel {
        if self.awaiting is Some {
            StepModel::Unlink(self.awaiting->0)
        } else if self.removal is Some {
            StepModel::RemoveFolder(self.removal->0)
        } else if self.stack.len() == 0 {
            StepModel::Done
        } else if self.leaves(cancelled) {
            StepModel::Leave(self.stack.last().state != FrameState::New)
        } else if self.stack.last().state == FrameState::New {
            StepModel::Open(self.stack.last().path)
        } else {
            StepModel::Read
        }
    }

    /// The walk after it asked.
    pub open spec fn after_step(self, cancelled: bool) -> WalkModel {
        if self.awaiting is Some {
            self
        } else if self.removal is Some {
            WalkModel { removal: None, ..self }
        } else if self.stack.len() > 0 && self.leaves(cancelled) {
            WalkModel {
                stack: self.stack.drop_last(),
                removal: self.stack.last().folder,
                ..self
            }
        } else {
            self
        }
    }

    /// The walk after the innermost directory was opened or not.
    pub open spec fn after_open(self, ok: bool) -> WalkModel {
        if !self.opens() {
            self
        } else if ok {
            self.in_state(FrameState::Open)
        } else if self.stack.last().mode == WalkMode::Walk {
            WalkModel { stats: self.stats.with_skipped(), ..self.in_state(FrameState::Closed) }
        } else {
            self.in_state(FrameState::Closed)
        }
    }

    /// The walk after an entry became this.
    pub open spec fn after_outcome(self, outcome: Outcome) -> WalkModel {
        match outcome {
            Outcome::Pass => self,
            Outcome::Error => WalkModel { stats: self.stats.with_error(), ..self },
            Outcome::Skipped => WalkModel { stats: self.stats.with_skipped(), ..self },
            Outcome::Counted { bytes } => WalkModel {
                stats: self.stats.with_removed(bytes),
                ..self
            },
            Outcome::Unlink(item) => WalkModel { awaiting: Some(item), ..self },
            Outcome::Enter { path, mode, app, folder } => WalkModel {
                stack: self.stack.push(FrameModel { path, mode, state: FrameState::New, folder }),
                stats: match app {
                    Some(frozen) => self.stats.with_app(frozen),
                    None => self.stats,
                },
                ..self
            },
        }
    }

    /// The walk after it waited for a removal.
    pub open spec fn after_unlink(self, ok: bool) -> WalkModel {
        match self.awaiting {
            None => self,
            Some(item) => WalkModel {
                awaiting: None,
                stats: if ok {
                    self.stats.with_removed(item.bytes)
                } else {
                    self.stats.with_error()
                },
                ..self
            },
        }
    }

    /// The walk after the innermost directory had no further entry.
    pub open spec fn after_end(self) -> WalkModel {
        if self.reads() {
            self.in_state(FrameState::Closed)
        } else {
            self
        }
    }

    /// The bytes of the item whose removal the walk waits for.
    pub open spec fn awaited_bytes(self) -> u64 {
        match self.awaiting {
            Some(item) => item.bytes,
            None => 0,
        }
    }
}

/// The bytes that an entry may add.
pub open spec fn entry_bytes(entry: EntryFacts) -> u64 {
    match entry {
        EntryFacts::Found { stat: Some(st), .. } => fs::unsigned(st.size),
        _ => 0,
    }
}

impl<'a> View for DirectoryWalk<'a> {
    type V = WalkModel;

    closed spec fn view(&self) -> WalkModel {
        WalkModel {
            stack: self.stack@.map_values(|f: Frame| f@),
            awaiting: unlink_view(self.awaiting),
            removal: folder_view(self.removal),
            stats: self.stats,
        }
    }
}

impl<'a> DirectoryWalker<'a> {
    /// Begins a walk. A root that cannot be opened counts as skipped; where its
    /// device is not known, nothing is done at all.
    pub fn clean_directory(&'a self, root: &str, facts: RootFacts) -> (r: DirectoryWalk<'a>)
        ensures
            r.spec_walker() == *self,
            facts matches RootFacts::Dev(dev) ==> r.spec_root_dev() == dev,
            r@.awaiting is None,
            r@.removal is None,
            r@.stack == if facts is Dev {
                seq![
                    FrameModel {
                        path: root@,
                        mode: WalkMode::Walk,
                        state: FrameState::New,
                        folder: None,
                    },
                ]
            } else {
                Seq::empty()
            },
            r@.stats == if facts is Unopened {
                WalkStats::none().with_skipped()
            } else {
                WalkStats::none()
            },
    {
        let mut walk = DirectoryWalk {
            walker: self,
            root_dev: 0,
            stack: Vec::new(),
            awaiting: None,
            removal: None,
            stats: WalkStats::default(),
        };
        match facts {
            RootFacts::Unopened => {
                walk.stats.skipped_files = 1;
            },
            RootFacts::Unknown => {},
            RootFacts::Dev(dev) => {
                walk.root_dev = dev;
                walk.stack.push(
                    Frame {
                        path: root.to_owned(),
                        mode: WalkMode::Walk,
                        state: FrameState::New,
                        folder: None,
                    },
                );
            },
        }
        assert(walk@.stack =~= if facts is Dev {
            seq![
                FrameModel {
                    path: root@,
                    mode: WalkMode::Walk,
                    state: FrameState::New,
                    folder: None,
                },
            ]
        } else {
            Seq::empty()
        });
        walk
    }
}

impl<'a> DirectoryWalk<'a> {
    /// The walker that this walk goes by.
    pub closed spec fn spec_walker(self) -> DirectoryWalker<'a> {
        *self.walker
    }

    /// The device that this walk stays on.
    pub closed spec fn spec_root_dev(self) -> u64 {
        self.root_dev
    }

    /// The walker and the device stay what they are.
    pub open spec fn goes_on(self, other: DirectoryWalk<'a>) -> bool {
        self.spec_walker() == other.spec_walker() && self.spec_root_dev() == other.spec_root_dev()
    }

    /// The device that this walk stays on.
    pub fn root_dev(&self) -> (r: u64)
        ensures
            r == self.spec_root_dev(),
    {
        self.root_dev
    }

    /// What the walk did so far.
    pub fn stats(&self) -> (r: WalkStats)
        ensures
            r == self@.stats,
    {
        self.stats
    }

    /// `true` where one more entry with this many bytes can be counted.
    pub fn has_room(&self, bytes: u64) -> (r: bool)
        ensures
            r == self@.stats.fits(bytes as int),
    {
        self.stats.has_room(bytes)
    }

    /// Asks what comes next. A directory beyond the greatest depth is left unopened,
    /// and so is every directory once the job is cancelled.
    pub fn next_step(&mut self, cancelled: bool) -> (r: WalkStep)
        ensures
            r@ == old(self)@.step(cancelled),
            final(self)@ == old(self)@.after_step(cancelled),
            final(self).goes_on(*old(self)),
    {
        match &self.awaiting {
            Some(item) => {
                return WalkStep::Unlink(item.copy());
            },
            None => {},
        }
        match self.removal.take() {
            Some(folder) => {
                return WalkStep::RemoveFolder(folder);
            },
            None => {},
        }
        let size: usize = self.stack.len();
        if size == 0 {
            return WalkStep::Done;
        }
        let state = self.stack[size - 1].state;
        let leaves = match state {
            FrameState::New => size - 1 > MAX_WALK_DEPTH || cancelled,
            FrameState::Open => cancelled,
            FrameState::Closed => true,
        };
        if leaves {
            let ghost before = self.stack@;
            match self.stack.pop() {
                Some(frame) => {
                    self.removal = frame.folder;
                },
                None => {},
            }
            assert(self@.stack =~= old(self)@.stack.drop_last());
            assert(old(self)@.stack.last() == before.last()@);
            return WalkStep::Leave(state != FrameState::New);
        }
        if state == FrameState::New {
            return WalkStep::Open(self.stack[size - 1].path.clone());
        }
        WalkStep::Read
    }

    fn set_state(&mut self, state: FrameState)
        requires
            old(self)@.stack.len() > 0,
        ensures
            final(self)@ == old(self)@.in_state(state),
            final(self).goes_on(*old(self)),
    {
        let ghost before = self@.stack;
        match self.stack.pop() {
            Some(mut frame) => {
                frame.state = state;
                self.stack.push(frame);
            },
            None => {},
        }
        assert(self@.stack =~= before.drop_last().push(FrameModel { state, ..before.last() }));
    }

    fn top_is(&self, state: FrameState) -> (r: bool)
        ensures
            r == (self@.awaiting is None && self@.removal is None && self@.stack.len() > 0
                && self@.stack.last().state == state),
    {
        let size: usize = self.stack.len();
        assert(self@.stack.len() > 0 ==> self@.stack.last() == self.stack@.last()@);
        self.awaiting.is_none() && self.removal.is_none() && size > 0 && self.stack[size - 1].state
            == state
    }

    /// Says whether the directory that the walk asked for could be opened.
    pub fn opened(&mut self, ok: bool)
        requires
            old(self)@.stats.fits(0),
        ensures
            final(self)@ == old(self)@.after_open(ok),
            final(self).goes_on(*old(self)),
    {
        if !self.top_is(FrameState::New) {
            return;
        }
        let size: usize = self.stack.len();
        assert(self@.stack.last() == self.stack@.last()@);
        if ok {
            self.set_state(FrameState::Open);
        } else {
            if self.stack[size - 1].mode == WalkMode::Walk {
                self.stats.skipped_files = self.stats.skipped_files + 1;
            }
            self.set_state(FrameState::Closed);
        }
    }

    /// Says that the innermost directory has no further entry.
    pub fn end_of_directory(&mut self)
        ensures
            final(self)@ == old(self)@.after_end(),
            final(self).goes_on(*old(self)),
    {
        if self.top_is(FrameState::Open) {
            self.set_state(FrameState::Closed);
        }
    }

    /// Says whether the item that the walk asked for was removed.
    pub fn unlinked(&mut self, ok: bool)
        requires
            old(self)@.stats.fits(old(self)@.awaited_bytes() as int),
        ensures
            final(self)@ == old(self)@.after_unlink(ok),
            final(self).goes_on(*old(self)),
    {
        match self.awaiting.take() {
            Some(item) => {
                self.stats.count_removal(ok, item.bytes);
            },
            None => {},
        }
    }
}

/// What becomes of an entry.
enum Fate {
    Pass,
    Error,
    Skipped,
    Enter { path: String, mode: WalkMode, app: Option<bool>, folder: Option<Folder> },
    Counted { bytes: u64 },
    Unlink(Unlinking),
}

impl View for Fate {
    type V = Outcome;

    closed spec fn view(&self) -> Outcome {
        match self {
            Fate::Pass => Outcome::Pass,
            Fate::Error => Outcome::Error,
            Fate::Skipped => Outcome::Skipped,
            Fate::Enter { path, mode, app, folder } => Outcome::Enter {
                path: path@,
                mode: *mode,
                app: *app,
                folder: folder_view(*folder),
            },
            Fate::Counted { bytes } => Outcome::Counted { bytes: *bytes },
            Fate::Unlink(item) => Outcome::Unlink(item@),
        }
    }
}

impl<'a> DirectoryWalker<'a> {
    fn junk_fate(
        &self,
        mode: WalkMode,
        path: String,
        name: &str,
        kind: EntryKind,
        stat: EntryStat,
        now: u64,
    ) -> (r: Fate)
        ensures
            r@ == self.junk_outcome(mode, path@, name@, kind, stat, now),
    {
        if kind == EntryKind::Directory {
            let folder = if mode == WalkMode::Purge && !self.dry_run {
                Some(Folder { name: name.to_owned(), ino: stat.ino })
            } else {
                None
            };
            return Fate::Enter { path, mode: WalkMode::Purge, app: None, folder };
        }
        if kind != EntryKind::RegularFile && kind != EntryKind::Symlink {
            return Fate::Pass;
        }
        if kind == EntryKind::RegularFile && self.is_too_young(stat.mtime, now) {
            return Fate::Skipped;
        }
        let bytes: u64 = if kind == EntryKind::RegularFile {
            fs::as_unsigned(stat.size)
        } else {
            0
        };
        if self.dry_run {
            Fate::Counted { bytes }
        } else {
            Fate::Unlink(Unlinking { name: name.to_owned(), ino: stat.ino, kind, bytes })
        }
    }

    fn app_state_of(&self, mode: WalkMode, depth: usize, uid: u32) -> (r: Option<bool>)
        ensures
            r == self.app_state(mode, depth as nat, uid),
    {
        broadcast use vstd::std_specs::hash::group_hash_axioms;

        if mode != WalkMode::Walk || depth != 0 || uid < FIRST_APP_UID {
            return None;
        }
        match self.frozen_uids {
            Some(uids) => Some(uids.contains(&uid)),
            None => None,
        }
    }

    fn fate(
        &self,
        mode: WalkMode,
        depth: usize,
        dir: &str,
        root_dev: u64,
        entry: &EntryFacts,
        now: u64,
    ) -> (r: Fate)
        ensures
            r@ == self.outcome(mode, depth as nat, dir@, root_dev, *entry, now),
    {
        let walking = mode == WalkMode::Walk;
        match entry {
            EntryFacts::Unreadable => {
                if walking {
                    Fate::Error
                } else {
                    Fate::Pass
                }
            },
            EntryFacts::Found { name, kind, stat, is_file } => {
                if fs::name_is_dots(name) {
                    return Fate::Pass;
                }
                let text = match fs::decode_text(name) {
                    Some(text) => text,
                    None => {
                        return if walking {
                            Fate::Skipped
                        } else {
                            Fate::Pass
                        };
                    },
                };
                let st = match stat {
                    Some(st) => *st,
                    None => {
                        return if walking {
                            Fate::Error
                        } else {
                            Fate::Pass
                        };
                    },
                };
                if st.dev != root_dev {
                    return Fate::Skipped;
                }
                let path = paths::join_path(dir, text);
                match self.rule_engine.evaluate_path(path.as_str(), *is_file) {
                    Decision::Delete { .. } => self.junk_fate(mode, path, text, *kind, st, now),
                    Decision::Skip { .. } => {
                        if *kind == EntryKind::Directory {
                            Fate::Enter {
                                path,
                                mode: WalkMode::Walk,
                                app: self.app_state_of(mode, depth, st.uid),
                                folder: None,
                            }
                        } else {
                            Fate::Pass
                        }
                    },
                }
            },
        }
    }
}

impl<'a> DirectoryWalk<'a> {
    /// Hands the walk the entry that it asked for, read at `now`.
    pub fn visit(&mut self, entry: &EntryFacts, now: u64)
        requires
            old(self)@.stats.fits(entry_bytes(*entry) as int),
        ensures
            final(self)@ == if old(self)@.reads() {
                let top = old(self)@.stack.last();
                old(self)@.after_outcome(
                    old(self).spec_walker().outcome(
                        top.mode,
                        old(self)@.depth() as nat,
                        top.path,
                        old(self).spec_root_dev(),
                        *entry,
                        now,
                    ),
                )
            } else {
                old(self)@
            },
            final(self).goes_on(*old(self)),
    {
        if !self.top_is(FrameState::Open) {
            return;
        }
        let size: usize = self.stack.len();
        assert(self@.stack.last() == self.stack@.last()@);
        let top = &self.stack[size - 1];
        let fate = self.walker.fate(
            top.mode,
            size - 1,
            top.path.as_str(),
            self.root_dev,
            entry,
            now,
        );
        let ghost outcome = fate@;
        match fate {
            Fate::Pass => {},
            Fate::Error => {
                self.stats.errors_count = self.stats.errors_count + 1;
            },
            Fate::Skipped => {
                self.stats.skipped_files = self.stats.skipped_files + 1;
            },
            Fate::Counted { bytes } => {
                self.stats.count_removal(true, bytes);
            },
            Fate::Unlink(item) => {
                self.awaiting = Some(item);
            },
            Fate::Enter { path, mode, app, folder } => {
                match app {
                    Some(true) => {
                        self.stats.frozen_apps_affected = self.stats.frozen_apps_affected + 1;
                    },
                    Some(false) => {
                        self.stats.active_apps_affected = self.stats.active_apps_affected + 1;
                    },
                    None => {},
                }
                self.stack.push(Frame { path, mode, state: FrameState::New, folder });
                assert(self@.stack =~= old(self)@.after_outcome(outcome).stack);
            },
        }
    }
}

/// A file in a directory of crash dumps.
#[derive(Debug, Clone)]
pub struct CrashFile {
    pub name: String,
    pub size: u64,
    pub mtime_secs: u64,
    pub dev: u64,
    pub ino: u64,
}

impl SortKey for CrashFile {
    /// The file that changed last stands first.
    open spec fn before(&self, other: &CrashFile) -> bool {
        self.mtime_secs > other.mtime_secs
    }

    proof fn lemma_asymmetric(a: &CrashFile, b: &CrashFile) {
    }

    proof fn lemma_split(a: &CrashFile, b: &CrashFile, c: &CrashFile) {
    }

    fn is_before(&self, other: &CrashFile) -> (r: bool) {
        self.mtime_secs > other.mtime_secs
    }
}

impl CrashFile {
    /// An entry is a crash dump where it is a regular file, its name is text and
    /// the system says what it is.
    pub open spec fn is_accepted(name: Seq<u8>, kind: EntryKind, stat: Option<EntryStat>) -> bool {
        &&& !fs::is_dots(name)
        &&& kind == EntryKind::RegularFile
        &&& vstd::utf8::valid_utf8(name)
        &&& stat is Some
    }

    /// The crash dump with this name, where it is one.
    pub fn accept(name: &[u8], kind: EntryKind, stat: Option<EntryStat>) -> (r: Option<Self>)
        ensures
            r is Some <==> CrashFile::is_accepted(name@, kind, stat),
            r matches Some(f) ==> {
                &&& f.name@ == vstd::utf8::decode_utf8(name@)
                &&& f.size == fs::unsigned(stat->0.size)
                &&& f.mtime_secs == change_secs(stat->0.mtime)
                &&& f.dev == stat->0.dev
                &&& f.ino == stat->0.ino
            },
    {
        if fs::name_is_dots(name) || kind != EntryKind::RegularFile {
            return None;
        }
        let text = match fs::decode_text(name) {
            Some(text) => text,
            None => {
                return None;
            },
        };
        match stat {
            Some(st) => Some(
                CrashFile {
                    name: text.to_owned(),
                    size: fs::as_unsigned(st.size),
                    mtime_secs: if st.mtime >= 0 {
                        st.mtime as u64
                    } else {
                        0
                    },
                    dev: st.dev,
                    ino: st.ino,
                },
            ),
            None => None,
        }
    }
}

/// The positions left after the first `keep` ones.
pub open spec fn beyond(order: Seq<usize>, keep: int) -> Seq<usize> {
    if keep < order.len() {
        order.subrange(keep, order.len() as int)
    } else {
        Seq::empty()
    }
}

impl<'a> DirectoryWalker<'a> {
    /// The positions of the crash dumps that go, newer ones first: all but the
    /// `keep_count` newest.
    pub fn clean_crash_dumps_directory(&self, files: &Vec<CrashFile>, keep_count: usize) -> (r: Vec<
        usize,
    >)
        ensures
            exists|order: Seq<usize>| #[trigger]
                sorting::is_stable_order(files@, order) && r@ == beyond(order, keep_count as int),
    {
        let order = sorting::stable_order(files);
        let mut r: Vec<usize> = Vec::new();
        let mut i: usize = keep_count;
        while i < order.len()
            invariant
                keep_count <= i,
                i <= order.len() || i == keep_count,
                r@ == if i <= order.len() {
                    order@.subrange(keep_count as int, i as int)
                } else {
                    Seq::empty()
                },
            decreases order.len() - i,
        {
            r.push(order[i]);
            i = i + 1;
            assert(r@ =~= order@.subrange(keep_count as int, i as int));
        }
        assert(r@ =~= beyond(order@, keep_count as int));
        r
    }

    /// Counts a crash dump that was removed, or could not be. Where the walker only
    /// counts, none is removed and each counts as removed.
    pub fn crash_dump_done(&self, stats: &mut WalkStats, removed: bool, size: u64)
        requires
            old(stats).fits(size as int),
        ensures
            *final(stats) == if removed || self.only_counts() {
                old(stats).with_removed(size)
            } else {
                old(stats).with_error()
            },
    {
        stats.count_removal(removed || self.dry_run, size);
    }

    /// `true` where the walker only counts.
    pub fn is_dry_run(&self) -> (r: bool)
        ensures
            r == self.only_counts(),
    {
        self.dry_run
    }
}

/// Nothing is removed, entered or counted as removed on another device than that of
/// the root.
pub proof fn law_walk_stays_on_the_device(
    walker: DirectoryWalker,
    mode: WalkMode,
    depth: nat,
    dir: Seq<char>,
    root_dev: u64,
    name: &[u8],
    kind: EntryKind,
    stat: EntryStat,
    is_file: bool,
    now: u64,
)
    requires
        stat.dev != root_dev,
    ensures
        ({
            let entry = EntryFacts::Found { name, kind, stat: Some(stat), is_file };
            let outcome = walker.outcome(mode, depth, dir, root_dev, entry, now);
            outcome is Skipped || outcome is Pass
        }),
{
}

/// Whatever is removed, or counted as removed, is junk by the rules.
pub proof fn law_only_junk_goes(
    walker: DirectoryWalker,
    mode: WalkMode,
    depth: nat,
    dir: Seq<char>,
    root_dev: u64,
    name: &[u8],
    kind: EntryKind,
    stat: Option<EntryStat>,
    is_file: bool,
    now: u64,
)
    ensures
        ({
            let entry = EntryFacts::Found { name, kind, stat, is_file };
            let outcome = walker.outcome(mode, depth, dir, root_dev, entry, now);
            let path = paths::joined(dir, vstd::utf8::decode_utf8(name@));
            &&& outcome is Unlink || outcome is Counted ==> walker.engine().verdict_on(
                path,
                is_file,
            ) is Delete
            &&& outcome matches Outcome::Enter { folder, .. } ==> (folder is Some
                ==> walker.engine().verdict_on(path, is_file) is Delete)
        }),
{
}

/// A regular file younger than the walker asks for stays.
pub proof fn law_young_files_stay(
    walker: DirectoryWalker,
    mode: WalkMode,
    depth: nat,
    dir: Seq<char>,
    root_dev: u64,
    name: &[u8],
    stat: EntryStat,
    is_file: bool,
    now: u64,
)
    requires
        walker.too_young(stat.mtime, now),
    ensures
        ({
            let kind = EntryKind::RegularFile;
            let entry = EntryFacts::Found { name, kind, stat: Some(stat), is_file };
            let outcome = walker.outcome(mode, depth, dir, root_dev, entry, now);
            !(outcome is Unlink) && !(outcome is Counted)
        }),
{
}

/// In safe mode a walker asks for an age of a day or more.
pub proof fn law_safe_mode_spares_the_last_day(mode: SafetyMode, asked: u32)
    requires
        mode == SafetyMode::Safe,
    ensures
        least_hours(mode, asked) * 3600 >= 86_400,
{
}

/// A walker that only counts asks for no removal.
pub proof fn law_dry_run_removes_nothing(
    walker: DirectoryWalker,
    mode: WalkMode,
    depth: nat,
    dir: Seq<char>,
    root_dev: u64,
    entry: EntryFacts,
    now: u64,
)
    requires
        walker.only_counts(),
    ensures
        ({
            let outcome = walker.outcome(mode, depth, dir, root_dev, entry, now);
            &&& !(outcome is Unlink)
            &&& outcome matches Outcome::Enter { folder, .. } ==> folder is None
        }),
{
}

/// No directory beyond the greatest depth is ever opened, and none at all once the
/// job is cancelled; nor is anything more read then.
pub proof fn law_depth_is_bounded(walk: WalkModel, cancelled: bool)
    ensures
        walk.step(cancelled) is Open ==> walk.depth() <= MAX_WALK_DEPTH && !cancelled,
        walk.step(cancelled) is Read ==> !cancelled,
{
}

/// A folder is removed only after the walk has left it.
pub proof fn law_folder_goes_after_its_contents(walk: WalkModel, cancelled: bool)
    requires
        walk.removal is None,
        walk.after_step(cancelled).removal is Some,
    ensures
        walk.step(cancelled) is Leave,
        walk.after_step(cancelled).stack == walk.stack.drop_last(),
        walk.after_step(cancelled).removal == walk.stack.last().folder,
{
}

/// No crash dump that goes is newer than one that stays, and as many stay as are to
/// be kept.
pub proof fn law_newest_crash_dumps_stay(
    files: Seq<CrashFile>,
    order: Seq<usize>,
    keep: nat,
    stays: int,
    goes: int,
)
    requires
        sorting::is_stable_order(files, order),
        0 <= stays < keep,
        0 <= goes < beyond(order, keep as int).len(),
    ensures
        stays < order.len(),
        files[beyond(order, keep as int)[goes] as int].mtime_secs <= files[order[stays] as int].mtime_secs,
        beyond(order, keep as int).len() + keep == files.len(),
{
    assert(beyond(order, keep as int)[goes] == order[keep + goes]);
    assert(sorting::precedes(files, order[stays] as int, order[keep + goes] as int));
}

/// In a directory that is junk itself as in any other: a regular file that the rules
/// let go and that is old enough, or a symbolic link that they let go, is asked to be
/// removed by its own name, inode and kind, or counted as removed where the walker only
/// counts. The bytes are those of the file; a link has none.
pub proof fn law_junk_goes_from_every_directory<'a, 'b>(
    walk: &mut DirectoryWalk<'a>,
    entry: &EntryFacts<'b>,
    now: u64,
    name: &'b [u8],
    kind: EntryKind,
    stat: EntryStat,
    is_file: bool,
)
    requires
        call_ensures(DirectoryWalk::visit, (walk, entry, now), ()),
        *entry == (EntryFacts::Found { name, kind, stat: Some(stat), is_file }),
        old(walk)@.awaiting is None,
        old(walk)@.removal is None,
        old(walk)@.stack.len() > 0,
        old(walk)@.stack.last().state == FrameState::Open,
        name@ != seq![0x2eu8],
        name@ != seq![0x2eu8, 0x2eu8],
        vstd::utf8::valid_utf8(name@),
        stat.dev == old(walk).spec_root_dev(),
        kind == EntryKind::RegularFile || kind == EntryKind::Symlink,
        old(walk).spec_walker().engine().verdict_on(
            paths::joined(old(walk)@.stack.last().path, vstd::utf8::decode_utf8(name@)),
            is_file,
        ) is Delete,
        kind == EntryKind::RegularFile ==> old(walk).spec_walker().min_age() == 0 || (
        stat.mtime >= 0 && now >= stat.mtime + old(walk).spec_walker().min_age()) || (stat.mtime
            < 0 && now >= old(walk).spec_walker().min_age()),
        stat.size >= 0,
        old(walk)@.stats.files_deleted < usize::MAX,
        old(walk)@.stats.bytes_freed + stat.size <= u64::MAX,
    ensures
        final(walk)@.stack == old(walk)@.stack,
        final(walk)@.removal is None,
        !old(walk).spec_walker().only_counts() ==> {
            &&& final(walk)@.stats == old(walk)@.stats
            &&& final(walk)@.awaiting is Some
            &&& final(walk)@.awaiting->0.name == vstd::utf8::decode_utf8(name@)
            &&& final(walk)@.awaiting->0.ino == stat.ino
            &&& final(walk)@.awaiting->0.kind == kind
            &&& final(walk)@.awaiting->0.bytes == if kind == EntryKind::RegularFile {
                stat.size as int
            } else {
                0
            }
        },
        old(walk).spec_walker().only_counts() ==> {
            &&& final(walk)@.awaiting is None
            &&& final(walk)@.stats.files_deleted == old(walk)@.stats.files_deleted + 1
            &&& final(walk)@.stats.bytes_freed == old(walk)@.stats.bytes_freed + if kind
                == EntryKind::RegularFile {
                stat.size as int
            } else {
                0
            }
            &&& final(walk)@.stats.skipped_files == old(walk)@.stats.skipped_files
            &&& final(walk)@.stats.errors_count == old(walk)@.stats.errors_count
            &&& final(walk)@.stats.frozen_apps_affected == old(walk)@.stats.frozen_apps_affected
            &&& final(walk)@.stats.active_apps_affected == old(walk)@.stats.active_apps_affected
        },
{
}

/// In every directory a regular file that was changed less than the walker's age before
/// `now`, or after it, stays: it counts as skipped at most.
pub proof fn law_young_file_stays_in_every_directory<'a, 'b>(
    walk: &mut DirectoryWalk<'a>,
    entry: &EntryFacts<'b>,
    now: u64,
    name: &'b [u8],
    stat: EntryStat,
    is_file: bool,
)
    requires
        call_ensures(DirectoryWalk::visit, (walk, entry, now), ()),
        *entry == (EntryFacts::Found {
            name,
            kind: EntryKind::RegularFile,
            stat: Some(stat),
            is_file,
        }),
        old(walk).spec_walker().min_age() > 0,
        now < stat.mtime + old(walk).spec_walker().min_age() || now
            < old(walk).spec_walker().min_age(),
        old(walk)@.stats.skipped_files < usize::MAX,
        old(walk)@.stats.errors_count < usize::MAX,
    ensures
        final(walk)@.awaiting == old(walk)@.awaiting,
        final(walk)@.removal == old(walk)@.removal,
        final(walk)@.stack == old(walk)@.stack,
        final(walk)@.stats.files_deleted == old(walk)@.stats.files_deleted,
        final(walk)@.stats.bytes_freed == old(walk)@.stats.bytes_freed,
        final(walk)@.stats.errors_count == old(walk)@.stats.errors_count,
        old(walk)@.stats.skipped_files <= final(walk)@.stats.skipped_files <= old(walk)@.stats.skipped_files + 1,
{
}

/// A directory that the rules let go is gone through as junk itself, and its folder is
/// removed afterwards exactly where it stands in junk and the walker removes. One that
/// they do not let go is gone through as any other and stays. Either is entered under
/// its own name below the directory that it stands in.
pub proof fn law_directories_are_entered<'a, 'b>(
    walk: &mut DirectoryWalk<'a>,
    entry: &EntryFacts<'b>,
    now: u64,
    name: &'b [u8],
    stat: EntryStat,
    is_file: bool,
)
    requires
        call_ensures(DirectoryWalk::visit, (walk, entry, now), ()),
        *entry == (EntryFacts::Found { name, kind: EntryKind::Directory, stat: Some(stat), is_file }),
        old(walk)@.awaiting is None,
        old(walk)@.removal is None,
        old(walk)@.stack.len() > 0,
        old(walk)@.stack.last().state == FrameState::Open,
        name@ != seq![0x2eu8],
        name@ != seq![0x2eu8, 0x2eu8],
        vstd::utf8::valid_utf8(name@),
        stat.dev == old(walk).spec_root_dev(),
    ensures
        final(walk)@.awaiting is None,
        final(walk)@.removal is None,
        final(walk)@.stack.len() == old(walk)@.stack.len() + 1,
        final(walk)@.stack.drop_last() == old(walk)@.stack,
        final(walk)@.stack.last().state == FrameState::New,
        final(walk)@.stack.last().path == paths::joined(
            old(walk)@.stack.last().path,
            vstd::utf8::decode_utf8(name@),
        ),
        ({
            let junk = old(walk).spec_walker().engine().verdict_on(
                final(walk)@.stack.last().path,
                is_file,
            ) is Delete;
            let top = final(walk)@.stack.last();
            &&& top.mode == if junk {
                WalkMode::Purge
            } else {
                WalkMode::Walk
            }
            &&& top.folder is Some <==> junk && old(walk)@.stack.last().mode == WalkMode::Purge
                && !old(walk).spec_walker().only_counts()
            &&& top.folder is Some ==> top.folder->0.ino == stat.ino && top.folder->0.name
                == vstd::utf8::decode_utf8(name@)
        }),
        final(walk)@.stats.files_deleted == old(walk)@.stats.files_deleted,
        final(walk)@.stats.bytes_freed == old(walk)@.stats.bytes_freed,
        final(walk)@.stats.skipped_files == old(walk)@.stats.skipped_files,
        final(walk)@.stats.errors_count == old(walk)@.stats.errors_count,
{
    assert(final(walk)@.stack.drop_last() =~= old(walk)@.stack);
}

/// An application counts once, as frozen or as active, when the walk enters its
/// directory right below the root: the directory belongs to a user id of an application,
/// it is not junk itself, and it is known which applications are frozen. Nothing else
/// counts as an application.
pub proof fn law_applications_are_counted<'a, 'b>(
    walk: &mut DirectoryWalk<'a>,
    entry: &EntryFacts<'b>,
    now: u64,
    name: &'b [u8],
    kind: EntryKind,
    stat: EntryStat,
    is_file: bool,
)
    requires
        call_ensures(DirectoryWalk::visit, (walk, entry, now), ()),
        *entry == (EntryFacts::Found { name, kind, stat: Some(stat), is_file }),
        old(walk)@.stats.frozen_apps_affected < usize::MAX,
        old(walk)@.stats.active_apps_affected < usize::MAX,
    ensures
        ({
            let entered = final(walk)@.stack.len() > old(walk)@.stack.len();
            let app = entered && old(walk)@.stack.len() == 1 && old(walk)@.stack.last().mode
                == WalkMode::Walk && final(walk)@.stack.last().mode == WalkMode::Walk && stat.uid
                >= 10_000 && old(walk).spec_walker().frozen() is Some;
            let frozen = app && old(walk).spec_walker().frozen()->0.contains(stat.uid);
            &&& final(walk)@.stats.frozen_apps_affected == old(walk)@.stats.frozen_apps_affected
                + if frozen {
                1int
            } else {
                0
            }
            &&& final(walk)@.stats.active_apps_affected == old(walk)@.stats.active_apps_affected
                + if app && !frozen {
                1int
            } else {
                0
            }
        }),
{
}

/// What the rules do not let go stays untouched: an entry that is no directory changes
/// nothing, and so does an item that is neither a file, a link nor a directory.
pub proof fn law_what_is_no_junk_stays<'a, 'b>(
    walk: &mut DirectoryWalk<'a>,
    entry: &EntryFacts<'b>,
    now: u64,
    name: &'b [u8],
    kind: EntryKind,
    stat: EntryStat,
    is_file: bool,
)
    requires
        call_ensures(DirectoryWalk::visit, (walk, entry, now), ()),
        *entry == (EntryFacts::Found { name, kind, stat: Some(stat), is_file }),
        vstd::utf8::valid_utf8(name@),
        stat.dev == old(walk).spec_root_dev(),
        kind != EntryKind::Directory,
        old(walk).spec_walker().engine().verdict_on(
            paths::joined(old(walk)@.stack.last().path, vstd::utf8::decode_utf8(name@)),
            is_file,
        ) is Skip || (kind != EntryKind::RegularFile && kind != EntryKind::Symlink),
    ensures
        final(walk)@ == old(walk)@,
{
}

/// What cannot be looked at: in a directory that is gone through as any other an entry
/// that cannot be read counts as an error, and one whose name is no text as skipped; in
/// junk both are passed over. What stands on another device counts as skipped. None of
/// these is entered or removed.
pub proof fn law_unclear_entries_are_counted<'a, 'b>(
    walk: &mut DirectoryWalk<'a>,
    entry: &EntryFacts<'b>,
    now: u64,
)
    requires
        call_ensures(DirectoryWalk::visit, (walk, entry, now), ()),
        old(walk)@.awaiting is None,
        old(walk)@.removal is None,
        old(walk)@.stack.len() > 0,
        old(walk)@.stack.last().state == FrameState::Open,
        old(walk)@.stats.skipped_files < usize::MAX,
        old(walk)@.stats.errors_count < usize::MAX,
        match *entry {
            EntryFacts::Unreadable => true,
            EntryFacts::Found { name, stat, .. } => name@ != seq![0x2eu8] && name@ != seq![
                0x2eu8,
                0x2eu8,
            ] && (!vstd::utf8::valid_utf8(name@) || stat is None || stat->0.dev
                != old(walk).spec_root_dev()),
        },
    ensures
        final(walk)@.stack == old(walk)@.stack,
        final(walk)@.awaiting is None,
        final(walk)@.removal is None,
        final(walk)@.stats.files_deleted == old(walk)@.stats.files_deleted,
        final(walk)@.stats.bytes_freed == old(walk)@.stats.bytes_freed,
        ({
            let walks = old(walk)@.stack.last().mode == WalkMode::Walk;
            let nameless = entry matches EntryFacts::Found { name, .. } && !vstd::utf8::valid_utf8(
                name@,
            );
            let abroad = !nameless && (entry matches EntryFacts::Found { stat: Some(st), .. }
                && st.dev != old(walk).spec_root_dev());
            &&& final(walk)@.stats.skipped_files == old(walk)@.stats.skipped_files + if abroad || (
            walks && nameless) {
                1int
            } else {
                0
            }
            &&& final(walk)@.stats.errors_count == old(walk)@.stats.errors_count + if walks
                && !nameless && !abroad {
                1int
            } else {
                0
            }
        }),
{
}

/// A removal that worked counts once, with the bytes of the item that was asked to be
/// removed; one that failed counts as an error. Either way the walk waits no longer.
pub proof fn law_removals_are_counted<'a>(walk: &mut DirectoryWalk<'a>, ok: bool)
    requires
        call_ensures(DirectoryWalk::unlinked, (walk, ok), ()),
        old(walk)@.awaiting is Some,
        old(walk)@.stats.files_deleted < usize::MAX,
        old(walk)@.stats.errors_count < usize::MAX,
        old(walk)@.stats.bytes_freed + old(walk)@.awaiting->0.bytes <= u64::MAX,
    ensures
        final(walk)@.awaiting is None,
        final(walk)@.stack == old(walk)@.stack,
        final(walk)@.stats.files_deleted == old(walk)@.stats.files_deleted + if ok {
            1int
        } else {
            0
        },
        final(walk)@.stats.bytes_freed == old(walk)@.stats.bytes_freed + if ok {
            old(walk)@.awaiting->0.bytes as int
        } else {
            0
        },
        final(walk)@.stats.errors_count == old(walk)@.stats.errors_count + if ok {
            0int
        } else {
            1
        },
        final(walk)@.stats.skipped_files == old(walk)@.stats.skipped_files,
{
}

/// The order of a walk: an item that is to be removed comes first, then the folder that
/// was left last, then the innermost directory: it is opened once, read while it is
/// open, and left when nothing more is read from it, when the job is cancelled, or
/// unopened where it lies more than twenty levels below the root. The walk is over
/// exactly where no directory is left.
pub proof fn law_steps_follow_the_stack<'a>(
    walk: &mut DirectoryWalk<'a>,
    cancelled: bool,
    r: WalkStep,
)
    requires
        call_ensures(DirectoryWalk::next_step, (walk, cancelled), r),
    ensures
        old(walk)@.awaiting is Some ==> (r matches WalkStep::Unlink(item) && item@ == old(walk)@.awaiting->0) && final(walk)@ == old(walk)@,
        old(walk)@.awaiting is None && old(walk)@.removal is Some ==> (
        r matches WalkStep::RemoveFolder(folder) && folder@ == old(walk)@.removal->0) && final(walk)@.removal is None && final(walk)@.stack == old(walk)@.stack,
        old(walk)@.awaiting is None && old(walk)@.removal is None ==> {
            let stack = old(walk)@.stack;
            &&& r is Done <==> stack.len() == 0
            &&& r is Open <==> stack.len() > 0 && stack.len() <= 21 && !cancelled
                && stack.last().state == FrameState::New
            &&& r is Read <==> stack.len() > 0 && !cancelled && stack.last().state
                == FrameState::Open
            &&& r matches WalkStep::Open(path) ==> path@ == stack.last().path
            &&& r matches WalkStep::Leave(entered) ==> entered == (stack.last().state
                != FrameState::New)
            &&& r is Leave ==> final(walk)@.stack == stack.drop_last() && final(walk)@.removal
                == stack.last().folder
            &&& r is Done || r is Open || r is Read ==> final(walk)@ == old(walk)@
            &&& r is Done || r is Open || r is Read || r is Leave
        },
        final(walk)@.stats == old(walk)@.stats,
{
}

/// A directory that could be opened is read; one that could not be is left, and counts
/// as skipped unless it is junk itself.
pub proof fn law_unopened_directories_are_skipped<'a>(walk: &mut DirectoryWalk<'a>, ok: bool)
    requires
        call_ensures(DirectoryWalk::opened, (walk, ok), ()),
        old(walk)@.awaiting is None,
        old(walk)@.removal is None,
        old(walk)@.stack.len() > 0,
        old(walk)@.stack.last().state == FrameState::New,
        old(walk)@.stats.skipped_files < usize::MAX,
    ensures
        final(walk)@.stack.len() == old(walk)@.stack.len(),
        final(walk)@.stack.drop_last() == old(walk)@.stack.drop_last(),
        final(walk)@.stack.last().path == old(walk)@.stack.last().path,
        final(walk)@.stack.last().mode == old(walk)@.stack.last().mode,
        final(walk)@.stack.last().folder == old(walk)@.stack.last().folder,
        final(walk)@.stack.last().state == if ok {
            FrameState::Open
        } else {
            FrameState::Closed
        },
        final(walk)@.stats.skipped_files == old(walk)@.stats.skipped_files + if !ok && old(walk)@.stack.last().mode == WalkMode::Walk {
            1int
        } else {
            0
        },
        final(walk)@.stats.files_deleted == old(walk)@.stats.files_deleted,
        final(walk)@.stats.errors_count == old(walk)@.stats.errors_count,
{
    assert(final(walk)@.stack.drop_last() =~= old(walk)@.stack.drop_last());
}

/// A directory without a further entry is left, and nothing else changes.
pub proof fn law_end_closes_the_directory<'a>(walk: &mut DirectoryWalk<'a>)
    requires
        call_ensures(DirectoryWalk::end_of_directory, (walk,), ()),
        old(walk)@.awaiting is None,
        old(walk)@.removal is None,
        old(walk)@.stack.len() > 0,
        old(walk)@.stack.last().state == FrameState::Open,
    ensures
        final(walk)@.stack.len() == old(walk)@.stack.len(),
        final(walk)@.stack.drop_last() == old(walk)@.stack.drop_last(),
        final(walk)@.stack.last().state == FrameState::Closed,
        final(walk)@.stack.last().path == old(walk)@.stack.last().path,
        final(walk)@.stack.last().folder == old(walk)@.stack.last().folder,
        final(walk)@.stats == old(walk)@.stats,
{
    assert(final(walk)@.stack.drop_last() =~= old(walk)@.stack.drop_last());
}

/// A walk begins with the root alone, which is no junk itself and is never removed; it
/// has nothing to do where the root could not be opened, which counts as skipped, or
/// stands on an unknown device.
pub proof fn law_walk_begins_at_the_root<'a>(
    walker: &'a DirectoryWalker<'a>,
    root: &str,
    facts: RootFacts,
    r: DirectoryWalk<'a>,
)
    requires
        call_ensures(DirectoryWalker::clean_directory, (walker, root, facts), r),
    ensures
        r.spec_walker() == *walker,
        r@.stack.len() == if facts is Dev {
            1nat
        } else {
            0
        },
        facts matches RootFacts::Dev(dev) ==> r.spec_root_dev() == dev && r@.stack[0].path == root@
            && r@.stack[0].mode == WalkMode::Walk && r@.stack[0].state == FrameState::New
            && r@.stack[0].folder is None,
        r@.awaiting is None,
        r@.removal is None,
        r@.stats.skipped_files == if facts is Unopened {
            1int
        } else {
            0
        },
        r@.stats.files_deleted == 0,
        r@.stats.bytes_freed == 0,
        r@.stats.errors_count == 0,
        r@.stats.frozen_apps_affected == 0,
        r@.stats.active_apps_affected == 0,
{
}

/// A walker asks for the age that is wanted, in seconds, and for a day at least in safe
/// mode.
pub proof fn law_walker_asks_for_the_age<'a>(
    engine: &'a RuleEngine,
    hours: u32,
    dry_run: bool,
    r: DirectoryWalker<'a>,
)
    requires
        call_ensures(DirectoryWalker::new, (engine, hours, dry_run), r),
    ensures
        r.engine() == *engine,
        r.only_counts() == dry_run,
        r.frozen() is None,
        engine.spec_safety().mode != SafetyMode::Safe ==> r.min_age() == hours * 3600,
        engine.spec_safety().mode == SafetyMode::Safe && hours >= 24 ==> r.min_age() == hours
            * 3600,
        engine.spec_safety().mode == SafetyMode::Safe && hours < 24 ==> r.min_age() == 86_400,
{
}

/// The crash dumps that go: none twice, as many as are not to be kept, newer ones first,
/// and none that is newer than one that stays.
pub proof fn law_oldest_crash_dumps_go(
    walker: &DirectoryWalker,
    files: &Vec<CrashFile>,
    keep: usize,
    r: Vec<usize>,
)
    requires
        call_ensures(DirectoryWalker::clean_crash_dumps_directory, (walker, files, keep), r),
    ensures
        r@.len() == if files@.len() > keep {
            files@.len() - keep
        } else {
            0
        },
        forall|i: int| 0 <= i < r@.len() ==> 0 <= #[trigger] r@[i] < files@.len(),
        forall|i: int, j: int|
            #![trigger r@[i], r@[j]]
            0 <= i < j < r@.len() ==> r@[i] != r@[j] && files@[r@[i] as int].mtime_secs
                >= files@[r@[j] as int].mtime_secs,
        forall|i: int, stays: usize|
            #![trigger r@[i], files@[stays as int]]
            0 <= i < r@.len() && stays < files@.len() && !r@.contains(stays)
                ==> files@[r@[i] as int].mtime_secs <= files@[stays as int].mtime_secs,
{
    let order = choose|order: Seq<usize>| #[trigger]
        sorting::is_stable_order(files@, order) && r@ == beyond(order, keep as int);
    assert(sorting::holds_range(order, 0, files@.len() as int));
    assert forall|i: int| 0 <= i < r@.len() implies 0 <= #[trigger] r@[i] < files@.len() by {
        assert(r@[i] == order[i + keep]);
    }
    assert forall|i: int, j: int|
        #![trigger r@[i], r@[j]]
        0 <= i < j < r@.len() implies r@[i] != r@[j] && files@[r@[i] as int].mtime_secs
        >= files@[r@[j] as int].mtime_secs by {
        assert(r@[i] == order[i + keep]);
        assert(r@[j] == order[j + keep]);
        assert(sorting::precedes(files@, order[i + keep] as int, order[j + keep] as int));
    }
    assert forall|i: int, stays: usize|
        #![trigger r@[i], files@[stays as int]]
        0 <= i < r@.len() && stays < files@.len() && !r@.contains(
            stays,
        ) implies files@[r@[i] as int].mtime_secs <= files@[stays as int].mtime_secs by {
        assert(order.contains(stays));
        let k = choose|k: int| 0 <= k < order.len() && order[k] == stays;
        if k >= keep {
            assert(r@[k - keep] == stays);
        }
        assert(r@[i] == order[i + keep]);
        assert(sorting::precedes(files@, order[k] as int, order[i + keep] as int));
    }
}

/// A crash dump counts as removed, with its size, where it was removed or where the
/// walker only counts, and as an error everywhere else.
pub proof fn law_crash_dumps_are_counted(
    walker: &DirectoryWalker,
    stats: &mut WalkStats,
    removed: bool,
    size: u64,
)
    requires
        call_ensures(DirectoryWalker::crash_dump_done, (walker, stats, removed, size), ()),
        old(stats).files_deleted < usize::MAX,
        old(stats).errors_count < usize::MAX,
        old(stats).bytes_freed + size <= u64::MAX,
    ensures
        ({
            let gone = removed || walker.only_counts();
            &&& final(stats).files_deleted == old(stats).files_deleted + if gone {
                1int
            } else {
                0
            }
            &&& final(stats).bytes_freed == old(stats).bytes_freed + if gone {
                size as int
            } else {
                0
            }
            &&& final(stats).errors_count == old(stats).errors_count + if gone {
                0int
            } else {
                1
            }
            &&& final(stats).skipped_files == old(stats).skipped_files
        }),
{
}

/// A crash dump is a regular file with a name of its own, and carries the name, size,
/// time, device and inode that the system tells.
pub proof fn law_crash_dumps_are_regular_files(
    name: &[u8],
    kind: EntryKind,
    stat: Option<EntryStat>,
    r: Option<CrashFile>,
)
    requires
        call_ensures(CrashFile::accept, (name, kind, stat), r),
    ensures
        r is Some <==> kind == EntryKind::RegularFile && stat is Some && name@ != seq![0x2eu8]
            && name@ != seq![0x2eu8, 0x2eu8] && vstd::utf8::valid_utf8(name@),
        r matches Some(f) ==> {
            &&& f.name@ == vstd::utf8::decode_utf8(name@)
            &&& f.dev == stat->0.dev
            &&& f.ino == stat->0.ino
            &&& stat->0.size >= 0 ==> f.size == stat->0.size
            &&& stat->0.mtime >= 0 ==> f.mtime_secs == stat->0.mtime
            &&& stat->0.mtime < 0 ==> f.mtime_secs == 0
        },
{
}

/// There is room where no count would run over.
pub proof fn law_room_is_what_counts_leave(s: &WalkStats, bytes: u64, r: bool)
    requires
        call_ensures(WalkStats::has_room, (s, bytes), r),
    ensures
        r <==> s.bytes_freed + bytes <= u64::MAX && s.files_deleted + 1 <= usize::MAX
            && s.skipped_files + 1 <= usize::MAX && s.errors_count + 1 <= usize::MAX
            && s.frozen_apps_affected + 1 <= usize::MAX && s.active_apps_affected + 1 <= usize::MAX,
{
}

/// A removal counts one file and its bytes where it worked, and one error where it did
/// not; nothing else changes.
pub proof fn law_removal_counts_once(s: &mut WalkStats, ok: bool, bytes: u64)
    requires
        call_ensures(WalkStats::count_removal, (s, ok, bytes), ()),
        old(s).files_deleted < usize::MAX,
        old(s).errors_count < usize::MAX,
        old(s).bytes_freed + bytes <= u64::MAX,
    ensures
        ok ==> final(s).files_deleted == old(s).files_deleted + 1 && final(s).bytes_freed == old(s).bytes_freed + bytes && final(s).errors_count == old(s).errors_count,
        !ok ==> final(s).errors_count == old(s).errors_count + 1 && final(s).files_deleted == old(s).files_deleted && final(s).bytes_freed == old(s).bytes_freed,
        final(s).skipped_files == old(s).skipped_files,
        final(s).frozen_apps_affected == old(s).frozen_apps_affected,
        final(s).active_apps_affected == old(s).active_apps_affected,
{
}

/// A walk tells what it counted, and has the room that its counts leave.
pub proof fn law_walk_tells_its_counts<'a>(
    walk: &DirectoryWalk<'a>,
    stats: WalkStats,
    bytes: u64,
    room: bool,
    same: bool,
)
    requires
        call_ensures(DirectoryWalk::stats, (walk,), stats),
        call_ensures(DirectoryWalk::has_room, (walk, bytes), room),
        call_ensures(WalkStats::has_room, (&stats, bytes), same),
    ensures
        stats == walk@.stats,
        room == same,
{
}

/// Telling a walker which applications are frozen changes nothing else of it.
pub proof fn law_frozen_applications_are_kept<'a>(
    walker: DirectoryWalker<'a>,
    frozen: Option<&'a HashSet<u32>>,
    r: DirectoryWalker<'a>,
    dry: bool,
    still: bool,
)
    requires
        call_ensures(DirectoryWalker::with_frozen_uids, (walker, frozen), r),
        call_ensures(DirectoryWalker::is_dry_run, (&walker,), dry),
        call_ensures(DirectoryWalker::is_dry_run, (&r,), still),
    ensures
        dry == still,
        r.min_age() == walker.min_age(),
        r.engine() == walker.engine(),
        r.frozen() is Some <==> frozen is Some,
        frozen is Some ==> r.frozen()->0 == frozen->0@,
{
}

/// Whatever a walk does, it goes on under the same walker and on the same device.
pub proof fn law_walk_keeps_its_walker_and_device<'a, 'b>(
    walk: &mut DirectoryWalk<'a>,
    entry: &EntryFacts<'b>,
    now: u64,
    stepping: &mut DirectoryWalk<'a>,
    cancelled: bool,
    step: WalkStep,
    opening: &mut DirectoryWalk<'a>,
    ok: bool,
    ending: &mut DirectoryWalk<'a>,
    removing: &mut DirectoryWalk<'a>,
)
    requires
        call_ensures(DirectoryWalk::visit, (walk, entry, now), ()),
        call_ensures(DirectoryWalk::next_step, (stepping, cancelled), step),
        call_ensures(DirectoryWalk::opened, (opening, ok), ()),
        call_ensures(DirectoryWalk::end_of_directory, (ending,), ()),
        call_ensures(DirectoryWalk::unlinked, (removing, ok), ()),
    ensures
        final(walk).spec_walker() == old(walk).spec_walker(),
        final(walk).spec_root_dev() == old(walk).spec_root_dev(),
        final(stepping).spec_walker() == old(stepping).spec_walker(),
        final(stepping).spec_root_dev() == old(stepping).spec_root_dev(),
        final(opening).spec_walker() == old(opening).spec_walker(),
        final(opening).spec_root_dev() == old(opening).spec_root_dev(),
        final(ending).spec_walker() == old(ending).spec_walker(),
        final(ending).spec_root_dev() == old(ending).spec_root_dev(),
        final(removing).spec_walker() == old(removing).spec_walker(),
        final(removing).spec_root_dev() == old(removing).spec_root_dev(),
{
}

/// A walker that was made to count only says so, and no other does.
pub proof fn law_walker_tells_whether_it_only_counts<'a>(
    engine: &'a RuleEngine,
    hours: u32,
    dry_run: bool,
    walker: DirectoryWalker<'a>,
    r: bool,
)
    requires
        call_ensures(DirectoryWalker::new, (engine, hours, dry_run), walker),
        call_ensures(DirectoryWalker::is_dry_run, (&walker,), r),
    ensures
        r == dry_run,
{
}

} // verus!
