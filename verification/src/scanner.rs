//! Looks for candidates below a target.
//!
//! The scanner decides what becomes of each directory and entry; whoever runs it
//! lists the directories.
use vstd::prelude::*;

use crate::domain::candidate::Candidate;
use crate::domain::target::TargetDescriptor;
use crate::domain::types;
use crate::domain::types::{ByteCount, CandidateId, RelativePath, TargetId, UnixTimestamp};
use crate::error::CleanerError;
use crate::fs::{EntryKind, EntryStat, SafeDirEntry};
use crate::paths;
use crate::resource;

verus! {

/// The usual number of candidates handed on at a time.
pub const DEFAULT_SCAN_CHUNK_SIZE: usize = 500;

/// The number of candidates at which a scan stops.
pub const MAX_CANDIDATES_PER_TARGET: usize = 50_000;

/// The depth from which on directories are not listed.
pub const MAX_SCAN_DEPTH: usize = 16;

/// How complete a scan is.
#[derive(Debug, Clone, Copy, PartialEq, Eq, Structural)]
pub enum ScanStatus {
    Complete,
    Partial,
    Failed,
}

/// What a scan found.
#[derive(Debug, Clone)]
pub struct ScanResult {
    pub candidates: Vec<Candidate>,
    pub status: ScanStatus,
    pub errors: Vec<String>,
}

impl ScanResult {
    pub fn new(candidates: Vec<Candidate>, status: ScanStatus, errors: Vec<String>) -> (r: Self)
        ensures
            r.candidates == candidates,
            r.status == status,
            r.errors == errors,
    {
        ScanResult { candidates, status, errors }
    }
}

/// The candidate for an entry. A directory counts as holding nothing itself.
pub open spec fn is_candidate_for(
    candidate: Candidate,
    number: u64,
    target: Seq<char>,
    path: Seq<char>,
    entry: SafeDirEntry,
) -> bool {
    let dir = entry.is_dir && !entry.is_symlink;
    &&& candidate.candidate_id.0 == number
    &&& candidate.target_id@ == target
    &&& candidate.rel_path@ == path
    &&& candidate.identity == entry.identity
    &&& candidate.size_bytes.0 == if dir {
        0
    } else {
        entry.size_bytes
    }
    &&& candidate.mtime.0 == entry.mtime_secs
    &&& candidate.atime is None
    &&& candidate.is_dir == dir
    &&& candidate.is_symlink == (!dir && entry.is_symlink)
}

/// Finds candidates, and numbers them.
#[derive(Debug)]
pub struct CandidateScanner {
    candidate_id_counter: u64,
}

impl Default for CandidateScanner {
    fn default() -> (r: Self)
        ensures
            r.next_number() == 1,
    {
        CandidateScanner::new()
    }
}

/// How the root directory of a target answered.
#[derive(Debug, Clone)]
pub enum RootOpening {
    Opened,
    /// There is none.
    Missing,
    /// It could not be opened, with this error.
    Refused(String),
}

/// What became of an entry.
#[derive(Debug)]
pub enum EntryStep {
    /// The directory is not read any further.
    Stop,
    /// The entry is passed over.
    Pass,
    /// The entry was taken.
    Taken,
    /// The entry was taken, and is a directory to be scanned under this path.
    Descend(RelativePath),
}

/// A scan under way.
#[derive(Debug)]
pub struct TargetScan {
    target_id: TargetId,
    candidates: Vec<Candidate>,
    errors: Vec<String>,
    hit_limit: bool,
}

/// A scan, in terms of characters.
pub struct ScanModel {
    pub target: Seq<char>,
    pub candidates: Seq<Candidate>,
    pub errors: Seq<Seq<char>>,
    pub hit_limit: bool,
}

impl View for TargetScan {
    type V = ScanModel;

    closed spec fn view(&self) -> ScanModel {
        ScanModel {
            target: self.target_id@,
            candidates: self.candidates@,
            errors: crate::text::texts(self.errors@),
            hit_limit: self.hit_limit,
        }
    }
}

impl CandidateScanner {
    /// The number of the next candidate.
    pub closed spec fn next_number(self) -> u64 {
        self.candidate_id_counter
    }

    pub fn new() -> (r: Self)
        ensures
            r.next_number() == 1,
    {
        CandidateScanner { candidate_id_counter: 1 }
    }

    fn next_candidate_id(&mut self) -> (r: CandidateId)
        ensures
            r.0 == old(self).next_number(),
            final(self).next_number() == resource::next_number(old(self).next_number()),
    {
        let n: u64 = self.candidate_id_counter;
        self.candidate_id_counter = n.wrapping_add(1);
        CandidateId(n)
    }

    fn make_candidate(
        &mut self,
        target_id: &TargetId,
        rel_path: RelativePath,
        entry: &SafeDirEntry,
    ) -> (r: Candidate)
        ensures
            is_candidate_for(
                r,
                old(self).next_number(),
                target_id@,
                rel_path@,
                *entry,
            ),
            final(self).next_number() == resource::next_number(old(self).next_number()),
    {
        let dir = entry.is_dir && !entry.is_symlink;
        Candidate {
            candidate_id: self.next_candidate_id(),
            target_id: target_id.copy(),
            rel_path,
            identity: entry.identity,
            size_bytes: if dir {
                ByteCount(0)
            } else {
                ByteCount::new(entry.size_bytes)
            },
            mtime: UnixTimestamp::from_secs(entry.mtime_secs),
            atime: None,
            is_dir: dir,
            is_symlink: !dir && entry.is_symlink,
        }
    }

    /// Begins a scan of a target whose root directory is open.
    pub fn scan_target(&self, target: &TargetDescriptor) -> (r: TargetScan)
        ensures
            r@.target == target.target_id@,
            r@.candidates.len() == 0,
            r@.errors.len() == 0,
            !r@.hit_limit,
    {
        TargetScan {
            target_id: target.target_id.copy(),
            candidates: Vec::new(),
            errors: Vec::new(),
            hit_limit: false,
        }
    }

    /// Begins a scan of a target, or ends it where its root directory is not open:
    /// a missing one holds nothing, any other is an error.
    pub fn scan_target_with_resource(
        &self,
        target: &TargetDescriptor,
        root: RootOpening,
    ) -> (r: Result<TargetScan, ScanResult>)
        ensures
            r is Ok <==> root is Opened,
            r matches Ok(scan) ==> scan@.target == target.target_id@ && scan@.candidates.len() == 0
                && scan@.errors.len() == 0 && !scan@.hit_limit,
            r matches Err(done) ==> {
                &&& done.candidates@.len() == 0
                &&& root is Missing ==> done.status == ScanStatus::Complete && done.errors@.len()
                    == 0
                &&& root matches RootOpening::Refused(e) ==> done.status == ScanStatus::Failed
                    && done.errors@.len() == 1 && done.errors@[0]@ == "Failed to open target root "@
                    + target.base_path@ + ": "@ + e@
            },
    {
        match root {
            RootOpening::Opened => Ok(self.scan_target(target)),
            RootOpening::Missing => Err(
                ScanResult::new(Vec::new(), ScanStatus::Complete, Vec::new()),
            ),
            RootOpening::Refused(e) => {
                let mut m = "Failed to open target root ".to_owned();
                m.append(target.base_path.as_str());
                m.append(": ");
                m.append(e.as_str());
                let mut errors: Vec<String> = Vec::new();
                errors.push(m);
                Err(ScanResult::new(Vec::new(), ScanStatus::Failed, errors))
            },
        }
    }

    /// Begins a scan of a target that hands candidates on in chunks. Where the root
    /// directory is not open there is none: nothing is handed on, and that is no error.
    pub fn scan_target_streaming(
        &self,
        target: &TargetDescriptor,
        chunk_size: usize,
        root: &RootOpening,
    ) -> (r: Option<StreamScan>)
        ensures
            r is Some <==> *root is Opened,
            r matches Some(scan) ==> scan@ == (StreamModel {
                target: target.target_id@,
                buffer: Seq::empty(),
                chunk_size,
                over: false,
                failure: None,
            }),
    {
        match root {
            RootOpening::Opened => {
                let scan = StreamScan {
                    target_id: target.target_id.copy(),
                    buffer: Vec::new(),
                    chunk_size,
                    over: false,
                    failure: None,
                };
                assert(scan@.buffer =~= Seq::empty());
                Some(scan)
            },
            RootOpening::Missing | RootOpening::Refused(_) => None,
        }
    }
}

impl TargetScan {
    /// Asks whether a directory at this depth is to be listed. Where the scan has
    /// enough candidates it takes note of that.
    pub fn enter(&mut self, depth: usize) -> (r: bool)
        ensures
            r == (depth < MAX_SCAN_DEPTH && old(self)@.candidates.len()
                < MAX_CANDIDATES_PER_TARGET),
            final(self)@ == (ScanModel {
                hit_limit: old(self)@.hit_limit || (depth < MAX_SCAN_DEPTH && !r),
                ..old(self)@
            }),
    {
        if depth >= MAX_SCAN_DEPTH {
            return false;
        }
        if self.candidates.len() >= MAX_CANDIDATES_PER_TARGET {
            self.hit_limit = true;
            return false;
        }
        true
    }

    /// Takes note of a directory that could not be listed.
    pub fn unreadable(&mut self, rel_prefix: &RelativePath, error: &str)
        ensures
            final(self)@ == (ScanModel {
                errors: old(self)@.errors.push(
                    "Failed to read directory "@ + rel_prefix@ + ": "@ + error@,
                ),
                ..old(self)@
            }),
    {
        let mut m = "Failed to read directory ".to_owned();
        m.append(rel_prefix.as_str());
        m.append(": ");
        m.append(error);
        let ghost before = self.errors@;
        let ghost added = m@;
        self.errors.push(m);
        assert(crate::text::texts(self.errors@) =~= crate::text::texts(before).push(added));
    }

    /// Takes an entry of the directory at `rel_prefix`, unless the scan has enough
    /// candidates or the entry's name leads elsewhere.
    pub fn visit(
        &mut self,
        scanner: &mut CandidateScanner,
        rel_prefix: &RelativePath,
        entry: &SafeDirEntry,
    ) -> (r: EntryStep)
        ensures
            r is Stop <==> old(self)@.candidates.len() >= MAX_CANDIDATES_PER_TARGET,
            r is Stop ==> final(self)@ == (ScanModel { hit_limit: true, ..old(self)@ })
                && final(scanner).next_number() == old(scanner).next_number(),
            r is Pass <==> old(self)@.candidates.len() < MAX_CANDIDATES_PER_TARGET
                && !types::is_relative(entry.name@),
            r is Pass ==> final(self)@ == old(self)@ && final(scanner).next_number() == old(scanner).next_number(),
            r is Taken || r is Descend ==> {
                let path = paths::joined(rel_prefix@, entry.name@);
                let list = final(self)@.candidates;
                &&& list.len() == old(self)@.candidates.len() + 1
                &&& list.drop_last() == old(self)@.candidates
                &&& is_candidate_for(
                    list.last(),
                    old(scanner).next_number(),
                    old(self)@.target,
                    path,
                    *entry,
                )
                &&& final(self)@ == (ScanModel { candidates: list, ..old(self)@ })
                &&& final(scanner).next_number() == resource::next_number(
                    old(scanner).next_number(),
                )
            },
            r is Descend ==> entry.is_dir && !entry.is_symlink,
            r is Taken ==> !(entry.is_dir && !entry.is_symlink),
            r matches EntryStep::Descend(path) ==> path@ == paths::joined(
                rel_prefix@,
                entry.name@,
            ),
    {
        if self.candidates.len() >= MAX_CANDIDATES_PER_TARGET {
            self.hit_limit = true;
            return EntryStep::Stop;
        }
        let entry_rel = match rel_prefix.join(entry.name.as_str()) {
            Some(p) => p,
            None => {
                return EntryStep::Pass;
            },
        };
        let step = if entry.is_dir && !entry.is_symlink {
            EntryStep::Descend(entry_rel.copy())
        } else {
            EntryStep::Taken
        };
        let ghost before = self.candidates@;
        let candidate = scanner.make_candidate(&self.target_id, entry_rel, entry);
        self.candidates.push(candidate);
        assert(self@.candidates.drop_last() =~= before);
        step
    }

    /// How complete a scan with these errors and candidates is.
    pub open spec fn status(hit_limit: bool, errors: nat, candidates: nat) -> ScanStatus {
        if hit_limit {
            ScanStatus::Partial
        } else if errors == 0 {
            ScanStatus::Complete
        } else if candidates == 0 {
            ScanStatus::Failed
        } else {
            ScanStatus::Partial
        }
    }

    /// Ends the scan.
    pub fn finish(self) -> (r: ScanResult)
        ensures
            r.candidates@ == self@.candidates,
            crate::text::texts(r.errors@) == self@.errors,
            r.status == TargetScan::status(
                self@.hit_limit,
                self@.errors.len(),
                self@.candidates.len(),
            ),
    {
        assert(crate::text::texts(self.errors@).len() == self.errors@.len());
        let status = if self.hit_limit {
            ScanStatus::Partial
        } else if !self.errors.is_empty() && self.candidates.is_empty() {
            ScanStatus::Failed
        } else if !self.errors.is_empty() {
            ScanStatus::Partial
        } else {
            ScanStatus::Complete
        };
        ScanResult::new(self.candidates, status, self.errors)
    }
}

/// A scan under way that hands candidates on in chunks. It is over as soon as the
/// receiver wants no more.
#[derive(Debug)]
pub struct StreamScan {
    target_id: TargetId,
    buffer: Vec<Candidate>,
    chunk_size: usize,
    over: bool,
    failure: Option<CleanerError>,
}

/// Such a scan, in terms of characters.
pub struct StreamModel {
    pub target: Seq<char>,
    pub buffer: Seq<Candidate>,
    pub chunk_size: usize,
    pub over: bool,
    pub failure: Option<CleanerError>,
}

/// The number of candidates in a full chunk.
pub open spec fn chunk_limit(chunk_size: usize) -> nat {
    if chunk_size == 0 {
        1
    } else {
        chunk_size as nat
    }
}

impl View for StreamScan {
    type V = StreamModel;

    closed spec fn view(&self) -> StreamModel {
        StreamModel {
            target: self.target_id@,
            buffer: self.buffer@,
            chunk_size: self.chunk_size,
            over: self.over,
            failure: self.failure,
        }
    }
}

impl StreamModel {
    /// After the receiver answered: it wants more, or no more, or it failed. Once it
    /// wants no more, nothing changes.
    pub open spec fn answered(self, answer: Result<bool, CleanerError>) -> StreamModel {
        if self.over {
            self
        } else {
            match answer {
                Ok(more) => StreamModel { over: !more, ..self },
                Err(e) => StreamModel { over: true, failure: Some(e), ..self },
            }
        }
    }
}

/// What became of an entry, and the chunk to hand on where it is full.
#[derive(Debug)]
pub struct StreamStep {
    pub chunk: Option<Vec<Candidate>>,
    pub descend: Option<RelativePath>,
}

impl StreamScan {
    #[verifier::type_invariant]
    spec fn is_below_limit(self) -> bool {
        self.buffer@.len() < chunk_limit(self.chunk_size)
    }

    /// Asks whether a directory at this depth is to be listed.
    pub fn enter(&self, depth: usize) -> (r: bool)
        ensures
            r == (depth < MAX_SCAN_DEPTH && !self@.over),
    {
        depth < MAX_SCAN_DEPTH && !self.over
    }

    /// `true` where the receiver wants no more.
    pub fn is_over(&self) -> (r: bool)
        ensures
            r == self@.over,
    {
        self.over
    }

    /// Takes an entry of the directory at `rel_prefix`, unless its name leads
    /// elsewhere or the scan is over. A chunk that is full is handed on.
    pub fn visit(
        &mut self,
        scanner: &mut CandidateScanner,
        rel_prefix: &RelativePath,
        entry: &SafeDirEntry,
    ) -> (r: StreamStep)
        ensures
            old(self)@.over || !types::is_relative(entry.name@) ==> r.chunk is None
                && r.descend is None && final(self)@ == old(self)@ && final(scanner).next_number()
                == old(scanner).next_number(),
            !old(self)@.over && types::is_relative(entry.name@) ==> {
                let path = paths::joined(rel_prefix@, entry.name@);
                let full = old(self)@.buffer.len() + 1 >= old(self)@.chunk_size;
                let list = if full {
                    r.chunk->0@
                } else {
                    final(self)@.buffer
                };
                &&& r.chunk is Some <==> full
                &&& full ==> final(self)@.buffer.len() == 0 && list.len() == chunk_limit(
                    old(self)@.chunk_size,
                )
                &&& list.len() == old(self)@.buffer.len() + 1
                &&& list.drop_last() == old(self)@.buffer
                &&& is_candidate_for(
                    list.last(),
                    old(scanner).next_number(),
                    old(self)@.target,
                    path,
                    *entry,
                )
                &&& final(self)@ == (StreamModel { buffer: final(self)@.buffer, ..old(self)@ })
                &&& final(scanner).next_number() == resource::next_number(
                    old(scanner).next_number(),
                )
                &&& r.descend is Some <==> entry.is_dir && !entry.is_symlink
                &&& r.descend is Some ==> r.descend->0@ == path
            },
    {
        proof {
            use_type_invariant(&*self);
        }
        if self.over {
            return StreamStep { chunk: None, descend: None };
        }
        let entry_rel = match rel_prefix.join(entry.name.as_str()) {
            Some(p) => p,
            None => {
                return StreamStep { chunk: None, descend: None };
            },
        };
        let descend = if entry.is_dir && !entry.is_symlink {
            Some(entry_rel.copy())
        } else {
            None
        };
        let ghost before = self.buffer@;
        let candidate = scanner.make_candidate(&self.target_id, entry_rel, entry);
        let mut list: Vec<Candidate> = Vec::new();
        std::mem::swap(&mut list, &mut self.buffer);
        list.push(candidate);
        assert(list@.drop_last() =~= before);
        if list.len() >= self.chunk_size {
            StreamStep { chunk: Some(list), descend }
        } else {
            self.buffer = list;
            StreamStep { chunk: None, descend }
        }
    }

    /// Takes the receiver's answer to a chunk.
    pub fn answered(&mut self, answer: Result<bool, CleanerError>)
        ensures
            final(self)@ == old(self)@.answered(answer),
    {
        proof {
            use_type_invariant(&*self);
        }
        if self.over {
            return ;
        }
        match answer {
            Ok(more) => {
                self.over = !more;
            },
            Err(e) => {
                self.over = true;
                self.failure = Some(e);
            },
        }
    }

    /// What is left to hand on at the end. Nothing is, where the scan is over.
    pub fn rest(&mut self) -> (r: Option<Vec<Candidate>>)
        ensures
            r is Some <==> !old(self)@.over && old(self)@.buffer.len() > 0,
            r is Some ==> r->0@ == old(self)@.buffer && r->0@.len() < chunk_limit(
                old(self)@.chunk_size,
            ),
            final(self)@ == (StreamModel {
                buffer: if r is Some {
                    Seq::empty()
                } else {
                    old(self)@.buffer
                },
                ..old(self)@
            }),
    {
        proof {
            use_type_invariant(&*self);
        }
        if self.over || self.buffer.is_empty() {
            return None;
        }
        let mut list: Vec<Candidate> = Vec::new();
        std::mem::swap(&mut list, &mut self.buffer);
        assert(self.buffer@ =~= Seq::empty());
        Some(list)
    }

    /// Ends the scan: with the receiver's error, where it failed.
    pub fn finish(self) -> (r: Result<(), CleanerError>)
        ensures
            r == match self@.failure {
                Some(e) => Err::<(), CleanerError>(e),
                None => Ok(()),
            },
    {
        match self.failure {
            Some(e) => Err(e),
            None => Ok(()),
        }
    }
}

/// Once the receiver wanted no more, a scan stays over and its end is settled,
/// whatever is answered afterwards.
pub proof fn law_stream_ends_once(
    scan: StreamModel,
    first: Result<bool, CleanerError>,
    later: Result<bool, CleanerError>,
)
    requires
        !scan.over,
        first != Ok::<bool, CleanerError>(true),
    ensures
        scan.answered(first).over,
        scan.answered(first).answered(later) == scan.answered(first),
        first matches Err(e) ==> scan.answered(first).failure == Some(e),
        first is Ok ==> scan.answered(first).failure == scan.failure,
{
}

/// A candidate found below a path that leads down has a path that leads down.
pub proof fn law_candidates_stay_below(prefix: Seq<char>, name: Seq<char>)
    requires
        types::is_relative(prefix),
        types::is_relative(name),
    ensures
        types::is_relative(paths::joined(prefix, name)),
{
    types::law_join_leads_down(prefix, name);
}

/// A candidate is its entry: it stands at the entry's name below the directory that is
/// being scanned, and carries the entry's own identity, time of change and kind, and its
/// size unless it is a directory, which holds nothing itself. A link is no directory. An
/// entry is taken exactly where there is room for it and its name leads nowhere but down,
/// and is scanned itself exactly where it is a directory.
pub proof fn law_candidate_is_its_entry(
    scan: &mut TargetScan,
    scanner: &mut CandidateScanner,
    rel_prefix: &RelativePath,
    entry: &SafeDirEntry,
    r: EntryStep,
)
    requires
        call_ensures(TargetScan::visit, (scan, scanner, rel_prefix, entry), r),
        types::is_relative(rel_prefix@),
    ensures
        r is Stop <==> old(scan)@.candidates.len() >= 50_000,
        r is Pass <==> old(scan)@.candidates.len() < 50_000 && !types::is_relative(entry.name@),
        r is Descend <==> old(scan)@.candidates.len() < 50_000 && types::is_relative(entry.name@)
            && entry.is_dir && !entry.is_symlink,
        r is Stop || r is Pass ==> final(scan)@.candidates == old(scan)@.candidates,
        final(scan)@.hit_limit <==> old(scan)@.hit_limit || r is Stop,
        final(scan)@.errors == old(scan)@.errors,
        r is Taken || r is Descend ==> {
            let all = final(scan)@.candidates;
            let candidate = all.last();
            &&& all.len() == old(scan)@.candidates.len() + 1
            &&& all.drop_last() == old(scan)@.candidates
            &&& candidate.target_id@ == old(scan)@.target
            &&& paths::components(candidate.rel_path@) == paths::components(rel_prefix@)
                + paths::components(entry.name@)
            &&& candidate.identity == entry.identity
            &&& candidate.mtime.0 == entry.mtime_secs
            &&& candidate.atime is None
            &&& candidate.is_symlink == entry.is_symlink
            &&& candidate.is_dir == (entry.is_dir && !entry.is_symlink)
            &&& !candidate.is_dir ==> candidate.size_bytes.0 == entry.size_bytes
            &&& candidate.is_dir ==> candidate.size_bytes.0 == 0
            &&& candidate.candidate_id.0 == old(scanner).next_number()
            &&& old(scanner).next_number() < u64::MAX ==> final(scanner).next_number() == old(scanner).next_number() + 1
        },
        r matches EntryStep::Descend(path) ==> paths::components(path@) == paths::components(
            rel_prefix@,
        ) + paths::components(entry.name@),
{
    if types::is_relative(entry.name@) {
        types::law_join_leads_down(rel_prefix@, entry.name@);
    }
}

/// A scan that hands candidates on in chunks takes the same entries, and each as it is:
/// the candidate is the last of the chunk that is handed on, or of those kept back.
pub proof fn law_streamed_candidate_is_its_entry(
    scan: &mut StreamScan,
    scanner: &mut CandidateScanner,
    rel_prefix: &RelativePath,
    entry: &SafeDirEntry,
    r: StreamStep,
)
    requires
        call_ensures(StreamScan::visit, (scan, scanner, rel_prefix, entry), r),
        types::is_relative(rel_prefix@),
    ensures
        old(scan)@.over || !types::is_relative(entry.name@) ==> r.chunk is None && r.descend is None
            && final(scan)@ == old(scan)@,
        !old(scan)@.over && types::is_relative(entry.name@) ==> {
            let all = if r.chunk is Some {
                r.chunk->0@
            } else {
                final(scan)@.buffer
            };
            let candidate = all.last();
            &&& r.chunk is Some <==> old(scan)@.buffer.len() + 1 >= old(scan)@.chunk_size
            &&& r.chunk is Some ==> final(scan)@.buffer.len() == 0
            &&& all.len() == old(scan)@.buffer.len() + 1
            &&& all.drop_last() == old(scan)@.buffer
            &&& candidate.target_id@ == old(scan)@.target
            &&& paths::components(candidate.rel_path@) == paths::components(rel_prefix@)
                + paths::components(entry.name@)
            &&& candidate.identity == entry.identity
            &&& candidate.mtime.0 == entry.mtime_secs
            &&& candidate.atime is None
            &&& candidate.is_symlink == entry.is_symlink
            &&& candidate.is_dir == (entry.is_dir && !entry.is_symlink)
            &&& !candidate.is_dir ==> candidate.size_bytes.0 == entry.size_bytes
            &&& candidate.is_dir ==> candidate.size_bytes.0 == 0
            &&& candidate.candidate_id.0 == old(scanner).next_number()
            &&& r.descend is Some <==> entry.is_dir && !entry.is_symlink
            &&& r.descend matches Some(path) ==> paths::components(path@) == paths::components(
                rel_prefix@,
            ) + paths::components(entry.name@)
        },
        final(scan)@.over == old(scan)@.over,
{
    if types::is_relative(entry.name@) {
        types::law_join_leads_down(rel_prefix@, entry.name@);
    }
}

/// What the system tells of an entry reaches the candidate: its time of change, device,
/// inode and size are those of the entry that was read.
pub proof fn law_candidate_carries_what_the_system_told(
    name: &[u8],
    kind: EntryKind,
    stat: Option<EntryStat>,
    entry: SafeDirEntry,
    scan: &mut TargetScan,
    scanner: &mut CandidateScanner,
    rel_prefix: &RelativePath,
    r: EntryStep,
)
    requires
        call_ensures(SafeDirEntry::accept, (name, kind, stat), Some(entry)),
        call_ensures(TargetScan::visit, (scan, scanner, rel_prefix, &entry), r),
        r is Taken || r is Descend,
    ensures
        stat is Some,
        ({
            let candidate = final(scan)@.candidates.last();
            &&& stat->0.mtime >= 0 ==> candidate.mtime.0 == stat->0.mtime
            &&& candidate.identity.dev.0 == stat->0.dev
            &&& candidate.identity.ino.0 == stat->0.ino
            &&& candidate.is_dir <==> kind == EntryKind::Directory
            &&& candidate.is_symlink <==> kind == EntryKind::Symlink
            &&& kind != EntryKind::Directory && stat->0.size >= 0 ==> candidate.size_bytes.0
                == stat->0.size
        }),
{
}

/// A directory is listed above the sixteenth level only, and only as long as there is
/// room for candidates; a scan that runs out of room says so.
pub proof fn law_scan_is_bounded(scan: &mut TargetScan, depth: usize, r: bool)
    requires
        call_ensures(TargetScan::enter, (scan, depth), r),
    ensures
        r <==> depth < 16 && old(scan)@.candidates.len() < 50_000,
        final(scan)@.candidates == old(scan)@.candidates,
        final(scan)@.errors == old(scan)@.errors,
        final(scan)@.hit_limit <==> old(scan)@.hit_limit || (depth < 16 && old(scan)@.candidates.len() >= 50_000),
{
}

/// A scan hands over all that it found; it is complete exactly where no directory was
/// unreadable and there was room for everything, and failed exactly where it found
/// nothing but an error.
pub proof fn law_scan_says_how_complete_it_is(scan: TargetScan, r: ScanResult)
    requires
        call_ensures(TargetScan::finish, (scan,), r),
    ensures
        r.candidates@ == scan@.candidates,
        r.errors@.len() == scan@.errors.len(),
        r.status == ScanStatus::Complete <==> !scan@.hit_limit && scan@.errors.len() == 0,
        r.status == ScanStatus::Failed <==> !scan@.hit_limit && scan@.errors.len() > 0
            && scan@.candidates.len() == 0,
{
    assert(crate::text::texts(r.errors@).len() == r.errors@.len());
}

/// An unreadable directory adds one error that names it, and takes nothing away.
pub proof fn law_unreadable_directory_is_an_error(
    scan: &mut TargetScan,
    rel_prefix: &RelativePath,
    error: &str,
)
    requires
        call_ensures(TargetScan::unreadable, (scan, rel_prefix, error), ()),
    ensures
        final(scan)@.errors.len() == old(scan)@.errors.len() + 1,
        final(scan)@.errors.drop_last() == old(scan)@.errors,
        final(scan)@.errors.last() == "Failed to read directory "@ + rel_prefix@ + ": "@ + error@,
        final(scan)@.candidates == old(scan)@.candidates,
        final(scan)@.hit_limit == old(scan)@.hit_limit,
{
    assert(final(scan)@.errors.drop_last() =~= old(scan)@.errors);
}

/// What is left at the end is handed on once: all that was kept back, unless the
/// receiver wants no more.
pub proof fn law_rest_is_handed_on_once(
    scan: &mut StreamScan,
    r: Option<Vec<Candidate>>,
)
    requires
        call_ensures(StreamScan::rest, (scan,), r),
    ensures
        r matches Some(rest) ==> rest@ == old(scan)@.buffer && rest@.len() > 0 && final(scan)@.buffer.len() == 0,
        r is None <==> old(scan)@.over || old(scan)@.buffer.len() == 0,
        r is None ==> final(scan)@.buffer == old(scan)@.buffer,
        final(scan)@.over == old(scan)@.over,
{
}

/// The receiver ends a scan by wanting no more or by failing; its error is what the
/// scan ends with.
pub proof fn law_receiver_ends_the_scan(
    scan: &mut StreamScan,
    answer: Result<bool, CleanerError>,
    ended: StreamScan,
    r: Result<(), CleanerError>,
)
    requires
        call_ensures(StreamScan::answered, (scan, answer), ()),
        !old(scan)@.over,
        old(scan)@.failure is None,
        ended@ == final(scan)@,
        call_ensures(StreamScan::finish, (ended,), r),
    ensures
        final(scan)@.over <==> answer != Ok::<bool, CleanerError>(true),
        final(scan)@.buffer == old(scan)@.buffer,
        answer is Ok ==> r is Ok,
        answer matches Err(e) ==> r == Err::<(), CleanerError>(e),
{
}

/// A scan begins with nothing found, for the target that it is asked for; one whose root
/// is missing is complete at once, and one whose root is refused has failed.
pub proof fn law_scan_begins_empty(
    scanner: &CandidateScanner,
    target: &TargetDescriptor,
    root: RootOpening,
    r: Result<TargetScan, ScanResult>,
)
    requires
        call_ensures(CandidateScanner::scan_target_with_resource, (scanner, target, root), r),
    ensures
        r is Ok <==> root is Opened,
        r matches Ok(scan) ==> scan@.target == target.target_id@ && scan@.candidates.len() == 0
            && scan@.errors.len() == 0 && !scan@.hit_limit,
        r matches Err(done) ==> done.candidates@.len() == 0 && (done.status == ScanStatus::Complete
            <==> root is Missing) && (done.status == ScanStatus::Failed <==> root is Refused),
{
}

/// A scan begins with nothing found, and so does one that hands on what it finds, which
/// there is only where the root could be opened.
pub proof fn law_scans_begin_with_nothing(
    scanner: &CandidateScanner,
    target: &TargetDescriptor,
    scan: TargetScan,
    chunk: usize,
    root: &RootOpening,
    stream: Option<StreamScan>,
)
    requires
        call_ensures(CandidateScanner::scan_target, (scanner, target), scan),
        call_ensures(
            CandidateScanner::scan_target_streaming,
            (scanner, target, chunk, root),
            stream,
        ),
    ensures
        scan@.target == target.target_id@ && scan@.candidates.len() == 0 && scan@.errors.len() == 0
            && !scan@.hit_limit,
        stream is Some <==> *root is Opened,
        stream matches Some(s) ==> s@.target == target.target_id@ && s@.buffer.len() == 0
            && s@.chunk_size == chunk && !s@.over && s@.failure is None,
{
}

/// A scan that hands on goes down to the sixteenth level, until it is over.
pub proof fn law_streamed_scan_is_bounded(scan: &StreamScan, depth: usize, r: bool, over: bool)
    requires
        call_ensures(StreamScan::enter, (scan, depth), r),
        call_ensures(StreamScan::is_over, (scan,), over),
    ensures
        r <==> depth < 16 && !over,
        over == scan@.over,
{
}

/// The first candidate has the number one, and a result is what it was made of.
pub proof fn law_results_are_what_they_were_made_of(
    scanner: CandidateScanner,
    candidates: Vec<Candidate>,
    status: ScanStatus,
    errors: Vec<String>,
    r: ScanResult,
)
    requires
        call_ensures(CandidateScanner::new, (), scanner),
        call_ensures(ScanResult::new, (candidates, status, errors), r),
    ensures
        scanner.next_number() == 1,
        r.candidates@ == candidates@ && r.status == status && r.errors@ == errors@,
{
}

} // verus!
