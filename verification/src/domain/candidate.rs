//! What a scan finds.
use vstd::prelude::*;

use crate::domain::types::{
    ByteCount, CandidateId, DeviceNumber, FileIdentity, InodeNumber, RelativePath, TargetId,
    UnixTimestamp,
};

verus! {

/// An item that a scan found below a target.
#[derive(Debug, Clone, PartialEq, Eq)]
pub struct Candidate {
    pub candidate_id: CandidateId,
    pub target_id: TargetId,
    pub rel_path: RelativePath,
    pub identity: FileIdentity,
    pub size_bytes: ByteCount,
    pub mtime: UnixTimestamp,
    pub atime: Option<UnixTimestamp>,
    pub is_dir: bool,
    pub is_symlink: bool,
}

impl Candidate {
    pub fn is_regular_file(&self) -> (r: bool)
        ensures
            r == (!self.is_dir && !self.is_symlink),
    {
        !self.is_dir && !self.is_symlink
    }

    /// A copy of this candidate.
    pub fn copy(&self) -> (r: Self)
        ensures
            r == *self,
    {
        Candidate {
            candidate_id: self.candidate_id,
            target_id: self.target_id.copy(),
            rel_path: self.rel_path.copy(),
            identity: self.identity,
            size_bytes: self.size_bytes,
            mtime: self.mtime,
            atime: self.atime,
            is_dir: self.is_dir,
            is_symlink: self.is_symlink,
        }
    }
}

/// A candidate that passed the safety checks of its target.
#[derive(Debug, Clone, PartialEq, Eq)]
pub struct SafetyValidatedCandidate {
    pub candidate: Candidate,
    pub trusted_root_dev: DeviceNumber,
    pub trusted_root_ino: InodeNumber,
    pub validated_at: UnixTimestamp,
}

impl SafetyValidatedCandidate {
    /// Records that `candidate` passed just now.
    pub fn new(candidate: Candidate, root_dev: DeviceNumber, root_ino: InodeNumber) -> (r: Self)
        ensures
            r.candidate == candidate,
            r.trusted_root_dev == root_dev,
            r.trusted_root_ino == root_ino,
    {
        SafetyValidatedCandidate {
            candidate,
            trusted_root_dev: root_dev,
            trusted_root_ino: root_ino,
            validated_at: UnixTimestamp::now(),
        }
    }

    /// A copy of this candidate.
    pub fn copy(&self) -> (r: Self)
        ensures
            r == *self,
    {
        SafetyValidatedCandidate {
            candidate: self.candidate.copy(),
            trusted_root_dev: self.trusted_root_dev,
            trusted_root_ino: self.trusted_root_ino,
            validated_at: self.validated_at,
        }
    }
}

/// A candidate is a regular file where it is neither a directory nor a link, and a copy
/// of it is the same in every respect.
pub proof fn law_candidates_are_told_by_kind(c: &Candidate, regular: bool, copy: Candidate)
    requires
        call_ensures(Candidate::is_regular_file, (c,), regular),
        call_ensures(Candidate::copy, (c,), copy),
    ensures
        c.is_dir || c.is_symlink ==> !regular,
        !c.is_dir && !c.is_symlink ==> regular,
        copy.identity == c.identity && copy.size_bytes == c.size_bytes && copy.mtime == c.mtime
            && copy.atime == c.atime,
        copy.rel_path@ == c.rel_path@ && copy.target_id@ == c.target_id@ && copy.candidate_id
            == c.candidate_id,
        copy.is_dir == c.is_dir && copy.is_symlink == c.is_symlink,
{
}

/// What passed the checks is the candidate itself, together with the root that it was
/// checked against.
pub proof fn law_checked_candidates_keep_their_root(
    c: Candidate,
    dev: DeviceNumber,
    ino: InodeNumber,
    r: SafetyValidatedCandidate,
    copy: SafetyValidatedCandidate,
)
    requires
        call_ensures(SafetyValidatedCandidate::new, (c, dev, ino), r),
        call_ensures(SafetyValidatedCandidate::copy, (&r,), copy),
    ensures
        r.candidate == c && r.trusted_root_dev == dev && r.trusted_root_ino == ino,
        copy.candidate == c && copy.trusted_root_dev == dev && copy.trusted_root_ino == ino
            && copy.validated_at == r.validated_at,
{
}

} // verus!
