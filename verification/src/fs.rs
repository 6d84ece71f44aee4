//! Names, kinds and identities of what stands in a directory.
use vstd::prelude::*;
use vstd::string::StringSliceAdditionalSpecFns;

use crate::domain::types::FileIdentity;
use crate::error::CleanerError;
use crate::paths;
use crate::text;

verus! {

/// `core::str::Utf8Error`, carried through unread.
#[verifier::external_type_specification]
#[verifier::external_body]
pub struct ExUtf8Error(core::str::Utf8Error);

/// `core::str::from_utf8`: succeeds on well-formed UTF-8 and on nothing else, and
/// gives the string that has these bytes.
pub assume_specification[ core::str::from_utf8 ](v: &[u8]) -> (r: Result<
    &str,
    core::str::Utf8Error,
>)
    ensures
        r is Ok <==> vstd::utf8::valid_utf8(v@),
        r matches Ok(s) ==> s.spec_bytes() == v@,
;

/// The text that bytes write, where they are UTF-8.
pub fn decode_text<'a>(bytes: &'a [u8]) -> (r: Option<&'a str>)
    ensures
        r is Some <==> vstd::utf8::valid_utf8(bytes@),
        r is Some ==> r->0@ == vstd::utf8::decode_utf8(bytes@),
{
    match core::str::from_utf8(bytes) {
        Ok(s) => {
            proof {
                vstd::utf8::encode_utf8_decode_utf8(s@);
            }
            Some(s)
        },
        Err(_) => None,
    }
}

/// The kind of a directory entry.
#[derive(Debug, Clone, Copy, PartialEq, Eq, Structural)]
pub enum EntryKind {
    RegularFile,
    Directory,
    Symlink,
    Fifo,
    Socket,
    CharacterDevice,
    BlockDevice,
    Unknown,
}

/// The kind that the file type bits of a mode stand for.
pub open spec fn kind_of_mode(mode: u32) -> EntryKind {
    let bits = mode & 0xf000;
    if bits == 0x8000 {
        EntryKind::RegularFile
    } else if bits == 0x4000 {
        EntryKind::Directory
    } else if bits == 0xa000 {
        EntryKind::Symlink
    } else if bits == 0x1000 {
        EntryKind::Fifo
    } else if bits == 0xc000 {
        EntryKind::Socket
    } else if bits == 0x2000 {
        EntryKind::CharacterDevice
    } else if bits == 0x6000 {
        EntryKind::BlockDevice
    } else {
        EntryKind::Unknown
    }
}

/// Calls `rustix::fs::FileType::from_raw_mode`: the kind that the file type bits of
/// a mode stand for.
#[verifier::external_body]
pub(crate) fn file_kind(mode: u32) -> (r: EntryKind)
    ensures
        r == kind_of_mode(mode),
{
    match rustix::fs::FileType::from_raw_mode(mode) {
        rustix::fs::FileType::RegularFile => EntryKind::RegularFile,
        rustix::fs::FileType::Directory => EntryKind::Directory,
        rustix::fs::FileType::Symlink => EntryKind::Symlink,
        rustix::fs::FileType::Fifo => EntryKind::Fifo,
        rustix::fs::FileType::Socket => EntryKind::Socket,
        rustix::fs::FileType::CharacterDevice => EntryKind::CharacterDevice,
        rustix::fs::FileType::BlockDevice => EntryKind::BlockDevice,
        rustix::fs::FileType::Unknown => EntryKind::Unknown,
    }
}

/// What the system says of an entry.
#[derive(Debug, Clone, Copy, PartialEq, Eq, Structural)]
pub struct EntryStat {
    pub dev: u64,
    pub ino: u64,
    pub uid: u32,
    pub mode: u32,
    pub size: i64,
    pub mtime: i64,
}

/// An entry of a directory that may be looked at.
#[derive(Debug, Clone)]
pub struct SafeDirEntry {
    pub name: String,
    pub is_dir: bool,
    pub is_symlink: bool,
    pub identity: FileIdentity,
    pub size_bytes: u64,
    pub mtime_secs: u64,
}

/// A signed number of 64 bits, read as an unsigned one.
pub open spec fn unsigned(n: i64) -> u64 {
    if n >= 0 {
        n as u64
    } else {
        (0x1_0000_0000_0000_0000 + n) as u64
    }
}

/// A signed number of 64 bits, read as an unsigned one.
pub fn as_unsigned(n: i64) -> (r: u64)
    ensures
        r == unsigned(n),
{
    if n >= 0 {
        n as u64
    } else {
        u64::MAX - ((-(n + 1)) as u64)
    }
}

/// The bytes name the directory itself or the one above it.
pub open spec fn is_dots(name: Seq<u8>) -> bool {
    name == seq![0x2eu8] || name == seq![0x2eu8, 0x2eu8]
}

/// `true` where the bytes name the directory itself or the one above it.
pub fn name_is_dots(name: &[u8]) -> (r: bool)
    ensures
        r == is_dots(name@),
{
    let r = (name.len() == 1 && name[0] == 0x2e) || (name.len() == 2 && name[0] == 0x2e && name[1]
        == 0x2e);
    proof {
        if name@.len() == 1 && name@[0] == 0x2e {
            assert(name@ =~= seq![0x2eu8]);
        }
        if name@.len() == 2 && name@[0] == 0x2e && name@[1] == 0x2e {
            assert(name@ =~= seq![0x2eu8, 0x2eu8]);
        }
    }
    r
}

impl SafeDirEntry {
    /// An entry may be looked at where its name is text, it is a file, a directory
    /// or a link, and the system says what it is.
    pub open spec fn is_accepted(name: Seq<u8>, kind: EntryKind, stat: Option<EntryStat>) -> bool {
        &&& !is_dots(name)
        &&& vstd::utf8::valid_utf8(name)
        &&& kind == EntryKind::RegularFile || kind == EntryKind::Directory || kind
            == EntryKind::Symlink
        &&& stat is Some
    }

    /// The entry with this name, where it may be looked at.
    pub fn accept(name: &[u8], kind: EntryKind, stat: Option<EntryStat>) -> (r: Option<Self>)
        ensures
            r is Some <==> SafeDirEntry::is_accepted(name@, kind, stat),
            r matches Some(e) ==> {
                &&& e.name@ == vstd::utf8::decode_utf8(name@)
                &&& e.is_dir == (kind == EntryKind::Directory)
                &&& e.is_symlink == (kind == EntryKind::Symlink)
                &&& e.identity.dev.0 == stat->0.dev
                &&& e.identity.ino.0 == stat->0.ino
                &&& e.size_bytes == if stat->0.size >= 0 {
                    stat->0.size as int
                } else {
                    0
                }
                &&& e.mtime_secs == unsigned(stat->0.mtime)
            },
    {
        if name_is_dots(name) {
            return None;
        }
        let text = match decode_text(name) {
            Some(text) => text,
            None => {
                return None;
            },
        };
        let is_symlink = kind == EntryKind::Symlink;
        let is_dir = kind == EntryKind::Directory;
        if kind != EntryKind::RegularFile && !is_dir && !is_symlink {
            return None;
        }
        match stat {
            Some(st) => Some(
                SafeDirEntry {
                    name: text.to_owned(),
                    is_dir,
                    is_symlink,
                    identity: FileIdentity::new(st.dev, st.ino),
                    size_bytes: if st.size >= 0 {
                        st.size as u64
                    } else {
                        0
                    },
                    mtime_secs: as_unsigned(st.mtime),
                },
            ),
            None => None,
        }
    }
}

/// The path is absolute and leads nowhere up.
pub open spec fn is_trustworthy(path: Seq<char>) -> bool {
    paths::is_absolute(path) && !paths::components(path).contains(seq!['.', '.'])
}

/// A path that is trusted: it is absolute and leads nowhere up.
#[derive(Debug, PartialEq, Eq, Hash)]
pub struct TrustedRoot(String);

impl Clone for TrustedRoot {
    fn clone(&self) -> (r: Self)
        ensures
            r@ == self@,
    {
        proof {
            use_type_invariant(self);
        }
        TrustedRoot(self.0.clone())
    }
}

impl View for TrustedRoot {
    type V = Seq<char>;

    closed spec fn view(&self) -> Seq<char> {
        self.0@
    }
}

impl TrustedRoot {
    #[verifier::type_invariant]
    spec fn leads_nowhere_up(self) -> bool {
        is_trustworthy(self.0@)
    }

    /// Trusts an absolute path that leads nowhere up.
    pub fn new(path: String) -> (r: Result<Self, CleanerError>)
        ensures
            r is Ok <==> is_trustworthy(path@),
            r matches Ok(root) ==> root@ == path@,
            r matches Err(e) ==> (e matches CleanerError::SafetyViolation(m) && m@
                == if paths::is_absolute(path@) {
                "TrustedRoot must not be traversable: "@ + path@
            } else {
                "TrustedRoot must be absolute: "@ + path@
            }),
    {
        if !paths::path_is_absolute(path.as_str()) {
            let mut m = "TrustedRoot must be absolute: ".to_owned();
            m.append(path.as_str());
            return Err(CleanerError::SafetyViolation(m));
        }
        let parts = paths::path_components(path.as_str());
        proof {
            reveal_strlit("..");
            assert(".."@ =~= seq!['.', '.']);
        }
        if text::contains_string(&parts, "..") {
            let mut m = "TrustedRoot must not be traversable: ".to_owned();
            m.append(path.as_str());
            return Err(CleanerError::SafetyViolation(m));
        }
        Ok(TrustedRoot(path))
    }

    pub fn as_path(&self) -> (r: &str)
        ensures
            r@ == self@,
            is_trustworthy(r@),
    {
        proof {
            use_type_invariant(self);
        }
        self.0.as_str()
    }
}

/// The error number of an invalid argument.
pub const EINVAL: i32 = 22;

/// The error number of a step across file systems.
pub const EXDEV: i32 = 18;

/// The error number of too many symbolic links.
pub const ELOOP: i32 = 40;

/// The error number of an operation that is not permitted.
pub const EPERM: i32 = 1;

/// The error number of a refused permission.
pub const EACCES: i32 = 13;

/// The error number of a missing file.
pub const ENOENT: i32 = 2;

/// The error number of a system call that the kernel lacks.
pub const ENOSYS: i32 = 38;

/// The name is one component: it leads neither down nor up nor nowhere.
pub open spec fn is_single_component(name: Seq<char>) -> bool {
    &&& name.len() > 0
    &&& name != seq!['.']
    &&& name != seq!['.', '.']
    &&& !name.contains('/')
    &&& !name.contains('\0')
}

/// Checks that a name is one component.
pub fn validate_single_component(name: &str) -> (r: Result<(), i32>)
    ensures
        r is Ok <==> is_single_component(name@),
        r matches Err(e) ==> e == EINVAL,
{
    proof {
        reveal_strlit(".");
        reveal_strlit("..");
        assert("."@ =~= seq!['.']);
        assert(".."@ =~= seq!['.', '.']);
    }
    if name.is_empty() || text::same_text(name, ".") || text::same_text(name, "..")
        || text::contains_char(name, '/') || text::contains_char(name, '\0') {
        Err(EINVAL)
    } else {
        Ok(())
    }
}

/// What to do after the careful way of opening a directory failed.
#[derive(Debug, Clone, Copy, PartialEq, Eq, Structural)]
pub enum CarefulOpen {
    /// The kernel does not know it: use the plain way, now and from now on.
    Unsupported,
    /// Give up with this error number.
    Refused(i32),
}

/// What to do after the careful way of opening a directory failed with this error
/// number: only a kernel that lacks it is a reason to use the plain way.
pub fn careful_open_failed(errno: i32) -> (r: CarefulOpen)
    ensures
        errno == ENOSYS ==> r == CarefulOpen::Unsupported,
        errno == EPERM || errno == EACCES ==> r == CarefulOpen::Refused(EACCES),
        errno != ENOSYS && errno != EPERM && errno != EACCES ==> r == CarefulOpen::Refused(errno),
{
    if errno == ENOSYS {
        return CarefulOpen::Unsupported;
    }
    if errno == EINVAL {
        return CarefulOpen::Refused(EINVAL);
    }
    if errno == EXDEV {
        return CarefulOpen::Refused(EXDEV);
    }
    if errno == ELOOP {
        return CarefulOpen::Refused(ELOOP);
    }
    if errno == EPERM || errno == EACCES {
        return CarefulOpen::Refused(EACCES);
    }
    if errno == ENOENT {
        return CarefulOpen::Refused(ENOENT);
    }
    CarefulOpen::Refused(errno)
}

/// Checks that a directory opened below another stands on the same device.
pub fn check_same_device(parent_dev: u64, child_dev: u64) -> (r: Result<(), i32>)
    ensures
        r is Ok <==> parent_dev == child_dev,
        r matches Err(e) ==> e == EXDEV,
{
    if child_dev != parent_dev {
        Err(EXDEV)
    } else {
        Ok(())
    }
}

/// The message where an item is not the one expected.
pub open spec fn race_detected(
    is_dir: bool,
    name: Seq<char>,
    current: FileIdentity,
    expected: FileIdentity,
) -> Seq<char> {
    let kind = if is_dir {
        "dir "@
    } else {
        "file "@
    };
    "TOCTOU race detected: "@ + kind + name + " identity "@ + current.shown()
        + " does not match expected "@ + expected.shown()
}

/// Checks right before a removal that the item is still the one expected.
pub fn check_identity(
    is_dir: bool,
    name: &str,
    current: FileIdentity,
    expected: FileIdentity,
) -> (r: Result<(), CleanerError>)
    ensures
        r is Ok <==> current == expected,
        r matches Err(e) ==> (e matches CleanerError::SafetyViolation(m) && m@ == race_detected(
            is_dir,
            name@,
            current,
            expected,
        )),
{
    if current == expected {
        return Ok(());
    }
    let mut m = "TOCTOU race detected: ".to_owned();
    if is_dir {
        m.append("dir ");
    } else {
        m.append("file ");
    }
    m.append(name);
    m.append(" identity ");
    m.append(current.to_text().as_str());
    m.append(" does not match expected ");
    m.append(expected.to_text().as_str());
    Err(CleanerError::SafetyViolation(m))
}

/// `true` where the item, looked at once more, is still the one expected: on the
/// same device, with the same inode and of the same kind.
pub fn is_still_the_same(
    expected_dev: u64,
    expected_ino: u64,
    expected_kind: EntryKind,
    latest: Option<EntryStat>,
) -> (r: bool)
    ensures
        r == (latest is Some && latest->0.dev == expected_dev && latest->0.ino == expected_ino
            && kind_of_mode(latest->0.mode) == expected_kind),
{
    match latest {
        Some(st) => st.dev == expected_dev && st.ino == expected_ino && file_kind(st.mode)
            == expected_kind,
        None => false,
    }
}

/// An entry may be looked at where it is a file, a directory or a link with a name of
/// its own that is text, and carries what the system tells of it: kind, device, inode,
/// size and time of change. A negative size counts as none.
pub proof fn law_entry_carries_what_the_system_tells(
    name: &[u8],
    kind: EntryKind,
    stat: Option<EntryStat>,
    r: Option<SafeDirEntry>,
)
    requires
        call_ensures(SafeDirEntry::accept, (name, kind, stat), r),
    ensures
        r is Some <==> stat is Some && name@ != seq![0x2eu8] && name@ != seq![0x2eu8, 0x2eu8]
            && vstd::utf8::valid_utf8(name@) && (kind == EntryKind::RegularFile || kind
            == EntryKind::Directory || kind == EntryKind::Symlink),
        r matches Some(entry) ==> {
            &&& entry.name@ == vstd::utf8::decode_utf8(name@)
            &&& entry.is_dir <==> kind == EntryKind::Directory
            &&& entry.is_symlink <==> kind == EntryKind::Symlink
            &&& entry.identity.dev.0 == stat->0.dev
            &&& entry.identity.ino.0 == stat->0.ino
            &&& stat->0.size >= 0 ==> entry.size_bytes == stat->0.size
            &&& stat->0.size < 0 ==> entry.size_bytes == 0
            &&& stat->0.mtime >= 0 ==> entry.mtime_secs == stat->0.mtime
            &&& stat->0.mtime < 0 ==> entry.mtime_secs == stat->0.mtime + 0x1_0000_0000_0000_0000
        },
{
}

/// A signed number read as an unsigned one is the same number, or the same but for a
/// multiple of the range where it is negative.
pub proof fn law_unsigned_is_the_same_number(n: i64, r: u64)
    requires
        call_ensures(as_unsigned, (n,), r),
    ensures
        n >= 0 ==> r == n,
        n < 0 ==> r == n + 0x1_0000_0000_0000_0000,
{
}

/// A path is trusted exactly where it begins at the root and no component leads up.
pub proof fn law_trusted_paths_lead_nowhere_up(path: String, r: Result<TrustedRoot, CleanerError>)
    requires
        call_ensures(TrustedRoot::new, (path,), r),
    ensures
        r is Ok <==> path@.len() > 0 && path@[0] == '/' && forall|i: int|
            0 <= i < paths::components(path@).len() ==> #[trigger] paths::components(path@)[i]
                != seq!['.', '.'],
        r matches Ok(root) ==> root@ == path@,
{
    let parts = paths::components(path@);
    if parts.contains(seq!['.', '.']) {
        let i = choose|i: int| 0 <= i < parts.len() && parts[i] == seq!['.', '.'];
        assert(parts[i] == seq!['.', '.']);
    }
}

/// A name is one component exactly where it is not empty, neither `.` nor `..`, and
/// holds neither a slash nor a zero character; any other is an invalid argument.
pub proof fn law_single_components_lead_nowhere(name: &str, r: Result<(), i32>)
    requires
        call_ensures(validate_single_component, (name,), r),
    ensures
        r is Ok <==> name@.len() > 0 && name@ != seq!['.'] && name@ != seq!['.', '.'] && forall|
            i: int,
        |
            0 <= i < name@.len() ==> #[trigger] name@[i] != '/' && name@[i] != '\0',
        r matches Err(e) ==> e == 22,
{
    if name@.contains('/') {
        let i = choose|i: int| 0 <= i < name@.len() && name@[i] == '/';
        assert(name@[i] == '/');
    }
    if name@.contains('\0') {
        let i = choose|i: int| 0 <= i < name@.len() && name@[i] == '\0';
        assert(name@[i] == '\0');
    }
}

/// Before a removal an item has to have the very device and inode that were planned.
pub proof fn law_only_the_planned_item_goes(
    is_dir: bool,
    name: &str,
    current: FileIdentity,
    expected: FileIdentity,
    r: Result<(), CleanerError>,
)
    requires
        call_ensures(check_identity, (is_dir, name, current, expected), r),
    ensures
        r is Ok <==> current.dev.0 == expected.dev.0 && current.ino.0 == expected.ino.0,
        r matches Err(e) ==> e is SafetyViolation,
{
    if current.dev.0 == expected.dev.0 && current.ino.0 == expected.ino.0 {
        assert(current == expected);
    }
}

/// An item looked at once more is the same only where it is still there, on the same
/// device, with the same inode and of the same kind.
pub proof fn law_changed_item_is_not_the_same(
    dev: u64,
    ino: u64,
    kind: EntryKind,
    latest: Option<EntryStat>,
    r: bool,
)
    requires
        call_ensures(is_still_the_same, (dev, ino, kind, latest), r),
        kind == EntryKind::RegularFile || kind == EntryKind::Symlink || kind
            == EntryKind::Directory,
    ensures
        r <==> (latest matches Some(stat) && stat.dev == dev && stat.ino == ino && stat.mode
            & 0xf000 == if kind == EntryKind::RegularFile {
            0x8000u32
        } else if kind == EntryKind::Symlink {
            0xa000u32
        } else {
            0x4000u32
        }),
{
}

/// A step onto another device is refused with the error of a step across file systems;
/// of the careful way of opening only a kernel that lacks it is let off, and a refused
/// permission stays refused.
pub proof fn law_careful_opening_is_not_given_up(
    errno: i32,
    r: CarefulOpen,
    parent_dev: u64,
    child_dev: u64,
    same: Result<(), i32>,
)
    requires
        call_ensures(careful_open_failed, (errno,), r),
        call_ensures(check_same_device, (parent_dev, child_dev), same),
    ensures
        r == CarefulOpen::Unsupported <==> errno == 38,
        r matches CarefulOpen::Refused(e) ==> e == if errno == 1 {
            13
        } else {
            errno
        },
        same is Ok <==> parent_dev == child_dev,
        same matches Err(e) ==> e == 18,
{
}

/// Bytes are a text exactly where they are valid UTF-8, and then the one whose bytes they
/// are.
pub proof fn law_decoded_text_has_the_bytes(bytes: &[u8], r: Option<&str>)
    requires
        call_ensures(decode_text, (bytes,), r),
    ensures
        r is Some <==> vstd::utf8::valid_utf8(bytes@),
        r is Some ==> vstd::utf8::encode_utf8(r->0@) == bytes@,
{
    if r is Some {
        vstd::utf8::decode_utf8_encode_utf8(bytes@);
    }
}

/// One dot and two dots are the names that lead elsewhere, and no other is.
pub proof fn law_dots_lead_elsewhere(name: &[u8], r: bool)
    requires
        call_ensures(name_is_dots, (name,), r),
    ensures
        r <==> (name@.len() == 1 || name@.len() == 2) && forall|i: int|
            0 <= i < name@.len() ==> name@[i] == '.' as u8,
{
    if name@.len() == 1 && name@[0] == 0x2e {
        assert(name@ =~= seq![0x2eu8]);
    }
    if name@.len() == 2 && name@[0] == 0x2e && name@[1] == 0x2e {
        assert(name@ =~= seq![0x2eu8, 0x2eu8]);
    }
    if r {
        assert forall|i: int| 0 <= i < name@.len() implies name@[i] == '.' as u8 by {}
    }
}

/// A trusted root hands out a path that begins at the root and never leads up.
pub proof fn law_trusted_roots_never_lead_up(root: &TrustedRoot, r: &str, i: int)
    requires
        call_ensures(TrustedRoot::as_path, (root,), r),
    ensures
        r@ == root@,
        r@.len() > 0 && r@[0] == '/',
        0 <= i < paths::components(r@).len() ==> paths::components(r@)[i] != ".."@,
{
    reveal_strlit("..");
    assert(".."@ =~= seq!['.', '.']);
}

/// The kind of an item is told by the highest four of the sixteen bits of its mode.
pub(crate) proof fn law_kind_is_told_by_the_mode(mode: u32, r: EntryKind)
    requires
        call_ensures(file_kind, (mode,), r),
    ensures
        r == EntryKind::RegularFile <==> mode & 0xf000 == 0x8000,
        r == EntryKind::Directory <==> mode & 0xf000 == 0x4000,
        r == EntryKind::Symlink <==> mode & 0xf000 == 0xa000,
        r == EntryKind::Fifo <==> mode & 0xf000 == 0x1000,
        r == EntryKind::Socket <==> mode & 0xf000 == 0xc000,
{
}

/// A path that cannot be trusted is told by what is wrong with it.
pub proof fn law_untrusted_paths_are_told_why(path: String, r: Result<TrustedRoot, CleanerError>)
    requires
        call_ensures(TrustedRoot::new, (path,), r),
    ensures
        path@.len() == 0 || path@[0] != '/' ==> (r matches Err(e) && (
        e matches CleanerError::SafetyViolation(m) && m@ == "TrustedRoot must be absolute: "@
            + path@)),
        path@.len() > 0 && path@[0] == '/' && r is Err ==> (
        r->Err_0 matches CleanerError::SafetyViolation(m) && m@
            == "TrustedRoot must not be traversable: "@ + path@),
{
}

} // verus!
