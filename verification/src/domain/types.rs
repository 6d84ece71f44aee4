//! Identifiers and measures that the whole library shares.
use vstd::prelude::*;

use crate::numerals;
use crate::paths;
use crate::text;

verus! {

/// `std::time::SystemTimeError`, carried through unread.
#[verifier::external_type_specification]
#[verifier::external_body]
pub struct ExSystemTimeError(std::time::SystemTimeError);

/// Calls `std::time::SystemTime::elapsed` on `UNIX_EPOCH`: how long ago the Unix
/// epoch was. The clock may show anything, so nothing is claimed.
#[verifier::external_body]
fn elapsed_since_epoch() -> (r: Result<std::time::Duration, std::time::SystemTimeError>) {
    std::time::SystemTime::UNIX_EPOCH.elapsed()
}

/// What `std::time::Duration::as_secs` gives for a duration.
pub uninterp spec fn whole_seconds(d: std::time::Duration) -> u64;

/// `std::time::Duration::as_secs`: the whole seconds of a duration. A duration is
/// opaque here, so their number is only named.
pub assume_specification[ std::time::Duration::as_secs ](d: &std::time::Duration) -> (r: u64)
    ensures
        r == whole_seconds(*d),
;

/// Identifies a logical cleanup job.
#[derive(Debug, Clone, Copy, PartialEq, Eq, PartialOrd, Ord, Hash, Structural)]
pub struct JobId(pub u64);

impl JobId {
    /// The text shown for it.
    pub open spec fn shown(self) -> Seq<char> {
        "job-"@ + numerals::decimal(self.0 as nat)
    }

    /// The text shown for it.
    pub fn to_text(&self) -> (r: String)
        ensures
            r@ == self.shown(),
    {
        numerals::numbered("job-", self.0)
    }
}

/// Identifies one execution attempt of a job.
#[derive(Debug, Clone, Copy, PartialEq, Eq, PartialOrd, Ord, Hash, Structural)]
pub struct AttemptId(pub u64);

impl AttemptId {
    /// The text shown for it.
    pub open spec fn shown(self) -> Seq<char> {
        "attempt-"@ + numerals::decimal(self.0 as nat)
    }

    /// The text shown for it.
    pub fn to_text(&self) -> (r: String)
        ensures
            r@ == self.shown(),
    {
        numerals::numbered("attempt-", self.0)
    }
}

/// Identifies a planned or executed operation.
#[derive(Debug, Clone, Copy, PartialEq, Eq, PartialOrd, Ord, Hash, Structural)]
pub struct OperationId(pub u64);

impl OperationId {
    /// The text shown for it.
    pub open spec fn shown(self) -> Seq<char> {
        "op-"@ + numerals::decimal(self.0 as nat)
    }

    /// The text shown for it.
    pub fn to_text(&self) -> (r: String)
        ensures
            r@ == self.shown(),
    {
        numerals::numbered("op-", self.0)
    }
}

/// Identifies a plan.
#[derive(Debug, Clone, Copy, PartialEq, Eq, PartialOrd, Ord, Hash, Structural)]
pub struct PlanId(pub u64);

impl PlanId {
    /// The text shown for it.
    pub open spec fn shown(self) -> Seq<char> {
        "plan-"@ + numerals::decimal(self.0 as nat)
    }

    /// The text shown for it.
    pub fn to_text(&self) -> (r: String)
        ensures
            r@ == self.shown(),
    {
        numerals::numbered("plan-", self.0)
    }
}

/// Identifies an execution worker.
#[derive(Debug, Clone, Copy, PartialEq, Eq, PartialOrd, Ord, Hash, Structural)]
pub struct WorkerId(pub u32);

impl WorkerId {
    /// The text shown for it.
    pub open spec fn shown(self) -> Seq<char> {
        "worker-"@ + numerals::decimal(self.0 as nat)
    }

    /// The text shown for it.
    pub fn to_text(&self) -> (r: String)
        ensures
            r@ == self.shown(),
    {
        numerals::numbered("worker-", self.0 as u64)
    }
}

/// Identifies an item found within a target.
#[derive(Debug, Clone, Copy, PartialEq, Eq, PartialOrd, Ord, Hash, Structural)]
pub struct CandidateId(pub u64);

impl CandidateId {
    /// The text shown for it.
    pub open spec fn shown(self) -> Seq<char> {
        "cand-"@ + numerals::decimal(self.0 as nat)
    }

    /// The text shown for it.
    pub fn to_text(&self) -> (r: String)
        ensures
            r@ == self.shown(),
    {
        numerals::numbered("cand-", self.0)
    }
}

/// Counts the snapshots of the target catalog or of the configuration, so that
/// a plan made from an old snapshot is told from a new one.
#[derive(Debug, Clone, Copy, PartialEq, Eq, PartialOrd, Ord, Hash, Structural)]
pub struct GenerationId(pub u64);

impl GenerationId {
    /// The text shown for it.
    pub open spec fn shown(self) -> Seq<char> {
        "gen-"@ + numerals::decimal(self.0 as nat)
    }

    /// The text shown for it.
    pub fn to_text(&self) -> (r: String)
        ensures
            r@ == self.shown(),
    {
        numerals::numbered("gen-", self.0)
    }
}

/// Identifies a capability grant.
#[derive(Debug, Clone, Copy, PartialEq, Eq, PartialOrd, Ord, Hash, Structural)]
pub struct GrantId(pub u64);

impl GrantId {
    /// The text shown for it.
    pub open spec fn shown(self) -> Seq<char> {
        "grant-"@ + numerals::decimal(self.0 as nat)
    }

    /// The text shown for it.
    pub fn to_text(&self) -> (r: String)
        ensures
            r@ == self.shown(),
    {
        numerals::numbered("grant-", self.0)
    }
}

/// An inode number.
#[derive(Debug, Clone, Copy, PartialEq, Eq, PartialOrd, Ord, Hash, Structural)]
pub struct InodeNumber(pub u64);

impl InodeNumber {
    /// The text shown for it.
    pub open spec fn shown(self) -> Seq<char> {
        "ino:"@ + numerals::decimal(self.0 as nat)
    }

    /// The text shown for it.
    pub fn to_text(&self) -> (r: String)
        ensures
            r@ == self.shown(),
    {
        numerals::numbered("ino:", self.0)
    }
}

/// A device number.
#[derive(Debug, Clone, Copy, PartialEq, Eq, PartialOrd, Ord, Hash, Structural)]
pub struct DeviceNumber(pub u64);

impl DeviceNumber {
    /// The text shown for it.
    pub open spec fn shown(self) -> Seq<char> {
        "dev:"@ + numerals::decimal(self.0 as nat)
    }

    /// The text shown for it.
    pub fn to_text(&self) -> (r: String)
        ensures
            r@ == self.shown(),
    {
        numerals::numbered("dev:", self.0)
    }
}

/// The generation of a catalog snapshot.
pub type CatalogGeneration = GenerationId;

/// The generation of a configuration.
pub type ConfigGeneration = GenerationId;

impl GenerationId {
    /// The first generation.
    pub fn initial() -> (r: Self)
        ensures
            r.0 == 1,
    {
        GenerationId(1)
    }

    /// The generation after this one; the last one stays.
    pub fn next(self) -> (r: Self)
        ensures
            r.0 == if self.0 < u64::MAX {
                self.0 + 1
            } else {
                u64::MAX as int
            },
    {
        GenerationId(self.0.saturating_add(1))
    }
}

/// Identifies a place that is cleaned.
#[derive(Debug, Clone, PartialEq, Eq, PartialOrd, Ord, Hash)]
pub struct TargetId(pub String);

impl View for TargetId {
    type V = Seq<char>;

    open spec fn view(&self) -> Seq<char> {
        self.0@
    }
}

impl TargetId {
    pub fn new(id: String) -> (r: Self)
        ensures
            r@ == id@,
    {
        TargetId(id)
    }

    /// A copy of this identifier.
    pub fn copy(&self) -> (r: Self)
        ensures
            r == *self,
    {
        TargetId(self.0.clone())
    }

    /// `true` where both identify the same place.
    pub fn same(&self, other: &TargetId) -> (r: bool)
        ensures
            r == (self@ == other@),
    {
        text::same_text(self.0.as_str(), other.0.as_str())
    }

    /// The text shown for it.
    pub fn to_text(&self) -> (r: String)
        ensures
            r@ == "target:"@ + self@,
    {
        let mut r = "target:".to_owned();
        r.append(self.0.as_str());
        r
    }
}

/// A number of bytes.
#[derive(Debug, Clone, Copy, PartialEq, Eq, PartialOrd, Ord, Hash, Structural)]
pub struct ByteCount(pub u64);

impl Default for ByteCount {
    fn default() -> (r: Self)
        ensures
            r.0 == 0,
    {
        ByteCount(0)
    }
}

/// `n / d`, rounded to the nearest integer, to the even one where two are as near.
pub open spec fn round_half_even(n: int, d: int) -> int {
    let q = n / d;
    let twice = 2 * (n % d);
    if twice < d {
        q
    } else if twice > d {
        q + 1
    } else {
        q + q % 2
    }
}

/// The distance of neighbouring double precision numbers of the size of `n`, or 1
/// where that is less.
pub open spec fn double_step(n: nat) -> nat
    decreases n,
{
    if n < 0x20_0000_0000_0000 {
        1
    } else {
        2 * double_step(n / 2)
    }
}

/// The double precision number nearest to `n`.
pub open spec fn nearest_double(n: nat) -> int {
    let step = double_step(n) as int;
    round_half_even(n as int, step) * step
}

/// Hundredths of `unit` in `bytes`, both taken as double precision numbers.
pub open spec fn hundredths(bytes: nat, unit: int) -> int {
    round_half_even(nearest_double(bytes) * 100, unit)
}

/// A number of hundredths, written with two decimals.
pub open spec fn two_decimals(h: int) -> Seq<char> {
    numerals::decimal((h / 100) as nat) + "."@ + numerals::decimal((h / 10 % 10) as nat)
        + numerals::decimal((h % 10) as nat)
}

/// One binary kilobyte.
pub const KIB: u64 = 1024;

/// One binary megabyte.
pub const MIB: u64 = 1_048_576;

/// One binary gigabyte.
pub const GIB: u64 = 1_073_741_824;

fn divide_half_even(n: u128, d: u128) -> (r: u128)
    requires
        0 < d <= 0x1_0000_0000_0000_0000,
        n < 0x1_0000_0000_0000_0000_0000_0000,
    ensures
        r == round_half_even(n as int, d as int),
        r <= n + 1,
{
    let q: u128 = n / d;
    let m: u128 = n % d;
    proof {
        assert(q <= n) by (nonlinear_arith)
            requires
                q == n / d,
                d >= 1,
        ;
        assert(n == 0 ==> m == 0) by (nonlinear_arith)
            requires
                m == n % d,
                d >= 1,
        ;
    }
    if 2 * m < d {
        q
    } else if 2 * m > d {
        q + 1
    } else {
        q + q % 2
    }
}

fn step_of(n: u64) -> (r: u64)
    ensures
        r == double_step(n as nat),
        1 <= r <= 0x1000,
    decreases n,
{
    if n < 0x20_0000_0000_0000 {
        return 1;
    }
    let mut half: u64 = n / 2;
    let mut step: u64 = 2;
    while half >= 0x20_0000_0000_0000
        invariant
            double_step(n as nat) == step * double_step(half as nat),
            2 <= step,
            half >= 0x10_0000_0000_0000,
            half * step <= n,
        decreases half,
    {
        proof {
            let d = double_step((half / 2) as nat) as int;
            assert(step * (2 * d) == (2 * step) * d) by (nonlinear_arith);
            assert(step < 0x800) by (nonlinear_arith)
                requires
                    half * step <= n,
                    n <= 0xffff_ffff_ffff_ffff,
                    half >= 0x20_0000_0000_0000,
            ;
            assert((half / 2) * (2 * step) <= half * step) by (nonlinear_arith)
                requires
                    half >= 0,
                    step >= 0,
            ;
        }
        half = half / 2;
        step = 2 * step;
    }
    proof {
        assert(step * 1 == step);
        assert(step <= 0x1000) by (nonlinear_arith)
            requires
                half * step <= n,
                n <= 0xffff_ffff_ffff_ffff,
                half >= 0x10_0000_0000_0000,
        ;
    }
    step
}

impl ByteCount {
    /// No bytes.
    pub fn zero() -> (r: Self)
        ensures
            r.0 == 0,
    {
        ByteCount(0)
    }

    pub fn new(bytes: u64) -> (r: Self)
        ensures
            r.0 == bytes,
    {
        ByteCount(bytes)
    }

    pub fn as_u64(&self) -> (r: u64)
        ensures
            r == self.0,
    {
        self.0
    }

    /// The sum, or the largest count where the sum is larger.
    pub fn saturating_add(self, other: Self) -> (r: Self)
        ensures
            r.0 == if self.0 + other.0 <= u64::MAX {
                self.0 + other.0
            } else {
                u64::MAX as int
            },
    {
        ByteCount(self.0.saturating_add(other.0))
    }

    /// The difference, or zero where `other` is larger.
    pub fn saturating_sub(self, other: Self) -> (r: Self)
        ensures
            r.0 == if self.0 >= other.0 {
                self.0 - other.0
            } else {
                0
            },
    {
        ByteCount(self.0.saturating_sub(other.0))
    }

    /// The count as people read it: whole bytes below one kilobyte, above that
    /// the largest fitting unit with two decimals.
    pub open spec fn human(self) -> Seq<char> {
        if self.0 >= GIB {
            two_decimals(hundredths(self.0 as nat, GIB as int)) + " GiB"@
        } else if self.0 >= MIB {
            two_decimals(hundredths(self.0 as nat, MIB as int)) + " MiB"@
        } else if self.0 >= KIB {
            two_decimals(hundredths(self.0 as nat, KIB as int)) + " KiB"@
        } else {
            numerals::decimal(self.0 as nat) + " B"@
        }
    }

    fn in_unit(self, unit: u64, name: &str) -> (r: String)
        requires
            1024 <= unit <= GIB,
        ensures
            r@ == two_decimals(hundredths(self.0 as nat, unit as int)) + name@,
    {
        let step: u128 = step_of(self.0) as u128;
        let quotient: u128 = divide_half_even(self.0 as u128, step);
        proof {
            assert(quotient * step <= 0x1_0000_0000_0000_0000_0000) by (nonlinear_arith)
                requires
                    quotient <= 0x1_0000_0000_0000_0000,
                    step <= 0x1000,
            ;
        }
        let near: u128 = quotient * step;
        let h: u128 = divide_half_even(near * 100, unit as u128);
        proof {
            lemma_hundredths_bound(self.0, step as int, near as int, unit as int, h as int);
        }
        let mut r = numerals::decimal_text((h / 100) as u64);
        r.append(".");
        r.append(numerals::decimal_text((h / 10 % 10) as u64).as_str());
        r.append(numerals::decimal_text((h % 10) as u64).as_str());
        r.append(name);
        r
    }

    /// The count as people read it.
    pub fn format_human(&self) -> (r: String)
        ensures
            r@ == self.human(),
    {
        if self.0 >= GIB {
            self.in_unit(GIB, " GiB")
        } else if self.0 >= MIB {
            self.in_unit(MIB, " MiB")
        } else if self.0 >= KIB {
            self.in_unit(KIB, " KiB")
        } else {
            let mut r = numerals::decimal_text(self.0);
            r.append(" B");
            r
        }
    }
}

proof fn lemma_hundredths_bound(n: u64, step: int, near: int, unit: int, h: int)
    requires
        1 <= step <= 0x1000,
        near == round_half_even(n as int, step) * step,
        1024 <= unit,
        h == round_half_even(near * 100, unit),
    ensures
        0 <= h,
        h / 100 <= u64::MAX,
{
    let q = n as int / step;
    assert(0 <= q && q * step <= n) by (nonlinear_arith)
        requires
            q == n as int / step,
            step >= 1,
            n >= 0,
    ;
    let rounded = round_half_even(n as int, step);
    assert(q <= rounded <= q + 1);
    assert(0 <= near <= n + step) by (nonlinear_arith)
        requires
            near == rounded * step,
            0 <= q,
            q * step <= n,
            q <= rounded <= q + 1,
            step >= 1,
    ;
    let p = (near * 100) / unit;
    assert(0 <= p <= near) by (nonlinear_arith)
        requires
            p == (near * 100) / unit,
            unit >= 1024,
            near >= 0,
    ;
    assert(0 <= p && p <= h <= p + 1);
}

/// A moment, in seconds since the Unix epoch.
#[derive(Debug, Clone, Copy, PartialEq, Eq, PartialOrd, Ord, Hash, Structural)]
pub struct UnixTimestamp(pub u64);

impl UnixTimestamp {
    /// The moment that a clock shows: the whole seconds since the epoch; the epoch
    /// where it stands before it.
    pub fn from_clock(
        elapsed: Result<std::time::Duration, std::time::SystemTimeError>,
    ) -> (r: Self)
        ensures
            elapsed matches Ok(d) ==> r.0 == whole_seconds(d),
            elapsed is Err ==> r.0 == 0,
    {
        match elapsed {
            Ok(d) => UnixTimestamp(d.as_secs()),
            Err(_) => UnixTimestamp(0),
        }
    }

    /// The present moment, as the system's clock shows it. Nothing is claimed of it,
    /// for the clock may show anything.
    pub fn now() -> (r: Self) {
        UnixTimestamp::from_clock(elapsed_since_epoch())
    }

    pub fn as_secs(&self) -> (r: u64)
        ensures
            r == self.0,
    {
        self.0
    }

    pub fn from_secs(secs: u64) -> (r: Self)
        ensures
            r.0 == secs,
    {
        UnixTimestamp(secs)
    }

    /// Seconds from this moment to `now`; zero where it lies ahead.
    pub fn age_secs(&self, now: Self) -> (r: u64)
        ensures
            r == if now.0 >= self.0 {
                now.0 - self.0
            } else {
                0
            },
    {
        now.0.saturating_sub(self.0)
    }

    /// The text shown for it.
    pub fn to_text(&self) -> (r: String)
        ensures
            r@ == numerals::decimal(self.0 as nat) + "s"@,
    {
        let mut r = numerals::decimal_text(self.0);
        r.append("s");
        r
    }
}

/// What tells one file from every other: its device and its inode.
#[derive(Debug, Clone, Copy, PartialEq, Eq, Hash, Structural)]
pub struct FileIdentity {
    pub dev: DeviceNumber,
    pub ino: InodeNumber,
}

impl FileIdentity {
    pub fn new(dev: u64, ino: u64) -> (r: Self)
        ensures
            r.dev.0 == dev,
            r.ino.0 == ino,
    {
        FileIdentity { dev: DeviceNumber(dev), ino: InodeNumber(ino) }
    }

    /// The text shown for it.
    pub open spec fn shown(self) -> Seq<char> {
        "["@ + self.dev.shown() + ":"@ + self.ino.shown() + "]"@
    }

    /// The text shown for it.
    pub fn to_text(&self) -> (r: String)
        ensures
            r@ == self.shown(),
    {
        let mut r = "[".to_owned();
        r.append(self.dev.to_text().as_str());
        r.append(":");
        r.append(self.ino.to_text().as_str());
        r.append("]");
        r
    }
}

/// A path below a target: it never leads out of it.
#[derive(Debug, Eq)]
pub struct RelativePath(String);

impl Clone for RelativePath {
    fn clone(&self) -> (r: Self)
        ensures
            r == *self,
    {
        self.copy()
    }
}

impl View for RelativePath {
    type V = Seq<char>;

    closed spec fn view(&self) -> Seq<char> {
        self.0@
    }
}

/// `p` leads nowhere but down: it is not absolute, and every component is a name,
/// neither `.` nor `..`.
pub open spec fn leads_down(p: Seq<char>) -> bool {
    &&& !paths::is_absolute(p)
    &&& forall|i: int|
        0 <= i < paths::components(p).len() ==> (#[trigger] paths::components(p)[i]) != seq!['.']
            && paths::components(p)[i] != seq!['.', '.']
}

/// `p` holds no control character.
pub open spec fn has_no_control(p: Seq<char>) -> bool {
    forall|i: int| 0 <= i < p.len() ==> !text::is_control(#[trigger] p[i])
}

/// `p` is accepted as a path below a target.
pub open spec fn is_relative(p: Seq<char>) -> bool {
    leads_down(p) && has_no_control(p)
}

fn is_plain(s: &str) -> (r: bool)
    ensures
        r == has_no_control(s@),
{
    let v = text::chars_of(s);
    let mut i: usize = 0;
    while i < v.len()
        invariant
            i <= v.len(),
            v@ == s@,
            forall|j: int| 0 <= j < i ==> !text::is_control(#[trigger] s@[j]),
        decreases v.len() - i,
    {
        if text::char_is_control(v[i]) {
            assert(text::is_control(s@[i as int]));
            return false;
        }
        i = i + 1;
    }
    true
}

proof fn lemma_empty_is_relative()
    ensures
        is_relative(Seq::<char>::empty()),
{
    let p = Seq::<char>::empty();
    let pieces = text::split_on(p, '/');
    text::lemma_split_on_nonempty(p, '/');
    reveal_with_fuel(paths::components_among, 2);
    assert(paths::components(p).len() == 0);
}

impl RelativePath {
    #[verifier::type_invariant]
    spec fn stays_below(self) -> bool {
        is_relative(self.0@)
    }

    /// Takes a path where it leads nowhere but down.
    pub fn parse(path_str: &str) -> (r: Option<Self>)
        ensures
            r is Some <==> is_relative(path_str@),
            r is Some ==> r->0@ == path_str@,
    {
        if !is_plain(path_str) {
            return None;
        }
        if paths::path_is_absolute(path_str) {
            return None;
        }
        let parts = paths::path_components(path_str);
        let ghost whole = paths::components(path_str@);
        let mut i: usize = 0;
        proof {
            reveal_strlit(".");
            reveal_strlit("..");
            assert("."@ =~= seq!['.']);
            assert(".."@ =~= seq!['.', '.']);
        }
        while i < parts.len()
            invariant
                i <= parts.len(),
                whole == text::texts(parts@),
                whole == paths::components(path_str@),
                "."@ == seq!['.'],
                ".."@ == seq!['.', '.'],
                forall|j: int| 0 <= j < i ==> (#[trigger] whole[j]) != seq!['.'] && whole[j] != seq![
                    '.',
                    '.',
                ],
            decreases parts.len() - i,
        {
            assert(whole[i as int] == parts@[i as int]@);
            if text::same_text(parts[i].as_str(), ".") || text::same_text(parts[i].as_str(), "..") {
                return None;
            }
            i = i + 1;
        }
        Some(RelativePath(path_str.to_owned()))
    }

    /// The target itself.
    pub fn empty() -> (r: Self)
        ensures
            r@ == Seq::<char>::empty(),
    {
        let r = String::new();
        proof {
            assert(r@ =~= Seq::<char>::empty());
            lemma_empty_is_relative();
        }
        RelativePath(r)
    }

    pub fn as_path(&self) -> (r: &str)
        ensures
            r@ == self@,
            is_relative(r@),
    {
        proof {
            use_type_invariant(self);
        }
        self.0.as_str()
    }

    pub fn as_str(&self) -> (r: &str)
        ensures
            r@ == self@,
            is_relative(r@),
    {
        proof {
            use_type_invariant(self);
        }
        self.0.as_str()
    }

    /// A copy of this path.
    pub fn copy(&self) -> (r: Self)
        ensures
            r == *self,
    {
        proof {
            use_type_invariant(self);
        }
        RelativePath(self.0.clone())
    }

    /// The path `sub` below this one.
    pub fn join(&self, sub: &str) -> (r: Option<Self>)
        ensures
            r is Some <==> is_relative(sub@),
            r is Some ==> r->0@ == paths::joined(self@, sub@),
    {
        match Self::parse(sub) {
            Some(sub_rel) => {
                proof {
                    use_type_invariant(self);
                    law_join_leads_down(self@, sub@);
                }
                Some(RelativePath(paths::join_path(self.as_str(), sub_rel.as_str())))
            },
            None => None,
        }
    }

    /// `true` where both paths have the same components.
    pub fn same(&self, other: &RelativePath) -> (r: bool)
        ensures
            r == (paths::components(self@) == paths::components(other@)),
    {
        paths::same_path(self.0.as_str(), other.0.as_str())
    }
}

impl PartialEq for RelativePath {
    fn eq(&self, other: &RelativePath) -> (r: bool) {
        self.same(other)
    }
}

impl vstd::std_specs::cmp::PartialEqSpecImpl for RelativePath {
    open spec fn obeys_eq_spec() -> bool {
        true
    }

    open spec fn eq_spec(&self, other: &RelativePath) -> bool {
        paths::components(self@) == paths::components(other@)
    }
}

/// Joining two paths that lead down gives a path that leads down, whose
/// components are those of the one followed by those of the other.
pub proof fn law_join_leads_down(base: Seq<char>, sub: Seq<char>)
    requires
        is_relative(base),
        is_relative(sub),
    ensures
        is_relative(paths::joined(base, sub)),
        paths::components(paths::joined(base, sub)) == paths::components(base)
            + paths::components(sub),
{
    let whole = paths::joined(base, sub);
    paths::lemma_components_of_join(base, sub);
    assert forall|i: int| 0 <= i < paths::components(whole).len() implies (
    #[trigger] paths::components(whole)[i]) != seq!['.'] && paths::components(whole)[i] != seq![
        '.',
        '.',
    ] by {
        let n = paths::components(base).len();
        if i < n {
            assert(paths::components(whole)[i] == paths::components(base)[i]);
        } else {
            assert(paths::components(whole)[i] == paths::components(sub)[i - n]);
        }
    }
    assert forall|i: int| 0 <= i < whole.len() implies !text::is_control(#[trigger] whole[i]) by {
        if i < base.len() {
            assert(whole[i] == base[i]);
        } else if whole.len() == base.len() + sub.len() {
            assert(whole[i] == sub[i - base.len()]);
        } else if i > base.len() {
            assert(whole[i] == sub[i - base.len() - 1]);
        }
    }
}

/// Generations are counted up from one, and the last one stays.
pub proof fn law_generations_count_up(g: GenerationId, r: GenerationId, first: GenerationId)
    requires
        call_ensures(GenerationId::next, (g,), r),
        call_ensures(GenerationId::initial, (), first),
    ensures
        first.0 == 1,
        g.0 < u64::MAX ==> r.0 == g.0 + 1,
        g.0 == u64::MAX ==> r == g,
        r != g || g.0 == u64::MAX,
{
}

/// What is added can be taken away again, unless it did not fit.
pub proof fn law_bytes_taken_away_again(
    a: ByteCount,
    b: ByteCount,
    sum: ByteCount,
    other: ByteCount,
    back: ByteCount,
    none: ByteCount,
)
    requires
        call_ensures(ByteCount::saturating_add, (a, b), sum),
        call_ensures(ByteCount::saturating_add, (b, a), other),
        call_ensures(ByteCount::saturating_sub, (sum, b), back),
        call_ensures(ByteCount::zero, (), none),
    ensures
        sum == other,
        sum.0 >= a.0 && sum.0 >= b.0,
        a.0 + b.0 <= u64::MAX ==> back == a && sum.0 == a.0 + b.0,
        a.0 + b.0 > u64::MAX ==> sum.0 == u64::MAX,
        b == none ==> sum == a,
        none.0 == 0,
{
}

/// More cannot be taken away than there is.
pub proof fn law_no_more_bytes_are_taken_than_there_are(a: ByteCount, b: ByteCount, r: ByteCount)
    requires
        call_ensures(ByteCount::saturating_sub, (a, b), r),
    ensures
        r.0 <= a.0,
        a.0 <= b.0 ==> r.0 == 0,
        a.0 > b.0 ==> r.0 + b.0 == a.0,
{
}

/// A count is what it was made of.
pub proof fn law_counts_and_moments_keep_their_number(
    n: u64,
    count: ByteCount,
    back: u64,
    moment: UnixTimestamp,
    secs: u64,
    zero: ByteCount,
)
    requires
        call_ensures(ByteCount::new, (n,), count),
        call_ensures(ByteCount::as_u64, (&count,), back),
        call_ensures(UnixTimestamp::from_secs, (n,), moment),
        call_ensures(UnixTimestamp::as_secs, (&moment,), secs),
        call_ensures(ByteCount::default, (), zero),
    ensures
        count.0 == n && back == n && moment.0 == n && secs == n && zero.0 == 0,
{
}

/// What is within half a unit of `n / d`, and the even one of two that are.
pub open spec fn is_nearest(r: int, n: int, d: int) -> bool {
    &&& -d <= 2 * (r * d - n) <= d
    &&& 2 * (r * d - n) == d || 2 * (r * d - n) == -d ==> r % 2 == 0
}

/// The largest unit that is not larger than `n` bytes, from a kilobyte up.
pub open spec fn largest_unit(n: u64) -> int {
    if n >= 1024 * 1024 * 1024 {
        1024int * 1024 * 1024
    } else if n >= 1024 * 1024 {
        1024int * 1024
    } else {
        1024
    }
}

proof fn lemma_nearest(n: int, d: int)
    requires
        n >= 0,
        d > 0,
    ensures
        is_nearest(round_half_even(n, d), n, d),
{
    let q = n / d;
    let m = n % d;
    assert(n == q * d + m && 0 <= m < d) by (nonlinear_arith)
        requires
            q == n / d,
            m == n % d,
            d > 0,
    ;
    assert((q + 1) * d == q * d + d) by (nonlinear_arith);
    if 2 * m == d {
        assert((q + q % 2) * d == q * d + (q % 2) * d) by (nonlinear_arith);
        if q % 2 == 1 {
            assert((q % 2) * d == d);
        } else {
            assert((q % 2) * d == 0);
        }
    }
}

/// A number of bytes that a double precision number holds exactly is shown to the
/// nearest hundredth of the largest unit that is not larger than it, the even one where
/// two are as near; and what is less than a kilobyte in whole bytes.
pub proof fn law_counts_are_shown_to_the_nearest_hundredth(count: &ByteCount, r: String)
    requires
        call_ensures(ByteCount::format_human, (count,), r),
        count.0 < 0x20_0000_0000_0000,
    ensures
        count.0 < 1024 ==> r@ == numerals::decimal(count.0 as nat) + " B"@,
        count.0 >= 1024 ==> exists|h: int|
            {
                let name = if count.0 >= 1024 * 1024 * 1024 {
                    " GiB"@
                } else if count.0 >= 1024 * 1024 {
                    " MiB"@
                } else {
                    " KiB"@
                };
                &&& h >= 0
                &&& #[trigger] is_nearest(h, count.0 * 100, largest_unit(count.0))
                &&& r@ == numerals::decimal((h / 100) as nat) + "."@ + numerals::decimal(
                    (h / 10 % 10) as nat,
                ) + numerals::decimal((h % 10) as nat) + name
            },
{
    let n = count.0 as int;
    assert(double_step(n as nat) == 1);
    assert(n / 1 == n && n % 1 == 0);
    assert(nearest_double(n as nat) == n);
    if count.0 >= 1024 {
        let unit = largest_unit(count.0);
        let h = hundredths(n as nat, unit);
        lemma_nearest(n * 100, unit);
        assert(is_nearest(h, n * 100, unit));
    }
}

/// The age of a moment is how long it lies back, and nothing where it lies ahead; a later
/// look finds it older by the time between.
pub proof fn law_ages_grow_with_time(
    moment: &UnixTimestamp,
    now: UnixTimestamp,
    later: UnixTimestamp,
    age: u64,
    older: u64,
)
    requires
        call_ensures(UnixTimestamp::age_secs, (moment, now), age),
        call_ensures(UnixTimestamp::age_secs, (moment, later), older),
        now.0 <= later.0,
    ensures
        now.0 <= moment.0 ==> age == 0,
        now.0 > moment.0 ==> moment.0 + age == now.0,
        age <= older,
        now.0 >= moment.0 ==> older - age == later.0 - now.0,
{
}

/// A clock that shows the epoch or less gives the epoch.
pub proof fn law_clock_before_the_epoch_is_the_epoch(
    elapsed: Result<std::time::Duration, std::time::SystemTimeError>,
    r: UnixTimestamp,
)
    requires
        call_ensures(UnixTimestamp::from_clock, (elapsed,), r),
    ensures
        elapsed is Err ==> r.0 == 0,
        elapsed is Ok ==> r.0 == whole_seconds(elapsed->Ok_0),
{
}

/// An identity is told by the device and the inode that it was made of.
pub proof fn law_identities_are_told_apart(
    dev: u64,
    ino: u64,
    r: FileIdentity,
    dev2: u64,
    ino2: u64,
    r2: FileIdentity,
    t: String,
)
    requires
        call_ensures(FileIdentity::new, (dev, ino), r),
        call_ensures(FileIdentity::new, (dev2, ino2), r2),
        call_ensures(FileIdentity::to_text, (&r,), t),
    ensures
        r.dev.0 == dev && r.ino.0 == ino,
        r == r2 <==> dev == dev2 && ino == ino2,
        t@ == "["@ + ("dev:"@ + numerals::decimal(dev as nat)) + ":"@ + ("ino:"@
            + numerals::decimal(ino as nat)) + "]"@,
{
}

/// Every identifier is shown as its kind and its number.
pub proof fn law_identifiers_show_kind_and_number(
    n: u64,
    m: u32,
    job: String,
    attempt: String,
    op: String,
    plan: String,
    worker: String,
    cand: String,
    gen: String,
    grant: String,
)
    requires
        call_ensures(JobId::to_text, (&JobId(n),), job),
        call_ensures(AttemptId::to_text, (&AttemptId(n),), attempt),
        call_ensures(OperationId::to_text, (&OperationId(n),), op),
        call_ensures(PlanId::to_text, (&PlanId(n),), plan),
        call_ensures(WorkerId::to_text, (&WorkerId(m),), worker),
        call_ensures(CandidateId::to_text, (&CandidateId(n),), cand),
        call_ensures(GenerationId::to_text, (&GenerationId(n),), gen),
        call_ensures(GrantId::to_text, (&GrantId(n),), grant),
    ensures
        job@ == "job-"@ + numerals::decimal(n as nat),
        attempt@ == "attempt-"@ + numerals::decimal(n as nat),
        op@ == "op-"@ + numerals::decimal(n as nat),
        plan@ == "plan-"@ + numerals::decimal(n as nat),
        worker@ == "worker-"@ + numerals::decimal(m as nat),
        cand@ == "cand-"@ + numerals::decimal(n as nat),
        gen@ == "gen-"@ + numerals::decimal(n as nat),
        grant@ == "grant-"@ + numerals::decimal(n as nat),
{
}

/// Numbers of the file system and moments are shown with what they are.
pub proof fn law_file_numbers_show_what_they_are(
    n: u64,
    ino: String,
    dev: String,
    moment: String,
    id: &TargetId,
    target: String,
)
    requires
        call_ensures(InodeNumber::to_text, (&InodeNumber(n),), ino),
        call_ensures(DeviceNumber::to_text, (&DeviceNumber(n),), dev),
        call_ensures(UnixTimestamp::to_text, (&UnixTimestamp(n),), moment),
        call_ensures(TargetId::to_text, (id,), target),
    ensures
        ino@ == "ino:"@ + numerals::decimal(n as nat),
        dev@ == "dev:"@ + numerals::decimal(n as nat),
        moment@ == numerals::decimal(n as nat) + "s"@,
        target@ == "target:"@ + id.0@,
{
}

/// A target is the one whose text is the same.
pub proof fn law_targets_are_told_by_their_text(
    a: String,
    b: String,
    ta: TargetId,
    tb: TargetId,
    same: bool,
    copy: TargetId,
)
    requires
        call_ensures(TargetId::new, (a,), ta),
        call_ensures(TargetId::new, (b,), tb),
        call_ensures(TargetId::same, (&ta, &tb), same),
        call_ensures(TargetId::copy, (&ta,), copy),
    ensures
        ta.0@ == a@,
        same <==> a@ == b@,
        copy.0@ == a@,
{
}

/// A path is taken exactly where it does not begin at the root, no part of it is a dot or
/// two, and it holds no control character; and is then kept as it is.
pub proof fn law_paths_that_lead_out_are_refused(path: &str, r: Option<RelativePath>, i: int)
    requires
        call_ensures(RelativePath::parse, (path,), r),
    ensures
        r matches Some(p) ==> p@ == path@,
        path@.len() > 0 && path@[0] == '/' ==> r is None,
        0 <= i < path@.len() && text::is_control(path@[i]) ==> r is None,
        0 <= i < paths::components(path@).len() && (paths::components(path@)[i] == "."@
            || paths::components(path@)[i] == ".."@) ==> r is None,
        r is None ==> {
            ||| path@.len() > 0 && path@[0] == '/'
            ||| exists|k: int| 0 <= k < path@.len() && text::is_control(#[trigger] path@[k])
            ||| exists|k: int|
                0 <= k < paths::components(path@).len() && ((#[trigger] paths::components(path@)[k])
                    == "."@ || paths::components(path@)[k] == ".."@)
        },
{
    reveal_strlit(".");
    reveal_strlit("..");
    assert("."@ =~= seq!['.']);
    assert(".."@ =~= seq!['.', '.']);
}

/// What is joined to a path stands below it: its components follow those of the path.
/// What would lead out is refused.
pub proof fn law_joined_paths_stand_below(
    base: &RelativePath,
    sub: &str,
    r: Option<RelativePath>,
    alone: Option<RelativePath>,
    text_of: &str,
)
    requires
        call_ensures(RelativePath::join, (base, sub), r),
        call_ensures(RelativePath::parse, (sub,), alone),
        call_ensures(RelativePath::as_str, (base,), text_of),
    ensures
        r is Some <==> alone is Some,
        text_of@ == base@,
        r matches Some(p) ==> paths::components(p@) == paths::components(base@)
            + paths::components(sub@),
{
    if r is Some {
        law_join_leads_down(base@, sub@);
    }
}

/// The target itself is the path without any component, and a path is another one's
/// equal where their components are.
pub proof fn law_paths_are_told_by_their_components(
    a: &RelativePath,
    b: &RelativePath,
    same: bool,
    copy: RelativePath,
    none: RelativePath,
    shown: &str,
)
    requires
        call_ensures(RelativePath::same, (a, b), same),
        call_ensures(RelativePath::copy, (a,), copy),
        call_ensures(RelativePath::empty, (), none),
        call_ensures(RelativePath::as_path, (a,), shown),
    ensures
        same <==> paths::components(a@) == paths::components(b@),
        copy@ == a@,
        shown@ == a@,
        none@.len() == 0,
{
}

} // verus!
