//! Text helpers: every function is stated over the sequence of characters that
//! a string holds.
use vstd::prelude::*;

verus! {

/// The characters of `s`, one per element.
pub fn chars_of(s: &str) -> (v: Vec<char>)
    ensures
        v@ == s@,
{
    let mut v: Vec<char> = Vec::new();
    for c in it: s.chars()
        invariant
            it.seq() == s@,
            v@ == s@.subrange(0, it.index() as int),
    {
        v.push(c);
    }
    assert(v@ =~= s@);
    v
}

/// `true` where both strings hold the same characters.
pub fn same_text(a: &str, b: &str) -> (r: bool)
    ensures
        r == (a@ == b@),
{
    same_chars(&chars_of(a), &chars_of(b))
}

/// `true` where both vectors hold the same characters.
pub fn same_chars(a: &Vec<char>, b: &Vec<char>) -> (r: bool)
    ensures
        r == (a@ == b@),
{
    if a.len() != b.len() {
        return false;
    }
    let mut i: usize = 0;
    while i < a.len()
        invariant
            i <= a.len(),
            a.len() == b.len(),
            forall|j: int| 0 <= j < i ==> a@[j] == b@[j],
        decreases a.len() - i,
    {
        if a[i] != b[i] {
            return false;
        }
        i = i + 1;
    }
    assert(a@ =~= b@);
    true
}

/// `p` stands in `s` from position `at` on.
pub open spec fn occurs_at(s: Seq<char>, p: Seq<char>, at: int) -> bool {
    0 <= at && at + p.len() <= s.len() && s.subrange(at, at + p.len()) == p
}

/// `p` stands somewhere in `s`.
pub open spec fn has_part(s: Seq<char>, p: Seq<char>) -> bool {
    exists|at: int| occurs_at(s, p, at)
}

/// `s` begins with `p`.
pub open spec fn has_prefix(s: Seq<char>, p: Seq<char>) -> bool {
    occurs_at(s, p, 0)
}

/// `s` ends with `p`.
pub open spec fn has_suffix(s: Seq<char>, p: Seq<char>) -> bool {
    occurs_at(s, p, s.len() - p.len())
}

fn matches_at(s: &Vec<char>, p: &Vec<char>, at: usize) -> (r: bool)
    requires
        at + p.len() <= s.len(),
    ensures
        r == occurs_at(s@, p@, at as int),
{
    let mut i: usize = 0;
    while i < p.len()
        invariant
            i <= p.len(),
            at + p.len() <= s.len(),
            forall|j: int| 0 <= j < i ==> s@[at + j] == p@[j],
        decreases p.len() - i,
    {
        if s[at + i] != p[i] {
            proof {
                assert(s@.subrange(at as int, at + p.len())[i as int] != p@[i as int]);
            }
            return false;
        }
        i = i + 1;
    }
    assert(s@.subrange(at as int, at + p.len()) =~= p@);
    true
}

/// `true` where `p` stands somewhere in `s`.
pub fn contains_text(s: &str, p: &str) -> (r: bool)
    ensures
        r == has_part(s@, p@),
{
    let sv = chars_of(s);
    let pv = chars_of(p);
    if pv.len() > sv.len() {
        return false;
    }
    let last: usize = sv.len() - pv.len();
    let mut at: usize = 0;
    while at < last
        invariant
            at <= last,
            last + pv.len() == sv.len(),
            sv@ == s@,
            pv@ == p@,
            forall|k: int| 0 <= k < at ==> !occurs_at(s@, p@, k),
        decreases last - at,
    {
        if matches_at(&sv, &pv, at) {
            return true;
        }
        at = at + 1;
    }
    let found = matches_at(&sv, &pv, last);
    assert(forall|k: int| occurs_at(s@, p@, k) ==> k <= last);
    found
}

/// `true` where `s` begins with `p`.
pub fn starts_with_text(s: &str, p: &str) -> (r: bool)
    ensures
        r == has_prefix(s@, p@),
{
    let sv = chars_of(s);
    let pv = chars_of(p);
    pv.len() <= sv.len() && matches_at(&sv, &pv, 0)
}

/// `true` where `s` ends with `p`.
pub fn ends_with_text(s: &str, p: &str) -> (r: bool)
    ensures
        r == has_suffix(s@, p@),
{
    let sv = chars_of(s);
    let pv = chars_of(p);
    pv.len() <= sv.len() && matches_at(&sv, &pv, sv.len() - pv.len())
}

/// The characters of each string.
pub open spec fn texts(v: Seq<String>) -> Seq<Seq<char>> {
    v.map_values(|s: String| s@)
}

/// The characters of each text.
pub open spec fn literals(v: Seq<&str>) -> Seq<Seq<char>> {
    v.map_values(|s: &str| s@)
}

/// An owned copy of each text.
pub fn strings(v: &[&str]) -> (r: Vec<String>)
    ensures
        texts(r@) == literals(v@),
{
    let mut r: Vec<String> = Vec::new();
    let mut i: usize = 0;
    while i < v.len()
        invariant
            i <= v.len(),
            r.len() == i,
            forall|j: int| 0 <= j < i ==> (#[trigger] r@[j])@ == v@[j]@,
        decreases v.len() - i,
    {
        r.push(v[i].to_owned());
        i = i + 1;
    }
    assert(texts(r@) =~= literals(v@));
    r
}

/// `true` where `v` holds a string with the characters of `t`.
pub fn contains_string(v: &Vec<String>, t: &str) -> (r: bool)
    ensures
        r == texts(v@).contains(t@),
{
    let mut i: usize = 0;
    while i < v.len()
        invariant
            i <= v.len(),
            forall|j: int| 0 <= j < i ==> texts(v@)[j] != t@,
        decreases v.len() - i,
    {
        if same_text(v[i].as_str(), t) {
            assert(texts(v@)[i as int] == t@);
            return true;
        }
        i = i + 1;
    }
    false
}

/// Some text of `list` stands in `v`.
pub open spec fn contains_one_of(v: Seq<Seq<char>>, list: Seq<Seq<char>>) -> bool {
    exists|i: int| 0 <= i < list.len() && v.contains(#[trigger] list[i])
}

/// `true` where some text of `list` stands in `v`.
pub fn contains_one(v: &Vec<String>, list: &[&str]) -> (r: bool)
    ensures
        r == contains_one_of(texts(v@), literals(list@)),
{
    let mut i: usize = 0;
    while i < list.len()
        invariant
            i <= list.len(),
            forall|j: int| 0 <= j < i ==> !texts(v@).contains(#[trigger] literals(list@)[j]),
        decreases list.len() - i,
    {
        if contains_string(v, list[i]) {
            assert(texts(v@).contains(literals(list@)[i as int]));
            return true;
        }
        i = i + 1;
    }
    false
}

/// `s` ends with some text of `list`.
pub open spec fn ends_with_one_of(s: Seq<char>, list: Seq<Seq<char>>) -> bool {
    exists|i: int| 0 <= i < list.len() && has_suffix(s, #[trigger] list[i])
}

/// `true` where `s` ends with some text of `list`.
pub fn ends_with_one(s: &str, list: &[&str]) -> (r: bool)
    ensures
        r == ends_with_one_of(s@, literals(list@)),
{
    let mut i: usize = 0;
    while i < list.len()
        invariant
            i <= list.len(),
            forall|j: int| 0 <= j < i ==> !has_suffix(s@, #[trigger] literals(list@)[j]),
        decreases list.len() - i,
    {
        if ends_with_text(s, list[i]) {
            assert(has_suffix(s@, literals(list@)[i as int]));
            return true;
        }
        i = i + 1;
    }
    false
}

/// Some text of `list` stands somewhere in `s`.
pub open spec fn has_part_of(s: Seq<char>, list: Seq<Seq<char>>) -> bool {
    exists|i: int| 0 <= i < list.len() && has_part(s, #[trigger] list[i])
}

/// `true` where some text of `list` stands somewhere in `s`.
pub fn contains_part(s: &str, list: &[&str]) -> (r: bool)
    ensures
        r == has_part_of(s@, literals(list@)),
{
    let mut i: usize = 0;
    while i < list.len()
        invariant
            i <= list.len(),
            forall|j: int| 0 <= j < i ==> !has_part(s@, #[trigger] literals(list@)[j]),
        decreases list.len() - i,
    {
        if contains_text(s, list[i]) {
            assert(has_part(s@, literals(list@)[i as int]));
            return true;
        }
        i = i + 1;
    }
    false
}

/// A copy of `v`, string by string.
pub fn clone_strings(v: &Vec<String>) -> (r: Vec<String>)
    ensures
        r@ == v@,
{
    let mut r: Vec<String> = Vec::new();
    let mut i: usize = 0;
    while i < v.len()
        invariant
            i <= v.len(),
            r@ == v@.subrange(0, i as int),
        decreases v.len() - i,
    {
        r.push(v[i].clone());
        i = i + 1;
        assert(r@ =~= v@.subrange(0, i as int));
    }
    assert(r@ =~= v@);
    r
}

/// The number of bytes that a text takes in UTF-8.
pub open spec fn byte_len(t: Seq<char>) -> nat {
    vstd::utf8::encode_utf8(t).len()
}

/// `true` where `c` stands in `t`.
pub fn contains_char(t: &str, c: char) -> (r: bool)
    ensures
        r == t@.contains(c),
{
    let v = chars_of(t);
    let mut i: usize = 0;
    while i < v.len()
        invariant
            i <= v.len(),
            v@ == t@,
            forall|j: int| 0 <= j < i ==> t@[j] != c,
        decreases v.len() - i,
    {
        if v[i] == c {
            assert(t@[i as int] == c);
            return true;
        }
        i = i + 1;
    }
    false
}

/// The pieces of `s` between occurrences of `sep`: always at least one, and the
/// separators themselves stand in none.
pub open spec fn split_on(s: Seq<char>, sep: char) -> Seq<Seq<char>>
    decreases s.len(),
{
    if s.len() == 0 {
        seq![Seq::<char>::empty()]
    } else {
        let done = split_on(s.drop_last(), sep);
        if s.last() == sep {
            done.push(Seq::<char>::empty())
        } else {
            done.update(done.len() - 1, done.last().push(s.last()))
        }
    }
}

pub proof fn lemma_split_on_nonempty(s: Seq<char>, sep: char)
    ensures
        split_on(s, sep).len() >= 1,
    decreases s.len(),
{
    if s.len() > 0 {
        lemma_split_on_nonempty(s.drop_last(), sep);
    }
}

/// The pieces of two texts with a separator between them are the pieces of each.
pub proof fn lemma_split_on_join(a: Seq<char>, b: Seq<char>, sep: char)
    ensures
        split_on(a.push(sep) + b, sep) == split_on(a, sep) + split_on(b, sep),
    decreases b.len(),
{
    let whole = a.push(sep) + b;
    if b.len() == 0 {
        assert(whole =~= a.push(sep));
        assert(whole.drop_last() =~= a);
        assert(split_on(whole, sep) =~= split_on(a, sep) + split_on(b, sep));
    } else {
        lemma_split_on_join(a, b.drop_last(), sep);
        lemma_split_on_nonempty(b.drop_last(), sep);
        assert(whole.drop_last() =~= a.push(sep) + b.drop_last());
        assert(whole.last() == b.last());
        assert(split_on(whole, sep) =~= split_on(a, sep) + split_on(b, sep));
    }
}

/// The pieces of `s` between occurrences of `sep`.
pub fn split_text(s: &str, sep: char) -> (r: Vec<String>)
    ensures
        texts(r@) == split_on(s@, sep),
{
    let v = chars_of(s);
    let mut r: Vec<String> = Vec::new();
    let mut start: usize = 0;
    let mut i: usize = 0;
    proof {
        assert(s@.subrange(0, 0) =~= Seq::<char>::empty());
        assert(texts(r@).push(s@.subrange(0, 0)) =~= seq![Seq::<char>::empty()]);
    }
    while i < v.len()
        invariant
            start <= i <= v.len(),
            v@ == s@,
            split_on(s@.subrange(0, i as int), sep) == texts(r@).push(
                s@.subrange(start as int, i as int),
            ),
        decreases v.len() - i,
    {
        let ghost before = s@.subrange(0, i as int);
        let ghost after = s@.subrange(0, i + 1);
        proof {
            assert(after.drop_last() =~= before);
            assert(after.last() == v@[i as int]);
        }
        if v[i] == sep {
            let piece = s.substring_char(start, i).to_owned();
            let ghost earlier = r@;
            r.push(piece);
            start = i + 1;
            proof {
                assert(texts(r@) =~= texts(earlier).push(piece@));
                assert(s@.subrange(start as int, i + 1) =~= Seq::<char>::empty());
            }
        } else {
            proof {
                assert(s@.subrange(start as int, i + 1) =~= s@.subrange(
                    start as int,
                    i as int,
                ).push(v@[i as int]));
                let done = split_on(before, sep);
                assert(done.update(
                    done.len() - 1,
                    done.last().push(after.last()),
                ) =~= texts(r@).push(s@.subrange(start as int, i + 1)));
            }
        }
        i = i + 1;
    }
    let piece = s.substring_char(start, v.len()).to_owned();
    let ghost earlier = r@;
    r.push(piece);
    proof {
        assert(s@.subrange(0, v.len() as int) =~= s@);
        assert(texts(r@) =~= texts(earlier).push(piece@));
    }
    r
}

/// The characters with the Unicode property `White_Space`.
pub open spec fn is_space(c: char) -> bool {
    let n = c as u32;
    ||| 0x9 <= n <= 0xd
    ||| n == 0x20
    ||| n == 0x85
    ||| n == 0xa0
    ||| n == 0x1680
    ||| 0x2000 <= n <= 0x200a
    ||| n == 0x2028
    ||| n == 0x2029
    ||| n == 0x202f
    ||| n == 0x205f
    ||| n == 0x3000
}

/// `true` where `c` is white space.
pub fn char_is_space(c: char) -> (r: bool)
    ensures
        r == is_space(c),
{
    let n: u32 = c as u32;
    (0x9 <= n && n <= 0xd) || n == 0x20 || n == 0x85 || n == 0xa0 || n == 0x1680 || (0x2000 <= n
        && n <= 0x200a) || n == 0x2028 || n == 0x2029 || n == 0x202f || n == 0x205f || n == 0x3000
}

/// The control characters (Unicode category `Cc`).
pub open spec fn is_control(c: char) -> bool {
    (c as u32) <= 0x1f || 0x7f <= (c as u32) <= 0x9f
}

/// `true` where `c` is a control character.
pub fn char_is_control(c: char) -> (r: bool)
    ensures
        r == is_control(c),
{
    let n: u32 = c as u32;
    n <= 0x1f || (0x7f <= n && n <= 0x9f)
}

/// `s` without the white space at its front.
pub open spec fn trim_front(s: Seq<char>) -> Seq<char>
    decreases s.len(),
{
    if s.len() > 0 && is_space(s[0]) {
        trim_front(s.drop_first())
    } else {
        s
    }
}

/// `s` without the white space at its end.
pub open spec fn trim_back(s: Seq<char>) -> Seq<char>
    decreases s.len(),
{
    if s.len() > 0 && is_space(s.last()) {
        trim_back(s.drop_last())
    } else {
        s
    }
}

/// `s` without the white space at either end.
pub open spec fn trimmed(s: Seq<char>) -> Seq<char> {
    trim_back(trim_front(s))
}

/// A line break behind a text without white space at its ends is trimmed away.
pub proof fn lemma_trim_line(s: Seq<char>)
    requires
        s.len() > 0,
        !is_space(s[0]),
        !is_space(s.last()),
    ensures
        trimmed(s.push('\n')) == s,
{
    let line = s.push('\n');
    assert(line[0] == s[0]);
    assert(line.drop_last() =~= s);
    assert(is_space('\n'));
    assert(trim_back(s) == s);
}

/// `s` without the white space at either end.
pub fn trim_text<'a>(s: &'a str) -> (r: &'a str)
    ensures
        r@ == trimmed(s@),
{
    let v = chars_of(s);
    let mut a: usize = 0;
    proof {
        assert(s@.subrange(0, v.len() as int) =~= s@);
    }
    while a < v.len() && char_is_space(v[a])
        invariant
            a <= v.len(),
            v@ == s@,
            trim_front(s@) == trim_front(s@.subrange(a as int, v.len() as int)),
        decreases v.len() - a,
    {
        proof {
            assert(s@.subrange(a as int, v.len() as int).drop_first() =~= s@.subrange(
                a + 1,
                v.len() as int,
            ));
        }
        a = a + 1;
    }
    let ghost front = s@.subrange(a as int, v.len() as int);
    assert(trim_front(s@) == front);
    let mut b: usize = v.len();
    while a < b && char_is_space(v[b - 1])
        invariant
            a <= b <= v.len(),
            v@ == s@,
            front == s@.subrange(a as int, v.len() as int),
            trim_back(front) == trim_back(s@.subrange(a as int, b as int)),
        decreases b,
    {
        proof {
            assert(s@.subrange(a as int, b as int).drop_last() =~= s@.subrange(a as int, b - 1));
        }
        b = b - 1;
    }
    s.substring_char(a, b)
}

/// The lines of `s`: what stands before each line feed, without one carriage
/// return that stands right before it, and what follows the last line feed
/// where that is not empty.
pub open spec fn lines_of(s: Seq<char>) -> Seq<Seq<char>> {
    let pieces = split_on(s, '\n');
    let ended = pieces.drop_last().map_values(|p: Seq<char>| without_return(p));
    if pieces.last().len() == 0 {
        ended
    } else {
        ended.push(pieces.last())
    }
}

/// `s` without one carriage return at its end.
pub open spec fn without_return(s: Seq<char>) -> Seq<char> {
    if s.len() > 0 && s.last() == '\r' {
        s.drop_last()
    } else {
        s
    }
}

fn strip_return(s: &str) -> (r: String)
    ensures
        r@ == without_return(s@),
{
    let n = s.unicode_len();
    if n > 0 && s.get_char(n - 1) == '\r' {
        let r = s.substring_char(0, n - 1).to_owned();
        assert(r@ =~= s@.drop_last());
        r
    } else {
        s.to_owned()
    }
}

/// The lines of `s`.
pub fn lines_text(s: &str) -> (r: Vec<String>)
    ensures
        texts(r@) == lines_of(s@),
{
    let pieces = split_text(s, '\n');
    proof {
        lemma_split_on_nonempty(s@, '\n');
        assert(texts(pieces@).len() == pieces.len());
    }
    let n: usize = pieces.len();
    let ghost whole = split_on(s@, '\n');
    let mut r: Vec<String> = Vec::new();
    let mut i: usize = 0;
    while i < n - 1
        invariant
            i <= n - 1,
            n == pieces.len(),
            n >= 1,
            whole == texts(pieces@),
            r.len() == i,
            forall|j: int| 0 <= j < i ==> (#[trigger] r@[j])@ == without_return(whole[j]),
        decreases n - 1 - i,
    {
        r.push(strip_return(pieces[i].as_str()));
        i = i + 1;
    }
    let ghost ended = whole.drop_last().map_values(|p: Seq<char>| without_return(p));
    assert(texts(r@) =~= ended);
    let ghost earlier = r@;
    if pieces[n - 1].as_str().unicode_len() != 0 {
        r.push(pieces[n - 1].clone());
        assert(texts(r@) =~= ended.push(whole.last()));
    }
    r
}

/// The maximal runs of characters of `s` that are no white space.
pub open spec fn words_of(s: Seq<char>) -> Seq<Seq<char>>
    decreases s.len(),
{
    if s.len() == 0 {
        Seq::empty()
    } else {
        let done = words_of(s.drop_last());
        if is_space(s.last()) {
            done
        } else if s.len() == 1 || is_space(s[s.len() - 2]) {
            done.push(seq![s.last()])
        } else {
            done.update(done.len() - 1, done.last().push(s.last()))
        }
    }
}

/// The maximal runs of characters of `s` that are no white space.
pub fn words_text(s: &str) -> (r: Vec<String>)
    ensures
        texts(r@) == words_of(s@),
{
    let v = chars_of(s);
    let mut r: Vec<String> = Vec::new();
    let mut start: usize = 0;
    let mut i: usize = 0;
    proof {
        assert(s@.subrange(0, 0) =~= Seq::<char>::empty());
        assert(texts(r@) =~= Seq::<Seq<char>>::empty());
    }
    while i < v.len()
        invariant
            start <= i <= v.len(),
            v@ == s@,
            start == i <==> (i == 0 || is_space(s@[i - 1])),
            words_of(s@.subrange(0, i as int)) == if start == i {
                texts(r@)
            } else {
                texts(r@).push(s@.subrange(start as int, i as int))
            },
        decreases v.len() - i,
    {
        let ghost before = s@.subrange(0, i as int);
        let ghost after = s@.subrange(0, i + 1);
        proof {
            assert(after.drop_last() =~= before);
            assert(after.last() == v@[i as int]);
            assert(i > 0 ==> after[after.len() - 2] == s@[i - 1]);
        }
        if char_is_space(v[i]) {
            if start < i {
                let piece = s.substring_char(start, i).to_owned();
                let ghost earlier = r@;
                r.push(piece);
                assert(texts(r@) =~= texts(earlier).push(piece@));
            }
            start = i + 1;
        } else {
            proof {
                if start == i {
                    assert(s@.subrange(start as int, i + 1) =~= seq![v@[i as int]]);
                } else {
                    assert(s@.subrange(start as int, i + 1) =~= s@.subrange(
                        start as int,
                        i as int,
                    ).push(v@[i as int]));
                    let done = words_of(before);
                    assert(done.update(
                        done.len() - 1,
                        done.last().push(after.last()),
                    ) =~= texts(r@).push(s@.subrange(start as int, i + 1)));
                }
            }
        }
        i = i + 1;
    }
    assert(s@.subrange(0, v.len() as int) =~= s@);
    if start < v.len() {
        let piece = s.substring_char(start, v.len()).to_owned();
        let ghost earlier = r@;
        r.push(piece);
        assert(texts(r@) =~= texts(earlier).push(piece@));
    }
    r
}

/// `c`, with the letters `A` to `Z` in lower case.
pub open spec fn ascii_lower(c: char) -> char {
    if 'A' <= c <= 'Z' {
        ((c as u32) + 32) as char
    } else {
        c
    }
}

/// Both texts hold the same characters once `A` to `Z` count as `a` to `z`.
pub open spec fn same_but_case(a: Seq<char>, b: Seq<char>) -> bool {
    a.len() == b.len() && forall|i: int|
        0 <= i < a.len() ==> #[trigger] ascii_lower(a[i]) == ascii_lower(b[i])
}

fn char_lower_code(c: char) -> (r: u32)
    ensures
        r == ascii_lower(c) as u32,
{
    let n: u32 = c as u32;
    if 0x41 <= n && n <= 0x5a {
        n + 32
    } else {
        n
    }
}

/// `true` where both strings hold the same characters once `A` to `Z` count as
/// `a` to `z`.
pub fn same_text_but_case(a: &str, b: &str) -> (r: bool)
    ensures
        r == same_but_case(a@, b@),
{
    let av = chars_of(a);
    let bv = chars_of(b);
    if av.len() != bv.len() {
        return false;
    }
    let mut i: usize = 0;
    while i < av.len()
        invariant
            i <= av.len(),
            av.len() == bv.len(),
            av@ == a@,
            bv@ == b@,
            forall|j: int| 0 <= j < i ==> #[trigger] ascii_lower(a@[j]) == ascii_lower(b@[j]),
        decreases av.len() - i,
    {
        if char_lower_code(av[i]) != char_lower_code(bv[i]) {
            proof {
                assert(ascii_lower(a@[i as int]) != ascii_lower(b@[i as int]));
            }
            return false;
        }
        i = i + 1;
    }
    true
}

/// `s` with `to` in place of every `from`.
pub open spec fn replaced(s: Seq<char>, from: char, to: Seq<char>) -> Seq<char>
    decreases s.len(),
{
    if s.len() == 0 {
        s
    } else {
        let done = replaced(s.drop_last(), from, to);
        if s.last() == from {
            done + to
        } else {
            done.push(s.last())
        }
    }
}

/// `s` with `to` in place of every `from`.
pub fn replace_text(s: &str, from: char, to: &str) -> (r: String)
    ensures
        r@ == replaced(s@, from, to@),
{
    let n = s.unicode_len();
    let mut r = String::new();
    let mut i: usize = 0;
    proof {
        assert(s@.subrange(0, 0) =~= Seq::<char>::empty());
    }
    while i < n
        invariant
            i <= n,
            n == s@.len(),
            r@ == replaced(s@.subrange(0, i as int), from, to@),
        decreases n - i,
    {
        proof {
            assert(s@.subrange(0, i + 1).drop_last() =~= s@.subrange(0, i as int));
        }
        if s.get_char(i) == from {
            r.append(to);
        } else {
            let ghost earlier = r@;
            let one = s.substring_char(i, i + 1);
            r.append(one);
            assert(r@ =~= earlier.push(s@[i as int]));
        }
        i = i + 1;
    }
    assert(s@.subrange(0, n as int) =~= s@);
    r
}

/// `a` stands before `b` in the order of their characters' code points, a text
/// before every longer text that begins with it.
pub open spec fn text_before(a: Seq<char>, b: Seq<char>) -> bool
    decreases a.len(),
{
    if b.len() == 0 {
        false
    } else if a.len() == 0 {
        true
    } else if a[0] != b[0] {
        a[0] < b[0]
    } else {
        text_before(a.drop_first(), b.drop_first())
    }
}

/// Of two texts at most one stands before the other, and exactly one where they
/// differ.
pub proof fn lemma_text_before_total(a: Seq<char>, b: Seq<char>)
    ensures
        !(text_before(a, b) && text_before(b, a)),
        a == b <==> !text_before(a, b) && !text_before(b, a),
    decreases a.len(),
{
    if a.len() > 0 && b.len() > 0 {
        lemma_text_before_total(a.drop_first(), b.drop_first());
        if a[0] == b[0] {
            if a.drop_first() == b.drop_first() {
                assert(a =~= seq![a[0]] + a.drop_first());
                assert(b =~= seq![b[0]] + b.drop_first());
            }
        }
    } else {
        assert(a.len() == 0 && b.len() == 0 ==> a =~= b);
    }
}

/// Where `a` stands before `c`, every `b` stands after `a` or before `c`.
pub proof fn lemma_text_before_split(a: Seq<char>, b: Seq<char>, c: Seq<char>)
    requires
        text_before(a, c),
    ensures
        text_before(a, b) || text_before(b, c),
    decreases a.len(),
{
    if a.len() > 0 && b.len() > 0 && c.len() > 0 && a[0] == b[0] && b[0] == c[0] {
        lemma_text_before_split(a.drop_first(), b.drop_first(), c.drop_first());
    }
}

fn char_before(a: char, b: char) -> (r: bool)
    ensures
        r == (a < b),
{
    (a as u32) < (b as u32)
}

/// `true` where `a` stands before `b`.
pub fn chars_before(a: &Vec<char>, b: &Vec<char>) -> (r: bool)
    ensures
        r == text_before(a@, b@),
{
    let mut i: usize = 0;
    proof {
        assert(a@.subrange(0, a.len() as int) =~= a@);
        assert(b@.subrange(0, b.len() as int) =~= b@);
    }
    while i < a.len() && i < b.len()
        invariant
            i <= a.len(),
            i <= b.len(),
            text_before(a@, b@) == text_before(
                a@.subrange(i as int, a.len() as int),
                b@.subrange(i as int, b.len() as int),
            ),
        decreases a.len() - i,
    {
        let ghost at = a@.subrange(i as int, a.len() as int);
        let ghost bt = b@.subrange(i as int, b.len() as int);
        if a[i] != b[i] {
            assert(at[0] == a@[i as int] && bt[0] == b@[i as int]);
            return char_before(a[i], b[i]);
        }
        proof {
            assert(at.drop_first() =~= a@.subrange(i + 1, a.len() as int));
            assert(bt.drop_first() =~= b@.subrange(i + 1, b.len() as int));
        }
        i = i + 1;
    }
    i < b.len()
}

/// The text before and after the first `sep`.
pub open spec fn cut(s: Seq<char>, sep: char) -> Option<(Seq<char>, Seq<char>)>
    decreases s.len(),
{
    if s.len() == 0 {
        None
    } else if s[0] == sep {
        Some((Seq::empty(), s.drop_first()))
    } else {
        match cut(s.drop_first(), sep) {
            Some((before, after)) => Some((seq![s[0]] + before, after)),
            None => None,
        }
    }
}

proof fn lemma_cut_at(s: Seq<char>, sep: char, at: int)
    requires
        0 <= at <= s.len(),
        forall|k: int| 0 <= k < at ==> s[k] != sep,
        at < s.len() ==> s[at] == sep,
    ensures
        cut(s, sep) == if at < s.len() {
            Some((s.subrange(0, at), s.subrange(at + 1, s.len() as int)))
        } else {
            None::<(Seq<char>, Seq<char>)>
        },
    decreases s.len(),
{
    if s.len() > 0 {
        if at == 0 {
            assert(s.subrange(0, 0) =~= Seq::empty());
            assert(s.subrange(1, s.len() as int) =~= s.drop_first());
        } else {
            let rest = s.drop_first();
            assert forall|k: int| 0 <= k < at - 1 implies rest[k] != sep by {
                assert(rest[k] == s[k + 1]);
            }
            lemma_cut_at(rest, sep, at - 1);
            if at < s.len() {
                assert(seq![s[0]] + rest.subrange(0, at - 1) =~= s.subrange(0, at));
                assert(rest.subrange(at, rest.len() as int) =~= s.subrange(
                    at + 1,
                    s.len() as int,
                ));
            }
        }
    }
}

/// A text is cut where the first separator stands.
pub proof fn lemma_cut_after(before: Seq<char>, sep: char, after: Seq<char>)
    requires
        !before.contains(sep),
    ensures
        cut(before.push(sep) + after, sep) == Some((before, after)),
{
    let s = before.push(sep) + after;
    let at = before.len() as int;
    assert forall|k: int| 0 <= k < at implies s[k] != sep by {
        assert(before.contains(before[k]));
    }
    lemma_cut_at(s, sep, at);
    assert(s.subrange(0, at) =~= before);
    assert(s.subrange(at + 1, s.len() as int) =~= after);
}

/// The text before and after the first `sep`, where there is one.
pub fn cut_text<'a>(s: &'a str, sep: char) -> (r: Option<(&'a str, &'a str)>)
    ensures
        r is Some <==> cut(s@, sep) is Some,
        r is Some ==> (r->0).0@ == (cut(s@, sep)->0).0 && (r->0).1@ == (cut(s@, sep)->0).1,
{
    let v = chars_of(s);
    let size: usize = v.len();
    let mut i: usize = 0;
    while i < size && v[i] != sep
        invariant
            i <= size,
            v@ == s@,
            size == v@.len(),
            forall|k: int| 0 <= k < i ==> s@[k] != sep,
        decreases size - i,
    {
        i = i + 1;
    }
    proof {
        lemma_cut_at(s@, sep, i as int);
    }
    if i < size {
        Some((s.substring_char(0, i), s.substring_char(i + 1, size)))
    } else {
        None
    }
}

/// The pieces that are not empty.
pub open spec fn not_empty(pieces: Seq<Seq<char>>) -> Seq<Seq<char>>
    decreases pieces.len(),
{
    if pieces.len() == 0 {
        Seq::empty()
    } else {
        let before = not_empty(pieces.drop_last());
        if pieces.last().len() > 0 {
            before.push(pieces.last())
        } else {
            before
        }
    }
}

/// The pieces between separators that are not empty.
pub fn split_not_empty(s: &str, sep: char) -> (r: Vec<String>)
    ensures
        texts(r@) == not_empty(split_on(s@, sep)),
{
    let pieces = split_text(s, sep);
    let ghost all = texts(pieces@);
    let mut r: Vec<String> = Vec::new();
    let mut i: usize = 0;
    while i < pieces.len()
        invariant
            i <= pieces.len(),
            all == texts(pieces@),
            texts(r@) == not_empty(all.take(i as int)),
        decreases pieces.len() - i,
    {
        let ghost before = r@;
        assert(all.take(i + 1).drop_last() =~= all.take(i as int));
        assert(all.take(i + 1).last() == pieces@[i as int]@);
        if !pieces[i].as_str().is_empty() {
            r.push(pieces[i].clone());
            assert(texts(r@) =~= texts(before).push(pieces@[i as int]@));
        }
        i = i + 1;
    }
    assert(all.take(i as int) =~= all);
    r
}

/// Only characters of ASCII.
pub open spec fn is_ascii_text(s: Seq<char>) -> bool {
    forall|i: int| 0 <= i < s.len() ==> (#[trigger] s[i] as u32) < 128
}

/// The upper case form of an ASCII letter; any other character itself.
pub open spec fn ascii_upper(c: char) -> char {
    if 'a' <= c <= 'z' {
        ((c as u32) - 32) as char
    } else {
        c
    }
}

/// What `str::to_lowercase` makes of a text, by the tables of Unicode.
pub uninterp spec fn lowercase(s: Seq<char>) -> Seq<char>;

/// What `str::to_uppercase` makes of a text, by the tables of Unicode.
pub uninterp spec fn uppercase(s: Seq<char>) -> Seq<char>;

/// Calls `str::to_lowercase`: gives the lower case form of a text, which for ASCII
/// text turns each capital letter into the small one and keeps the rest.
#[verifier::external_body]
pub(crate) fn lower_text(s: &str) -> (r: String)
    ensures
        r@ == lowercase(s@),
        is_ascii_text(s@) ==> r@ == s@.map_values(|c: char| ascii_lower(c)),
{
    s.to_lowercase()
}

/// Calls `str::to_uppercase`: gives the upper case form of a text, which for ASCII
/// text turns each small letter into the capital one and keeps the rest.
#[verifier::external_body]
pub(crate) fn upper_text(s: &str) -> (r: String)
    ensures
        r@ == uppercase(s@),
        is_ascii_text(s@) ==> r@ == s@.map_values(|c: char| ascii_upper(c)),
{
    s.to_uppercase()
}

/// The parts in a row with `sep` between them.
pub open spec fn joined_by(parts: Seq<Seq<char>>, sep: Seq<char>) -> Seq<char>
    decreases parts.len(),
{
    if parts.len() == 0 {
        Seq::empty()
    } else if parts.len() == 1 {
        parts[0]
    } else {
        joined_by(parts.drop_last(), sep) + sep + parts.last()
    }
}

/// The parts in a row with `sep` between them.
pub fn join_texts(parts: &Vec<String>, sep: &str) -> (r: String)
    ensures
        r@ == joined_by(texts(parts@), sep@),
{
    let ghost all = texts(parts@);
    let mut r = "".to_owned();
    proof {
        reveal_strlit("");
        assert(""@ =~= Seq::empty());
    }
    let mut i: usize = 0;
    assert(all.take(0) =~= Seq::empty());
    while i < parts.len()
        invariant
            i <= parts.len(),
            all == texts(parts@),
            r@ == joined_by(all.take(i as int), sep@),
        decreases parts.len() - i,
    {
        assert(all.take(i + 1).drop_last() =~= all.take(i as int));
        assert(all.take(i + 1).last() == parts@[i as int]@);
        if i > 0 {
            r.append(sep);
        }
        let ghost before = r@;
        r.append(parts[i].as_str());
        if i == 0 {
            assert(before =~= Seq::empty());
            assert(r@ =~= parts@[0]@);
            assert(all.take(1)[0] == parts@[0]@);
        }
        i = i + 1;
    }
    assert(all.take(i as int) =~= all);
    r
}

/// `true` or `false` as a text.
pub open spec fn bool_shown(b: bool) -> Seq<char> {
    if b {
        "true"@
    } else {
        "false"@
    }
}

/// `true` or `false` as a text.
pub fn bool_text(b: bool) -> (r: &'static str)
    ensures
        r@ == bool_shown(b),
{
    if b {
        "true"
    } else {
        "false"
    }
}

/// Two texts in a row.
pub fn with_lead(lead: &str, rest: &str) -> (r: String)
    ensures
        r@ == lead@ + rest@,
{
    let mut r = lead.to_owned();
    r.append(rest);
    r
}

/// Adds a line.
pub fn push_text(lines: &mut Vec<String>, line: &str)
    ensures
        texts(final(lines)@) == texts(old(lines)@).push(line@),
{
    let ghost before = lines@;
    lines.push(line.to_owned());
    assert(texts(lines@) =~= texts(before).push(line@));
}

/// Adds a line made of two parts.
pub fn push_line(lines: &mut Vec<String>, head: &str, tail: &str)
    ensures
        texts(final(lines)@) == texts(old(lines)@).push(head@ + tail@),
{
    let ghost before = lines@;
    let line = with_lead(head, tail);
    let ghost added = line;
    lines.push(line);
    assert(texts(lines@) =~= texts(before).push(added@));
}

/// The pieces with the separator between them are the text again, and no piece holds
/// the separator.
pub proof fn law_pieces_make_up_the_text(s: Seq<char>, sep: char)
    ensures
        split_on(s, sep).len() >= 1,
        joined_by(split_on(s, sep), seq![sep]) == s,
        forall|i: int|
            0 <= i < split_on(s, sep).len() ==> !(#[trigger] split_on(s, sep)[i]).contains(sep),
    decreases s.len(),
{
    lemma_split_on_nonempty(s, sep);
    if s.len() > 0 {
        let front = s.drop_last();
        law_pieces_make_up_the_text(front, sep);
        lemma_split_on_nonempty(front, sep);
        let done = split_on(front, sep);
        let all = split_on(s, sep);
        if s.last() == sep {
            assert(all.drop_last() =~= done);
            assert(joined_by(all, seq![sep]) =~= s);
        } else {
            assert(all.drop_last() =~= done.drop_last());
            assert(all.last() == done.last().push(s.last()));
            if done.len() == 1 {
                assert(joined_by(all, seq![sep]) =~= s);
            } else {
                assert(joined_by(done, seq![sep]) == joined_by(done.drop_last(), seq![sep]) + seq![
                    sep,
                ] + done.last());
                assert(joined_by(all, seq![sep]) =~= joined_by(done, seq![sep]).push(s.last()));
                assert(joined_by(all, seq![sep]) =~= s);
            }
            assert forall|i: int| 0 <= i < all.len() implies !(#[trigger] all[i]).contains(sep) by {
                assert(!done[i].contains(sep));
                if i == all.len() - 1 {
                    if all[i].contains(sep) {
                        let j = choose|j: int| 0 <= j < all[i].len() && all[i][j] == sep;
                        assert(done[i][j] == sep);
                    }
                }
            }
        }
    } else {
        assert(joined_by(split_on(s, sep), seq![sep]) =~= s);
    }
}

/// Parts that do not hold the separator come back when they are put in a row with it
/// and taken apart again.
pub proof fn law_parts_come_back(parts: Seq<Seq<char>>, sep: char)
    requires
        parts.len() > 0,
        forall|i: int| 0 <= i < parts.len() ==> !(#[trigger] parts[i]).contains(sep),
    ensures
        split_on(joined_by(parts, seq![sep]), sep) == parts,
    decreases parts.len(),
{
    lemma_split_whole(parts.last(), sep);
    if parts.len() == 1 {
        assert(parts =~= seq![parts[0]]);
    } else {
        let front = parts.drop_last();
        assert forall|i: int| 0 <= i < front.len() implies !(#[trigger] front[i]).contains(sep) by {
            assert(front[i] == parts[i]);
        }
        law_parts_come_back(front, sep);
        let a = joined_by(front, seq![sep]);
        assert(joined_by(parts, seq![sep]) =~= a.push(sep) + parts.last());
        lemma_split_on_join(a, parts.last(), sep);
        assert(front + seq![parts.last()] =~= parts);
    }
}

proof fn lemma_split_whole(s: Seq<char>, sep: char)
    requires
        !s.contains(sep),
    ensures
        split_on(s, sep) == seq![s],
    decreases s.len(),
{
    if s.len() > 0 {
        let front = s.drop_last();
        assert(!front.contains(sep)) by {
            if front.contains(sep) {
                let j = choose|j: int| 0 <= j < front.len() && front[j] == sep;
                assert(s[j] == sep);
            }
        }
        lemma_split_whole(front, sep);
        assert(s.last() != sep) by {
            if s.last() == sep {
                assert(s[s.len() - 1] == sep);
            }
        }
        assert(front.push(s.last()) =~= s);
        assert(split_on(s, sep) =~= seq![s]);
    } else {
        assert(s =~= Seq::<char>::empty());
    }
}

/// The text is some other followed by one of `endings`.
pub open spec fn ends_in_one(s: Seq<char>, endings: Seq<Seq<char>>) -> bool {
    exists|front: Seq<char>, ending: Seq<char>| #[trigger]
        endings.contains(ending) && s == #[trigger] (front + ending)
}

/// One of `list` stands in the text, between some other and some more.
pub open spec fn holds_one(s: Seq<char>, list: Seq<Seq<char>>) -> bool {
    exists|front: Seq<char>, part: Seq<char>, back: Seq<char>| #[trigger]
        list.contains(part) && s == #[trigger] (front + part + back)
}

/// Ending in one of some texts is to consist of any text and that one.
pub proof fn lemma_ends_in_one(s: Seq<char>, endings: Seq<Seq<char>>)
    ensures
        ends_in_one(s, endings) <==> ends_with_one_of(s, endings),
{
    if ends_in_one(s, endings) {
        let (front, ending) = choose|front: Seq<char>, ending: Seq<char>| #[trigger]
            endings.contains(ending) && s == #[trigger] (front + ending);
        let i = choose|i: int| 0 <= i < endings.len() && endings[i] == ending;
        assert(s.subrange(s.len() - ending.len(), s.len() as int) =~= ending);
        assert(has_suffix(s, endings[i]));
    }
    if ends_with_one_of(s, endings) {
        let i = choose|i: int| 0 <= i < endings.len() && has_suffix(s, #[trigger] endings[i]);
        let front = s.take(s.len() - endings[i].len());
        assert(s =~= front + endings[i]);
        assert(endings.contains(endings[i]));
    }
}

/// Holding one of some texts is to consist of any text, that one and any other.
pub proof fn lemma_holds_one(s: Seq<char>, list: Seq<Seq<char>>)
    ensures
        holds_one(s, list) <==> has_part_of(s, list),
{
    if holds_one(s, list) {
        let (front, part, back) = choose|front: Seq<char>, part: Seq<char>, back: Seq<char>|
            #[trigger]
            list.contains(part) && s == #[trigger] (front + part + back);
        let i = choose|i: int| 0 <= i < list.len() && list[i] == part;
        assert(s.subrange(front.len() as int, (front.len() + part.len()) as int) =~= part);
        assert(occurs_at(s, list[i], front.len() as int));
        assert(has_part(s, list[i]));
    }
    if has_part_of(s, list) {
        let i = choose|i: int| 0 <= i < list.len() && has_part(s, #[trigger] list[i]);
        let at = choose|at: int| occurs_at(s, list[i], at);
        let front = s.take(at);
        let back = s.skip(at + list[i].len());
        assert(s =~= front + list[i] + back);
        assert(list.contains(list[i]));
    }
}

/// A text is found in another exactly where that is some text, the one looked for and
/// some more text; at the front with nothing before it, at the end with nothing after.
pub proof fn law_found_text_is_there(s: &str, p: &str, within: bool, front: bool, end: bool)
    requires
        call_ensures(contains_text, (s, p), within),
        call_ensures(starts_with_text, (s, p), front),
        call_ensures(ends_with_text, (s, p), end),
    ensures
        within <==> exists|before: Seq<char>, after: Seq<char>|
            s@ == #[trigger] (before + p@ + after),
        front <==> exists|after: Seq<char>| s@ == #[trigger] (p@ + after),
        end <==> exists|before: Seq<char>| s@ == #[trigger] (before + p@),
{
    if within {
        let at = choose|at: int| occurs_at(s@, p@, at);
        assert(s@ =~= s@.take(at) + p@ + s@.skip(at + p@.len()));
    }
    if exists|before: Seq<char>, after: Seq<char>| s@ == #[trigger] (before + p@ + after) {
        let (before, after) = choose|before: Seq<char>, after: Seq<char>|
            s@ == #[trigger] (before + p@ + after);
        assert(s@.subrange(before.len() as int, before.len() as int + p@.len()) =~= p@);
        assert(occurs_at(s@, p@, before.len() as int));
    }
    if front {
        assert(s@ =~= p@ + s@.skip(p@.len() as int));
    }
    if exists|after: Seq<char>| s@ == #[trigger] (p@ + after) {
        let after = choose|after: Seq<char>| s@ == #[trigger] (p@ + after);
        assert(s@.subrange(0, p@.len() as int) =~= p@);
    }
    if end {
        assert(s@ =~= s@.take(s@.len() - p@.len()) + p@);
    }
    if exists|before: Seq<char>| s@ == #[trigger] (before + p@) {
        let before = choose|before: Seq<char>| s@ == #[trigger] (before + p@);
        assert(s@.subrange(s@.len() - p@.len(), s@.len() as int) =~= p@);
    }
}

proof fn lemma_trim_front(s: Seq<char>)
    ensures
        trim_front(s).len() <= s.len(),
        trim_front(s) == s.skip(s.len() - trim_front(s).len()),
        forall|i: int| 0 <= i < s.len() - trim_front(s).len() ==> is_space(#[trigger] s[i]),
        trim_front(s).len() > 0 ==> !is_space(trim_front(s)[0]),
    decreases s.len(),
{
    if s.len() > 0 && is_space(s[0]) {
        let rest = s.drop_first();
        lemma_trim_front(rest);
        assert(s.skip(s.len() - trim_front(s).len()) =~= rest.skip(
            rest.len() - trim_front(rest).len(),
        ));
        assert forall|i: int| 0 <= i < s.len() - trim_front(s).len() implies is_space(
            #[trigger] s[i],
        ) by {
            if i > 0 {
                assert(rest[i - 1] == s[i]);
            }
        }
    } else {
        assert(s.skip(0) =~= s);
    }
}

proof fn lemma_trim_back(s: Seq<char>)
    ensures
        trim_back(s).len() <= s.len(),
        trim_back(s) == s.take(trim_back(s).len() as int),
        forall|i: int| trim_back(s).len() <= i < s.len() ==> is_space(#[trigger] s[i]),
        trim_back(s).len() > 0 ==> !is_space(trim_back(s).last()),
    decreases s.len(),
{
    if s.len() > 0 && is_space(s.last()) {
        let rest = s.drop_last();
        lemma_trim_back(rest);
        assert(s.take(trim_back(s).len() as int) =~= rest.take(trim_back(rest).len() as int));
        assert forall|i: int| trim_back(s).len() <= i < s.len() implies is_space(
            #[trigger] s[i],
        ) by {
            if i < s.len() - 1 {
                assert(rest[i] == s[i]);
            }
        }
    } else {
        assert(s.take(s.len() as int) =~= s);
    }
}

/// What is left of a trimmed text stands in it, begins and ends with no white space, and
/// has nothing but white space before and after it.
pub proof fn law_trimming_takes_white_space_only(s: &str, r: &str)
    requires
        call_ensures(trim_text, (s,), r),
    ensures
        exists|before: Seq<char>, after: Seq<char>|
            #![trigger before + r@ + after]
            s@ == before + r@ + after && (forall|i: int|
                0 <= i < before.len() ==> is_space(#[trigger] before[i])) && (forall|i: int|
                0 <= i < after.len() ==> is_space(#[trigger] after[i])),
        r@.len() > 0 ==> !is_space(r@[0]) && !is_space(r@.last()),
{
    let t = s@;
    let f = trim_front(t);
    lemma_trim_front(t);
    lemma_trim_back(f);
    let before = t.take(t.len() - f.len());
    let after = f.skip(r@.len() as int);
    assert(f =~= r@ + after);
    assert(t =~= before + r@ + after);
    assert forall|i: int| 0 <= i < before.len() implies is_space(#[trigger] before[i]) by {
        assert(before[i] == t[i]);
    }
    assert forall|i: int| 0 <= i < after.len() implies is_space(#[trigger] after[i]) by {
        assert(after[i] == f[i + r@.len()]);
    }
    if r@.len() > 0 {
        assert(r@[0] == f[0]);
    }
}

/// A text is cut at the first separator: both parts with it between them are the text,
/// and the first part does not hold it. A text without it is not cut.
pub proof fn law_text_is_cut_at_the_first(s: &str, sep: char, r: Option<(&str, &str)>)
    requires
        call_ensures(cut_text, (s, sep), r),
    ensures
        r is Some <==> s@.contains(sep),
        r matches Some((before, after)) ==> s@ == before@ + seq![sep] + after@
            && !before@.contains(sep),
{
    let t = s@;
    if t.contains(sep) {
        let k = choose|k: int| 0 <= k < t.len() && t[k] == sep;
        let at = lemma_first_place(t, sep, k);
        lemma_cut_at(t, sep, at);
        assert(t =~= t.subrange(0, at) + seq![sep] + t.subrange(at + 1, t.len() as int));
    } else {
        lemma_cut_at(t, sep, t.len() as int);
    }
}

proof fn lemma_first_place(t: Seq<char>, sep: char, k: int) -> (at: int)
    requires
        0 <= k < t.len(),
        t[k] == sep,
    ensures
        0 <= at <= k,
        t[at] == sep,
        forall|j: int| 0 <= j < at ==> t[j] != sep,
    decreases k,
{
    if exists|j: int| 0 <= j < k && t[j] == sep {
        let j = choose|j: int| 0 <= j < k && t[j] == sep;
        lemma_first_place(t, sep, j)
    } else {
        k
    }
}

/// A character that is replaced by another stands as the other wherever it stood, and
/// every other character stays in its place.
pub proof fn law_replacing_keeps_the_rest(s: &str, from: char, to: &str, r: String)
    requires
        call_ensures(replace_text, (s, from, to), r),
        to@.len() == 1,
    ensures
        r@.len() == s@.len(),
        forall|i: int|
            0 <= i < s@.len() ==> #[trigger] r@[i] == if s@[i] == from {
                to@[0]
            } else {
                s@[i]
            },
{
    lemma_replaced(s@, from, to@);
}

proof fn lemma_replaced(s: Seq<char>, from: char, to: Seq<char>)
    requires
        to.len() == 1,
    ensures
        replaced(s, from, to).len() == s.len(),
        forall|i: int|
            0 <= i < s.len() ==> #[trigger] replaced(s, from, to)[i] == if s[i] == from {
                to[0]
            } else {
                s[i]
            },
    decreases s.len(),
{
    if s.len() > 0 {
        lemma_replaced(s.drop_last(), from, to);
    }
}

/// Two texts are the same but for case exactly where they are as long as each other and
/// each character is the same or the same letter in the other case.
pub proof fn law_case_aside_means_same_letters(a: &str, b: &str, r: bool)
    requires
        call_ensures(same_text_but_case, (a, b), r),
    ensures
        r <==> a@.len() == b@.len() && forall|i: int|
            #![trigger a@[i]]
            0 <= i < a@.len() ==> a@[i] == b@[i] || ('A' <= a@[i] <= 'Z' && b@[i] as u32
                == a@[i] as u32 + 32) || ('A' <= b@[i] <= 'Z' && a@[i] as u32 == b@[i] as u32
                + 32),
{
    if r {
        assert forall|i: int| 0 <= i < a@.len() implies #[trigger] a@[i] == b@[i] || ('A' <= a@[i]
            <= 'Z' && b@[i] as u32 == a@[i] as u32 + 32) || ('A' <= b@[i] <= 'Z' && a@[i] as u32
            == b@[i] as u32 + 32) by {
            assert(ascii_lower(a@[i]) == ascii_lower(b@[i]));
        }
    }
    if a@.len() == b@.len() && forall|i: int|
        #![trigger a@[i]]
        0 <= i < a@.len() ==> a@[i] == b@[i] || ('A' <= a@[i] <= 'Z' && b@[i] as u32 == a@[i] as u32
            + 32) || ('A' <= b@[i] <= 'Z' && a@[i] as u32 == b@[i] as u32 + 32) {
        assert forall|i: int| 0 <= i < a@.len() implies #[trigger] ascii_lower(a@[i])
            == ascii_lower(b@[i]) by {
            assert(a@[i] == b@[i] || ('A' <= a@[i] <= 'Z' && b@[i] as u32 == a@[i] as u32 + 32) || (
            'A' <= b@[i] <= 'Z' && a@[i] as u32 == b@[i] as u32 + 32));
        }
        assert(same_but_case(a@, b@));
    }
}

/// A text is cut at the first separator: both parts with it between them are the text.
pub proof fn lemma_cut_parts(s: Seq<char>, sep: char)
    ensures
        cut(s, sep) is Some <==> s.contains(sep),
        cut(s, sep) matches Some((before, after)) ==> s == before.push(sep) + after
            && !before.contains(sep),
{
    if s.contains(sep) {
        let k = choose|k: int| 0 <= k < s.len() && s[k] == sep;
        let at = lemma_first_place(s, sep, k);
        lemma_cut_at(s, sep, at);
        assert(s =~= s.subrange(0, at).push(sep) + s.subrange(at + 1, s.len() as int));
    } else {
        lemma_cut_at(s, sep, s.len() as int);
    }
}

/// Lines are ended by line feeds: the first is what stands before the first line feed,
/// without one carriage return at its end, and the others are those of the rest. A text
/// without a line feed is one line, and an empty one none.
pub proof fn law_lines_end_at_line_feeds(
    first: Seq<char>,
    rest: &str,
    whole: &str,
    lines: Vec<String>,
    others: Vec<String>,
)
    requires
        !first.contains('\n'),
        whole@ == first.push('\n') + rest@,
        call_ensures(lines_text, (whole,), lines),
        call_ensures(lines_text, (rest,), others),
    ensures
        lines@.len() == others@.len() + 1,
        first.len() > 0 && first.last() == '\r' ==> lines@[0]@ == first.drop_last(),
        first.len() == 0 || first.last() != '\r' ==> lines@[0]@ == first,
        forall|i: int| 0 <= i < others@.len() ==> lines@[i + 1]@ == (#[trigger] others@[i])@,
        !rest@.contains('\n') && rest@.len() > 0 ==> others@.len() == 1 && others@[0]@ == rest@,
        rest@.len() == 0 ==> others@.len() == 0,
{
    lemma_split_on_join(first, rest@, '\n');
    lemma_split_whole(first, '\n');
    lemma_split_on_nonempty(rest@, '\n');
    let tail = split_on(rest@, '\n');
    let all = split_on(whole@, '\n');
    assert(all =~= seq![first] + tail);
    let drop = |p: Seq<char>| without_return(p);
    assert(all.drop_last() =~= seq![first] + tail.drop_last());
    assert(all.last() == tail.last());
    assert(all.drop_last().map_values(drop) =~= seq![without_return(first)]
        + tail.drop_last().map_values(drop));
    assert(lines_of(whole@) =~= seq![without_return(first)] + lines_of(rest@));
    assert(texts(lines@).len() == lines@.len());
    assert(texts(others@).len() == others@.len());
    assert(texts(lines@)[0] == lines@[0]@);
    assert forall|i: int| 0 <= i < others@.len() implies lines@[i + 1]@ == (
    #[trigger] others@[i])@ by {
        assert(texts(lines@)[i + 1] == texts(others@)[i]);
    }
    if !rest@.contains('\n') {
        lemma_split_whole(rest@, '\n');
        assert(tail.drop_last().map_values(drop) =~= Seq::empty());
        if rest@.len() > 0 {
            assert(lines_of(rest@) =~= seq![rest@]);
            assert(texts(others@)[0] == rest@);
        }
    }
    if rest@.len() == 0 {
        assert(!rest@.contains('\n'));
    }
}

proof fn lemma_words_apart(a: Seq<char>, space: char, b: Seq<char>)
    requires
        is_space(space),
    ensures
        words_of(a.push(space) + b) == words_of(a) + words_of(b),
        b.len() > 0 && !is_space(b.last()) ==> words_of(b).len() > 0,
    decreases b.len(),
{
    let whole = a.push(space) + b;
    if b.len() == 0 {
        assert(whole =~= a.push(space));
        assert(whole.drop_last() =~= a);
        assert(words_of(whole) =~= words_of(a) + words_of(b));
    } else {
        let front = b.drop_last();
        lemma_words_apart(a, space, front);
        assert(whole.drop_last() =~= a.push(space) + front);
        assert(whole.last() == b.last());
        if b.len() > 1 {
            assert(whole[whole.len() - 2] == b[b.len() - 2]);
            assert(front.last() == b[b.len() - 2]);
        } else {
            assert(whole[whole.len() - 2] == space);
        }
        assert(words_of(whole) =~= words_of(a) + words_of(b));
    }
}

proof fn lemma_one_word(a: Seq<char>)
    requires
        a.len() > 0,
        forall|i: int| 0 <= i < a.len() ==> !is_space(#[trigger] a[i]),
    ensures
        words_of(a) == seq![a],
    decreases a.len(),
{
    assert(!is_space(a[a.len() - 1]));
    if a.len() == 1 {
        assert(words_of(a.drop_last()) =~= Seq::empty());
        assert(seq![a.last()] =~= a);
        assert(words_of(a) =~= seq![a]);
    } else {
        let front = a.drop_last();
        assert forall|i: int| 0 <= i < front.len() implies !is_space(#[trigger] front[i]) by {
            assert(front[i] == a[i]);
        }
        lemma_one_word(front);
        assert(!is_space(a[a.len() - 2]));
        assert(front.push(a.last()) =~= a);
        assert(words_of(a) =~= seq![a]);
    }
}

/// Words stand between white space: the words of two texts with a space between them are
/// those of the one and then those of the other, a text without any is one word, and an
/// empty one none.
pub proof fn law_words_stand_between_spaces(
    a: &str,
    space: char,
    b: &str,
    whole: &str,
    wa: Vec<String>,
    wb: Vec<String>,
    ww: Vec<String>,
)
    requires
        is_space(space),
        whole@ == a@.push(space) + b@,
        call_ensures(words_text, (a,), wa),
        call_ensures(words_text, (b,), wb),
        call_ensures(words_text, (whole,), ww),
    ensures
        texts(ww@) == texts(wa@) + texts(wb@),
        a@.len() > 0 && (forall|i: int| 0 <= i < a@.len() ==> !is_space(#[trigger] a@[i]))
            ==> wa@.len() == 1 && wa@[0]@ == a@,
        a@.len() == 0 ==> wa@.len() == 0,
{
    lemma_words_apart(a@, space, b@);
    assert(texts(wa@).len() == wa@.len());
    if a@.len() > 0 && (forall|i: int| 0 <= i < a@.len() ==> !is_space(#[trigger] a@[i])) {
        lemma_one_word(a@);
        assert(texts(wa@)[0] == a@);
    }
}

/// Which characters are white space and which are control characters.
pub proof fn law_spaces_and_controls(c: char, space: bool, control: bool)
    requires
        call_ensures(char_is_space, (c,), space),
        call_ensures(char_is_control, (c,), control),
    ensures
        c == ' ' || c == '\t' || c == '\n' || c == '\r' ==> space,
        '!' <= c <= '~' ==> !space && !control,
        control <==> (c as u32) < 0x20 || 0x7f <= (c as u32) < 0xa0,
        space && (c as u32) < 0x80 ==> c == ' ' || control,
{
}

proof fn lemma_first_difference(a: Seq<char>, b: Seq<char>)
    ensures
        text_before(a, b) <==> exists|k: int| #[trigger] parts_at(a, b, k),
    decreases a.len(),
{
    if b.len() == 0 {
        assert(!text_before(a, b));
    } else if a.len() == 0 {
        assert(parts_at(a, b, 0));
    } else if a[0] != b[0] {
        if a[0] < b[0] {
            assert(parts_at(a, b, 0));
        }
    } else {
        let x = a.drop_first();
        let y = b.drop_first();
        lemma_first_difference(x, y);
        if exists|k: int| #[trigger] parts_at(x, y, k) {
            let k = choose|k: int| #[trigger] parts_at(x, y, k);
            assert forall|i: int| 0 <= i < k + 1 implies a[i] == b[i] by {
                if i > 0 {
                    assert(x[i - 1] == y[i - 1]);
                }
            }
            assert(k < x.len() ==> a[k + 1] == x[k] && b[k + 1] == y[k]);
            assert(parts_at(a, b, k + 1));
        }
        if exists|k: int| #[trigger] parts_at(a, b, k) {
            let k = choose|k: int| #[trigger] parts_at(a, b, k);
            assert(k > 0);
            assert forall|i: int| 0 <= i < k - 1 implies x[i] == y[i] by {
                assert(a[i + 1] == b[i + 1]);
            }
            assert(k < a.len() ==> a[k] == x[k - 1] && b[k] == y[k - 1]);
            assert(parts_at(x, y, k - 1));
        }
    }
}

/// The texts are the same up to `k`, where `a` ends or has the smaller character.
pub open spec fn parts_at(a: Seq<char>, b: Seq<char>, k: int) -> bool {
    &&& 0 <= k <= a.len()
    &&& k < b.len()
    &&& forall|i: int| 0 <= i < k ==> a[i] == b[i]
    &&& k < a.len() ==> a[k] < b[k]
}

/// A text stands before another where it is the smaller at the first place at which they
/// differ, or ends there.
pub proof fn law_order_is_that_of_the_first_difference(a: &Vec<char>, b: &Vec<char>, r: bool)
    requires
        call_ensures(chars_before, (a, b), r),
    ensures
        r <==> exists|k: int| #[trigger] parts_at(a@, b@, k),
{
    lemma_first_difference(a@, b@);
}

/// A list holds a text where one of its strings has the same characters.
pub proof fn law_lists_hold_their_texts(
    v: &Vec<String>,
    t: &str,
    r: bool,
    c: char,
    with_char: bool,
    other: &str,
    same: bool,
    copy: Vec<String>,
)
    requires
        call_ensures(contains_string, (v, t), r),
        call_ensures(contains_char, (t, c), with_char),
        call_ensures(same_text, (t, other), same),
        call_ensures(clone_strings, (v,), copy),
    ensures
        r <==> exists|i: int| 0 <= i < v@.len() && (#[trigger] v@[i])@ == t@,
        with_char <==> exists|i: int| 0 <= i < t@.len() && t@[i] == c,
        same <==> t@ == other@,
        copy@.len() == v@.len(),
        forall|i: int| 0 <= i < v@.len() ==> (#[trigger] copy@[i])@ == v@[i]@,
{
    if r {
        let i = choose|i: int| 0 <= i < texts(v@).len() && texts(v@)[i] == t@;
        assert(v@[i]@ == t@);
    }
    if exists|i: int| 0 <= i < v@.len() && (#[trigger] v@[i])@ == t@ {
        let i = choose|i: int| 0 <= i < v@.len() && (#[trigger] v@[i])@ == t@;
        assert(texts(v@)[i] == t@);
    }
}

/// A list holds one of some texts where a string of it is one of them, and strings are
/// made of literals one by one.
pub proof fn law_lists_hold_one_of_some_texts(
    v: &Vec<String>,
    list: &[&str],
    r: bool,
    made: Vec<String>,
)
    requires
        call_ensures(contains_one, (v, list), r),
        call_ensures(strings, (list,), made),
    ensures
        r <==> exists|i: int, j: int|
            0 <= i < v@.len() && 0 <= j < list@.len() && (#[trigger] v@[i])@ == (
            #[trigger] list@[j])@,
        made@.len() == list@.len(),
        forall|i: int| 0 <= i < list@.len() ==> (#[trigger] made@[i])@ == list@[i]@,
{
    assert(texts(made@).len() == made@.len());
    assert(literals(list@).len() == list@.len());
    assert forall|i: int| 0 <= i < list@.len() implies (#[trigger] made@[i])@ == list@[i]@ by {
        assert(texts(made@)[i] == literals(list@)[i]);
    }
    if r {
        let j = choose|j: int|
            0 <= j < literals(list@).len() && texts(v@).contains(#[trigger] literals(list@)[j]);
        let i = choose|i: int| 0 <= i < texts(v@).len() && texts(v@)[i] == literals(list@)[j];
        assert(v@[i]@ == list@[j]@);
    }
    if exists|i: int, j: int|
        0 <= i < v@.len() && 0 <= j < list@.len() && (#[trigger] v@[i])@ == (
        #[trigger] list@[j])@ {
        let (i, j) = choose|i: int, j: int|
            0 <= i < v@.len() && 0 <= j < list@.len() && (#[trigger] v@[i])@ == (
            #[trigger] list@[j])@;
        assert(texts(v@)[i] == literals(list@)[j]);
        assert(texts(v@).contains(literals(list@)[j]));
    }
}

proof fn lemma_not_empty(pieces: Seq<Seq<char>>, more: Seq<Seq<char>>)
    ensures
        not_empty(pieces + more) == not_empty(pieces) + not_empty(more),
    decreases more.len(),
{
    if more.len() == 0 {
        assert(pieces + more =~= pieces);
        assert(not_empty(pieces) + not_empty(more) =~= not_empty(pieces));
    } else {
        lemma_not_empty(pieces, more.drop_last());
        assert((pieces + more).drop_last() =~= pieces + more.drop_last());
        assert((pieces + more).last() == more.last());
        assert(not_empty(pieces + more) =~= not_empty(pieces) + not_empty(more));
    }
}

/// The pieces that are not empty of two texts with a separator between them are those of
/// each; a text without it is its own piece, where it is not empty.
pub proof fn law_empty_pieces_are_left_out(
    first: &str,
    sep: char,
    rest: &str,
    whole: &str,
    pf: Vec<String>,
    pr: Vec<String>,
    pw: Vec<String>,
)
    requires
        whole@ == first@.push(sep) + rest@,
        call_ensures(split_not_empty, (first, sep), pf),
        call_ensures(split_not_empty, (rest, sep), pr),
        call_ensures(split_not_empty, (whole, sep), pw),
    ensures
        texts(pw@) == texts(pf@) + texts(pr@),
        first@.len() == 0 ==> pf@.len() == 0,
        first@.len() > 0 && !first@.contains(sep) ==> pf@.len() == 1 && pf@[0]@ == first@,
{
    lemma_split_on_join(first@, rest@, sep);
    lemma_not_empty(split_on(first@, sep), split_on(rest@, sep));
    assert(texts(pf@).len() == pf@.len());
    if first@.len() == 0 {
        assert(!first@.contains(sep));
    }
    if !first@.contains(sep) {
        lemma_split_whole(first@, sep);
        assert(seq![first@].drop_last() =~= Seq::<Seq<char>>::empty());
        reveal_with_fuel(not_empty, 2);
        if first@.len() > 0 {
            assert(not_empty(seq![first@]) =~= seq![first@]);
            assert(texts(pf@)[0] == first@);
        } else {
            assert(not_empty(seq![first@]) =~= Seq::empty());
        }
    }
}

/// Texts in a row begin with the first one, end with the last one, and have the separator
/// between any two.
pub proof fn law_joined_texts_stand_in_a_row(
    parts: &Vec<String>,
    sep: &str,
    r: String,
    more: &Vec<String>,
    last: String,
    longer: String,
)
    requires
        call_ensures(join_texts, (parts, sep), r),
        call_ensures(join_texts, (more, sep), longer),
        more@ == parts@.push(last),
    ensures
        parts@.len() == 0 ==> r@.len() == 0 && longer@ == last@,
        parts@.len() == 1 ==> r@ == parts@[0]@,
        parts@.len() > 0 ==> longer@ == r@ + sep@ + last@,
{
    assert(texts(more@).drop_last() =~= texts(parts@));
    assert(texts(more@).last() == last@);
    assert(texts(parts@).len() == parts@.len());
    if parts@.len() == 0 {
        assert(texts(more@)[0] == last@);
    }
    if parts@.len() == 1 {
        assert(texts(parts@)[0] == parts@[0]@);
    }
}

/// A line is added behind those that are there, made of its parts in a row.
pub proof fn law_lines_are_added_behind(
    lines: &mut Vec<String>,
    head: &str,
    tail: &str,
    joined: String,
)
    requires
        call_ensures(push_line, (lines, head, tail), ()),
        call_ensures(with_lead, (head, tail), joined),
    ensures
        joined@ == head@ + tail@,
        final(lines)@.len() == old(lines)@.len() + 1,
        final(lines)@.last()@ == joined@,
        forall|i: int|
            0 <= i < old(lines)@.len() ==> (#[trigger] final(lines)@[i])@ == old(lines)@[i]@,
{
    let before = texts(old(lines)@);
    let after = texts(final(lines)@);
    assert(after.len() == final(lines)@.len());
    assert(after[before.len() as int] == head@ + tail@);
    assert forall|i: int| 0 <= i < old(lines)@.len() implies (#[trigger] final(lines)@[i])@
        == old(lines)@[i]@ by {
        assert(after[i] == before[i]);
    }
}

/// A text is added behind those that are there, as it is.
pub proof fn law_texts_are_added_behind(lines: &mut Vec<String>, line: &str, b: bool, shown: &'static str)
    requires
        call_ensures(push_text, (lines, line), ()),
        call_ensures(bool_text, (b,), shown),
    ensures
        shown@ == if b {
            "true"@
        } else {
            "false"@
        },
        final(lines)@.len() == old(lines)@.len() + 1,
        final(lines)@.last()@ == line@,
        forall|i: int|
            0 <= i < old(lines)@.len() ==> (#[trigger] final(lines)@[i])@ == old(lines)@[i]@,
{
    let before = texts(old(lines)@);
    let after = texts(final(lines)@);
    assert(after.len() == final(lines)@.len());
    assert(after[before.len() as int] == line@);
    assert forall|i: int| 0 <= i < old(lines)@.len() implies (#[trigger] final(lines)@[i])@
        == old(lines)@[i]@ by {
        assert(after[i] == before[i]);
    }
}

/// The pieces of a text are what stands between the separators: put in a row with it they
/// are the text, and none holds it.
pub proof fn law_split_texts_are_the_pieces(s: &str, sep: char, r: Vec<String>, i: int)
    requires
        call_ensures(split_text, (s, sep), r),
    ensures
        r@.len() >= 1,
        joined_by(texts(r@), seq![sep]) == s@,
        0 <= i < r@.len() ==> !r@[i]@.contains(sep),
{
    law_pieces_make_up_the_text(s@, sep);
    assert(texts(r@).len() == r@.len());
    if 0 <= i < r@.len() {
        assert(texts(r@)[i] == r@[i]@);
    }
}

/// A text ends with one of some texts, or holds one, where it does so with some single one
/// of them.
pub proof fn law_one_of_some_is_enough(
    s: &str,
    list: &[&str],
    ends: bool,
    holds: bool,
    one: &str,
    ends_one: bool,
    holds_one: bool,
    k: int,
)
    requires
        call_ensures(ends_with_one, (s, list), ends),
        call_ensures(contains_part, (s, list), holds),
        call_ensures(ends_with_text, (s, one), ends_one),
        call_ensures(contains_text, (s, one), holds_one),
        0 <= k < list@.len(),
        list@[k]@ == one@,
    ensures
        ends_one ==> ends,
        holds_one ==> holds,
        list@.len() == 1 ==> ends == ends_one && holds == holds_one,
{
    assert(literals(list@)[k] == one@);
}

/// Characters are those of the text, and the same where all of them are.
pub proof fn law_characters_are_those_of_the_text(
    s: &str,
    v: Vec<char>,
    a: &Vec<char>,
    b: &Vec<char>,
    same: bool,
)
    requires
        call_ensures(chars_of, (s,), v),
        call_ensures(same_chars, (a, b), same),
    ensures
        v@ == s@,
        same <==> a@.len() == b@.len() && forall|i: int| 0 <= i < a@.len() ==> a@[i] == b@[i],
{
    if a@.len() == b@.len() && forall|i: int| 0 <= i < a@.len() ==> a@[i] == b@[i] {
        assert(a@ =~= b@);
    }
}

} // verus!
