//! Unix paths as text: their components, and what is asked of them.
use vstd::prelude::*;

use crate::text;

verus! {

/// `p` begins at the root directory.
pub open spec fn is_absolute(p: Seq<char>) -> bool {
    p.len() > 0 && p[0] == '/'
}

/// The piece `piece`, the `i`-th between slashes, is a component: it is not
/// empty, and it is no `.` but at the very front.
pub open spec fn is_component(piece: Seq<char>, i: int) -> bool {
    piece.len() > 0 && (piece != seq!['.'] || i == 0)
}

/// The components among the pieces between slashes.
pub open spec fn components_among(pieces: Seq<Seq<char>>) -> Seq<Seq<char>>
    decreases pieces.len(),
{
    if pieces.len() == 0 {
        Seq::empty()
    } else {
        let done = components_among(pieces.drop_last());
        if is_component(pieces.last(), pieces.len() - 1) {
            done.push(pieces.last())
        } else {
            done
        }
    }
}

/// The components of a path: the root directory `/` of an absolute path, then
/// the names between slashes. Repeated and trailing slashes count once, and a
/// `.` counts only at the front of a relative path.
pub open spec fn components(p: Seq<char>) -> Seq<Seq<char>> {
    let root = if is_absolute(p) {
        seq![seq!['/']]
    } else {
        Seq::<Seq<char>>::empty()
    };
    root + components_among(text::split_on(p, '/'))
}

/// `p` is `base` or stands below it, component by component.
pub open spec fn is_under(p: Seq<char>, base: Seq<char>) -> bool {
    components(base).is_prefix_of(components(p))
}

/// The path `sub` taken from the directory `base`.
pub open spec fn joined(base: Seq<char>, sub: Seq<char>) -> Seq<char> {
    if is_absolute(sub) {
        sub
    } else if base.len() == 0 || base.last() == '/' {
        base + sub
    } else {
        base.push('/') + sub
    }
}

/// The last component of a path, where it is a name.
pub open spec fn leaf(p: Seq<char>) -> Option<Seq<char>> {
    let parts = components(p);
    if parts.len() > 0 && parts.last() != seq!['/'] && parts.last() != seq!['.'] && parts.last()
        != seq!['.', '.'] {
        Some(parts.last())
    } else {
        None
    }
}

/// The components of the directory that a path stands in.
pub open spec fn parent(p: Seq<char>) -> Seq<Seq<char>> {
    if components(p).len() > 0 {
        components(p).drop_last()
    } else {
        Seq::empty()
    }
}

/// A path taken apart into the components of its directory and its own name, where
/// it has one.
pub fn split_leaf(p: &str) -> (r: Option<(Vec<String>, String)>)
    ensures
        r is Some <==> leaf(p@) is Some,
        r is Some ==> Some((r->0).1@) == leaf(p@) && text::texts((r->0).0@) == parent(p@),
{
    let mut parts = path_components(p);
    let ghost whole = components(p@);
    proof {
        reveal_strlit("/");
        reveal_strlit(".");
        reveal_strlit("..");
        assert("/"@ =~= seq!['/']);
        assert("."@ =~= seq!['.']);
        assert(".."@ =~= seq!['.', '.']);
        assert(whole.len() == parts.len());
    }
    match parts.pop() {
        Some(last) => {
            proof {
                assert(last@ == whole.last());
                assert(text::texts(parts@) =~= whole.drop_last());
            }
            if text::same_text(last.as_str(), "/") || text::same_text(last.as_str(), ".")
                || text::same_text(last.as_str(), "..") {
                None
            } else {
                Some((parts, last))
            }
        },
        None => None,
    }
}

/// `true` where `p` begins at the root directory.
pub fn path_is_absolute(p: &str) -> (r: bool)
    ensures
        r == is_absolute(p@),
{
    !p.is_empty() && p.get_char(0) == '/'
}

/// The components of `p`.
pub fn path_components(p: &str) -> (r: Vec<String>)
    ensures
        text::texts(r@) == components(p@),
{
    let pieces = text::split_text(p, '/');
    let ghost whole = text::split_on(p@, '/');
    let mut r: Vec<String> = Vec::new();
    if path_is_absolute(p) {
        r.push("/".to_owned());
        proof {
            reveal_strlit("/");
            assert("/"@ =~= seq!['/']);
            assert(text::texts(r@) =~= seq![seq!['/']]);
        }
    } else {
        assert(text::texts(r@) =~= Seq::<Seq<char>>::empty());
    }
    let ghost root = text::texts(r@);
    let mut i: usize = 0;
    proof {
        reveal_strlit(".");
        assert("."@ =~= seq!['.']);
        assert(root + components_among(whole.subrange(0, 0)) =~= root);
        assert(whole.len() == pieces.len());
    }
    while i < pieces.len()
        invariant
            i <= pieces.len(),
            whole == text::texts(pieces@),
            "."@ == seq!['.'],
            text::texts(r@) == root + components_among(whole.subrange(0, i as int)),
        decreases pieces.len() - i,
    {
        proof {
            assert(whole.subrange(0, i + 1).drop_last() =~= whole.subrange(0, i as int));
            assert(whole[i as int] == pieces@[i as int]@);
        }
        let piece = &pieces[i];
        if !piece.as_str().is_empty() && (i == 0 || !text::same_text(piece.as_str(), ".")) {
            let ghost earlier = r@;
            r.push(piece.clone());
            proof {
                assert(text::texts(r@) =~= text::texts(earlier).push(piece@));
                assert(root + components_among(whole.subrange(0, i + 1)) =~= text::texts(earlier).push(
                    piece@,
                ));
            }
        }
        i = i + 1;
    }
    assert(whole.subrange(0, pieces.len() as int) =~= whole);
    r
}

/// `true` where the first components of `p` are those of `base`.
pub fn begins_with_components(p: &Vec<String>, base: &Vec<String>) -> (r: bool)
    ensures
        r == text::texts(base@).is_prefix_of(text::texts(p@)),
{
    if base.len() > p.len() {
        return false;
    }
    let mut i: usize = 0;
    while i < base.len()
        invariant
            i <= base.len() <= p.len(),
            forall|j: int| 0 <= j < i ==> text::texts(base@)[j] == text::texts(p@)[j],
        decreases base.len() - i,
    {
        if !text::same_text(base[i].as_str(), p[i].as_str()) {
            proof {
                assert(text::texts(base@)[i as int] != text::texts(p@)[i as int]);
            }
            return false;
        }
        i = i + 1;
    }
    assert(text::texts(base@) =~= text::texts(p@).subrange(0, base.len() as int));
    true
}

/// `true` where `p` is `base` or stands below it.
pub fn path_is_under(p: &str, base: &str) -> (r: bool)
    ensures
        r == is_under(p@, base@),
{
    begins_with_components(&path_components(p), &path_components(base))
}

/// `true` where both paths have the same components.
pub fn same_path(a: &str, b: &str) -> (r: bool)
    ensures
        r == (components(a@) == components(b@)),
{
    let av = path_components(a);
    let bv = path_components(b);
    if av.len() != bv.len() {
        assert(text::texts(av@).len() != text::texts(bv@).len());
        return false;
    }
    let r = begins_with_components(&av, &bv);
    proof {
        assert(text::texts(av@).subrange(0, bv.len() as int) =~= text::texts(av@));
        assert(text::texts(av@).is_prefix_of(text::texts(av@)));
    }
    r
}

/// The path `sub` taken from the directory `base`.
pub fn join_path(base: &str, sub: &str) -> (r: String)
    ensures
        r@ == joined(base@, sub@),
{
    if path_is_absolute(sub) {
        return sub.to_owned();
    }
    let mut r = base.to_owned();
    let n = base.unicode_len();
    if n > 0 && base.get_char(n - 1) != '/' {
        proof {
            reveal_strlit("/");
            assert(base@ + "/"@ =~= base@.push('/'));
        }
        r.append("/");
    }
    r.append(sub);
    r
}

proof fn lemma_components_among_join(a: Seq<Seq<char>>, b: Seq<Seq<char>>)
    requires
        a.len() > 0,
        b.len() > 0,
        b[0] != seq!['.'],
    ensures
        components_among(a + b) == components_among(a) + components_among(b),
    decreases b.len(),
{
    assert((a + b).drop_last() =~= a + b.drop_last());
    assert((a + b).last() == b.last());
    if b.len() == 1 {
        assert(a + b.drop_last() =~= a);
        assert(components_among(b.drop_last()) =~= Seq::<Seq<char>>::empty());
        assert(components_among(a + b) =~= components_among(a) + components_among(b));
    } else {
        assert(b.drop_last()[0] == b[0]);
        lemma_components_among_join(a, b.drop_last());
        assert(components_among(a + b) =~= components_among(a) + components_among(b));
    }
}

proof fn lemma_first_component(pieces: Seq<Seq<char>>)
    requires
        pieces.len() > 0,
        pieces[0] == seq!['.'],
    ensures
        components_among(pieces).len() > 0,
        components_among(pieces)[0] == seq!['.'],
    decreases pieces.len(),
{
    if pieces.len() > 1 {
        assert(pieces.drop_last()[0] == pieces[0]);
        lemma_first_component(pieces.drop_last());
    } else {
        assert(components_among(pieces.drop_last()) =~= Seq::<Seq<char>>::empty());
        assert(pieces.last() == pieces[0]);
    }
}

/// A relative path that does not begin with `.` adds its components to those of
/// the path it is joined to.
pub proof fn lemma_components_of_join(base: Seq<char>, sub: Seq<char>)
    requires
        !is_absolute(sub),
        components(sub).len() > 0 ==> components(sub)[0] != seq!['.'],
    ensures
        components(joined(base, sub)) == components(base) + components(sub),
{
    let slash = '/';
    let whole = joined(base, sub);
    let tail = text::split_on(sub, slash);
    text::lemma_split_on_nonempty(sub, slash);
    text::lemma_split_on_nonempty(base, slash);
    if tail[0] == seq!['.'] {
        lemma_first_component(tail);
        assert(components(sub) =~= components_among(tail));
    }
    if base.len() == 0 {
        assert(whole =~= sub);
        assert(text::split_on(base, slash) =~= seq![Seq::<char>::empty()]);
        assert(components_among(text::split_on(base, slash)) =~= Seq::<Seq<char>>::empty()) by {
            assert(seq![Seq::<char>::empty()].drop_last() =~= Seq::<Seq<char>>::empty());
            assert(components_among(Seq::<Seq<char>>::empty()) =~= Seq::<Seq<char>>::empty());
        }
        assert(components(whole) =~= components(base) + components(sub));
    } else if base.last() == slash {
        let front = base.drop_last();
        assert(base =~= front.push(slash));
        text::lemma_split_on_join(front, sub, slash);
        text::lemma_split_on_nonempty(front, slash);
        lemma_components_among_join(text::split_on(front, slash), tail);
        let pieces = text::split_on(base, slash);
        assert(pieces =~= text::split_on(front, slash).push(Seq::<char>::empty()));
        assert(pieces.drop_last() =~= text::split_on(front, slash));
        assert(is_absolute(whole) == is_absolute(base));
        assert(components(whole) =~= components(base) + components(sub));
    } else {
        text::lemma_split_on_join(base, sub, slash);
        lemma_components_among_join(text::split_on(base, slash), tail);
        assert(is_absolute(whole) == is_absolute(base));
        assert(components(whole) =~= components(base) + components(sub));
    }
}

/// What stands below a path that stands below `base` stands below `base`.
pub proof fn law_under_is_transitive(p: Seq<char>, middle: Seq<char>, base: Seq<char>)
    requires
        is_under(p, middle),
        is_under(middle, base),
    ensures
        is_under(p, base),
{
    assert(components(base) =~= components(p).subrange(0, components(base).len() as int)) by {
        assert(components(middle) =~= components(p).subrange(0, components(middle).len() as int));
        assert(components(base) =~= components(middle).subrange(0, components(base).len() as int));
    }
}

proof fn lemma_first_piece(s: Seq<char>, sep: char)
    ensures
        text::split_on(s, sep).len() >= 1,
        text::split_on(s, sep)[0].len() <= s.len(),
        s.take(text::split_on(s, sep)[0].len() as int) == text::split_on(s, sep)[0],
        text::split_on(s, sep)[0].len() < s.len() ==> s[text::split_on(s, sep)[0].len() as int]
            == sep,
        text::split_on(s, sep)[0].len() < s.len() <==> text::split_on(s, sep).len() > 1,
    decreases s.len(),
{
    text::lemma_split_on_nonempty(s, sep);
    if s.len() > 0 {
        let front = s.drop_last();
        lemma_first_piece(front, sep);
        let done = text::split_on(front, sep);
        if s.last() == sep || done.len() > 1 {
            assert(text::split_on(s, sep)[0] == done[0]);
            assert(s.take(done[0].len() as int) =~= front.take(done[0].len() as int));
        } else {
            assert(text::split_on(s, sep)[0] == done[0].push(s.last()));
            assert(done[0] =~= front);
            assert(s.take(s.len() as int) =~= front.push(s.last()));
        }
    } else {
        assert(s.take(0) =~= Seq::<char>::empty());
    }
}

proof fn lemma_components_start(pieces: Seq<Seq<char>>)
    requires
        pieces.len() > 0,
    ensures
        pieces[0] != seq!['.'] ==> forall|j: int|
            0 <= j < components_among(pieces).len() ==> #[trigger] components_among(pieces)[j]
                != seq!['.'],
        pieces[0].len() > 0 ==> components_among(pieces).len() > 0 && components_among(pieces)[0]
            == pieces[0],
    decreases pieces.len(),
{
    if pieces.len() > 1 {
        let front = pieces.drop_last();
        lemma_components_start(front);
        assert(front[0] == pieces[0]);
    } else {
        assert(components_among(pieces.drop_last()) =~= Seq::<Seq<char>>::empty());
        assert(pieces.last() == pieces[0]);
    }
}

/// A relative path that begins with a name adds its components to those of the
/// directory that it is taken from, and so leads below it.
pub proof fn law_join_adds_components(base: Seq<char>, sub: Seq<char>)
    requires
        sub.len() > 0,
        sub[0] != '/',
        sub[0] == '.' ==> sub.len() > 1 && sub[1] != '/',
    ensures
        components(joined(base, sub)) == components(base) + components(sub),
        components(sub).len() > 0,
{
    let pieces = text::split_on(sub, '/');
    lemma_first_piece(sub, '/');
    assert(pieces[0].len() > 0);
    assert(pieces[0] != seq!['.']) by {
        if pieces[0] == seq!['.'] {
            assert(sub.take(1)[0] == '.');
            assert(sub[0] == '.');
        }
    }
    lemma_components_start(pieces);
    assert(components(sub) =~= components_among(pieces));
    lemma_components_of_join(base, sub);
}

proof fn lemma_among(pieces: Seq<Seq<char>>)
    ensures
        forall|j: int|
            0 <= j < components_among(pieces).len() ==> (#[trigger] components_among(
                pieces,
            )[j]).len() > 0 && pieces.contains(components_among(pieces)[j]),
        forall|j: int|
            1 <= j < components_among(pieces).len() ==> #[trigger] components_among(pieces)[j]
                != seq!['.'],
        forall|i: int|
            0 <= i < pieces.len() && (#[trigger] pieces[i]).len() > 0 && pieces[i] != seq!['.']
                ==> components_among(pieces).contains(pieces[i]),
        components_among(pieces).len() <= pieces.len(),
    decreases pieces.len(),
{
    if pieces.len() > 0 {
        let front = pieces.drop_last();
        lemma_among(front);
        let all = components_among(pieces);
        let done = components_among(front);
        assert forall|j: int| 0 <= j < all.len() implies (#[trigger] all[j]).len() > 0
            && pieces.contains(all[j]) by {
            if j < done.len() {
                assert(front.contains(done[j]));
                let i = choose|i: int| 0 <= i < front.len() && front[i] == done[j];
                assert(pieces[i] == all[j]);
            } else {
                assert(pieces[pieces.len() - 1] == all[j]);
            }
        }
        assert forall|j: int| 1 <= j < all.len() implies #[trigger] all[j] != seq!['.'] by {
            if j < done.len() {
                assert(all[j] == done[j]);
            } else {
                assert(pieces.len() > 1);
            }
        }
        assert forall|i: int|
            0 <= i < pieces.len() && (#[trigger] pieces[i]).len() > 0 && pieces[i]
                != seq!['.'] implies all.contains(pieces[i]) by {
            if i < front.len() {
                assert(front[i] == pieces[i]);
                assert(done.contains(front[i]));
                let j = choose|j: int| 0 <= j < done.len() && done[j] == front[i];
                assert(all[j] == pieces[i]);
            } else {
                assert(all[all.len() - 1] == pieces[i]);
            }
        }
    }
}

/// The components of a path: an absolute one begins with the root, which stands
/// nowhere else; every other component is a name without a slash, not empty, and `.`
/// at the very front of a relative path at most. Every name between slashes is one of
/// them.
pub proof fn law_components_are_names(path: &str, r: Vec<String>)
    requires
        call_ensures(path_components, (path,), r),
    ensures
        path@.len() > 0 && path@[0] == '/' <==> r@.len() > 0 && r@[0]@ == seq!['/'],
        forall|i: int| 0 <= i < r@.len() ==> (#[trigger] r@[i])@.len() > 0,
        forall|i: int| 1 <= i < r@.len() ==> !(#[trigger] r@[i])@.contains('/'),
        forall|i: int| 1 <= i < r@.len() ==> (#[trigger] r@[i])@ != seq!['.'],
        forall|i: int|
            0 <= i < text::split_on(path@, '/').len() && (#[trigger] text::split_on(
                path@,
                '/',
            )[i]).len() > 0 && text::split_on(path@, '/')[i] != seq!['.'] ==> text::texts(
                r@,
            ).contains(text::split_on(path@, '/')[i]),
{
    let p = path@;
    let pieces = text::split_on(p, '/');
    let among = components_among(pieces);
    text::law_pieces_make_up_the_text(p, '/');
    lemma_among(pieces);
    lemma_first_piece(p, '/');
    let all = text::texts(r@);
    assert(all == components(p));
    assert forall|i: int| 0 <= i < r@.len() implies #[trigger] r@[i]@ == all[i] by {}
    assert forall|j: int| 0 <= j < among.len() implies !(#[trigger] among[j]).contains('/') by {
        assert(pieces.contains(among[j]));
        let i = choose|i: int| 0 <= i < pieces.len() && pieces[i] == among[j];
        assert(!pieces[i].contains('/'));
    }
    let lead: int = if is_absolute(p) {
        1
    } else {
        0
    };
    assert forall|i: int| lead <= i < r@.len() implies #[trigger] r@[i]@ == among[i - lead] by {
        assert(all[i] == among[i - lead]);
    }
    if is_absolute(p) {
        assert(all[0] == seq!['/']);
        assert(r@[0]@ == seq!['/']);
        assert(pieces[0].len() == 0) by {
            if pieces[0].len() > 0 {
                assert(p.take(pieces[0].len() as int)[0] == '/');
                assert(pieces[0].contains('/'));
            }
        }
        lemma_components_start(pieces);
    } else if r@.len() > 0 && r@[0]@ == seq!['/'] {
        assert(among[0] == seq!['/']);
        assert(among[0][0] == '/');
        assert(among[0].contains('/'));
    }
    assert forall|i: int| 1 <= i < r@.len() implies !(#[trigger] r@[i])@.contains('/') by {
        assert(r@[i]@ == among[i - lead]);
    }
    assert forall|i: int| 1 <= i < r@.len() implies (#[trigger] r@[i])@ != seq!['.'] by {
        assert(r@[i]@ == among[i - lead]);
    }
    assert forall|i: int|
        0 <= i < pieces.len() && (#[trigger] pieces[i]).len() > 0 && pieces[i]
            != seq!['.'] implies all.contains(pieces[i]) by {
        assert(among.contains(pieces[i]));
        let j = choose|j: int| 0 <= j < among.len() && among[j] == pieces[i];
        assert(all[j + lead] == pieces[i]);
    }
}

/// A path stands below another exactly where its components are those of the other
/// followed by more, or by none; two paths are the same where they stand below each
/// other.
pub proof fn law_under_means_more_components(
    p: &str,
    base: &str,
    below: bool,
    above: bool,
    same: bool,
)
    requires
        call_ensures(path_is_under, (p, base), below),
        call_ensures(path_is_under, (base, p), above),
        call_ensures(same_path, (p, base), same),
    ensures
        below <==> exists|rest: Seq<Seq<char>>|
            components(p@) == #[trigger] (components(base@) + rest),
        same <==> below && above,
{
    let a = components(p@);
    let b = components(base@);
    if below {
        let rest = a.skip(b.len() as int);
        assert(a =~= b + rest);
    }
    if exists|rest: Seq<Seq<char>>| components(p@) == #[trigger] (components(base@) + rest) {
        let rest = choose|rest: Seq<Seq<char>>|
            components(p@) == #[trigger] (components(base@) + rest);
        assert(b.is_prefix_of(a)) by {
            assert(a.subrange(0, b.len() as int) =~= b);
        }
    }
    if below && above {
        assert(a.len() == b.len());
        assert(a =~= b);
    }
    if same {
        assert(a.is_prefix_of(b)) by {
            assert(b.subrange(0, a.len() as int) =~= a);
        }
    }
}

/// A path taken apart comes together again: its directory and its own name are its
/// components; the name is neither `/`, `.` nor `..`.
pub proof fn law_parts_of_a_path_make_it_up(p: &str, r: Option<(Vec<String>, String)>)
    requires
        call_ensures(split_leaf, (p,), r),
    ensures
        r matches Some((parent, leaf)) ==> text::texts(parent@).push(leaf@) == components(p@),
        r is None <==> components(p@).len() == 0 || components(p@).last() == seq!['/'] || components(
            p@,
        ).last() == seq!['.'] || components(p@).last() == seq!['.', '.'],
{
    if r is Some {
        assert(text::texts((r->0).0@).push((r->0).1@) =~= components(p@));
    }
}

/// The path `sub` taken from `base` is the text of both with one slash between them,
/// or `sub` alone where that begins at the root.
pub proof fn law_joined_text(base: &str, sub: &str, r: String)
    requires
        call_ensures(join_path, (base, sub), r),
    ensures
        sub@.len() > 0 && sub@[0] == '/' ==> r@ == sub@,
        !(sub@.len() > 0 && sub@[0] == '/') && base@.len() > 0 && base@.last() != '/' ==> r@ == base@
            + seq!['/'] + sub@,
        !(sub@.len() > 0 && sub@[0] == '/') && (base@.len() == 0 || base@.last() == '/') ==> r@
            == base@ + sub@,
{
    assert(base@.push('/') + sub@ =~= base@ + seq!['/'] + sub@);
}

/// Two spellings are one path exactly where their components are the same, so that
/// whatever stands under the one stands under the other; a path begins at the root where
/// a slash comes first.
pub proof fn law_spellings_of_one_path(
    a: &str,
    b: &str,
    same: bool,
    p: &str,
    under_a: bool,
    under_b: bool,
    absolute: bool,
)
    requires
        call_ensures(same_path, (a, b), same),
        call_ensures(path_is_under, (p, a), under_a),
        call_ensures(path_is_under, (p, b), under_b),
        call_ensures(path_is_absolute, (a,), absolute),
    ensures
        same <==> components(a@) == components(b@),
        same ==> under_a == under_b,
        absolute <==> a@.len() > 0 && a@[0] == '/',
{
}

/// Components begin with others where they are the same as far as those go.
pub proof fn law_components_begin_with_others(p: &Vec<String>, base: &Vec<String>, r: bool)
    requires
        call_ensures(begins_with_components, (p, base), r),
    ensures
        r <==> base@.len() <= p@.len() && forall|i: int|
            0 <= i < base@.len() ==> (#[trigger] base@[i])@ == p@[i]@,
{
    let a = text::texts(p@);
    let b = text::texts(base@);
    if r {
        assert forall|i: int| 0 <= i < base@.len() implies (#[trigger] base@[i])@ == p@[i]@ by {
            assert(b[i] == a.subrange(0, b.len() as int)[i]);
            assert(b[i] == base@[i]@ && a[i] == p@[i]@);
        }
    }
    if base@.len() <= p@.len() && forall|i: int|
        0 <= i < base@.len() ==> (#[trigger] base@[i])@ == p@[i]@ {
        assert forall|i: int| 0 <= i < b.len() implies b[i] == a[i] by {
            assert(base@[i]@ == p@[i]@);
        }
        assert(b =~= a.subrange(0, b.len() as int));
    }
}

} // verus!
