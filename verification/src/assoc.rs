//! A map from texts to values, kept in the order of insertion.
use vstd::prelude::*;

use crate::text;

verus! {

/// A value that can be copied exactly.
pub trait Duplicate: Sized {
    fn duplicate(&self) -> (r: Self)
        ensures
            r == *self,
    ;
}

impl Duplicate for String {
    fn duplicate(&self) -> (r: Self) {
        self.clone()
    }
}

/// A map from texts to values.
#[derive(Debug)]
pub struct TextMap<V> {
    entries: Vec<(String, V)>,
}

/// No two entries have the same key.
pub open spec fn keys_differ<V>(entries: Seq<(String, V)>) -> bool {
    forall|i: int, j: int|
        0 <= i < j < entries.len() ==> (#[trigger] entries[i]).0@ != (#[trigger] entries[j]).0@
}

/// The map that a list of entries stands for.
pub open spec fn map_of<V>(entries: Seq<(String, V)>) -> Map<Seq<char>, V>
    decreases entries.len(),
{
    if entries.len() == 0 {
        Map::empty()
    } else {
        map_of(entries.drop_last()).insert(entries.last().0@, entries.last().1)
    }
}

/// The keys of a list of entries.
pub open spec fn keys_of<V>(entries: Seq<(String, V)>) -> Seq<Seq<char>> {
    entries.map_values(|e: (String, V)| e.0@)
}

/// Entries with keys of their own and the map that they stand for hold the same: every
/// entry is a pair of the map, and every key of the map stands at exactly one place.
pub proof fn law_entries_make_the_map<V>(entries: Seq<(String, V)>)
    requires
        keys_differ(entries),
    ensures
        forall|i: int|
            0 <= i < entries.len() ==> map_of(entries).contains_pair(
                #[trigger] keys_of(entries)[i],
                entries[i].1,
            ),
        keys_of(entries).no_duplicates(),
        keys_of(entries).to_set() == map_of(entries).dom(),
        map_of(entries).dom().finite(),
        map_of(entries).dom().len() == entries.len(),
{
    lemma_map_of(entries);
    lemma_map_of_len(entries);
    let keys = keys_of(entries);
    assert forall|i: int| 0 <= i < entries.len() implies map_of(entries).contains_pair(
        #[trigger] keys_of(entries)[i],
        entries[i].1,
    ) by {
        assert(keys[i] == entries[i].0@);
    }
    assert forall|i: int, j: int|
        0 <= i < keys.len() && 0 <= j < keys.len() && i != j implies keys[i] != keys[j] by {
        if i < j {
            assert(entries[i].0@ != entries[j].0@);
        } else {
            assert(entries[j].0@ != entries[i].0@);
        }
    }
    assert forall|k: Seq<char>| keys.to_set().contains(k) == map_of(entries).dom().contains(k) by {
        if map_of(entries).contains_key(k) {
            let i = choose|i: int| 0 <= i < entries.len() && (#[trigger] entries[i]).0@ == k;
            assert(keys[i] == k);
        }
        if keys.contains(k) {
            let i = choose|i: int| 0 <= i < keys.len() && keys[i] == k;
            assert(entries[i].0@ == k);
        }
    }
    assert(keys.to_set() =~= map_of(entries).dom());
}

proof fn lemma_map_of<V>(entries: Seq<(String, V)>)
    requires
        keys_differ(entries),
    ensures
        forall|i: int|
            0 <= i < entries.len() ==> map_of(entries).contains_pair(
                (#[trigger] entries[i]).0@,
                entries[i].1,
            ),
        forall|k: Seq<char>| #[trigger]
            map_of(entries).contains_key(k) ==> exists|i: int|
                0 <= i < entries.len() && (#[trigger] entries[i]).0@ == k,
    decreases entries.len(),
{
    if entries.len() > 0 {
        let front = entries.drop_last();
        assert forall|i: int, j: int| 0 <= i < j < front.len() implies (#[trigger] front[i]).0@ != (
        #[trigger] front[j]).0@ by {
            assert(entries[i].0@ != entries[j].0@);
        }
        lemma_map_of(front);
        assert forall|i: int| 0 <= i < entries.len() implies map_of(entries).contains_pair(
            (#[trigger] entries[i]).0@,
            entries[i].1,
        ) by {
            if i < front.len() {
                assert(front[i] == entries[i]);
                assert(entries[i].0@ != entries[entries.len() - 1].0@);
            }
        }
        assert forall|k: Seq<char>| #[trigger] map_of(entries).contains_key(k) implies exists|i: int|
            0 <= i < entries.len() && (#[trigger] entries[i]).0@ == k by {
            if k == entries.last().0@ {
                assert(entries[entries.len() - 1].0@ == k);
            } else {
                assert(map_of(front).contains_key(k));
                let i = choose|i: int| 0 <= i < front.len() && (#[trigger] front[i]).0@ == k;
                assert(entries[i].0@ == k);
            }
        }
    }
}

proof fn lemma_map_of_len<V>(entries: Seq<(String, V)>)
    requires
        keys_differ(entries),
    ensures
        map_of(entries).dom().finite(),
        map_of(entries).dom().len() == entries.len(),
    decreases entries.len(),
{
    if entries.len() > 0 {
        let front = entries.drop_last();
        assert forall|i: int, j: int| 0 <= i < j < front.len() implies (#[trigger] front[i]).0@ != (
        #[trigger] front[j]).0@ by {
            assert(entries[i].0@ != entries[j].0@);
        }
        lemma_map_of_len(front);
        lemma_map_of(front);
        let key = entries.last().0@;
        if map_of(front).contains_key(key) {
            let i = choose|i: int| 0 <= i < front.len() && (#[trigger] front[i]).0@ == key;
            assert(entries[i].0@ != entries[entries.len() - 1].0@);
        }
        assert(map_of(entries).dom() =~= map_of(front).dom().insert(key));
    }
}

proof fn lemma_map_of_remove<V>(entries: Seq<(String, V)>, at: int)
    requires
        keys_differ(entries),
        0 <= at < entries.len(),
    ensures
        keys_differ(entries.remove(at)),
        map_of(entries.remove(at)) == map_of(entries).remove(entries[at].0@),
{
    let rest = entries.remove(at);
    assert forall|i: int, j: int| 0 <= i < j < rest.len() implies (#[trigger] rest[i]).0@ != (
    #[trigger] rest[j]).0@ by {
        let a = if i < at {
            i
        } else {
            i + 1
        };
        let b = if j < at {
            j
        } else {
            j + 1
        };
        assert(entries[a].0@ != entries[b].0@);
    }
    lemma_map_of(entries);
    lemma_map_of(rest);
    assert forall|k: Seq<char>| map_of(rest).contains_key(k) == map_of(entries).remove(
        entries[at].0@,
    ).contains_key(k) by {
        if map_of(rest).contains_key(k) {
            let i = choose|i: int| 0 <= i < rest.len() && (#[trigger] rest[i]).0@ == k;
            let a = if i < at {
                i
            } else {
                i + 1
            };
            assert(rest[i] == entries[a]);
            assert(map_of(entries).contains_pair(entries[a].0@, entries[a].1));
            assert(a < at ==> entries[a].0@ != entries[at].0@);
            assert(at < a ==> entries[at].0@ != entries[a].0@);
        }
        if map_of(entries).remove(entries[at].0@).contains_key(k) {
            let a = choose|a: int| 0 <= a < entries.len() && (#[trigger] entries[a]).0@ == k;
            let i = if a < at {
                a
            } else {
                a - 1
            };
            assert(rest[i] == entries[a]);
            assert(map_of(rest).contains_pair(rest[i].0@, rest[i].1));
        }
    }
    assert forall|k: Seq<char>| map_of(rest).contains_key(k) implies map_of(rest)[k] == map_of(
        entries,
    ).remove(entries[at].0@)[k] by {
        let i = choose|i: int| 0 <= i < rest.len() && (#[trigger] rest[i]).0@ == k;
        let a = if i < at {
            i
        } else {
            i + 1
        };
        assert(rest[i] == entries[a]);
        assert(map_of(entries).contains_pair(entries[a].0@, entries[a].1));
        assert(map_of(rest).contains_pair(rest[i].0@, rest[i].1));
    }
    assert(map_of(rest) =~= map_of(entries).remove(entries[at].0@));
}

impl<V> View for TextMap<V> {
    type V = Map<Seq<char>, V>;

    closed spec fn view(&self) -> Map<Seq<char>, V> {
        map_of(self.entries@)
    }
}

impl<V> TextMap<V> {
    #[verifier::type_invariant]
    spec fn well_formed(self) -> bool {
        keys_differ(self.entries@)
    }

    /// The entries as they are kept.
    pub closed spec fn listed(self) -> Seq<(String, V)> {
        self.entries@
    }

    /// The keys as they are kept.
    pub open spec fn keys(self) -> Seq<Seq<char>> {
        keys_of(self.listed())
    }

    /// The entries make up the map: each stands for a key of its own.
    pub open spec fn is_exact(self) -> bool {
        &&& keys_differ(self.listed())
        &&& self@ == map_of(self.listed())
    }

    /// A map without entries.
    pub fn new() -> (r: Self)
        ensures
            r@ == Map::<Seq<char>, V>::empty(),
            r.listed().len() == 0,
    {
        TextMap { entries: Vec::new() }
    }

    /// The number of entries.
    pub fn len(&self) -> (r: usize)
        ensures
            r == self.listed().len(),
            r == self@.dom().len(),
            self@.dom().finite(),
            self.is_exact(),
    {
        proof {
            use_type_invariant(self);
            lemma_map_of_len(self.entries@);
        }
        self.entries.len()
    }

    fn find(&self, key: &str) -> (r: Option<usize>)
        ensures
            r is Some <==> self@.contains_key(key@),
            r is Some ==> r->0 < self.entries@.len() && self.entries@[r->0 as int].0@ == key@,
    {
        proof {
            use_type_invariant(self);
            lemma_map_of(self.entries@);
        }
        let mut i: usize = 0;
        while i < self.entries.len()
            invariant
                i <= self.entries.len(),
                forall|j: int| 0 <= j < i ==> (#[trigger] self.entries@[j]).0@ != key@,
            decreases self.entries.len() - i,
        {
            if text::same_text(self.entries[i].0.as_str(), key) {
                proof {
                    use_type_invariant(self);
                    lemma_map_of(self.entries@);
                    assert(self@.contains_pair(
                        self.entries@[i as int].0@,
                        self.entries@[i as int].1,
                    ));
                }
                return Some(i);
            }
            i = i + 1;
        }
        None
    }

    /// `true` where the map has an entry for `key`.
    pub fn contains(&self, key: &str) -> (r: bool)
        ensures
            r == self@.contains_key(key@),
    {
        self.find(key).is_some()
    }

    /// The value for `key`.
    pub fn get(&self, key: &str) -> (r: Option<&V>)
        ensures
            r is Some <==> self@.contains_key(key@),
            r is Some ==> *r->0 == self@[key@],
    {
        match self.find(key) {
            Some(i) => {
                proof {
                    use_type_invariant(self);
                    lemma_map_of(self.entries@);
                    assert(self@.contains_pair(
                        self.entries@[i as int].0@,
                        self.entries@[i as int].1,
                    ));
                }
                Some(&self.entries[i].1)
            },
            None => None,
        }
    }

    /// The key of the `i`-th entry.
    pub fn key_at(&self, i: usize) -> (r: &String)
        requires
            i < self.listed().len(),
        ensures
            *r == self.listed()[i as int].0,
            self@.contains_key(r@),
    {
        proof {
            use_type_invariant(self);
            lemma_map_of(self.entries@);
            assert(self@.contains_pair(self.entries@[i as int].0@, self.entries@[i as int].1));
        }
        &self.entries[i].0
    }

    /// The value of the `i`-th entry.
    pub fn value_at(&self, i: usize) -> (r: &V)
        requires
            i < self.listed().len(),
        ensures
            *r == self.listed()[i as int].1,
            self@.contains_pair(self.listed()[i as int].0@, *r),
    {
        proof {
            use_type_invariant(self);
            lemma_map_of(self.entries@);
            assert(self@.contains_pair(self.entries@[i as int].0@, self.entries@[i as int].1));
        }
        &self.entries[i].1
    }

    /// Takes the entry for `key` out.
    pub fn remove(&mut self, key: &str)
        ensures
            final(self)@ == old(self)@.remove(key@),
    {
        match self.find(key) {
            Some(i) => {
                proof {
                    use_type_invariant(&*self);
                    lemma_map_of_remove(self.entries@, i as int);
                }
                let mut entries: Vec<(String, V)> = Vec::new();
                std::mem::swap(&mut entries, &mut self.entries);
                entries.remove(i);
                self.entries = entries;
            },
            None => {
                assert(self@.remove(key@) =~= self@);
            },
        }
    }

    /// Sets the value for `key`, which comes last in the order of insertion.
    pub fn insert(&mut self, key: String, value: V)
        ensures
            final(self)@ == old(self)@.insert(key@, value),
    {
        self.remove(key.as_str());
        proof {
            use_type_invariant(&*self);
            lemma_map_of(self.entries@);
            let after = self.entries@.push((key, value));
            assert forall|i: int, j: int| 0 <= i < j < after.len() implies (#[trigger] after[i]).0@
                != (#[trigger] after[j]).0@ by {
                if j < self.entries@.len() {
                    assert(self.entries@[i].0@ != self.entries@[j].0@);
                } else {
                    assert(map_of(self.entries@).contains_pair(
                        self.entries@[i].0@,
                        self.entries@[i].1,
                    ));
                }
            }
            assert(after.drop_last() =~= self.entries@);
            assert(map_of(after) =~= old(self)@.insert(key@, value));
        }
        let mut entries: Vec<(String, V)> = Vec::new();
        std::mem::swap(&mut entries, &mut self.entries);
        entries.push((key, value));
        self.entries = entries;
    }
}

impl<V: Duplicate> TextMap<V> {
    /// A copy of this map.
    pub fn copy(&self) -> (r: Self)
        ensures
            r@ == self@,
            r.listed() == self.listed(),
    {
        let mut entries: Vec<(String, V)> = Vec::new();
        let mut i: usize = 0;
        while i < self.entries.len()
            invariant
                i <= self.entries.len(),
                entries@ == self.entries@.subrange(0, i as int),
            decreases self.entries.len() - i,
        {
            entries.push((self.entries[i].0.clone(), self.entries[i].1.duplicate()));
            i = i + 1;
            assert(entries@ =~= self.entries@.subrange(0, i as int));
        }
        proof {
            use_type_invariant(self);
            assert(entries@ =~= self.entries@);
        }
        TextMap { entries }
    }

    /// Takes over every entry of `other`; its values replace those that are there.
    pub fn merge(&mut self, other: &TextMap<V>)
        ensures
            final(self)@ == old(self)@.union_prefer_right(other@),
    {
        let mut i: usize = 0;
        assert(self@.union_prefer_right(map_of(other.entries@.subrange(0, 0))) =~= self@);
        while i < other.entries.len()
            invariant
                i <= other.entries.len(),
                self@ == old(self)@.union_prefer_right(
                    map_of(other.entries@.subrange(0, i as int)),
                ),
            decreases other.entries.len() - i,
        {
            let ghost before = other.entries@.subrange(0, i as int);
            let ghost after = other.entries@.subrange(0, i + 1);
            let ghost earlier = self@;
            self.insert(other.entries[i].0.clone(), other.entries[i].1.duplicate());
            proof {
                assert(after.drop_last() =~= before);
                assert(after.last() == other.entries@[i as int]);
                assert(self@ =~= old(self)@.union_prefer_right(map_of(after)));
            }
            i = i + 1;
        }
        assert(other.entries@.subrange(0, other.entries.len() as int) =~= other.entries@);
    }
}

impl<V: Duplicate> Clone for TextMap<V> {
    fn clone(&self) -> (r: Self)
        ensures
            r@ == self@,
            r.listed() == self.listed(),
    {
        self.copy()
    }
}

/// A map to texts, in terms of characters.
pub open spec fn as_texts(m: Map<Seq<char>, String>) -> Map<Seq<char>, Seq<char>> {
    m.map_values(|v: String| v@)
}

impl TextMap<String> {
    /// `true` where the other map has the same keys and the same text for each.
    pub fn same(&self, other: &TextMap<String>) -> (r: bool)
        ensures
            r == (as_texts(self@) == as_texts(other@)),
    {
        let n: usize = self.len();
        if n != other.len() {
            assert(as_texts(self@).dom() =~= self@.dom());
            assert(as_texts(other@).dom() =~= other@.dom());
            return false;
        }
        proof {
            use_type_invariant(self);
            lemma_map_of(self.entries@);
        }
        let mut i: usize = 0;
        while i < n
            invariant
                i <= n,
                n == self.entries@.len(),
                self@ == map_of(self.entries@),
                forall|j: int|
                    0 <= j < self.entries@.len() ==> map_of(self.entries@).contains_pair(
                        (#[trigger] self.entries@[j]).0@,
                        self.entries@[j].1,
                    ),
                forall|j: int|
                    0 <= j < i ==> other@.contains_key((#[trigger] self.entries@[j]).0@)
                        && other@[self.entries@[j].0@]@ == self.entries@[j].1@,
            decreases n - i,
        {
            let key = self.entries[i].0.as_str();
            let ghost at = self.entries@[i as int];
            let found = match other.get(key) {
                Some(value) => text::same_text(value.as_str(), self.entries[i].1.as_str()),
                None => false,
            };
            if !found {
                proof {
                    assert(self@.contains_pair(at.0@, at.1));
                    assert(as_texts(self@).contains_pair(at.0@, at.1@));
                    if as_texts(self@) == as_texts(other@) {
                        assert(as_texts(other@).contains_pair(at.0@, at.1@));
                        assert(other@.contains_key(at.0@));
                    }
                }
                return false;
            }
            i += 1;
        }
        proof {
            assert forall|k: Seq<char>| #[trigger] self@.contains_key(k) implies other@.contains_key(
                k,
            ) && other@[k]@ == self@[k]@ by {
                let j = choose|j: int|
                    0 <= j < self.entries@.len() && (#[trigger] self.entries@[j]).0@ == k;
                assert(self@.contains_pair(self.entries@[j].0@, self.entries@[j].1));
            }
            vstd::set_lib::lemma_subset_equality(self@.dom(), other@.dom());
            assert(as_texts(self@) =~= as_texts(other@));
        }
        true
    }
}

/// What is inserted is found under its key, and everything else as before.
pub proof fn law_inserted_values_are_found<V>(
    map: &mut TextMap<V>,
    key: String,
    value: V,
    k: &str,
    before: &TextMap<V>,
    after: &TextMap<V>,
    earlier: Option<&V>,
    found: Option<&V>,
)
    requires
        call_ensures(TextMap::<V>::insert, (map, key, value), ()),
        *before == *old(map),
        *after == *final(map),
        call_ensures(TextMap::<V>::get, (before, k), earlier),
        call_ensures(TextMap::<V>::get, (after, k), found),
    ensures
        k@ == key@ ==> found is Some && *found->0 == value,
        k@ != key@ ==> (found is Some <==> earlier is Some) && (found is Some ==> *found->0
            == *earlier->0),
{
}

/// What is removed is not found any more, and everything else as before.
pub proof fn law_removed_values_are_gone<V>(
    map: &mut TextMap<V>,
    key: &str,
    k: &str,
    before: &TextMap<V>,
    after: &TextMap<V>,
    earlier: Option<&V>,
    found: Option<&V>,
)
    requires
        call_ensures(TextMap::<V>::remove, (map, key), ()),
        *before == *old(map),
        *after == *final(map),
        call_ensures(TextMap::<V>::get, (before, k), earlier),
        call_ensures(TextMap::<V>::get, (after, k), found),
    ensures
        k@ == key@ ==> found is None,
        k@ != key@ ==> (found is Some <==> earlier is Some) && (found is Some ==> *found->0
            == *earlier->0),
{
}

/// A map tells of a key what it would give for it, a new one has none, and a copy gives
/// the same.
pub proof fn law_maps_tell_what_they_hold<V: Duplicate>(
    map: &TextMap<V>,
    k: &str,
    told: bool,
    found: Option<&V>,
    copy: TextMap<V>,
    again: Option<&V>,
    none: TextMap<V>,
    nothing: Option<&V>,
)
    requires
        call_ensures(TextMap::<V>::contains, (map, k), told),
        call_ensures(TextMap::<V>::get, (map, k), found),
        call_ensures(TextMap::<V>::copy, (map,), copy),
        call_ensures(TextMap::<V>::get, (&copy, k), again),
        call_ensures(TextMap::<V>::new, (), none),
        call_ensures(TextMap::<V>::get, (&none, k), nothing),
    ensures
        told <==> found is Some,
        again is Some <==> found is Some,
        found is Some ==> *again->0 == *found->0,
        nothing is None,
{
}

/// Every entry of the list is found under its key, every key of the map stands in the
/// list, and there are as many of one as of the other.
pub proof fn law_entries_are_what_is_found<V>(
    map: &TextMap<V>,
    n: usize,
    i: usize,
    key: &String,
    value: &V,
    k: &str,
    found: Option<&V>,
)
    requires
        call_ensures(TextMap::<V>::len, (map,), n),
        i < n,
        call_ensures(TextMap::<V>::key_at, (map, i), key),
        call_ensures(TextMap::<V>::value_at, (map, i), value),
        call_ensures(TextMap::<V>::get, (map, k), found),
    ensures
        k@ == key@ ==> found is Some && *found->0 == *value,
        found is Some ==> exists|j: int|
            0 <= j < n && (#[trigger] map.listed()[j]).0@ == k@ && map.listed()[j].1 == *found->0,
{
    law_entries_make_the_map(map.listed());
    if found is Some {
        assert(keys_of(map.listed()).to_set().contains(k@));
        let j = choose|j: int| 0 <= j < n && keys_of(map.listed())[j] == k@;
        assert(map.listed()[j].0@ == k@);
        assert(map@.contains_pair(keys_of(map.listed())[j], map.listed()[j].1));
    }
}

/// After a merge the values of the other map are found, and where it has none those that
/// were there.
pub proof fn law_merged_values_win<V: Duplicate>(
    map: &mut TextMap<V>,
    other: &TextMap<V>,
    k: &str,
    before: &TextMap<V>,
    after: &TextMap<V>,
    earlier: Option<&V>,
    theirs: Option<&V>,
    found: Option<&V>,
)
    requires
        call_ensures(TextMap::<V>::merge, (map, other), ()),
        *before == *old(map),
        *after == *final(map),
        call_ensures(TextMap::<V>::get, (before, k), earlier),
        call_ensures(TextMap::<V>::get, (other, k), theirs),
        call_ensures(TextMap::<V>::get, (after, k), found),
    ensures
        found is Some <==> earlier is Some || theirs is Some,
        theirs is Some ==> *found->0 == *theirs->0,
        theirs is None && earlier is Some ==> *found->0 == *earlier->0,
{
}

/// Maps that are the same give the same text for every key; maps that give another text
/// for some key are not.
pub proof fn law_same_maps_give_the_same_texts(
    a: &TextMap<String>,
    b: &TextMap<String>,
    same: bool,
    k: &str,
    in_a: Option<&String>,
    in_b: Option<&String>,
)
    requires
        call_ensures(TextMap::<String>::same, (a, b), same),
        call_ensures(TextMap::<String>::get, (a, k), in_a),
        call_ensures(TextMap::<String>::get, (b, k), in_b),
    ensures
        same ==> (in_a is Some <==> in_b is Some) && (in_a is Some ==> in_a->0@ == in_b->0@),
        a@ == b@ ==> same,
{
    assert(as_texts(a@).contains_key(k@) <==> a@.contains_key(k@));
    assert(as_texts(b@).contains_key(k@) <==> b@.contains_key(k@));
    if same && in_a is Some {
        assert(as_texts(a@)[k@] == a@[k@]@);
        assert(as_texts(b@)[k@] == b@[k@]@);
    }
}

} // verus!
