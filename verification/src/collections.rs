//! An ordered map keyed by byte strings, held as a vector sorted by key.

use crate::types::hash::slice_to_vec;
use vstd::prelude::*;

verus! {

/// The dictionary order of byte strings: a proper prefix comes first.
pub open spec fn lex_lt(a: Seq<u8>, b: Seq<u8>) -> bool
    decreases a.len(),
{
    if b.len() == 0 {
        false
    } else if a.len() == 0 {
        true
    } else if a[0] != b[0] {
        a[0] < b[0]
    } else {
        lex_lt(a.drop_first(), b.drop_first())
    }
}

/// Of two byte strings exactly one holds: the first is smaller, they are
/// equal, or the second is smaller.
pub proof fn lemma_lex_trichotomy(a: Seq<u8>, b: Seq<u8>)
    ensures
        lex_lt(a, b) || a == b || lex_lt(b, a),
        !(lex_lt(a, b) && lex_lt(b, a)),
        a == b ==> !lex_lt(a, b),
    decreases a.len(),
{
    if a.len() == 0 || b.len() == 0 {
        if a.len() == 0 && b.len() == 0 {
            assert(a =~= b);
        }
    } else if a[0] == b[0] {
        lemma_lex_trichotomy(a.drop_first(), b.drop_first());
        if a.drop_first() == b.drop_first() {
            assert(a =~= seq![a[0]] + a.drop_first());
            assert(b =~= seq![b[0]] + b.drop_first());
        }
    }
}

/// The dictionary order is transitive.
pub proof fn lemma_lex_transitive(a: Seq<u8>, b: Seq<u8>, c: Seq<u8>)
    requires
        lex_lt(a, b),
        lex_lt(b, c),
    ensures
        lex_lt(a, c),
    decreases a.len(),
{
    if a.len() > 0 && b.len() > 0 && c.len() > 0 {
        if a[0] == b[0] && b[0] == c[0] {
            lemma_lex_transitive(a.drop_first(), b.drop_first(), c.drop_first());
        }
    }
}

/// How one byte string stands to another in the dictionary order.
#[derive(Clone, Copy, Debug, PartialEq, Eq, Structural)]
pub enum Rank {
    Below,
    Same,
    Above,
}

/// Where `a` stands to `b` in the dictionary order.
pub fn lex_rank(a: &[u8], b: &[u8]) -> (r: Rank)
    ensures
        (r == Rank::Below) == lex_lt(a@, b@),
        (r == Rank::Same) == (a@ == b@),
        (r == Rank::Above) == lex_lt(b@, a@),
{
    proof {
        lemma_lex_trichotomy(a@, b@);
    }
    let mut i: usize = 0;
    assert(a@.subrange(0, a@.len() as int) =~= a@);
    assert(b@.subrange(0, b@.len() as int) =~= b@);
    while i < a.len() && i < b.len()
        invariant
            i <= a@.len(),
            i <= b@.len(),
            lex_lt(a@, b@) == lex_lt(
                a@.subrange(i as int, a@.len() as int),
                b@.subrange(i as int, b@.len() as int),
            ),
            lex_lt(b@, a@) == lex_lt(
                b@.subrange(i as int, b@.len() as int),
                a@.subrange(i as int, a@.len() as int),
            ),
        decreases a@.len() - i,
    {
        let ghost ra = a@.subrange(i as int, a@.len() as int);
        let ghost rb = b@.subrange(i as int, b@.len() as int);
        assert(ra[0] == a@[i as int]);
        assert(rb[0] == b@[i as int]);
        if a[i] < b[i] {
            return Rank::Below;
        }
        if a[i] > b[i] {
            return Rank::Above;
        }
        assert(ra.drop_first() =~= a@.subrange(i + 1, a@.len() as int));
        assert(rb.drop_first() =~= b@.subrange(i + 1, b@.len() as int));
        i += 1;
    }
    if i < b.len() {
        Rank::Below
    } else if i < a.len() {
        Rank::Above
    } else {
        Rank::Same
    }
}

/// An ordered map from byte strings to values.
///
/// The entries are held sorted by key, each key once.
pub struct SortedMap<V> {
    entries: Vec<(Vec<u8>, V)>,
}

/// Whether the keys of a sequence of entries strictly ascend.
pub open spec fn keys_ascend<V>(s: Seq<(Vec<u8>, V)>) -> bool {
    forall|i: int, j: int| 0 <= i < j < s.len() ==> lex_lt(#[trigger] s[i].0@, #[trigger] s[j].0@)
}

/// A position at which a sequence of entries holds the key `k`.
pub open spec fn index_of<V>(s: Seq<(Vec<u8>, V)>, k: Seq<u8>) -> int {
    choose|i: int| 0 <= i < s.len() && #[trigger] s[i].0@ == k
}

/// The map that a sequence of entries with distinct keys stands for.
pub open spec fn map_of<V>(s: Seq<(Vec<u8>, V)>) -> Map<Seq<u8>, V> {
    Map::new(
        |k: Seq<u8>| exists|i: int| 0 <= i < s.len() && #[trigger] s[i].0@ == k,
        |k: Seq<u8>| s[index_of(s, k)].1,
    )
}

/// In a sequence with ascending keys no key stands at two positions.
pub proof fn lemma_keys_distinct<V>(s: Seq<(Vec<u8>, V)>, i: int, j: int)
    requires
        keys_ascend(s),
        0 <= i < s.len(),
        0 <= j < s.len(),
        i != j,
    ensures
        s[i].0@ != s[j].0@,
{
    if j < i {
        lemma_lex_trichotomy(s[j].0@, s[i].0@);
    } else {
        lemma_lex_trichotomy(s[i].0@, s[j].0@);
    }
}

/// In a sequence with ascending keys, the entry at `i` is what its key maps to.
pub proof fn lemma_map_of_at<V>(s: Seq<(Vec<u8>, V)>, i: int)
    requires
        keys_ascend(s),
        0 <= i < s.len(),
    ensures
        map_of(s).contains_key(s[i].0@),
        map_of(s)[s[i].0@] == s[i].1,
        index_of(s, s[i].0@) == i,
{
    let k = s[i].0@;
    let j = index_of(s, k);
    assert(0 <= j < s.len() && s[j].0@ == k);
    if j != i {
        lemma_keys_distinct(s, i, j);
    }
}

impl<V> SortedMap<V> {
    #[verifier::type_invariant]
    closed spec fn inv(&self) -> bool {
        keys_ascend(self.entries@)
    }

    /// The entries, in the order of their keys.
    pub closed spec fn entries(&self) -> Seq<(Vec<u8>, V)> {
        self.entries@
    }

    /// Makes known that the keys of the entries ascend strictly.
    pub fn ascending(&self)
        ensures
            keys_ascend(self.entries()),
            self@ == map_of(self.entries()),
    {
        proof {
            use_type_invariant(self);
        }
    }

    /// The map without entries.
    pub fn new() -> (m: Self)
        ensures
            m@ == Map::<Seq<u8>, V>::empty(),
            m.entries().len() == 0,
    {
        let m = SortedMap { entries: Vec::new() };
        assert(m@ =~= Map::<Seq<u8>, V>::empty());
        m
    }

    /// The map that holds the given entries, which are sorted by key.
    pub fn from_sorted(entries: Vec<(Vec<u8>, V)>) -> (m: Self)
        requires
            keys_ascend(entries@),
        ensures
            m.entries() == entries@,
            m@ == map_of(entries@),
    {
        SortedMap { entries }
    }

    /// The map is the one that its entries stand for.
    pub proof fn lemma_view(self)
        ensures
            self@ == map_of(self.entries()),
    {
    }

    /// The number of entries.
    pub fn len(&self) -> (n: usize)
        ensures
            n == self.entries().len(),
    {
        self.entries.len()
    }

    /// The key and the value of the entry at position `i`.
    pub fn entry_at(&self, i: usize) -> (e: (&Vec<u8>, &V))
        requires
            i < self.entries().len(),
        ensures
            *e.0 == self.entries()[i as int].0,
            *e.1 == self.entries()[i as int].1,
            self@.contains_key(e.0@),
            self@[e.0@] == *e.1,
    {
        proof {
            use_type_invariant(self);
            lemma_map_of_at(self.entries@, i as int);
        }
        (&self.entries[i].0, &self.entries[i].1)
    }

    /// Where `key` is, or where it would have to go.
    fn locate(&self, key: &[u8]) -> (r: (usize, bool))
        ensures
            r.0 <= self.entries().len(),
            forall|i: int| 0 <= i < r.0 ==> lex_lt(#[trigger] self.entries()[i].0@, key@),
            r.1 ==> r.0 < self.entries().len() && self.entries()[r.0 as int].0@ == key@,
            !r.1 ==> forall|i: int|
                r.0 <= i < self.entries().len() ==> lex_lt(key@, #[trigger] self.entries()[i].0@),
            r.1 == self@.contains_key(key@),
    {
        proof {
            use_type_invariant(self);
        }
        let mut i: usize = 0;
        while i < self.entries.len()
            invariant
                i <= self.entries@.len(),
                keys_ascend(self.entries@),
                forall|j: int| 0 <= j < i ==> lex_lt(#[trigger] self.entries@[j].0@, key@),
            decreases self.entries@.len() - i,
        {
            match lex_rank(self.entries[i].0.as_slice(), key) {
                Rank::Below => {},
                Rank::Same => {
                    return (i, true);
                },
                Rank::Above => {
                    proof {
                        assert forall|j: int| i <= j < self.entries@.len() implies lex_lt(
                            key@,
                            #[trigger] self.entries@[j].0@,
                        ) by {
                            if j > i {
                                lemma_lex_transitive(
                                    key@,
                                    self.entries@[i as int].0@,
                                    self.entries@[j].0@,
                                );
                            }
                        }
                        assert(!self@.contains_key(key@)) by {
                            if self@.contains_key(key@) {
                                let j = choose|j: int|
                                    0 <= j < self.entries@.len() && #[trigger] self.entries@[j].0@
                                        == key@;
                                lemma_lex_trichotomy(self.entries@[j].0@, key@);
                            }
                        }
                    }
                    return (i, false);
                },
            }
            i += 1;
        }
        proof {
            assert(!self@.contains_key(key@)) by {
                if self@.contains_key(key@) {
                    let j = choose|j: int|
                        0 <= j < self.entries@.len() && #[trigger] self.entries@[j].0@ == key@;
                    lemma_lex_trichotomy(self.entries@[j].0@, key@);
                }
            }
        }
        (i, false)
    }

    /// Whether the map holds the key.
    pub fn contains_key(&self, key: &[u8]) -> (r: bool)
        ensures
            r == self@.contains_key(key@),
    {
        self.locate(key).1
    }

    /// The value that `key` maps to, if it maps to one.
    pub fn get(&self, key: &[u8]) -> (r: Option<&V>)
        ensures
            match r {
                Some(v) => self@.contains_key(key@) && self@[key@] == *v,
                None => !self@.contains_key(key@),
            },
    {
        let (i, found) = self.locate(key);
        if found {
            proof {
                use_type_invariant(self);
                lemma_map_of_at(self.entries@, i as int);
            }
            Some(&self.entries[i].1)
        } else {
            None
        }
    }

    /// Maps `key` to `value`, in place of what it mapped to before.
    pub fn insert(&mut self, key: &[u8], value: V)
        ensures
            final(self)@ == old(self)@.insert(key@, value),
    {
        proof {
            use_type_invariant(&*self);
        }
        let (i, found) = self.locate(key);
        let ghost before = self.entries@;
        let k = slice_to_vec(key);
        let mut taken = SortedMap { entries: Vec::new() };
        std::mem::swap(self, &mut taken);
        let mut entries = taken.entries;
        if found {
            entries.set(i, (k, value));
            proof {
                let after = entries@;
                assert(keys_ascend(after)) by {
                    assert forall|a: int, b: int| 0 <= a < b < after.len() implies lex_lt(
                        #[trigger] after[a].0@,
                        #[trigger] after[b].0@,
                    ) by {
                        assert(after[a].0@ == before[a].0@);
                        assert(after[b].0@ == before[b].0@);
                    }
                }
                assert(map_of(after) =~= map_of(before).insert(key@, value)) by {
                    assert forall|q: Seq<u8>| map_of(after).contains_key(q) implies map_of(
                        before,
                    ).insert(key@, value).contains_key(q) by {
                        let j = choose|j: int| 0 <= j < after.len() && #[trigger] after[j].0@ == q;
                        assert(before[j].0@ == q);
                    }
                    assert forall|q: Seq<u8>|
                        map_of(before).insert(key@, value).contains_key(q) implies map_of(
                        after,
                    ).contains_key(q) by {
                        if q == key@ {
                            assert(after[i as int].0@ == q);
                        } else {
                            let j = choose|j: int|
                                0 <= j < before.len() && #[trigger] before[j].0@ == q;
                            assert(after[j].0@ == q);
                        }
                    }
                    assert forall|q: Seq<u8>| map_of(after).contains_key(q) implies map_of(
                        after,
                    )[q] == map_of(before).insert(key@, value)[q] by {
                        let j = choose|j: int| 0 <= j < after.len() && #[trigger] after[j].0@ == q;
                        lemma_map_of_at(after, j);
                        if j != i {
                            assert(before[j] == after[j]);
                            lemma_map_of_at(before, j);
                            lemma_keys_distinct(after, i as int, j);
                        }
                    }
                }
            }
        } else {
            entries.insert(i, (k, value));
            proof {
                let after = entries@;
                assert(after == before.insert(i as int, (k, value)));
                assert(keys_ascend(after)) by {
                    assert forall|a: int, b: int| 0 <= a < b < after.len() implies lex_lt(
                        #[trigger] after[a].0@,
                        #[trigger] after[b].0@,
                    ) by {
                        if a < i && b > i {
                            assert(after[a] == before[a]);
                            assert(after[b] == before[b - 1]);
                        } else if a < i && b < i {
                            assert(after[a] == before[a]);
                            assert(after[b] == before[b]);
                        } else if a > i {
                            assert(after[a] == before[a - 1]);
                            assert(after[b] == before[b - 1]);
                        } else if a == i {
                            assert(after[b] == before[b - 1]);
                        } else {
                            assert(after[a] == before[a]);
                        }
                    }
                }
                assert(map_of(after) =~= map_of(before).insert(key@, value)) by {
                    assert forall|q: Seq<u8>| map_of(after).contains_key(q) implies map_of(
                        before,
                    ).insert(key@, value).contains_key(q) by {
                        let j = choose|j: int| 0 <= j < after.len() && #[trigger] after[j].0@ == q;
                        if j < i {
                            assert(before[j].0@ == q);
                        } else if j > i {
                            assert(before[j - 1].0@ == q);
                        }
                    }
                    assert forall|q: Seq<u8>|
                        map_of(before).insert(key@, value).contains_key(q) implies map_of(
                        after,
                    ).contains_key(q) by {
                        if q == key@ {
                            assert(after[i as int].0@ == q);
                        } else {
                            let j = choose|j: int|
                                0 <= j < before.len() && #[trigger] before[j].0@ == q;
                            if j < i {
                                assert(after[j].0@ == q);
                            } else {
                                assert(after[j + 1].0@ == q);
                            }
                        }
                    }
                    assert forall|q: Seq<u8>| map_of(after).contains_key(q) implies map_of(
                        after,
                    )[q] == map_of(before).insert(key@, value)[q] by {
                        let j = choose|j: int| 0 <= j < after.len() && #[trigger] after[j].0@ == q;
                        lemma_map_of_at(after, j);
                        if j < i {
                            assert(before[j] == after[j]);
                            lemma_map_of_at(before, j);
                            lemma_keys_distinct(after, i as int, j);
                        } else if j > i {
                            assert(before[j - 1] == after[j]);
                            lemma_map_of_at(before, j - 1);
                            lemma_keys_distinct(after, i as int, j);
                        }
                    }
                }
            }
        }
        *self = SortedMap { entries };
    }

    /// Removes `key` and what it mapped to.
    pub fn remove(&mut self, key: &[u8]) -> (r: Option<V>)
        ensures
            final(self)@ == old(self)@.remove(key@),
            match r {
                Some(v) => old(self)@.contains_key(key@) && old(self)@[key@] == v,
                None => !old(self)@.contains_key(key@),
            },
    {
        proof {
            use_type_invariant(&*self);
        }
        let (i, found) = self.locate(key);
        let ghost before = self.entries@;
        if found {
            let mut taken = SortedMap { entries: Vec::new() };
            std::mem::swap(self, &mut taken);
            let mut entries = taken.entries;
            let gone = entries.remove(i);
            proof {
                lemma_map_of_at(before, i as int);
                let after = entries@;
                assert(after == before.remove(i as int));
                assert(keys_ascend(after)) by {
                    assert forall|a: int, b: int| 0 <= a < b < after.len() implies lex_lt(
                        #[trigger] after[a].0@,
                        #[trigger] after[b].0@,
                    ) by {
                        let a0 = if a < i { a } else { a + 1 };
                        let b0 = if b < i { b } else { b + 1 };
                        assert(after[a] == before[a0]);
                        assert(after[b] == before[b0]);
                    }
                }
                assert(map_of(after) =~= map_of(before).remove(key@)) by {
                    assert forall|q: Seq<u8>| map_of(after).contains_key(q) implies map_of(
                        before,
                    ).remove(key@).contains_key(q) by {
                        let j = choose|j: int| 0 <= j < after.len() && #[trigger] after[j].0@ == q;
                        let j0 = if j < i { j } else { j + 1 };
                        assert(before[j0].0@ == q);
                        if j0 < i {
                            lemma_lex_trichotomy(before[j0].0@, before[i as int].0@);
                        } else {
                            lemma_lex_trichotomy(before[i as int].0@, before[j0].0@);
                        }
                    }
                    assert forall|q: Seq<u8>|
                        map_of(before).remove(key@).contains_key(q) implies map_of(
                        after,
                    ).contains_key(q) by {
                        let j = choose|j: int|
                            0 <= j < before.len() && #[trigger] before[j].0@ == q;
                        if j < i {
                            assert(after[j].0@ == q);
                        } else {
                            assert(after[j - 1].0@ == q);
                        }
                    }
                    assert forall|q: Seq<u8>| map_of(after).contains_key(q) implies map_of(
                        after,
                    )[q] == map_of(before).remove(key@)[q] by {
                        let j = choose|j: int| 0 <= j < after.len() && #[trigger] after[j].0@ == q;
                        lemma_map_of_at(after, j);
                        let j0 = if j < i { j } else { j + 1 };
                        assert(before[j0] == after[j]);
                        lemma_map_of_at(before, j0);
                    }
                }
            }
            *self = SortedMap { entries };
            Some(gone.1)
        } else {
            assert(map_of(before).remove(key@) =~= map_of(before));
            None
        }
    }
}

impl<V> View for SortedMap<V> {
    type V = Map<Seq<u8>, V>;

    closed spec fn view(&self) -> Map<Seq<u8>, V> {
        map_of(self.entries@)
    }
}

} // verus!
