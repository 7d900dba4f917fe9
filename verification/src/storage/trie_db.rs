//! Named tries: the world state under a reserved key, and one storage trie
//! per account under the account's address.
//!
//! A trie is a map from byte strings to byte strings with a root hash. A
//! backend keeps, under each root that was committed to it, the map that has
//! this root, so that a trie can be opened again at any of them.
//!
//! A trie is opened by the key of its backend and a root. Opening fails
//! for a key without a backend, and for nothing else: at a root that the
//! backend does not hold, the trie is handed out, and every read and
//! write of it fails.

use crate::collections::{keys_ascend, lemma_lex_trichotomy, lex_lt, map_of, SortedMap};
use crate::types::hash::{nil_data_bytes, nil_hash, slice_to_vec, H256, MerkleRoot};
use vstd::prelude::*;

verus! {

/// The backend key of the world state.
pub const WORLD_STATE_META_KEY: [u8; 1] = [0];

/// The most bytes that a key of a trie can have: a node of the trie
/// holds up to 126 half bytes of a key.
pub const MAX_KEY_LEN: usize = 63;

/// Whether no key of a map is longer than a trie can hold.
pub open spec fn keys_short(m: Map<Seq<u8>, Seq<u8>>) -> bool {
    forall|k: Seq<u8>| #[trigger] m.contains_key(k) ==> k.len() <= MAX_KEY_LEN
}

/// Whether no key of a sequence of entries is longer than a trie can hold.
pub open spec fn entries_short(s: Seq<(Vec<u8>, Vec<u8>)>) -> bool {
    forall|i: int| 0 <= i < s.len() ==> (#[trigger] s[i]).0@.len() <= MAX_KEY_LEN
}

/// The root hash of the trie that holds the given pairs, sorted by key: a
/// function of the pairs alone.
pub uninterp spec fn trie_root_of(pairs: Seq<(Seq<u8>, Seq<u8>)>) -> Seq<u8>;

/// The pairs of byte strings that a sequence of entries holds.
pub open spec fn pairs_of(s: Seq<(Vec<u8>, Vec<u8>)>) -> Seq<(Seq<u8>, Seq<u8>)> {
    Seq::new(s.len(), |i: int| (s[i].0@, s[i].1@))
}

/// The root of a trie: the nil hash for the empty trie.
pub open spec fn spec_trie_root(pairs: Seq<(Seq<u8>, Seq<u8>)>) -> Seq<u8> {
    if pairs.len() == 0 {
        nil_data_bytes()
    } else {
        trie_root_of(pairs)
    }
}

/// Whether the keys of a sequence of pairs strictly ascend.
pub open spec fn pairs_sorted(s: Seq<(Seq<u8>, Seq<u8>)>) -> bool {
    forall|i: int, j: int| 0 <= i < j < s.len() ==> lex_lt(#[trigger] s[i].0, #[trigger] s[j].0)
}

/// A position at which a sequence of pairs holds the key `k`.
pub open spec fn pair_index(s: Seq<(Seq<u8>, Seq<u8>)>, k: Seq<u8>) -> int {
    choose|i: int| 0 <= i < s.len() && #[trigger] s[i].0 == k
}

/// The map that a sequence of pairs with distinct keys stands for.
pub open spec fn pairs_map(s: Seq<(Seq<u8>, Seq<u8>)>) -> Map<Seq<u8>, Seq<u8>> {
    Map::new(
        |k: Seq<u8>| exists|i: int| 0 <= i < s.len() && #[trigger] s[i].0 == k,
        |k: Seq<u8>| s[pair_index(s, k)].1,
    )
}

/// The pairs of a finite map, sorted by key.
pub open spec fn sorted_pairs(m: Map<Seq<u8>, Seq<u8>>) -> Seq<(Seq<u8>, Seq<u8>)> {
    choose|s: Seq<(Seq<u8>, Seq<u8>)>| pairs_sorted(s) && pairs_map(s) == m
}

/// The root of the trie that holds a map: the nil hash for the empty map.
pub open spec fn spec_map_root(m: Map<Seq<u8>, Seq<u8>>) -> Seq<u8> {
    spec_trie_root(sorted_pairs(m))
}

/// In a sorted sequence of pairs, the pair at `i` is what its key maps to.
pub proof fn lemma_pairs_map_at(s: Seq<(Seq<u8>, Seq<u8>)>, i: int)
    requires
        pairs_sorted(s),
        0 <= i < s.len(),
    ensures
        pairs_map(s).contains_key(s[i].0),
        pairs_map(s)[s[i].0] == s[i].1,
{
    let j = pair_index(s, s[i].0);
    assert(0 <= j < s.len() && s[j].0 == s[i].0);
    if j < i {
        lemma_lex_trichotomy(s[j].0, s[i].0);
    } else if i < j {
        lemma_lex_trichotomy(s[i].0, s[j].0);
    }
}

/// Two sorted sequences of pairs that stand for the same map are the same.
pub proof fn lemma_sorted_pairs_unique(a: Seq<(Seq<u8>, Seq<u8>)>, b: Seq<(Seq<u8>, Seq<u8>)>)
    requires
        pairs_sorted(a),
        pairs_sorted(b),
        pairs_map(a) == pairs_map(b),
    ensures
        a == b,
    decreases a.len(),
{
    if a.len() == 0 {
        if b.len() > 0 {
            lemma_pairs_map_at(b, 0);
            assert(pairs_map(a).contains_key(b[0].0));
        }
        assert(a =~= b);
    } else {
        let la = a.len() - 1;
        lemma_pairs_map_at(a, la);
        assert(pairs_map(b).contains_key(a[la].0));
        let jb = pair_index(b, a[la].0);
        assert(0 <= jb < b.len() && b[jb].0 == a[la].0);
        let lb = b.len() - 1;
        lemma_pairs_map_at(b, lb);
        assert(pairs_map(a).contains_key(b[lb].0));
        let ja = pair_index(a, b[lb].0);
        assert(0 <= ja < a.len() && a[ja].0 == b[lb].0);
        // the last keys are the largest of the same map, so they are equal
        if jb < lb {
            assert(lex_lt(b[jb].0, b[lb].0));
            if ja < la {
                assert(lex_lt(a[ja].0, a[la].0));
            }
            lemma_lex_trichotomy(a[la].0, b[lb].0);
        }
        assert(jb == lb);
        lemma_pairs_map_at(b, lb);
        assert(a[la] == b[lb]);
        let a0 = a.drop_last();
        let b0 = b.drop_last();
        assert(pairs_sorted(a0)) by {
            assert forall|i: int, j: int| 0 <= i < j < a0.len() implies lex_lt(
                #[trigger] a0[i].0,
                #[trigger] a0[j].0,
            ) by {
                assert(a0[i] == a[i] && a0[j] == a[j]);
            }
        }
        assert(pairs_sorted(b0)) by {
            assert forall|i: int, j: int| 0 <= i < j < b0.len() implies lex_lt(
                #[trigger] b0[i].0,
                #[trigger] b0[j].0,
            ) by {
                assert(b0[i] == b[i] && b0[j] == b[j]);
            }
        }
        lemma_pairs_map_drop_last(a);
        lemma_pairs_map_drop_last(b);
        lemma_sorted_pairs_unique(a0, b0);
        assert(a =~= a0.push(a[la]));
        assert(b =~= b0.push(b[lb]));
    }
}

/// Without its last pair, a sorted sequence stands for the map without the last key.
pub proof fn lemma_pairs_map_drop_last(s: Seq<(Seq<u8>, Seq<u8>)>)
    requires
        pairs_sorted(s),
        s.len() > 0,
    ensures
        pairs_map(s.drop_last()) == pairs_map(s).remove(s.last().0),
{
    let t = s.drop_last();
    let m = pairs_map(s).remove(s.last().0);
    assert(pairs_sorted(t)) by {
        assert forall|i: int, j: int| 0 <= i < j < t.len() implies lex_lt(
            #[trigger] t[i].0,
            #[trigger] t[j].0,
        ) by {
            assert(t[i] == s[i] && t[j] == s[j]);
        }
    }
    assert forall|k: Seq<u8>| #[trigger] pairs_map(t).contains_key(k) implies m.contains_key(k)
        && m[k] == pairs_map(t)[k] by {
        let i = pair_index(t, k);
        assert(0 <= i < t.len() && t[i].0 == k);
        assert(s[i] == t[i]);
        lemma_pairs_map_at(t, i);
        lemma_pairs_map_at(s, i);
        assert(lex_lt(s[i].0, s[s.len() - 1].0));
        lemma_lex_trichotomy(s[i].0, s.last().0);
    }
    assert forall|k: Seq<u8>| #[trigger] m.contains_key(k) implies pairs_map(t).contains_key(
        k,
    ) by {
        assert(pairs_map(s).contains_key(k));
        let i = pair_index(s, k);
        assert(0 <= i < s.len() && s[i].0 == k);
        assert(i < s.len() - 1);
        assert(t[i].0 == k);
    }
    assert(pairs_map(t) =~= m);
}

/// The root of the empty trie is the nil hash.
pub proof fn lemma_empty_root()
    ensures
        spec_map_root(Map::<Seq<u8>, Seq<u8>>::empty()) == nil_data_bytes(),
{
    let e = Seq::<(Seq<u8>, Seq<u8>)>::empty();
    assert(pairs_sorted(e));
    assert(pairs_map(e) =~= Map::<Seq<u8>, Seq<u8>>::empty());
    let q = sorted_pairs(Map::<Seq<u8>, Seq<u8>>::empty());
    assert(pairs_sorted(q) && pairs_map(q) == Map::<Seq<u8>, Seq<u8>>::empty());
    lemma_sorted_pairs_unique(e, q);
}

/// Whether every trie of a store is kept under its own root.
pub open spec fn tries_valid(t: StoreView) -> bool {
    forall|k: Seq<u8>, r: Seq<u8>|
        t.contains_key(k) && #[trigger] t[k].contains_key(r) ==> spec_map_root(t[k][r]) == r
}

/// The pairs of a map's entries are the sorted pairs of what the map holds.
pub proof fn lemma_contents_root(m: SortedMap<Vec<u8>>)
    requires
        keys_ascend(m.entries()),
    ensures
        pairs_of(m.entries()) == sorted_pairs(contents_view(m)),
        contents_root(m) == spec_map_root(contents_view(m)),
{
    m.lemma_view();
    let e = m.entries();
    let p = pairs_of(e);
    assert(pairs_sorted(p)) by {
        assert forall|i: int, j: int| 0 <= i < j < p.len() implies lex_lt(
            #[trigger] p[i].0,
            #[trigger] p[j].0,
        ) by {
            assert(lex_lt(e[i].0@, e[j].0@));
        }
    }
    assert(pairs_map(p) =~= contents_view(m)) by {
        assert forall|k: Seq<u8>| pairs_map(p).contains_key(k) implies contents_view(
            m,
        ).contains_key(k) && contents_view(m)[k] == pairs_map(p)[k] by {
            let i = pair_index(p, k);
            assert(0 <= i < p.len() && p[i].0 == k);
            assert(e[i].0@ == k);
            crate::collections::lemma_map_of_at(e, i);
            lemma_pairs_map_at(p, i);
        }
        assert forall|k: Seq<u8>| contents_view(m).contains_key(k) implies pairs_map(
            p,
        ).contains_key(k) by {
            let i = crate::collections::index_of(e, k);
            assert(0 <= i < e.len() && e[i].0@ == k);
            assert(p[i].0 == k);
        }
    }
    let q = sorted_pairs(contents_view(m));
    assert(pairs_sorted(q) && pairs_map(q) == contents_view(m));
    lemma_sorted_pairs_unique(p, q);
}

/// `trie_root` of ruc (`reference_trie::calc_root` with the extension layout
/// and Keccak-256): the root hash of the trie built from the pairs in the
/// order given, which must be the order of their keys. It panics where a
/// node would have to hold 127 half bytes of a key or more, so no key may
/// be longer than 63 bytes. It reads nothing but the pairs; the contract
/// names that result.
#[verifier::external_body]
fn outside_trie_root(input: &Vec<(Vec<u8>, Vec<u8>)>) -> (r: H256)
    requires
        keys_ascend(input@),
        entries_short(input@),
    ensures
        r@ == trie_root_of(pairs_of(input@)),
{
    H256 { bytes: ruc::crypto::trie_root(input.iter().map(|e| (&e.0, &e.1))) }
}

/// The root of the trie that holds the given pairs, which are sorted by
/// key and have keys of 63 bytes at most.
pub fn trie_root(input: &Vec<(Vec<u8>, Vec<u8>)>) -> (r: MerkleRoot)
    requires
        keys_ascend(input@),
        entries_short(input@),
    ensures
        r@ == spec_trie_root(pairs_of(input@)),
{
    if input.len() == 0 {
        nil_hash()
    } else {
        outside_trie_root(input)
    }
}

/// The root of the trie that holds what a map holds.
pub open spec fn contents_root(m: SortedMap<Vec<u8>>) -> Seq<u8> {
    spec_trie_root(pairs_of(m.entries()))
}

/// The byte strings that a map of vectors holds.
pub open spec fn contents_view(m: SortedMap<Vec<u8>>) -> Map<Seq<u8>, Seq<u8>> {
    Map::new(|k: Seq<u8>| m@.contains_key(k), |k: Seq<u8>| m@[k]@)
}

/// A copy of a map of byte strings.
pub fn copy_contents(m: &SortedMap<Vec<u8>>) -> (r: SortedMap<Vec<u8>>)
    ensures
        contents_view(r) == contents_view(*m),
        pairs_of(r.entries()) == pairs_of(m.entries()),
{
    m.ascending();
    let pairs = contents_pairs(m);
    let out = SortedMap::from_sorted(pairs);
    proof {
        lemma_contents_view(out, *m);
    }
    out
}

/// Maps with the same pairs hold the same byte strings.
pub proof fn lemma_contents_view(a: SortedMap<Vec<u8>>, b: SortedMap<Vec<u8>>)
    requires
        pairs_of(a.entries()) == pairs_of(b.entries()),
        keys_ascend(a.entries()),
        keys_ascend(b.entries()),
    ensures
        contents_view(a) == contents_view(b),
{
    a.lemma_view();
    b.lemma_view();
    let pa = pairs_of(a.entries());
    let pb = pairs_of(b.entries());
    assert(a.entries().len() == pa.len());
    assert(b.entries().len() == pb.len());
    assert forall|k: Seq<u8>| a@.contains_key(k) implies b@.contains_key(k) && a@[k]@ == b@[k]@ by {
        let i = crate::collections::index_of(a.entries(), k);
        assert(0 <= i < a.entries().len() && a.entries()[i].0@ == k);
        assert(pa[i] == (a.entries()[i].0@, a.entries()[i].1@));
        assert(pb[i] == (b.entries()[i].0@, b.entries()[i].1@));
        crate::collections::lemma_map_of_at(a.entries(), i);
        crate::collections::lemma_map_of_at(b.entries(), i);
    }
    assert forall|k: Seq<u8>| b@.contains_key(k) implies a@.contains_key(k) by {
        let i = crate::collections::index_of(b.entries(), k);
        assert(0 <= i < b.entries().len() && b.entries()[i].0@ == k);
        assert(pa[i] == (a.entries()[i].0@, a.entries()[i].1@));
        assert(pb[i] == (b.entries()[i].0@, b.entries()[i].1@));
        crate::collections::lemma_map_of_at(a.entries(), i);
    }
    assert(contents_view(a) =~= contents_view(b));
}

/// The entries of a map of byte strings, copied into a vector.
pub fn contents_pairs(m: &SortedMap<Vec<u8>>) -> (r: Vec<(Vec<u8>, Vec<u8>)>)
    ensures
        r@.len() == m.entries().len(),
        pairs_of(r@) == pairs_of(m.entries()),
        keys_ascend(r@),
{
    let mut out: Vec<(Vec<u8>, Vec<u8>)> = Vec::new();
    let mut i: usize = 0;
    m.ascending();
    while i < m.len()
        invariant
            i <= m.entries().len(),
            out@.len() == i,
            keys_ascend(m.entries()),
            forall|j: int| 0 <= j < i ==> (#[trigger] out@[j]).0@ == m.entries()[j].0@,
            forall|j: int| 0 <= j < i ==> (#[trigger] out@[j]).1@ == m.entries()[j].1@,
        decreases m.entries().len() - i,
    {
        let e = m.entry_at(i);
        out.push((slice_to_vec(e.0.as_slice()), slice_to_vec(e.1.as_slice())));
        i += 1;
    }
    proof {
        assert(pairs_of(out@) =~= pairs_of(m.entries()));
        assert forall|a: int, b: int| 0 <= a < b < out@.len() implies lex_lt(
            #[trigger] out@[a].0@,
            #[trigger] out@[b].0@,
        ) by {
            assert(lex_lt(m.entries()[a].0@, m.entries()[b].0@));
        }
    }
    out
}

/// The entries of a map whose keys are short have short keys.
pub proof fn lemma_entries_short(m: SortedMap<Vec<u8>>)
    requires
        keys_ascend(m.entries()),
        keys_short(contents_view(m)),
    ensures
        entries_short(m.entries()),
{
    m.lemma_view();
    assert forall|i: int| 0 <= i < m.entries().len() implies (#[trigger] m.entries()[i]).0@.len()
        <= MAX_KEY_LEN by {
        crate::collections::lemma_map_of_at(m.entries(), i);
        assert(contents_view(m).contains_key(m.entries()[i].0@));
    }
}

/// Why a trie could not be opened or changed.
#[derive(Clone, Copy, Debug, PartialEq, Eq, Structural)]
pub enum TrieError {
    /// The backend key already maps to a backend.
    BackendExists,
    /// The backend key maps to no backend.
    BackendNotFound,
    /// The backend holds no trie with the root that a trie was opened at:
    /// the trie cannot be read or written.
    RootNotFound,
    /// The key is longer than a trie can hold.
    KeyTooLong,
}

/// What a backend holds: under each committed root, the trie with that root.
pub type BackendView = Map<Seq<u8>, Map<Seq<u8>, Seq<u8>>>;

/// What a fresh backend holds: the empty trie under the nil hash.
pub open spec fn fresh_backend() -> BackendView {
    Map::<Seq<u8>, Map<Seq<u8>, Seq<u8>>>::empty().insert(
        nil_data_bytes(),
        Map::<Seq<u8>, Seq<u8>>::empty(),
    )
}

/// The tries of one name: under each committed root, the trie with that root.
pub struct TrieBackend {
    snapshots: SortedMap<SortedMap<Vec<u8>>>,
}

impl View for TrieBackend {
    type V = BackendView;

    closed spec fn view(&self) -> BackendView {
        Map::new(
            |r: Seq<u8>| self.snapshots@.contains_key(r),
            |r: Seq<u8>| contents_view(self.snapshots@[r]),
        )
    }
}

impl TrieBackend {
    #[verifier::type_invariant]
    closed spec fn inv(&self) -> bool {
        forall|r: Seq<u8>| #[trigger]
            self.snapshots@.contains_key(r) ==> contents_root(self.snapshots@[r]) == r
                && keys_short(contents_view(self.snapshots@[r]))
    }

    /// A backend that holds the empty trie only.
    pub fn new() -> (b: Self)
        ensures
            b@ == fresh_backend(),
    {
        let mut snapshots: SortedMap<SortedMap<Vec<u8>>> = SortedMap::new();
        let empty: SortedMap<Vec<u8>> = SortedMap::new();
        let nil = nil_hash();
        assert(pairs_of(empty.entries()) =~= Seq::<(Seq<u8>, Seq<u8>)>::empty());
        assert(contents_view(empty) =~= Map::<Seq<u8>, Seq<u8>>::empty());
        snapshots.insert(nil.bytes.as_slice(), empty);
        let b = TrieBackend { snapshots };
        assert(b@ =~= fresh_backend());
        b
    }

    /// Makes known that every trie of the backend is kept under its own root.
    pub fn rooted(&self)
        ensures
            forall|r: Seq<u8>| #[trigger] self@.contains_key(r) ==> spec_map_root(self@[r]) == r,
    {
        proof {
            use_type_invariant(self);
        }
        self.snapshots.ascending();
        let n = self.snapshots.len();
        let ghost e = self.snapshots.entries();
        let mut i: usize = 0;
        while i < n
            invariant
                i <= n,
                n == e.len(),
                e == self.snapshots.entries(),
                keys_ascend(e),
                self.snapshots@ == map_of(e),
                forall|j: int|
                    0 <= j < i ==> spec_map_root(contents_view(#[trigger] e[j].1)) == e[j].0@,
            decreases n - i,
        {
            let entry = self.snapshots.entry_at(i);
            entry.1.ascending();
            proof {
                use_type_invariant(self);
                lemma_contents_root(*entry.1);
                crate::collections::lemma_map_of_at(e, i as int);
            }
            i += 1;
        }
        assert forall|r: Seq<u8>| #[trigger] self@.contains_key(r) implies spec_map_root(self@[r])
            == r by {
            let j = crate::collections::index_of(e, r);
            assert(0 <= j < e.len() && e[j].0@ == r);
            crate::collections::lemma_map_of_at(e, j);
        }
    }

    /// A copy of the trie with the given root, if the backend holds one.
    fn open(&self, root: &MerkleRoot) -> (r: Option<SortedMap<Vec<u8>>>)
        ensures
            match r {
                Some(m) => self@.contains_key(root@) && contents_view(m) == self@[root@]
                    && contents_root(m) == root@ && spec_map_root(self@[root@]) == root@
                    && keys_short(contents_view(m)),
                None => !self@.contains_key(root@),
            },
    {
        proof {
            use_type_invariant(self);
        }
        match self.snapshots.get(root.bytes.as_slice()) {
            Some(m) => {
                m.ascending();
                proof {
                    lemma_contents_root(*m);
                }
                Some(copy_contents(m))
            },
            None => None,
        }
    }

    /// Keeps the given trie under its root.
    fn record(&mut self, root: &MerkleRoot, contents: SortedMap<Vec<u8>>)
        requires
            contents_root(contents) == root@,
            keys_short(contents_view(contents)),
        ensures
            final(self)@ == old(self)@.insert(root@, contents_view(contents)),
    {
        proof {
            use_type_invariant(&*self);
        }
        let mut taken = TrieBackend { snapshots: SortedMap::new() };
        std::mem::swap(self, &mut taken);
        let mut snapshots = taken.snapshots;
        snapshots.insert(root.bytes.as_slice(), contents);
        *self = TrieBackend { snapshots };
        assert(self@ =~= old(self)@.insert(root@, contents_view(contents)));
    }
}

/// A trie that can be read and changed, and whose root can be computed.
///
/// A trie is opened at a root of a backend. Where the backend does not
/// hold the root, the trie is there all the same, but nothing can be read
/// from it or written to it.
pub struct MptMut {
    contents: SortedMap<Vec<u8>>,
    root: MerkleRoot,
    held: bool,
}

impl View for MptMut {
    type V = Map<Seq<u8>, Seq<u8>>;

    closed spec fn view(&self) -> Map<Seq<u8>, Seq<u8>> {
        contents_view(self.contents)
    }
}

impl MptMut {
    #[verifier::type_invariant]
    closed spec fn inv(&self) -> bool {
        &&& keys_short(contents_view(self.contents))
        &&& !self.held ==> contents_view(self.contents) == Map::<Seq<u8>, Seq<u8>>::empty()
    }

    /// Whether the trie can be read: its backend holds the root that it
    /// was opened at.
    pub closed spec fn spec_held(&self) -> bool {
        self.held
    }

    /// Whether the trie can be read.
    pub fn is_held(&self) -> (r: bool)
        ensures
            r == self.spec_held(),
    {
        self.held
    }

    /// Makes known that no key of the trie is longer than a trie can
    /// hold, and that a trie that cannot be read holds nothing.
    pub fn bounded(&self)
        ensures
            keys_short(self@),
            !self.spec_held() ==> self@ == Map::<Seq<u8>, Seq<u8>>::empty(),
    {
        proof {
            use_type_invariant(self);
        }
    }

    /// The root of the trie as it stands, with every change made so far.
    pub open spec fn spec_root(&self) -> Seq<u8> {
        spec_map_root(self@)
    }

    /// The root that the trie was opened at or last committed to.
    pub closed spec fn committed_root(&self) -> MerkleRoot {
        self.root
    }

    /// An empty trie.
    pub fn new() -> (t: Self)
        ensures
            t@ == Map::<Seq<u8>, Seq<u8>>::empty(),
            t.spec_held(),
            t.spec_root() == nil_data_bytes(),
            t.committed_root()@ == nil_data_bytes(),
    {
        let contents: SortedMap<Vec<u8>> = SortedMap::new();
        contents.ascending();
        proof {
            lemma_contents_root(contents);
        }
        assert(pairs_of(contents.entries()) =~= Seq::<(Seq<u8>, Seq<u8>)>::empty());
        assert(contents_view(contents) =~= Map::<Seq<u8>, Seq<u8>>::empty());
        MptMut { contents, root: nil_hash(), held: true }
    }

    /// The trie of a backend at `root`. It can be read where the backend
    /// holds the root.
    pub fn from_existing(backend: &TrieBackend, root: MerkleRoot) -> (t: Self)
        ensures
            t.committed_root() == root,
            t.spec_held() == backend@.contains_key(root@),
            t.spec_held() ==> t@ == backend@[root@] && t.spec_root() == root@,
            !t.spec_held() ==> t@ == Map::<Seq<u8>, Seq<u8>>::empty(),
    {
        match backend.open(&root) {
            Some(contents) => {
                contents.ascending();
                proof {
                    lemma_contents_root(contents);
                }
                MptMut { contents, root, held: true }
            },
            None => {
                let contents: SortedMap<Vec<u8>> = SortedMap::new();
                assert(contents_view(contents) =~= Map::<Seq<u8>, Seq<u8>>::empty());
                MptMut { contents, root, held: false }
            },
        }
    }

    /// The value under `key`, if there is one. Fails where the trie cannot
    /// be read.
    pub fn get(&self, key: &[u8]) -> (r: Result<Option<Vec<u8>>, TrieError>)
        ensures
            !self.spec_held() ==> r == Err::<Option<Vec<u8>>, TrieError>(TrieError::RootNotFound),
            self.spec_held() ==> (match r {
                Ok(Some(v)) => self@.contains_key(key@) && self@[key@] == v@,
                Ok(None) => !self@.contains_key(key@),
                Err(_) => false,
            }),
    {
        if !self.held {
            return Err(TrieError::RootNotFound);
        }
        match self.contents.get(key) {
            Some(v) => Ok(Some(slice_to_vec(v.as_slice()))),
            None => Ok(None),
        }
    }

    /// Whether there is a value under `key`. Fails where the trie cannot
    /// be read.
    pub fn contains(&self, key: &[u8]) -> (r: Result<bool, TrieError>)
        ensures
            !self.spec_held() ==> r == Err::<bool, TrieError>(TrieError::RootNotFound),
            self.spec_held() ==> r == Ok::<bool, TrieError>(self@.contains_key(key@)),
    {
        if !self.held {
            return Err(TrieError::RootNotFound);
        }
        Ok(self.contents.contains_key(key))
    }

    /// Puts `value` under `key`. Fails, and leaves the trie as it is,
    /// where the trie cannot be read and for a key of more than 63 bytes.
    pub fn insert(&mut self, key: &[u8], value: &[u8]) -> (r: Result<(), TrieError>)
        ensures
            final(self).committed_root() == old(self).committed_root(),
            final(self).spec_held() == old(self).spec_held(),
            !old(self).spec_held() ==> r == Err::<(), TrieError>(TrieError::RootNotFound)
                && final(self)@ == old(self)@,
            old(self).spec_held() && key@.len() <= MAX_KEY_LEN ==> r == Ok::<(), TrieError>(())
                && final(self)@ == old(self)@.insert(key@, value@),
            old(self).spec_held() && key@.len() > MAX_KEY_LEN ==> r == Err::<(), TrieError>(
                TrieError::KeyTooLong,
            ) && final(self)@ == old(self)@,
    {
        if !self.held {
            return Err(TrieError::RootNotFound);
        }
        if key.len() > MAX_KEY_LEN {
            return Err(TrieError::KeyTooLong);
        }
        proof {
            use_type_invariant(&*self);
        }
        let mut taken = MptMut { contents: SortedMap::new(), root: self.root, held: true };
        std::mem::swap(self, &mut taken);
        let mut contents = taken.contents;
        contents.insert(key, slice_to_vec(value));
        assert(contents_view(contents) =~= old(self)@.insert(key@, value@));
        *self = MptMut { contents, root: taken.root, held: true };
        Ok(())
    }

    /// Removes `key` and its value. Fails where the trie cannot be read.
    pub fn remove(&mut self, key: &[u8]) -> (r: Result<(), TrieError>)
        ensures
            final(self).committed_root() == old(self).committed_root(),
            final(self).spec_held() == old(self).spec_held(),
            !old(self).spec_held() ==> r == Err::<(), TrieError>(TrieError::RootNotFound)
                && final(self)@ == old(self)@,
            old(self).spec_held() ==> r == Ok::<(), TrieError>(()) && final(self)@ == old(
                self,
            )@.remove(key@),
    {
        if !self.held {
            return Err(TrieError::RootNotFound);
        }
        proof {
            use_type_invariant(&*self);
        }
        let mut taken = MptMut { contents: SortedMap::new(), root: self.root, held: true };
        std::mem::swap(self, &mut taken);
        let mut contents = taken.contents;
        let _ = contents.remove(key);
        assert(contents_view(contents) =~= old(self)@.remove(key@));
        *self = MptMut { contents, root: taken.root, held: true };
        Ok(())
    }

    /// Computes the root of the trie as it stands. Of a trie that cannot
    /// be read, it is the root that the trie was opened at.
    pub fn commit(&mut self) -> (r: MerkleRoot)
        ensures
            old(self).spec_held() ==> r@ == old(self).spec_root(),
            !old(self).spec_held() ==> r == old(self).committed_root(),
            final(self)@ == old(self)@,
            final(self).spec_held() == old(self).spec_held(),
            final(self).spec_root() == old(self).spec_root(),
            final(self).committed_root() == r,
    {
        if !self.held {
            return self.root;
        }
        self.contents.ascending();
        proof {
            use_type_invariant(&*self);
            lemma_contents_root(self.contents);
            lemma_entries_short(self.contents);
        }
        let pairs = contents_pairs(&self.contents);
        assert(entries_short(pairs@)) by {
            assert forall|i: int| 0 <= i < pairs@.len() implies (#[trigger] pairs@[i]).0@.len()
                <= MAX_KEY_LEN by {
                assert(pairs_of(pairs@)[i] == pairs_of(self.contents.entries())[i]);
            }
        }
        let r = trie_root(&pairs);
        self.root = r;
        r
    }

    /// The root that the trie was opened at or last committed to.
    pub fn root(&self) -> (r: MerkleRoot)
        ensures
            r == self.committed_root(),
    {
        self.root
    }
}

/// A trie at a known root that can only be read.
pub struct MptRo {
    contents: SortedMap<Vec<u8>>,
    root: MerkleRoot,
    held: bool,
}

impl View for MptRo {
    type V = Map<Seq<u8>, Seq<u8>>;

    closed spec fn view(&self) -> Map<Seq<u8>, Seq<u8>> {
        contents_view(self.contents)
    }
}

impl MptRo {
    /// The root that the trie was opened at.
    pub closed spec fn spec_root(&self) -> MerkleRoot {
        self.root
    }

    /// Whether the trie can be read: its backend holds the root that it
    /// was opened at.
    pub closed spec fn spec_held(&self) -> bool {
        self.held
    }

    /// Whether the trie can be read.
    pub fn is_held(&self) -> (r: bool)
        ensures
            r == self.spec_held(),
    {
        self.held
    }

    /// The trie of a backend at `root`. It can be read where the backend
    /// holds the root.
    pub fn from_existing(backend: &TrieBackend, root: MerkleRoot) -> (t: Self)
        ensures
            t.spec_root() == root,
            t.spec_held() == backend@.contains_key(root@),
            t.spec_held() ==> t@ == backend@[root@] && spec_map_root(t@) == root@,
    {
        match backend.open(&root) {
            Some(contents) => MptRo { contents, root, held: true },
            None => MptRo { contents: SortedMap::new(), root, held: false },
        }
    }

    /// The value under `key`, if there is one. Fails where the trie cannot
    /// be read.
    pub fn get(&self, key: &[u8]) -> (r: Result<Option<Vec<u8>>, TrieError>)
        ensures
            !self.spec_held() ==> r == Err::<Option<Vec<u8>>, TrieError>(TrieError::RootNotFound),
            self.spec_held() ==> (match r {
                Ok(Some(v)) => self@.contains_key(key@) && self@[key@] == v@,
                Ok(None) => !self@.contains_key(key@),
                Err(_) => false,
            }),
    {
        if !self.held {
            return Err(TrieError::RootNotFound);
        }
        match self.contents.get(key) {
            Some(v) => Ok(Some(slice_to_vec(v.as_slice()))),
            None => Ok(None),
        }
    }

    /// Whether there is a value under `key`. Fails where the trie cannot
    /// be read.
    pub fn contains(&self, key: &[u8]) -> (r: Result<bool, TrieError>)
        ensures
            !self.spec_held() ==> r == Err::<bool, TrieError>(TrieError::RootNotFound),
            self.spec_held() ==> r == Ok::<bool, TrieError>(self@.contains_key(key@)),
    {
        if !self.held {
            return Err(TrieError::RootNotFound);
        }
        Ok(self.contents.contains_key(key))
    }

    /// The root that the trie was opened at.
    pub fn root(&self) -> (r: MerkleRoot)
        ensures
            r == self.spec_root(),
    {
        self.root
    }
}

/// What a store holds: under each backend key, a backend.
pub type StoreView = Map<Seq<u8>, BackendView>;

/// The named tries: a backend under each backend key.
pub struct MptStore {
    meta: SortedMap<TrieBackend>,
}

impl View for MptStore {
    type V = StoreView;

    closed spec fn view(&self) -> StoreView {
        Map::new(|k: Seq<u8>| self.meta@.contains_key(k), |k: Seq<u8>| self.meta@[k]@)
    }
}

/// A trie of a store that can be read, changed and committed to the store.
pub struct MptOnce {
    mpt: MptMut,
    backend_key: Vec<u8>,
}

impl View for MptOnce {
    type V = Map<Seq<u8>, Seq<u8>>;

    closed spec fn view(&self) -> Map<Seq<u8>, Seq<u8>> {
        self.mpt@
    }
}

impl MptStore {
    /// A store without any backend.
    pub fn new() -> (s: Self)
        ensures
            s@ == Map::<Seq<u8>, BackendView>::empty(),
    {
        let s = MptStore { meta: SortedMap::new() };
        assert(s@ =~= Map::<Seq<u8>, BackendView>::empty());
        s
    }

    /// Puts a new backend under the key, in place of the one that may be
    /// there, and opens its trie, empty.
    pub fn trie_reset(&mut self, backend_key: &[u8]) -> (t: MptOnce)
        ensures
            t@ == Map::<Seq<u8>, Seq<u8>>::empty(),
            t.spec_held(),
            t.spec_key() == backend_key@,
            t.spec_root() == nil_data_bytes(),
            t.committed_root()@ == nil_data_bytes(),
            final(self)@ == old(self)@.insert(backend_key@, fresh_backend()),
    {
        self.meta.insert(backend_key, TrieBackend::new());
        assert(self@ =~= old(self)@.insert(backend_key@, fresh_backend()));
        proof {
            lemma_empty_root();
        }
        MptOnce { mpt: MptMut::new(), backend_key: slice_to_vec(backend_key) }
    }

    /// Creates the backend of a new trie and opens the trie, empty.
    ///
    /// Fails where the key already maps to a backend, unless `reset` asks
    /// for that backend to be replaced.
    pub fn trie_create(&mut self, backend_key: &[u8], reset: bool) -> (r: Result<
        MptOnce,
        TrieError,
    >)
        ensures
            old(self)@.contains_key(backend_key@) && !reset ==> r == Err::<MptOnce, TrieError>(
                TrieError::BackendExists,
            ) && final(self)@ == old(self)@,
            !(old(self)@.contains_key(backend_key@) && !reset) ==> {
                &&& r matches Ok(t)
                &&& t@ == Map::<Seq<u8>, Seq<u8>>::empty()
                &&& t.spec_held()
                &&& t.spec_key() == backend_key@
                &&& t.spec_root() == nil_data_bytes()
                &&& t.committed_root()@ == nil_data_bytes()
                &&& final(self)@ == old(self)@.insert(backend_key@, fresh_backend())
            },
    {
        if self.meta.contains_key(backend_key) && !reset {
            return Err(TrieError::BackendExists);
        }
        Ok(self.trie_reset(backend_key))
    }

    /// Opens the trie of the backend under `backend_key` at `root`.
    ///
    /// Fails where the key maps to no backend, and only there. Where the
    /// backend does not hold the root, the trie that is handed out cannot
    /// be read.
    pub fn trie_restore(&self, backend_key: &[u8], root: MerkleRoot) -> (r: Result<
        MptOnce,
        TrieError,
    >)
        ensures
            !self@.contains_key(backend_key@) ==> r == Err::<MptOnce, TrieError>(
                TrieError::BackendNotFound,
            ),
            self@.contains_key(backend_key@) ==> {
                &&& r matches Ok(t)
                &&& t.spec_key() == backend_key@
                &&& t.committed_root() == root
                &&& t.spec_held() == self@[backend_key@].contains_key(root@)
                &&& t.spec_held() ==> t@ == self@[backend_key@][root@] && t.spec_root() == root@
                &&& !t.spec_held() ==> t@ == Map::<Seq<u8>, Seq<u8>>::empty()
            },
    {
        match self.meta.get(backend_key) {
            None => Err(TrieError::BackendNotFound),
            Some(backend) => Ok(
                MptOnce {
                    mpt: MptMut::from_existing(backend, root),
                    backend_key: slice_to_vec(backend_key),
                },
            ),
        }
    }

    /// Opens the trie of the backend under `backend_key` at `root`; where
    /// the key maps to no backend, creates the backend of a new trie and
    /// opens that, empty.
    pub fn trie_restore_or_create(&mut self, backend_key: &[u8], root: MerkleRoot) -> (t: MptOnce)
        ensures
            t.spec_key() == backend_key@,
            old(self)@.contains_key(backend_key@) ==> {
                &&& final(self)@ == old(self)@
                &&& t.committed_root() == root
                &&& t.spec_held() == old(self)@[backend_key@].contains_key(root@)
                &&& t.spec_held() ==> t@ == old(self)@[backend_key@][root@] && t.spec_root()
                    == root@
            },
            !old(self)@.contains_key(backend_key@) ==> {
                &&& t@ == Map::<Seq<u8>, Seq<u8>>::empty()
                &&& t.spec_held()
                &&& t.spec_root() == nil_data_bytes()
                &&& t.committed_root()@ == nil_data_bytes()
                &&& final(self)@ == old(self)@.insert(backend_key@, fresh_backend())
            },
    {
        match self.trie_restore(backend_key, root) {
            Ok(t) => t,
            Err(_) => self.trie_reset(backend_key),
        }
    }

    /// Makes known that every trie of the store is kept under its own root.
    pub fn rooted(&self)
        ensures
            tries_valid(self@),
    {
        self.meta.ascending();
        let n = self.meta.len();
        let ghost e = self.meta.entries();
        let mut i: usize = 0;
        while i < n
            invariant
                i <= n,
                n == e.len(),
                e == self.meta.entries(),
                keys_ascend(e),
                self.meta@ == map_of(e),
                forall|j: int, r: Seq<u8>|
                    0 <= j < i && #[trigger] e[j].1@.contains_key(r) ==> spec_map_root(e[j].1@[r])
                        == r,
            decreases n - i,
        {
            let entry = self.meta.entry_at(i);
            entry.1.rooted();
            i += 1;
        }
        assert forall|k: Seq<u8>, r: Seq<u8>|
            self@.contains_key(k) && #[trigger] self@[k].contains_key(r) implies spec_map_root(
            self@[k][r],
        ) == r by {
            let j = crate::collections::index_of(e, k);
            assert(0 <= j < e.len() && e[j].0@ == k);
            crate::collections::lemma_map_of_at(e, j);
        }
    }

    /// Removes the backend under `backend_key`, if there is one.
    pub fn trie_remove(&mut self, backend_key: &[u8])
        ensures
            final(self)@ == old(self)@.remove(backend_key@),
    {
        let _ = self.meta.remove(backend_key);
        assert(self@ =~= old(self)@.remove(backend_key@));
    }

    /// Keeps a trie under its root in the backend under `backend_key`,
    /// which is created where it is missing.
    fn put_backend(&mut self, backend_key: &[u8], root: &MerkleRoot, contents: SortedMap<Vec<u8>>)
        requires
            contents_root(contents) == root@,
            keys_short(contents_view(contents)),
        ensures
            final(self)@ == old(self)@.insert(
                backend_key@,
                spec_backend(old(self)@, backend_key@).insert(root@, contents_view(contents)),
            ),
    {
        let mut backend = match self.meta.remove(backend_key) {
            Some(b) => b,
            None => TrieBackend::new(),
        };
        backend.record(root, contents);
        self.meta.insert(backend_key, backend);
        assert(self@ =~= old(self)@.insert(
            backend_key@,
            spec_backend(old(self)@, backend_key@).insert(root@, contents_view(contents)),
        ));
    }
}

/// What a store holds under a backend key: a fresh backend where it holds none.
pub open spec fn spec_backend(store: StoreView, key: Seq<u8>) -> BackendView {
    if store.contains_key(key) {
        store[key]
    } else {
        fresh_backend()
    }
}

impl MptOnce {
    /// The backend key that the trie was opened under.
    pub closed spec fn spec_key(&self) -> Seq<u8> {
        self.backend_key@
    }

    /// Whether the trie can be read: its backend held the root that it
    /// was opened at.
    pub closed spec fn spec_held(&self) -> bool {
        self.mpt.spec_held()
    }

    /// Whether the trie can be read.
    pub fn is_held(&self) -> (r: bool)
        ensures
            r == self.spec_held(),
    {
        self.mpt.is_held()
    }

    /// The root of the trie as it stands, with every change made so far.
    pub open spec fn spec_root(&self) -> Seq<u8> {
        spec_map_root(self@)
    }

    /// The root that the trie was opened at or last committed to.
    pub closed spec fn committed_root(&self) -> MerkleRoot {
        self.mpt.committed_root()
    }

    /// Makes known that no key of the trie is longer than a trie can
    /// hold, and that a trie that cannot be read holds nothing.
    pub fn bounded(&self)
        ensures
            keys_short(self@),
            !self.spec_held() ==> self@ == Map::<Seq<u8>, Seq<u8>>::empty(),
    {
        self.mpt.bounded();
    }

    /// The value under `key`, if there is one. Fails where the trie cannot
    /// be read.
    pub fn get(&self, key: &[u8]) -> (r: Result<Option<Vec<u8>>, TrieError>)
        ensures
            !self.spec_held() ==> r == Err::<Option<Vec<u8>>, TrieError>(TrieError::RootNotFound),
            self.spec_held() ==> (match r {
                Ok(Some(v)) => self@.contains_key(key@) && self@[key@] == v@,
                Ok(None) => !self@.contains_key(key@),
                Err(_) => false,
            }),
    {
        self.mpt.get(key)
    }

    /// Whether there is a value under `key`. Fails where the trie cannot
    /// be read.
    pub fn contains(&self, key: &[u8]) -> (r: Result<bool, TrieError>)
        ensures
            !self.spec_held() ==> r == Err::<bool, TrieError>(TrieError::RootNotFound),
            self.spec_held() ==> r == Ok::<bool, TrieError>(self@.contains_key(key@)),
    {
        self.mpt.contains(key)
    }

    /// Puts `value` under `key`. Fails, and leaves the trie as it is,
    /// where the trie cannot be read and for a key of more than 63 bytes.
    /// Nothing reaches the store before a commit.
    pub fn insert(&mut self, key: &[u8], value: &[u8]) -> (r: Result<(), TrieError>)
        ensures
            final(self).spec_key() == old(self).spec_key(),
            final(self).committed_root() == old(self).committed_root(),
            final(self).spec_held() == old(self).spec_held(),
            !old(self).spec_held() ==> r == Err::<(), TrieError>(TrieError::RootNotFound)
                && final(self)@ == old(self)@,
            old(self).spec_held() && key@.len() <= MAX_KEY_LEN ==> r == Ok::<(), TrieError>(())
                && final(self)@ == old(self)@.insert(key@, value@),
            old(self).spec_held() && key@.len() > MAX_KEY_LEN ==> r == Err::<(), TrieError>(
                TrieError::KeyTooLong,
            ) && final(self)@ == old(self)@,
    {
        self.mpt.insert(key, value)
    }

    /// Removes `key` and its value. Fails where the trie cannot be read.
    /// Nothing reaches the store before a commit.
    pub fn remove(&mut self, key: &[u8]) -> (r: Result<(), TrieError>)
        ensures
            final(self).spec_key() == old(self).spec_key(),
            final(self).committed_root() == old(self).committed_root(),
            final(self).spec_held() == old(self).spec_held(),
            !old(self).spec_held() ==> r == Err::<(), TrieError>(TrieError::RootNotFound)
                && final(self)@ == old(self)@,
            old(self).spec_held() ==> r == Ok::<(), TrieError>(()) && final(self)@ == old(
                self,
            )@.remove(key@),
    {
        self.mpt.remove(key)
    }

    /// The root that the trie was opened at or last committed to.
    pub fn root(&self) -> (r: MerkleRoot)
        ensures
            r == self.committed_root(),
    {
        self.mpt.root()
    }

    /// Computes the root of the trie as it stands and keeps the trie under
    /// that root in its backend. Of a trie that cannot be read, the root
    /// is the one that it was opened at, and nothing is kept.
    pub fn commit(&mut self, store: &mut MptStore) -> (r: MerkleRoot)
        ensures
            final(self)@ == old(self)@,
            final(self).spec_root() == old(self).spec_root(),
            final(self).spec_key() == old(self).spec_key(),
            final(self).spec_held() == old(self).spec_held(),
            final(self).committed_root() == r,
            old(self).spec_held() ==> r@ == old(self).spec_root() && final(store)@ == old(
                store,
            )@.insert(
                old(self).spec_key(),
                spec_backend(old(store)@, old(self).spec_key()).insert(r@, old(self)@),
            ),
            !old(self).spec_held() ==> r == old(self).committed_root() && final(store)@ == old(
                store,
            )@,
    {
        let r = self.mpt.commit();
        if !self.mpt.is_held() {
            return r;
        }
        let contents = copy_contents(&self.mpt.contents);
        self.mpt.contents.ascending();
        contents.ascending();
        self.mpt.bounded();
        proof {
            lemma_contents_root(self.mpt.contents);
            lemma_contents_root(contents);
        }
        store.put_backend(self.backend_key.as_slice(), &r, contents);
        r
    }
}

} // verus!
