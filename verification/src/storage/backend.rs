//! The content-addressed node store under a trie: reference-counted byte
//! strings under keys that are derived from their hash and a prefix.
//!
//! This is the store that a trie built node by node keeps its nodes in.
//! The tries of this library keep whole maps under their roots and do not
//! use it: it is offered to callers that bring such a trie of their own.

use crate::codec::rlp::push_all;
use crate::collections::SortedMap;
use crate::storage::store::lookup;
use crate::types::hash::{bytes_eq, slice_to_vec, spec_digest, Hasher, H256};
use vstd::prelude::*;
use vstd::slice::slice_subrange;

verus! {

/// The number of bytes that a reference count takes in the stored form.
pub const RC_BYTES_NUM: usize = 4;

/// A node with its reference count.
#[derive(Clone, Debug, PartialEq, Eq)]
pub struct Value {
    pub v: Vec<u8>,
    pub rc: i32,
}

/// What a node with its count holds.
pub struct ValueView {
    pub v: Seq<u8>,
    pub rc: i32,
}

impl View for Value {
    type V = ValueView;

    open spec fn view(&self) -> ValueView {
        ValueView { v: self.v@, rc: self.rc }
    }
}

/// A reference count as a number of 32 bits without sign.
pub open spec fn rc_bits(rc: i32) -> int {
    if rc >= 0 {
        rc as int
    } else {
        rc + 0x1_0000_0000
    }
}

/// The four bytes of a reference count, most significant first.
pub open spec fn rc_bytes(rc: i32) -> Seq<u8> {
    let u = rc_bits(rc);
    seq![
        (u / 0x100_0000) as u8,
        ((u / 0x1_0000) % 256) as u8,
        ((u / 0x100) % 256) as u8,
        (u % 256) as u8,
    ]
}

/// The reference count that four bytes spell.
pub open spec fn rc_of_bytes(b: Seq<u8>) -> i32 {
    let u = (b[0] as int) * 0x100_0000 + (b[1] as int) * 0x1_0000 + (b[2] as int) * 0x100 + (
    b[3] as int);
    if u < 0x8000_0000 {
        u as i32
    } else {
        (u - 0x1_0000_0000) as i32
    }
}

/// The stored form of a node with its reference count: the four bytes of
/// the count, then the node.
pub open spec fn value_encoding(x: ValueView) -> Seq<u8> {
    rc_bytes(x.rc) + x.v
}

/// The node with its reference count that a stored form holds, if it is
/// long enough to hold one.
pub open spec fn value_decoding(b: Seq<u8>) -> Option<ValueView> {
    if b.len() < RC_BYTES_NUM {
        None
    } else {
        Some(
            ValueView {
                v: b.subrange(RC_BYTES_NUM as int, b.len() as int),
                rc: rc_of_bytes(b.subrange(0, RC_BYTES_NUM as int)),
            },
        )
    }
}

/// Reading back the stored form of a node gives the node and its count.
pub proof fn lemma_value_round_trip(x: ValueView)
    ensures
        value_decoding(value_encoding(x)) == Some(x),
{
    let e = value_encoding(x);
    assert(e.subrange(RC_BYTES_NUM as int, e.len() as int) =~= x.v);
    assert(e.subrange(0, RC_BYTES_NUM as int) =~= rc_bytes(x.rc));
}

impl Value {
    /// The stored form of the node with its reference count.
    pub fn encode(&self) -> (r: Vec<u8>)
        ensures
            r@ == value_encoding(self@),
    {
        let u: i64 = if self.rc >= 0 {
            self.rc as i64
        } else {
            self.rc as i64 + 0x1_0000_0000
        };
        let mut r: Vec<u8> = Vec::new();
        r.push((u / 0x100_0000) as u8);
        r.push(((u / 0x1_0000) % 256) as u8);
        r.push(((u / 0x100) % 256) as u8);
        r.push((u % 256) as u8);
        assert(r@ =~= rc_bytes(self.rc));
        push_all(&mut r, self.v.as_slice());
        r
    }

    /// The node with its reference count that a stored form holds.
    pub fn decode(bytes: &[u8]) -> (r: Option<Value>)
        ensures
            match value_decoding(bytes@) {
                Some(x) => r matches Some(got) && got@ == x,
                None => r is None,
            },
    {
        if bytes.len() < RC_BYTES_NUM {
            return None;
        }
        let u: i64 = (bytes[0] as i64) * 0x100_0000 + (bytes[1] as i64) * 0x1_0000 + (
        bytes[2] as i64) * 0x100 + (bytes[3] as i64);
        let rc: i32 = if u < 0x8000_0000 {
            u as i32
        } else {
            (u - 0x1_0000_0000) as i32
        };
        Some(Value { v: slice_to_vec(slice_subrange(bytes, RC_BYTES_NUM, bytes.len())), rc })
    }
}

/// The key under which a node is kept: the prefix, the half byte behind
/// it where there is one, and the hash of the node.
pub open spec fn spec_prefixed_key(key: H256, prefix: Seq<u8>, last: Option<u8>) -> Seq<u8> {
    match last {
        Some(b) => prefix + seq![b] + key@,
        None => prefix + key@,
    }
}

/// The key under which a node is kept.
pub fn prefixed_key(key: &H256, prefix: &[u8], last: Option<u8>) -> (r: Vec<u8>)
    ensures
        r@ == spec_prefixed_key(*key, prefix@, last),
{
    let mut out: Vec<u8> = slice_to_vec(prefix);
    match last {
        Some(b) => {
            out.push(b);
        },
        None => {},
    }
    push_all(&mut out, key.bytes.as_slice());
    out
}

/// The node store: nodes with their reference counts, and the null node
/// that is there without being kept.
pub struct VsBackend {
    data: SortedMap<Value>,
    hashed_null_key: H256,
    original_null_key: Vec<u8>,
    null_node_data: Vec<u8>,
}

/// What a node store holds.
pub struct VsBackendView {
    pub data: Map<Seq<u8>, ValueView>,
    pub hashed_null_key: H256,
    pub null_node_data: Seq<u8>,
}

impl View for VsBackend {
    type V = VsBackendView;

    closed spec fn view(&self) -> VsBackendView {
        VsBackendView {
            data: Map::new(
                |k: Seq<u8>| self.data@.contains_key(k),
                |k: Seq<u8>| self.data@[k]@,
            ),
            hashed_null_key: self.hashed_null_key,
            null_node_data: self.null_node_data@,
        }
    }
}

/// A reference count raised by one, at most `i32::MAX`.
pub open spec fn rc_up(rc: i32) -> i32 {
    if rc == i32::MAX {
        rc
    } else {
        (rc + 1) as i32
    }
}

impl VsBackendView {
    /// The node under a hash and a prefix: the null node under the null
    /// hash, else what is kept with a count above zero.
    pub open spec fn get(self, key: H256, prefix: Seq<u8>, last: Option<u8>) -> Option<Seq<u8>> {
        if key == self.hashed_null_key {
            Some(self.null_node_data)
        } else {
            match lookup(self.data, spec_prefixed_key(key, prefix, last)) {
                Some(x) => if x.rc > 0 {
                    Some(x.v)
                } else {
                    None
                },
                None => None,
            }
        }
    }

    /// The store after a node was put under a hash and a prefix: the null
    /// node is not kept; a node that is there counts one more; one whose
    /// count is zero is replaced.
    pub open spec fn emplaced(self, key: H256, prefix: Seq<u8>, last: Option<u8>, value: Seq<u8>)
        -> VsBackendView {
        if value == self.null_node_data {
            self
        } else {
            let k = spec_prefixed_key(key, prefix, last);
            let entry = match lookup(self.data, k) {
                Some(x) => if x.rc == 0 {
                    ValueView { v: value, rc: 1 }
                } else {
                    ValueView { v: x.v, rc: rc_up(x.rc) }
                },
                None => ValueView { v: value, rc: 1 },
            };
            VsBackendView { data: self.data.insert(k, entry), ..self }
        }
    }

    /// The store after a node under a hash and a prefix was given up
    /// once: a count above zero is one less. Nothing is taken out.
    pub open spec fn removed(self, key: H256, prefix: Seq<u8>, last: Option<u8>) -> VsBackendView {
        let k = spec_prefixed_key(key, prefix, last);
        if key == self.hashed_null_key {
            self
        } else {
            match lookup(self.data, k) {
                Some(x) => if x.rc > 0 {
                    VsBackendView {
                        data: self.data.insert(k, ValueView { v: x.v, rc: (x.rc - 1) as i32 }),
                        ..self
                    }
                } else {
                    self
                },
                None => self,
            }
        }
    }
}

impl VsBackend {
    /// An empty store with the null node `[0]` under the digest of `[0]`.
    pub fn new() -> (b: Self)
        ensures
            b@.data == Map::<Seq<u8>, ValueView>::empty(),
            b@.null_node_data == seq![0u8],
            b@.hashed_null_key@ == spec_digest(seq![0u8]),
    {
        let mut key: Vec<u8> = Vec::new();
        key.push(0u8);
        let mut node: Vec<u8> = Vec::new();
        node.push(0u8);
        Self::from_null_node(key.as_slice(), node)
    }

    /// An empty store with the given null node under the digest of the
    /// given null key.
    pub fn from_null_node(null_key: &[u8], null_node_data: Vec<u8>) -> (b: Self)
        ensures
            b@.data == Map::<Seq<u8>, ValueView>::empty(),
            b@.null_node_data == null_node_data@,
            b@.hashed_null_key@ == spec_digest(null_key@),
    {
        let b = VsBackend {
            data: SortedMap::new(),
            hashed_null_key: Hasher::digest(null_key),
            original_null_key: slice_to_vec(null_key),
            null_node_data,
        };
        assert(b@.data =~= Map::<Seq<u8>, ValueView>::empty());
        b
    }

    /// The node under a hash and a prefix.
    pub fn get(&self, key: &H256, prefix: &[u8], last: Option<u8>) -> (r: Option<Vec<u8>>)
        ensures
            match self@.get(*key, prefix@, last) {
                Some(v) => r matches Some(got) && got@ == v,
                None => r is None,
            },
    {
        if key.same(&self.hashed_null_key) {
            return Some(slice_to_vec(self.null_node_data.as_slice()));
        }
        let k = prefixed_key(key, prefix, last);
        match self.data.get(k.as_slice()) {
            Some(x) => if x.rc > 0 {
                Some(slice_to_vec(x.v.as_slice()))
            } else {
                None
            },
            None => None,
        }
    }

    /// Whether there is a node under a hash and a prefix.
    pub fn contains(&self, key: &H256, prefix: &[u8], last: Option<u8>) -> (r: bool)
        ensures
            r == self@.get(*key, prefix@, last) is Some,
    {
        if key.same(&self.hashed_null_key) {
            return true;
        }
        let k = prefixed_key(key, prefix, last);
        match self.data.get(k.as_slice()) {
            Some(x) => x.rc > 0,
            None => false,
        }
    }

    /// Puts a node under a hash and a prefix.
    pub fn emplace(&mut self, key: H256, prefix: &[u8], last: Option<u8>, value: Vec<u8>)
        ensures
            final(self)@ == old(self)@.emplaced(key, prefix@, last, value@),
    {
        if bytes_eq(value.as_slice(), self.null_node_data.as_slice()) {
            return ;
        }
        let k = prefixed_key(&key, prefix, last);
        let entry = match self.data.get(k.as_slice()) {
            Some(x) => if x.rc == 0 {
                Value { v: value, rc: 1 }
            } else {
                Value {
                    v: slice_to_vec(x.v.as_slice()),
                    rc: if x.rc == i32::MAX {
                        x.rc
                    } else {
                        x.rc + 1
                    },
                }
            },
            None => Value { v: value, rc: 1 },
        };
        let ghost e = entry@;
        self.data.insert(k.as_slice(), entry);
        assert(self@.data =~= old(self)@.data.insert(k@, e));
    }

    /// Puts a node under its digest and a prefix, and gives the digest.
    /// The null node is not kept: its hash is the null hash.
    pub fn insert(&mut self, prefix: &[u8], last: Option<u8>, value: &[u8]) -> (r: H256)
        ensures
            value@ == old(self)@.null_node_data ==> r == old(self)@.hashed_null_key && final(self)@
                == old(self)@,
            value@ != old(self)@.null_node_data ==> r@ == spec_digest(value@) && final(self)@
                == old(self)@.emplaced(r, prefix@, last, value@),
    {
        if bytes_eq(value, self.null_node_data.as_slice()) {
            return self.hashed_null_key;
        }
        let key = Hasher::digest(value);
        self.emplace(key, prefix, last, slice_to_vec(value));
        key
    }

    /// Gives up a node under a hash and a prefix once.
    pub fn remove(&mut self, key: &H256, prefix: &[u8], last: Option<u8>)
        ensures
            final(self)@ == old(self)@.removed(*key, prefix@, last),
    {
        if key.same(&self.hashed_null_key) {
            return ;
        }
        let k = prefixed_key(key, prefix, last);
        let entry = match self.data.get(k.as_slice()) {
            Some(x) => if x.rc > 0 {
                Value { v: slice_to_vec(x.v.as_slice()), rc: x.rc - 1 }
            } else {
                return ;
            },
            None => { return ; },
        };
        let ghost e = entry@;
        self.data.insert(k.as_slice(), entry);
        assert(self@.data =~= old(self)@.data.insert(k@, e));
    }
}

} // verus!
