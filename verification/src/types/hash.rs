//! Fixed-width byte strings (addresses, hashes, blooms) and the Keccak digest.

use hash_db::Hasher as KeyHasher;
use keccak_hasher::KeccakHasher;
use vstd::prelude::*;

verus! {

/// A 20-byte account address.
#[derive(Clone, Copy, Debug, PartialEq, Eq, PartialOrd, Ord, Hash)]
pub struct H160 {
    pub bytes: [u8; 20],
}

/// A 32-byte hash.
#[derive(Clone, Copy, Debug, PartialEq, Eq, PartialOrd, Ord, Hash)]
pub struct H256 {
    pub bytes: [u8; 32],
}

/// An 8-byte block nonce.
#[derive(Clone, Copy, Debug, PartialEq, Eq, PartialOrd, Ord, Hash)]
pub struct H64 {
    pub bytes: [u8; 8],
}

/// A 2048-bit log bloom filter.
#[derive(Clone, Copy, Debug, PartialEq, Eq)]
pub struct Bloom {
    pub bytes: [u8; 256],
}

/// A digest of 32 bytes.
pub type Hash = H256;

/// The root of a trie.
pub type MerkleRoot = H256;

/// Whether two byte strings hold the same bytes.
pub fn bytes_eq(a: &[u8], b: &[u8]) -> (r: bool)
    ensures
        r == (a@ == b@),
{
    if a.len() != b.len() {
        return false;
    }
    let mut i: usize = 0;
    while i < a.len()
        invariant
            i <= a.len(),
            a.len() == b.len(),
            forall|j: int| 0 <= j < i ==> a@[j] == b@[j],
        decreases a.len() - i,
    {
        if a[i] != b[i] {
            return false;
        }
        i += 1;
    }
    assert(a@ =~= b@);
    true
}

impl View for H160 {
    type V = Seq<u8>;

    open spec fn view(&self) -> Seq<u8> {
        self.bytes@
    }
}

impl View for H256 {
    type V = Seq<u8>;

    open spec fn view(&self) -> Seq<u8> {
        self.bytes@
    }
}

impl View for H64 {
    type V = Seq<u8>;

    open spec fn view(&self) -> Seq<u8> {
        self.bytes@
    }
}

impl View for Bloom {
    type V = Seq<u8>;

    open spec fn view(&self) -> Seq<u8> {
        self.bytes@
    }
}

impl H160 {
    /// The address whose bytes are `s`, a sequence of 20 bytes.
    pub open spec fn spec_of(s: Seq<u8>) -> H160 {
        H160 { bytes: array_of(s) }
    }

    /// `spec_of` builds the address with the given bytes, and only that one.
    pub proof fn lemma_spec_of(s: Seq<u8>)
        requires
            s.len() == 20,
        ensures
            Self::spec_of(s)@ == s,
            forall|a: H160| a@ == s ==> a == Self::spec_of(s),
    {
        lemma_array_of::<20>(s);
        assert forall|a: H160| a@ == s implies a == Self::spec_of(s) by {
            Self::lemma_view_injective(a, Self::spec_of(s));
        }
    }

    /// The all-zero address.
    pub fn zero() -> (r: Self)
        ensures
            r@ == Seq::new(20, |i: int| 0u8),
    {
        let r = H160 { bytes: [0u8; 20] };
        assert(r@ =~= Seq::new(20, |i: int| 0u8));
        r
    }

    /// Two addresses are equal exactly when their bytes are.
    pub proof fn lemma_view_injective(a: Self, b: Self)
        ensures
            (a@ == b@) <==> (a == b),
    {
        if a@ == b@ {
            assert(a.bytes@ =~= b.bytes@);
            assert(a.bytes == b.bytes);
        }
    }

    /// Whether the two hold the same bytes.
    pub fn same(&self, other: &H160) -> (r: bool)
        ensures
            r == (*self == *other),
            r == (self@ == other@),
    {
        proof {
            Self::lemma_view_injective(*self, *other);
        }
        bytes_eq(self.bytes.as_slice(), other.bytes.as_slice())
    }

    /// The address held by a slice of exactly 20 bytes.
    pub fn from_slice(src: &[u8]) -> (r: Self)
        requires
            src@.len() == 20,
        ensures
            r@ == src@,
    {
        let mut bytes = [0u8; 20];
        let mut i: usize = 0;
        while i < 20
            invariant
                i <= 20,
                src@.len() == 20,
                forall|j: int| 0 <= j < i ==> bytes@[j] == src@[j],
            decreases 20 - i,
        {
            bytes[i] = src[i];
            i += 1;
        }
        assert(bytes@ =~= src@);
        H160 { bytes }
    }

    /// The bytes as a vector.
    pub fn to_vec(&self) -> (r: Vec<u8>)
        ensures
            r@ == self@,
    {
        slice_to_vec(self.bytes.as_slice())
    }
}

impl H256 {
    /// The hash whose bytes are `s`, a sequence of 32 bytes.
    pub open spec fn spec_of(s: Seq<u8>) -> H256 {
        H256 { bytes: array_of(s) }
    }

    /// `spec_of` builds the hash with the given bytes, and only that one.
    pub proof fn lemma_spec_of(s: Seq<u8>)
        requires
            s.len() == 32,
        ensures
            Self::spec_of(s)@ == s,
            forall|a: H256| a@ == s ==> a == Self::spec_of(s),
    {
        lemma_array_of::<32>(s);
        assert forall|a: H256| a@ == s implies a == Self::spec_of(s) by {
            Self::lemma_view_injective(a, Self::spec_of(s));
        }
    }

    /// The all-zero hash.
    pub fn zero() -> (r: Self)
        ensures
            r@ == Seq::new(32, |i: int| 0u8),
    {
        let r = H256 { bytes: [0u8; 32] };
        assert(r@ =~= Seq::new(32, |i: int| 0u8));
        r
    }

    /// Two hashes are equal exactly when their bytes are.
    pub proof fn lemma_view_injective(a: Self, b: Self)
        ensures
            (a@ == b@) <==> (a == b),
    {
        if a@ == b@ {
            assert(a.bytes@ =~= b.bytes@);
            assert(a.bytes == b.bytes);
        }
    }

    /// Whether the two hold the same bytes.
    pub fn same(&self, other: &H256) -> (r: bool)
        ensures
            r == (*self == *other),
            r == (self@ == other@),
    {
        proof {
            Self::lemma_view_injective(*self, *other);
        }
        bytes_eq(self.bytes.as_slice(), other.bytes.as_slice())
    }

    /// Whether every byte is zero.
    pub fn is_zero(&self) -> (r: bool)
        ensures
            r == (self@ == Seq::new(32, |i: int| 0u8)),
    {
        let z = H256::zero();
        self.same(&z)
    }

    /// The hash held by a slice of exactly 32 bytes.
    pub fn from_slice(src: &[u8]) -> (r: Self)
        requires
            src@.len() == 32,
        ensures
            r@ == src@,
    {
        let mut bytes = [0u8; 32];
        let mut i: usize = 0;
        while i < 32
            invariant
                i <= 32,
                src@.len() == 32,
                forall|j: int| 0 <= j < i ==> bytes@[j] == src@[j],
            decreases 32 - i,
        {
            bytes[i] = src[i];
            i += 1;
        }
        assert(bytes@ =~= src@);
        H256 { bytes }
    }

    /// The bytes as a vector.
    pub fn to_vec(&self) -> (r: Vec<u8>)
        ensures
            r@ == self@,
    {
        slice_to_vec(self.bytes.as_slice())
    }

    /// The address held by the last 20 bytes of this hash.
    pub fn low_address(&self) -> (r: H160)
        ensures
            r@ == self@.subrange(12, 32),
    {
        let mut bytes = [0u8; 20];
        let mut i: usize = 0;
        while i < 20
            invariant
                i <= 20,
                forall|j: int| 0 <= j < i ==> bytes@[j] == self.bytes@[j + 12],
            decreases 20 - i,
        {
            bytes[i] = self.bytes[i + 12];
            i += 1;
        }
        assert(bytes@ =~= self@.subrange(12, 32));
        H160 { bytes }
    }

    /// The hash whose last 20 bytes are the address, the rest zero.
    pub fn from_address(a: &H160) -> (r: H256)
        ensures
            r@ == Seq::new(12, |i: int| 0u8) + a@,
    {
        let mut bytes = [0u8; 32];
        let mut i: usize = 0;
        while i < 20
            invariant
                i <= 20,
                forall|j: int| 0 <= j < 12 ==> bytes@[j] == 0u8,
                forall|j: int| 0 <= j < i ==> bytes@[j + 12] == a.bytes@[j],
            decreases 20 - i,
        {
            bytes[i + 12] = a.bytes[i];
            i += 1;
        }
        assert(bytes@ =~= Seq::new(12, |i: int| 0u8) + a@);
        H256 { bytes }
    }
}

impl H64 {
    /// The nonce whose bytes are all zero.
    pub fn zero() -> (r: Self)
        ensures
            r@ == Seq::new(8, |i: int| 0u8),
    {
        let r = H64 { bytes: [0u8; 8] };
        assert(r@ =~= Seq::new(8, |i: int| 0u8));
        r
    }

    /// The nonce whose bytes are `s`, a sequence of 8 bytes.
    pub open spec fn spec_of(s: Seq<u8>) -> H64 {
        H64 { bytes: array_of(s) }
    }

    /// `spec_of` builds the nonce with the given bytes, and only that one.
    pub proof fn lemma_spec_of(s: Seq<u8>)
        requires
            s.len() == 8,
        ensures
            Self::spec_of(s)@ == s,
            forall|a: H64| a@ == s ==> a == Self::spec_of(s),
    {
        lemma_array_of::<8>(s);
        assert forall|a: H64| a@ == s implies a == Self::spec_of(s) by {
            Self::lemma_view_injective(a, Self::spec_of(s));
        }
    }

    /// Two values are equal exactly when their bytes are.
    pub proof fn lemma_view_injective(a: Self, b: Self)
        ensures
            (a@ == b@) <==> (a == b),
    {
        if a@ == b@ {
            assert(a.bytes@ =~= b.bytes@);
            assert(a.bytes == b.bytes);
        }
    }

    /// The nonce held by a slice of exactly 8 bytes.
    pub fn from_slice(src: &[u8]) -> (r: Self)
        requires
            src@.len() == 8,
        ensures
            r@ == src@,
    {
        let mut bytes = [0u8; 8];
        let mut i: usize = 0;
        while i < 8
            invariant
                i <= 8,
                src@.len() == 8,
                forall|j: int| 0 <= j < i ==> bytes@[j] == src@[j],
            decreases 8 - i,
        {
            bytes[i] = src[i];
            i += 1;
        }
        assert(bytes@ =~= src@);
        H64 { bytes }
    }
}

impl Bloom {
    /// The filter with no bit set.
    pub fn zero() -> (r: Self)
        ensures
            r@ == Seq::new(256, |i: int| 0u8),
    {
        let r = Bloom { bytes: [0u8; 256] };
        assert(r@ =~= Seq::new(256, |i: int| 0u8));
        r
    }

    /// The filter whose bytes are `s`, a sequence of 256 bytes.
    pub open spec fn spec_of(s: Seq<u8>) -> Bloom {
        Bloom { bytes: array_of(s) }
    }

    /// `spec_of` builds the filter with the given bytes, and only that one.
    pub proof fn lemma_spec_of(s: Seq<u8>)
        requires
            s.len() == 256,
        ensures
            Self::spec_of(s)@ == s,
            forall|a: Bloom| a@ == s ==> a == Self::spec_of(s),
    {
        lemma_array_of::<256>(s);
        assert forall|a: Bloom| a@ == s implies a == Self::spec_of(s) by {
            Self::lemma_view_injective(a, Self::spec_of(s));
        }
    }

    /// Two values are equal exactly when their bytes are.
    pub proof fn lemma_view_injective(a: Self, b: Self)
        ensures
            (a@ == b@) <==> (a == b),
    {
        if a@ == b@ {
            assert(a.bytes@ =~= b.bytes@);
            assert(a.bytes == b.bytes);
        }
    }

    /// The filter held by a slice of exactly 256 bytes.
    pub fn from_slice(src: &[u8]) -> (r: Self)
        requires
            src@.len() == 256,
        ensures
            r@ == src@,
    {
        let mut bytes = [0u8; 256];
        let mut i: usize = 0;
        while i < 256
            invariant
                i <= 256,
                src@.len() == 256,
                forall|j: int| 0 <= j < i ==> bytes@[j] == src@[j],
            decreases 256 - i,
        {
            bytes[i] = src[i];
            i += 1;
        }
        assert(bytes@ =~= src@);
        Bloom { bytes }
    }
}

/// A copy of a slice as a vector.
pub fn slice_to_vec(src: &[u8]) -> (r: Vec<u8>)
    ensures
        r@ == src@,
{
    let mut out: Vec<u8> = Vec::new();
    let mut i: usize = 0;
    while i < src.len()
        invariant
            i <= src.len(),
            out@ == src@.subrange(0, i as int),
        decreases src.len() - i,
    {
        out.push(src[i]);
        assert(out@ =~= src@.subrange(0, i + 1));
        i += 1;
    }
    assert(out@ =~= src@);
    out
}

/// The array that holds the bytes of a sequence of the array's length.
pub open spec fn array_of<const N: usize>(s: Seq<u8>) -> [u8; N] {
    choose|a: [u8; N]| a@ == s
}

/// An array whose first `k` bytes are those of `s`.
proof fn array_prefix<const N: usize>(s: Seq<u8>, k: nat) -> (a: [u8; N])
    requires
        s.len() == N,
        k <= N,
    ensures
        forall|i: int| 0 <= i < k ==> a@[i] == s[i],
    decreases k,
{
    broadcast use vstd::array::group_array_axioms;

    if k == 0 {
        arbitrary()
    } else {
        let b = array_prefix::<N>(s, (k - 1) as nat);
        let a = vstd::array::spec_array_update(b, k - 1, s[k - 1]);
        assert(a@ == b@.update(k - 1, s[k - 1]));
        a
    }
}

/// Every byte sequence of an array's length is the view of an array.
pub proof fn lemma_array_of<const N: usize>(s: Seq<u8>)
    requires
        s.len() == N,
    ensures
        array_of::<N>(s)@ == s,
{
    broadcast use vstd::array::group_array_axioms;

    let a = array_prefix::<N>(s, N as nat);
    assert(a@ =~= s);
}

/// Keccak-256 of a byte string: 32 bytes, a function of the input alone.
pub uninterp spec fn keccak256(data: Seq<u8>) -> Seq<u8>;

/// The bytes of Keccak-256 of the empty string.
pub open spec fn nil_data_bytes() -> Seq<u8> {
    seq![
        197u8, 210u8, 70u8, 1u8, 134u8, 247u8, 35u8, 60u8, 146u8, 126u8, 125u8, 178u8, 220u8,
        199u8, 3u8, 192u8, 229u8, 0u8, 182u8, 83u8, 202u8, 130u8, 39u8, 59u8, 123u8, 250u8,
        216u8, 4u8, 93u8, 133u8, 164u8, 112u8,
    ]
}

/// Keccak-256 of the empty string, as bytes.
pub const NIL_DATA: [u8; 32] = [
    197, 210, 70, 1, 134, 247, 35, 60, 146, 126, 125, 178, 220, 199, 3, 192, 229, 0, 182, 83,
    202, 130, 39, 59, 123, 250, 216, 4, 93, 133, 164, 112,
];

/// The sentinel for "no storage" and "no code", as bytes.
pub const NIL_HASH: [u8; 32] = NIL_DATA;

/// Keccak-256 of the empty string.
pub fn nil_data() -> (h: H256)
    ensures
        h@ == nil_data_bytes(),
{
    let h = H256 { bytes: NIL_DATA };
    assert(h@ =~= nil_data_bytes());
    h
}

/// The sentinel for "no storage" and "no code".
pub fn nil_hash() -> (h: H256)
    ensures
        h@ == nil_data_bytes(),
{
    nil_data()
}

/// The digest of a byte string: the fixed constant for the empty string,
/// Keccak-256 for every other.
pub open spec fn spec_digest(data: Seq<u8>) -> Seq<u8> {
    if data.len() == 0 {
        nil_data_bytes()
    } else {
        keccak256(data)
    }
}

/// `KeccakHasher::hash` of keccak-hasher: Keccak-256 of the input, which is a
/// function of the input bytes alone. The contract names that result.
#[verifier::external_body]
fn keccak(data: &[u8]) -> (h: H256)
    ensures
        h@ == keccak256(data@),
{
    H256 { bytes: KeccakHasher::hash(data) }
}

/// The digest that hashes are made with.
pub struct Hasher;

impl Hasher {
    /// The digest of `data`.
    pub fn digest(data: &[u8]) -> (h: H256)
        ensures
            h@ == spec_digest(data@),
            data@.len() == 0 ==> h.bytes == NIL_DATA,
    {
        if data.len() == 0 {
            nil_data()
        } else {
            keccak(data)
        }
    }
}

/// The digest of the empty string is the constant `NIL_DATA`.
pub proof fn lemma_digest_empty()
    ensures
        spec_digest(Seq::<u8>::empty()) == NIL_DATA@,
{
    assert(NIL_DATA@ =~= nil_data_bytes());
}

} // verus!
