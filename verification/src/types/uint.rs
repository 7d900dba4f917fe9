//! 256-bit unsigned integers.

use vstd::prelude::*;

verus! {

/// A 256-bit unsigned integer, as four 64-bit words.
///
/// `w3` is the most significant word. The derived order compares `w3` first,
/// so it is the numeric order.
#[derive(Clone, Copy, Debug, PartialEq, Eq, Structural, PartialOrd, Ord, Hash)]
pub struct U256 {
    pub w3: u64,
    pub w2: u64,
    pub w1: u64,
    pub w0: u64,
}

/// 2^256 - 1.
pub open spec fn u256_max() -> nat {
    0xffff_ffff_ffff_ffff_ffff_ffff_ffff_ffff_ffff_ffff_ffff_ffff_ffff_ffff_ffff_ffffnat
}

/// The smaller of two numbers.
pub open spec fn nat_min(a: nat, b: nat) -> nat {
    if a <= b {
        a
    } else {
        b
    }
}

/// The 256-bit integer that denotes a number up to 2^256 - 1.
pub open spec fn u256_of(n: nat) -> U256 {
    U256 {
        w0: (n % 0x1_0000_0000_0000_0000nat) as u64,
        w1: ((n / 0x1_0000_0000_0000_0000nat) % 0x1_0000_0000_0000_0000nat) as u64,
        w2: ((n / 0x1_0000_0000_0000_0000_0000_0000_0000_0000nat) % 0x1_0000_0000_0000_0000nat)
            as u64,
        w3: ((n / 0x1_0000_0000_0000_0000_0000_0000_0000_0000_0000_0000_0000_0000nat)
            % 0x1_0000_0000_0000_0000nat) as u64,
    }
}

/// The sum of two values, at most 2^256 - 1.
pub open spec fn spec_sat_add(a: U256, b: U256) -> U256 {
    u256_of(nat_min(a@ + b@, u256_max()))
}

/// The difference of two values, at least zero.
pub open spec fn spec_sat_sub(a: U256, b: U256) -> U256 {
    u256_of(
        if a@ >= b@ {
            (a@ - b@) as nat
        } else {
            0
        },
    )
}

/// The product of two values, at most 2^256 - 1.
pub open spec fn spec_sat_mul(a: U256, b: U256) -> U256 {
    u256_of(nat_min(a@ * b@, u256_max()))
}

/// `u256_of` gives the value that denotes the number.
pub proof fn lemma_u256_of(n: nat)
    requires
        n <= u256_max(),
    ensures
        u256_of(n)@ == n,
{
    let k: nat = 0x1_0000_0000_0000_0000nat;
    let q1 = n / k;
    let q2 = n / 0x1_0000_0000_0000_0000_0000_0000_0000_0000nat;
    let q3 = n / 0x1_0000_0000_0000_0000_0000_0000_0000_0000_0000_0000_0000_0000nat;
    assert(q2 == q1 / k);
    assert(q3 == q2 / k);
    assert(q3 < k);
    assert(n == (n % k) + k * q1);
    assert(q1 == (q1 % k) + k * q2);
    assert(q2 == (q2 % k) + k * q3);
}

impl View for U256 {
    type V = nat;

    open spec fn view(&self) -> nat {
        (self.w0 as nat) + (self.w1 as nat) * 0x1_0000_0000_0000_0000nat + (self.w2 as nat)
            * 0x1_0000_0000_0000_0000_0000_0000_0000_0000nat + (self.w3 as nat)
            * 0x1_0000_0000_0000_0000_0000_0000_0000_0000_0000_0000_0000_0000nat
    }
}

impl U256 {
    /// Two values are equal exactly when they denote the same number.
    pub proof fn lemma_view_injective(a: Self, b: Self)
        ensures
            (a@ == b@) <==> (a == b),
            a@ <= u256_max(),
    {
        let la: nat = (a.w0 as nat) + (a.w1 as nat) * 0x1_0000_0000_0000_0000nat;
        let lb: nat = (b.w0 as nat) + (b.w1 as nat) * 0x1_0000_0000_0000_0000nat;
        let ma: nat = la + (a.w2 as nat) * 0x1_0000_0000_0000_0000_0000_0000_0000_0000nat;
        let mb: nat = lb + (b.w2 as nat) * 0x1_0000_0000_0000_0000_0000_0000_0000_0000nat;
        assert(la < 0x1_0000_0000_0000_0000_0000_0000_0000_0000nat);
        assert(lb < 0x1_0000_0000_0000_0000_0000_0000_0000_0000nat);
        assert(ma < 0x1_0000_0000_0000_0000_0000_0000_0000_0000_0000_0000_0000_0000nat);
        assert(mb < 0x1_0000_0000_0000_0000_0000_0000_0000_0000_0000_0000_0000_0000nat);
        assert(a@ == ma + (a.w3 as nat)
            * 0x1_0000_0000_0000_0000_0000_0000_0000_0000_0000_0000_0000_0000nat);
        assert(b@ == mb + (b.w3 as nat)
            * 0x1_0000_0000_0000_0000_0000_0000_0000_0000_0000_0000_0000_0000nat);
        if a@ == b@ {
            assert(a.w3 == b.w3);
            assert(ma == mb);
            assert(a.w2 == b.w2);
            assert(la == lb);
            assert(a.w1 == b.w1);
            assert(a.w0 == b.w0);
        }
    }

    /// The value whose bytes are all zero.
    pub fn zero() -> (r: Self)
        ensures
            r@ == 0,
    {
        U256 { w3: 0, w2: 0, w1: 0, w0: 0 }
    }

    /// The number one.
    pub fn one() -> (r: Self)
        ensures
            r@ == 1,
    {
        U256 { w3: 0, w2: 0, w1: 0, w0: 1 }
    }

    /// The largest number of 256 bits.
    pub fn max_value() -> (r: Self)
        ensures
            r@ == u256_max(),
    {
        U256 { w3: u64::MAX, w2: u64::MAX, w1: u64::MAX, w0: u64::MAX }
    }

    /// The number that a number of 64 bits is.
    pub fn from_u64(x: u64) -> (r: Self)
        ensures
            r@ == x,
    {
        U256 { w3: 0, w2: 0, w1: 0, w0: x }
    }

    /// Whether every byte is zero.
    pub fn is_zero(&self) -> (r: bool)
        ensures
            r == (self@ == 0),
    {
        self.w0 == 0 && self.w1 == 0 && self.w2 == 0 && self.w3 == 0
    }

    /// Whether the value is below 2^64.
    pub fn fits_u64(&self) -> (r: bool)
        ensures
            r == (self@ <= u64::MAX),
    {
        self.w1 == 0 && self.w2 == 0 && self.w3 == 0
    }

    /// The value as a `u64`, for a value below 2^64.
    pub fn as_u64(&self) -> (r: u64)
        requires
            self@ <= u64::MAX,
        ensures
            r == self@,
    {
        self.w0
    }

    /// The value as a `u64`, or `u64::MAX` for a value that does not fit.
    pub fn saturating_as_u64(&self) -> (r: u64)
        ensures
            r == nat_min(self@, u64::MAX as nat),
    {
        if self.fits_u64() {
            self.w0
        } else {
            u64::MAX
        }
    }

    /// Whether the number is below the other.
    pub fn lt(&self, other: &U256) -> (r: bool)
        ensures
            r == (self@ < other@),
    {
        if self.w3 != other.w3 {
            self.w3 < other.w3
        } else if self.w2 != other.w2 {
            self.w2 < other.w2
        } else if self.w1 != other.w1 {
            self.w1 < other.w1
        } else {
            self.w0 < other.w0
        }
    }

    /// Whether the number is the other at most.
    pub fn le(&self, other: &U256) -> (r: bool)
        ensures
            r == (self@ <= other@),
    {
        !other.lt(self)
    }

    /// Whether the number is above the other.
    pub fn gt(&self, other: &U256) -> (r: bool)
        ensures
            r == (self@ > other@),
    {
        other.lt(self)
    }

    /// Whether the number is the other at least.
    pub fn ge(&self, other: &U256) -> (r: bool)
        ensures
            r == (self@ >= other@),
    {
        !self.lt(other)
    }

    /// `U256::saturating_add` of ethereum-types: the sum, or 2^256 - 1 where
    /// the sum does not fit.
    #[verifier::external_body]
    pub(crate) fn outside_saturating_add(a: &U256, b: &U256) -> (r: U256)
        ensures
            r@ == nat_min(a@ + b@, u256_max()),
    {
        let x = ethereum_types::U256([a.w0, a.w1, a.w2, a.w3]);
        let y = ethereum_types::U256([b.w0, b.w1, b.w2, b.w3]);
        let z = x.saturating_add(y);
        U256 { w3: z.0[3], w2: z.0[2], w1: z.0[1], w0: z.0[0] }
    }

    /// `U256::saturating_sub` of ethereum-types: the difference, or zero
    /// where the subtrahend is larger.
    #[verifier::external_body]
    pub(crate) fn outside_saturating_sub(a: &U256, b: &U256) -> (r: U256)
        ensures
            r@ == (if a@ >= b@ { (a@ - b@) as nat } else { 0 }),
    {
        let x = ethereum_types::U256([a.w0, a.w1, a.w2, a.w3]);
        let y = ethereum_types::U256([b.w0, b.w1, b.w2, b.w3]);
        let z = x.saturating_sub(y);
        U256 { w3: z.0[3], w2: z.0[2], w1: z.0[1], w0: z.0[0] }
    }

    /// `U256::saturating_mul` of ethereum-types: the product, or 2^256 - 1
    /// where the product does not fit.
    #[verifier::external_body]
    pub(crate) fn outside_saturating_mul(a: &U256, b: &U256) -> (r: U256)
        ensures
            r@ == nat_min(a@ * b@, u256_max()),
    {
        let x = ethereum_types::U256([a.w0, a.w1, a.w2, a.w3]);
        let y = ethereum_types::U256([b.w0, b.w1, b.w2, b.w3]);
        let z = x.saturating_mul(y);
        U256 { w3: z.0[3], w2: z.0[2], w1: z.0[1], w0: z.0[0] }
    }

    /// A value is the one that denotes its number.
    pub proof fn lemma_of_view(u: U256)
        ensures
            u256_of(u@) == u,
    {
        Self::lemma_view_injective(u, u);
        lemma_u256_of(u@);
        Self::lemma_view_injective(u256_of(u@), u);
    }

    /// The sum, saturating at 2^256 - 1.
    pub fn saturating_add(&self, other: &U256) -> (r: U256)
        ensures
            r@ == nat_min(self@ + other@, u256_max()),
            r == spec_sat_add(*self, *other),
    {
        let r = Self::outside_saturating_add(self, other);
        proof {
            Self::lemma_of_view(r);
        }
        r
    }

    /// The difference, saturating at zero.
    pub fn saturating_sub(&self, other: &U256) -> (r: U256)
        ensures
            r@ == (if self@ >= other@ { (self@ - other@) as nat } else { 0 }),
            r == spec_sat_sub(*self, *other),
    {
        let r = Self::outside_saturating_sub(self, other);
        proof {
            Self::lemma_of_view(r);
        }
        r
    }

    /// The product, saturating at 2^256 - 1.
    pub fn saturating_mul(&self, other: &U256) -> (r: U256)
        ensures
            r@ == nat_min(self@ * other@, u256_max()),
            r == spec_sat_mul(*self, *other),
    {
        let r = Self::outside_saturating_mul(self, other);
        proof {
            Self::lemma_of_view(r);
        }
        r
    }
}

/// The eight bytes of a 64-bit word, most significant first.
pub open spec fn u64_be(x: u64) -> Seq<u8> {
    seq![
        ((x >> 56) & 0xff) as u8,
        ((x >> 48) & 0xff) as u8,
        ((x >> 40) & 0xff) as u8,
        ((x >> 32) & 0xff) as u8,
        ((x >> 24) & 0xff) as u8,
        ((x >> 16) & 0xff) as u8,
        ((x >> 8) & 0xff) as u8,
        (x & 0xff) as u8,
    ]
}

/// The 64-bit word that eight bytes spell, most significant first.
pub open spec fn u64_from_be(s: Seq<u8>) -> u64 {
    ((s[0] as u64) << 56) | ((s[1] as u64) << 48) | ((s[2] as u64) << 40) | ((s[3] as u64)
        << 32) | ((s[4] as u64) << 24) | ((s[5] as u64) << 16) | ((s[6] as u64) << 8) | (
    s[7] as u64)
}

/// Reading back the bytes of a word gives the word.
pub proof fn lemma_u64_be_word(x: u64)
    ensures
        u64_be(x).len() == 8,
        u64_from_be(u64_be(x)) == x,
{
    assert((((((x >> 56) & 0xff) as u8) as u64) << 56) | (((((x >> 48) & 0xff) as u8) as u64)
        << 48) | (((((x >> 40) & 0xff) as u8) as u64) << 40) | (((((x >> 32) & 0xff) as u8)
        as u64) << 32) | (((((x >> 24) & 0xff) as u8) as u64) << 24) | (((((x >> 16) & 0xff)
        as u8) as u64) << 16) | (((((x >> 8) & 0xff) as u8) as u64) << 8) | (((x & 0xff) as u8)
        as u64) == x) by (bit_vector);
}

/// Spelling the word that eight bytes spell gives the bytes.
pub proof fn lemma_u64_be_bytes(s: Seq<u8>)
    requires
        s.len() == 8,
    ensures
        u64_be(u64_from_be(s)) == s,
{
    let b0 = s[0];
    let b1 = s[1];
    let b2 = s[2];
    let b3 = s[3];
    let b4 = s[4];
    let b5 = s[5];
    let b6 = s[6];
    let b7 = s[7];
    let x: u64 = ((b0 as u64) << 56) | ((b1 as u64) << 48) | ((b2 as u64) << 40) | ((b3 as u64)
        << 32) | ((b4 as u64) << 24) | ((b5 as u64) << 16) | ((b6 as u64) << 8) | (b7 as u64);
    assert(((x >> 56) & 0xff) as u8 == b0 && ((x >> 48) & 0xff) as u8 == b1 && ((x >> 40)
        & 0xff) as u8 == b2 && ((x >> 32) & 0xff) as u8 == b3 && ((x >> 24) & 0xff) as u8 == b4
        && ((x >> 16) & 0xff) as u8 == b5 && ((x >> 8) & 0xff) as u8 == b6 && (x & 0xff) as u8
        == b7) by (bit_vector)
        requires
            x == ((b0 as u64) << 56) | ((b1 as u64) << 48) | ((b2 as u64) << 40) | ((b3 as u64)
                << 32) | ((b4 as u64) << 24) | ((b5 as u64) << 16) | ((b6 as u64) << 8) | (
            b7 as u64),
    ;
    assert(u64_be(u64_from_be(s)) =~= s);
}

/// Appends the eight bytes of `x`, most significant first.
pub fn push_u64_be(out: &mut Vec<u8>, x: u64)
    ensures
        final(out)@ == old(out)@ + u64_be(x),
{
    assert(((x >> 56) & 0xff) < 256 && ((x >> 48) & 0xff) < 256 && ((x >> 40) & 0xff) < 256 && (
    (x >> 32) & 0xff) < 256 && ((x >> 24) & 0xff) < 256 && ((x >> 16) & 0xff) < 256 && ((x >> 8)
        & 0xff) < 256 && (x & 0xff) < 256) by (bit_vector);
    let ghost before = out@;
    out.push(((x >> 56) & 0xff) as u8);
    out.push(((x >> 48) & 0xff) as u8);
    out.push(((x >> 40) & 0xff) as u8);
    out.push(((x >> 32) & 0xff) as u8);
    out.push(((x >> 24) & 0xff) as u8);
    out.push(((x >> 16) & 0xff) as u8);
    out.push(((x >> 8) & 0xff) as u8);
    out.push((x & 0xff) as u8);
    assert(out@ =~= before + u64_be(x));
}

/// The word spelled by the eight bytes of `src` that start at `at`.
pub fn read_u64_be(src: &[u8], at: usize) -> (r: u64)
    requires
        at + 8 <= src@.len(),
    ensures
        r == u64_from_be(src@.subrange(at as int, at + 8)),
{
    let b0: u64 = src[at] as u64;
    let b1: u64 = src[at + 1] as u64;
    let b2: u64 = src[at + 2] as u64;
    let b3: u64 = src[at + 3] as u64;
    let b4: u64 = src[at + 4] as u64;
    let b5: u64 = src[at + 5] as u64;
    let b6: u64 = src[at + 6] as u64;
    let b7: u64 = src[at + 7] as u64;
    (b0 << 56) | (b1 << 48) | (b2 << 40) | (b3 << 32) | (b4 << 24) | (b5 << 16) | (b6 << 8) | b7
}

/// A byte string without its leading zero bytes.
pub open spec fn strip_zeros(s: Seq<u8>) -> Seq<u8>
    decreases s.len(),
{
    if s.len() > 0 && s[0] == 0 {
        strip_zeros(s.subrange(1, s.len() as int))
    } else {
        s
    }
}

/// A byte string behind as many zero bytes as bring it to `n` bytes.
pub open spec fn pad_zeros(s: Seq<u8>, n: nat) -> Seq<u8> {
    Seq::new((n - s.len()) as nat, |i: int| 0u8) + s
}

/// Stripping shortens, leaves no leading zero, and padding undoes it.
pub proof fn lemma_strip_zeros(s: Seq<u8>)
    ensures
        strip_zeros(s).len() <= s.len(),
        strip_zeros(s).len() > 0 ==> strip_zeros(s)[0] != 0,
        pad_zeros(strip_zeros(s), s.len()) == s,
        strip_zeros(s) == s.subrange(s.len() - strip_zeros(s).len(), s.len() as int),
    decreases s.len(),
{
    if s.len() > 0 && s[0] == 0 {
        let t = s.subrange(1, s.len() as int);
        lemma_strip_zeros(t);
        assert(pad_zeros(strip_zeros(s), s.len()) =~= s) by {
            let p = pad_zeros(strip_zeros(t), t.len());
            assert(p == t);
            assert forall|i: int| 0 <= i < s.len() implies pad_zeros(strip_zeros(s), s.len())[i]
                == s[i] by {
                if i >= 1 {
                    assert(p[i - 1] == t[i - 1]);
                }
            }
        }
        assert(strip_zeros(s) =~= s.subrange(s.len() - strip_zeros(s).len(), s.len() as int));
    } else {
        assert(pad_zeros(s, s.len()) =~= s);
        assert(s =~= s.subrange(0, s.len() as int));
    }
}

/// The position of the first non-zero byte of `src`, or its length.
pub fn leading_zeros(src: &[u8]) -> (k: usize)
    ensures
        k <= src@.len(),
        strip_zeros(src@) == src@.subrange(k as int, src@.len() as int),
{
    let mut k: usize = 0;
    assert(src@.subrange(0, src@.len() as int) =~= src@);
    while k < src.len() && src[k] == 0
        invariant
            k <= src@.len(),
            strip_zeros(src@) == strip_zeros(src@.subrange(k as int, src@.len() as int)),
        decreases src@.len() - k,
    {
        let ghost t = src@.subrange(k as int, src@.len() as int);
        assert(t.subrange(1, t.len() as int) =~= src@.subrange(k + 1, src@.len() as int));
        k += 1;
    }
    k
}

impl U256 {
    /// The 32 bytes of the value, most significant first.
    pub open spec fn be_bytes(&self) -> Seq<u8> {
        u64_be(self.w3) + u64_be(self.w2) + u64_be(self.w1) + u64_be(self.w0)
    }

    /// The value that 32 bytes spell, most significant first.
    pub open spec fn spec_from_be(s: Seq<u8>) -> U256 {
        U256 {
            w3: u64_from_be(s.subrange(0, 8)),
            w2: u64_from_be(s.subrange(8, 16)),
            w1: u64_from_be(s.subrange(16, 24)),
            w0: u64_from_be(s.subrange(24, 32)),
        }
    }

    /// The shortest big-endian form: no leading zero byte, empty for zero.
    pub open spec fn scalar_bytes(&self) -> Seq<u8> {
        strip_zeros(self.be_bytes())
    }

    /// The value that at most 32 bytes spell, most significant first.
    pub open spec fn spec_from_scalar(s: Seq<u8>) -> U256 {
        Self::spec_from_be(pad_zeros(s, 32))
    }

    /// Reading back the 32 bytes of a value gives the value, and so does
    /// reading back its shortest form.
    pub proof fn lemma_be_value(u: U256)
        ensures
            u.be_bytes().len() == 32,
            Self::spec_from_be(u.be_bytes()) == u,
            u.scalar_bytes().len() <= 32,
            u.scalar_bytes().len() > 0 ==> u.scalar_bytes()[0] != 0,
            Self::spec_from_scalar(u.scalar_bytes()) == u,
    {
        lemma_u64_be_word(u.w3);
        lemma_u64_be_word(u.w2);
        lemma_u64_be_word(u.w1);
        lemma_u64_be_word(u.w0);
        let s = u.be_bytes();
        assert(s.subrange(0, 8) =~= u64_be(u.w3));
        assert(s.subrange(8, 16) =~= u64_be(u.w2));
        assert(s.subrange(16, 24) =~= u64_be(u.w1));
        assert(s.subrange(24, 32) =~= u64_be(u.w0));
        lemma_strip_zeros(s);
    }

    /// Spelling the value that 32 bytes spell gives the bytes.
    pub proof fn lemma_be_bytes(s: Seq<u8>)
        requires
            s.len() == 32,
        ensures
            Self::spec_from_be(s).be_bytes() == s,
    {
        lemma_u64_be_bytes(s.subrange(0, 8));
        lemma_u64_be_bytes(s.subrange(8, 16));
        lemma_u64_be_bytes(s.subrange(16, 24));
        lemma_u64_be_bytes(s.subrange(24, 32));
        assert(Self::spec_from_be(s).be_bytes() =~= s);
    }

    /// The 32 bytes of the value, most significant first.
    pub fn to_be_bytes(&self) -> (r: Vec<u8>)
        ensures
            r@ == self.be_bytes(),
    {
        let mut out: Vec<u8> = Vec::new();
        push_u64_be(&mut out, self.w3);
        push_u64_be(&mut out, self.w2);
        push_u64_be(&mut out, self.w1);
        push_u64_be(&mut out, self.w0);
        assert(out@ =~= self.be_bytes());
        out
    }

    /// The shortest big-endian form of the value.
    pub fn to_scalar_bytes(&self) -> (r: Vec<u8>)
        ensures
            r@ == self.scalar_bytes(),
    {
        let full = self.to_be_bytes();
        let k = leading_zeros(full.as_slice());
        let mut out: Vec<u8> = Vec::new();
        let mut i: usize = k;
        while i < full.len()
            invariant
                k <= i <= full@.len(),
                out@ == full@.subrange(k as int, i as int),
            decreases full@.len() - i,
        {
            out.push(full[i]);
            assert(out@ =~= full@.subrange(k as int, i + 1));
            i += 1;
        }
        out
    }

    /// The value that exactly 32 bytes spell.
    pub fn from_be_bytes(src: &[u8]) -> (r: U256)
        requires
            src@.len() == 32,
        ensures
            r == Self::spec_from_be(src@),
    {
        U256 {
            w3: read_u64_be(src, 0),
            w2: read_u64_be(src, 8),
            w1: read_u64_be(src, 16),
            w0: read_u64_be(src, 24),
        }
    }

    /// The value that at most 32 bytes spell.
    pub fn from_scalar_bytes(src: &[u8]) -> (r: U256)
        requires
            src@.len() <= 32,
        ensures
            r == Self::spec_from_scalar(src@),
    {
        let mut full: Vec<u8> = Vec::new();
        let n: usize = 32 - src.len();
        let mut i: usize = 0;
        while i < n
            invariant
                i <= n,
                n == 32 - src@.len(),
                full@ == Seq::new(i as nat, |j: int| 0u8),
            decreases n - i,
        {
            full.push(0u8);
            assert(full@ =~= Seq::new((i + 1) as nat, |j: int| 0u8));
            i += 1;
        }
        let mut j: usize = 0;
        while j < src.len()
            invariant
                j <= src@.len(),
                n == 32 - src@.len(),
                full@ == Seq::new(n as nat, |j: int| 0u8) + src@.subrange(0, j as int),
            decreases src@.len() - j,
        {
            full.push(src[j]);
            assert(full@ =~= Seq::new(n as nat, |j: int| 0u8) + src@.subrange(0, j + 1));
            j += 1;
        }
        assert(src@.subrange(0, src@.len() as int) =~= src@);
        assert(full@ =~= pad_zeros(src@, 32));
        Self::from_be_bytes(full.as_slice())
    }
}

/// The shortest big-endian form of a 64-bit word.
pub open spec fn u64_scalar_bytes(x: u64) -> Seq<u8> {
    strip_zeros(u64_be(x))
}

/// The word that at most eight bytes spell.
pub open spec fn u64_from_scalar(s: Seq<u8>) -> u64 {
    u64_from_be(pad_zeros(s, 8))
}

/// Reading back the shortest form of a word gives the word.
pub proof fn lemma_u64_scalar(x: u64)
    ensures
        u64_scalar_bytes(x).len() <= 8,
        u64_scalar_bytes(x).len() > 0 ==> u64_scalar_bytes(x)[0] != 0,
        u64_from_scalar(u64_scalar_bytes(x)) == x,
{
    lemma_u64_be_word(x);
    lemma_strip_zeros(u64_be(x));
}

/// The shortest big-endian form of `x`.
pub fn u64_to_scalar_bytes(x: u64) -> (r: Vec<u8>)
    ensures
        r@ == u64_scalar_bytes(x),
{
    let mut full: Vec<u8> = Vec::new();
    push_u64_be(&mut full, x);
    assert(full@ =~= u64_be(x));
    let k = leading_zeros(full.as_slice());
    let mut out: Vec<u8> = Vec::new();
    let mut i: usize = k;
    while i < full.len()
        invariant
            k <= i <= full@.len(),
            out@ == full@.subrange(k as int, i as int),
        decreases full@.len() - i,
    {
        out.push(full[i]);
        assert(out@ =~= full@.subrange(k as int, i + 1));
        i += 1;
    }
    out
}

/// The word that at most eight bytes spell.
pub fn u64_of_scalar_bytes(src: &[u8]) -> (r: u64)
    requires
        src@.len() <= 8,
    ensures
        r == u64_from_scalar(src@),
{
    let mut full: Vec<u8> = Vec::new();
    let n: usize = 8 - src.len();
    let mut i: usize = 0;
    while i < n
        invariant
            i <= n,
            n == 8 - src@.len(),
            full@ == Seq::new(i as nat, |j: int| 0u8),
        decreases n - i,
    {
        full.push(0u8);
        assert(full@ =~= Seq::new((i + 1) as nat, |j: int| 0u8));
        i += 1;
    }
    let mut j: usize = 0;
    while j < src.len()
        invariant
            j <= src@.len(),
            n == 8 - src@.len(),
            full@ == Seq::new(n as nat, |j: int| 0u8) + src@.subrange(0, j as int),
        decreases src@.len() - j,
    {
        full.push(src[j]);
        assert(full@ =~= Seq::new(n as nat, |j: int| 0u8) + src@.subrange(0, j + 1));
        j += 1;
    }
    assert(src@.subrange(0, src@.len() as int) =~= src@);
    assert(full@ =~= pad_zeros(src@, 8));
    assert(full@.subrange(0, 8) =~= full@);
    read_u64_be(full.as_slice(), 0)
}

} // verus!
