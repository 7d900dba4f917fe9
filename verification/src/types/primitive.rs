//! Hex text, addresses and the mixed-case checksum of addresses.

use crate::codec::signed::TypesError;
use crate::types::hash::{spec_digest, Hasher, H160, H256};
use crate::types::text::{all_ascii, ascii_chars, ascii_string, text_of};
use vstd::prelude::*;
use vstd::slice::slice_subrange;
use vstd::string::{StrSliceExecFns, StringSliceAdditionalSpecFns};

verus! {

/// The number of bytes of a kilobyte.
pub const KB: usize = 1024;

/// The number of bytes of an address.
pub const ADDRESS_LEN: usize = 20;

/// The ASCII code of a hex digit, for a value below 16: lower case.
pub open spec fn hex_digit(n: u8) -> u8 {
    if n < 10 {
        (48 + n) as u8
    } else {
        (87 + n) as u8
    }
}

/// The half byte at a position of a byte string, upper half first.
pub open spec fn nibble(b: Seq<u8>, i: int) -> u8 {
    if i % 2 == 0 {
        b[i / 2] / 16
    } else {
        b[i / 2] % 16
    }
}

/// The hex text of a byte string, as ASCII bytes: two lower-case digits a byte.
pub open spec fn spec_hex(b: Seq<u8>) -> Seq<u8> {
    Seq::new(2 * b.len(), |i: int| hex_digit(nibble(b, i)))
}

/// The value of a hex digit of either case, by its ASCII code.
pub open spec fn digit_value(c: u8) -> Option<u8> {
    if 48 <= c <= 57 {
        Some((c - 48) as u8)
    } else if 97 <= c <= 102 {
        Some((c - 87) as u8)
    } else if 65 <= c <= 70 {
        Some((c - 55) as u8)
    } else {
        None
    }
}

/// Whether every byte is the ASCII code of a hex digit.
pub open spec fn all_hex(s: Seq<u8>) -> bool {
    forall|i: int| 0 <= i < s.len() ==> digit_value(#[trigger] s[i]) is Some
}

/// The bytes that hex text spells, two digits a byte.
pub open spec fn spec_unhex(s: Seq<u8>) -> Seq<u8> {
    Seq::new(
        s.len() / 2,
        |i: int| (digit_value(s[2 * i])->0 * 16 + digit_value(s[2 * i + 1])->0) as u8,
    )
}

/// Whether text starts with `0x`.
pub open spec fn starts_0x(s: Seq<u8>) -> bool {
    s.len() >= 2 && s[0] == 48 && s[1] == 120
}

/// The bytes that hex text spells, behind `0x` or without it. It has an
/// even number of hex digits and nothing else.
pub open spec fn spec_hex_decode(s: Seq<u8>) -> Result<Seq<u8>, TypesError> {
    let body = if starts_0x(s) {
        s.subrange(2, s.len() as int)
    } else {
        s
    };
    if body.len() % 2 == 0 && all_hex(body) {
        Ok(spec_unhex(body))
    } else {
        Err(TypesError::FromHex)
    }
}

/// Reading back the hex text of a byte string gives the byte string.
pub proof fn lemma_unhex_hex(b: Seq<u8>)
    ensures
        all_hex(spec_hex(b)),
        spec_hex(b).len() == 2 * b.len(),
        spec_unhex(spec_hex(b)) == b,
        !starts_0x(spec_hex(b)),
        all_ascii(spec_hex(b)),
{
    let h = spec_hex(b);
    assert forall|i: int| 0 <= i < h.len() implies digit_value(#[trigger] h[i]) is Some && h[i]
        < 128 by {
        assert(nibble(b, i) < 16);
    }
    assert forall|i: int| 0 <= i < b.len() implies spec_unhex(h)[i] == b[i] by {
        assert(h[2 * i] == hex_digit(nibble(b, 2 * i)));
        assert(h[2 * i + 1] == hex_digit(nibble(b, 2 * i + 1)));
        assert(nibble(b, 2 * i) == b[i] / 16);
        assert(nibble(b, 2 * i + 1) == b[i] % 16);
    }
    assert(spec_unhex(h) =~= b);
    if h.len() >= 2 {
        assert(nibble(b, 1) < 16);
        assert(h[1] == hex_digit(nibble(b, 1)));
    }
}

/// `hex_string` of faster-hex: the hex text of the bytes, two lower-case
/// digits a byte. It panics where the text would be longer than a string
/// can be.
#[verifier::external_body]
fn outside_hex_string(src: &[u8]) -> (r: String)
    requires
        src@.len() <= 0x3fff_ffff,
    ensures
        r@ == ascii_chars(spec_hex(src@)),
{
    faster_hex::hex_string(src)
}

/// `hex_decode` of faster-hex, into a buffer of half the length of the
/// text: it succeeds for an even number of hex digits of either case and
/// nothing else, and fills the buffer with the bytes they spell; else it
/// leaves the buffer as it is.
#[verifier::external_body]
fn outside_hex_decode(src: &[u8], dst: &mut Vec<u8>) -> (ok: bool)
    requires
        old(dst)@.len() == src@.len() / 2,
    ensures
        ok == (src@.len() % 2 == 0 && all_hex(src@)),
        ok ==> final(dst)@ == spec_unhex(src@),
        !ok ==> final(dst)@ == old(dst)@,
{
    faster_hex::hex_decode(src, dst.as_mut_slice()).is_ok()
}

/// The hex text of a byte string: two lower-case digits a byte.
pub fn hex_encode(src: &[u8]) -> (r: String)
    requires
        src@.len() <= 0x3fff_ffff,
    ensures
        r@ == ascii_chars(spec_hex(src@)),
{
    outside_hex_string(src)
}

/// The bytes that hex text spells, behind `0x` or without it.
pub fn hex_decode_bytes(src: &[u8]) -> (r: Result<Vec<u8>, TypesError>)
    ensures
        match spec_hex_decode(src@) {
            Ok(b) => r matches Ok(v) && v@ == b,
            Err(e) => r == Err::<Vec<u8>, TypesError>(e),
        },
{
    let body = if src.len() >= 2 && src[0] == 48 && src[1] == 120 {
        slice_subrange(src, 2, src.len())
    } else {
        src
    };
    let n: usize = body.len() / 2;
    let mut ret: Vec<u8> = Vec::new();
    let mut i: usize = 0;
    while i < n
        invariant
            i <= n,
            ret@.len() == i,
        decreases n - i,
    {
        ret.push(0u8);
        i += 1;
    }
    if outside_hex_decode(body, &mut ret) {
        Ok(ret)
    } else {
        Err(TypesError::FromHex)
    }
}

/// The bytes that a hex string spells, behind `0x` or without it. Fails
/// for an odd number of digits and for anything that is no hex digit.
pub fn hex_decode(src: &str) -> (r: Result<Vec<u8>, TypesError>)
    ensures
        match spec_hex_decode(src.spec_bytes()) {
            Ok(b) => r matches Ok(v) && v@ == b,
            Err(e) => r == Err::<Vec<u8>, TypesError>(e),
        },
{
    hex_decode_bytes(src.as_bytes())
}

/// An ASCII letter in lower case; any other byte as it is.
pub open spec fn lower(c: u8) -> u8 {
    if 65 <= c <= 90 {
        (c + 32) as u8
    } else {
        c
    }
}

/// An ASCII letter in upper case; any other byte as it is.
pub open spec fn upper(c: u8) -> u8 {
    if 97 <= c <= 122 {
        (c - 32) as u8
    } else {
        c
    }
}

/// Text with every ASCII letter in lower case.
pub open spec fn to_lower(s: Seq<u8>) -> Seq<u8> {
    Seq::new(s.len(), |i: int| lower(s[i]))
}

/// Text without every `0x` that it starts with.
pub open spec fn strip_0x(s: Seq<u8>) -> Seq<u8>
    decreases s.len(),
{
    if starts_0x(s) {
        strip_0x(s.subrange(2, s.len() as int))
    } else {
        s
    }
}

/// The checksum form of the text of an address: `0x`, and then the text
/// without `0x`, where the letter at each position is in upper case where
/// the hex digit at this position of the digest of the lower-case text is
/// above 7, and in lower case else.
pub open spec fn checksum_bytes(s: Seq<u8>) -> Seq<u8> {
    let body = to_lower(strip_0x(s));
    let h = spec_digest(body);
    seq![48u8, 120u8] + Seq::new(
        body.len(),
        |i: int|
            if nibble(h, i) > 7 {
                upper(body[i])
            } else {
                body[i]
            },
    )
}

/// Where text without every `0x` that it starts with begins.
fn skip_0x(s: &[u8]) -> (k: usize)
    ensures
        k <= s@.len(),
        strip_0x(s@) == s@.subrange(k as int, s@.len() as int),
{
    let mut k: usize = 0;
    assert(s@.subrange(0, s@.len() as int) =~= s@);
    while s.len() - k >= 2 && s[k] == 48 && s[k + 1] == 120
        invariant
            k <= s@.len(),
            strip_0x(s@) == strip_0x(s@.subrange(k as int, s@.len() as int)),
        decreases s@.len() - k,
    {
        let ghost t = s@.subrange(k as int, s@.len() as int);
        assert(t[0] == s@[k as int] && t[1] == s@[k + 1]);
        assert(t.subrange(2, t.len() as int) =~= s@.subrange(k + 2, s@.len() as int));
        k += 2;
    }
    proof {
        let t = s@.subrange(k as int, s@.len() as int);
        if t.len() >= 2 {
            assert(t[0] == s@[k as int] && t[1] == s@[k + 1]);
        }
    }
    k
}

/// The checksum form of the text of an address, as ASCII bytes.
pub fn checksum_text(address: &[u8]) -> (r: Vec<u8>)
    requires
        strip_0x(address@).len() <= 64,
    ensures
        r@ == checksum_bytes(address@),
{
    broadcast use vstd::array::group_array_axioms;

    let k = skip_0x(address);
    let mut body: Vec<u8> = Vec::new();
    let mut i: usize = k;
    while i < address.len()
        invariant
            k <= i <= address@.len(),
            body@ == to_lower(address@.subrange(k as int, i as int)),
        decreases address@.len() - i,
    {
        let c: u8 = address[i];
        let l: u8 = if 65 <= c && c <= 90 {
            c + 32
        } else {
            c
        };
        body.push(l);
        assert(body@ =~= to_lower(address@.subrange(k as int, i + 1)));
        i += 1;
    }
    let hash = Hasher::digest(body.as_slice());
    let mut out: Vec<u8> = Vec::new();
    out.push(48u8);
    out.push(120u8);
    let ghost want = checksum_bytes(address@);
    let mut j: usize = 0;
    while j < body.len()
        invariant
            j <= body@.len(),
            body@.len() <= 64,
            body@ == to_lower(strip_0x(address@)),
            hash@ == spec_digest(body@),
            want == checksum_bytes(address@),
            out@.len() == j + 2,
            forall|t: int| 0 <= t < j + 2 ==> out@[t] == want[t],
        decreases body@.len() - j,
    {
        let hb: u8 = hash.bytes[j / 2];
        let n: u8 = if j % 2 == 0 {
            hb / 16
        } else {
            hb % 16
        };
        let c: u8 = body[j];
        let o: u8 = if n > 7 {
            if 97 <= c && c <= 122 {
                c - 32
            } else {
                c
            }
        } else {
            c
        };
        assert(want[j + 2] == o);
        out.push(o);
        j += 1;
    }
    assert(out@ =~= want);
    out
}

/// The checksum form of the text of an address: `0x`, and then its hex
/// digits, with upper and lower case as the digest of the lower-case
/// digits has it.
///
/// The text is handled byte by byte, and only the letters of ASCII
/// change their case. Text that is not ASCII comes out as the text that
/// the bytes are then, and empty where they are none.
pub fn checksum(address: &str) -> (r: String)
    requires
        strip_0x(address.spec_bytes()).len() <= 64,
    ensures
        vstd::string::is_ascii(address) ==> r@ == ascii_chars(
            checksum_bytes(address.spec_bytes()),
        ),
        !vstd::string::is_ascii(address) ==> r@ == text_of(checksum_bytes(address.spec_bytes())),
{
    broadcast use vstd::string::is_ascii_spec_bytes;

    let bytes = checksum_text(address.as_bytes());
    if address.is_ascii() {
        proof {
            assert(all_ascii(address.spec_bytes())) by {
                assert forall|i: int| 0 <= i < address.spec_bytes().len() implies #[trigger] address.spec_bytes()[i]
                    < 128 by {
                    assert(address.spec_bytes()[i] == address@[i] as u8);
                    assert('\0' <= address@[i] <= '\u{7f}');
                }
            }
            lemma_checksum_ascii(address.spec_bytes());
        }
        ascii_string(bytes.as_slice())
    } else {
        match String::from_utf8(bytes) {
            Ok(s) => s,
            Err(_) => String::new(),
        }
    }
}

/// Text without the `0x` that it starts with is a part of the text.
pub proof fn lemma_strip_0x(s: Seq<u8>)
    ensures
        strip_0x(s).len() <= s.len(),
        strip_0x(s) == s.subrange(s.len() - strip_0x(s).len(), s.len() as int),
        !starts_0x(strip_0x(s)),
    decreases s.len(),
{
    if starts_0x(s) {
        let t = s.subrange(2, s.len() as int);
        lemma_strip_0x(t);
        assert(strip_0x(s) =~= s.subrange(s.len() - strip_0x(s).len(), s.len() as int));
    } else {
        assert(s =~= s.subrange(0, s.len() as int));
    }
}

/// The checksum form of ASCII text is ASCII text.
pub proof fn lemma_checksum_ascii(s: Seq<u8>)
    requires
        all_ascii(s),
    ensures
        all_ascii(checksum_bytes(s)),
{
    lemma_strip_0x(s);
    let body = to_lower(strip_0x(s));
    let c = checksum_bytes(s);
    assert forall|i: int| 0 <= i < c.len() implies #[trigger] c[i] < 128 by {
        if i >= 2 {
            let k = i - 2;
            let off = s.len() - strip_0x(s).len();
            assert(strip_0x(s)[k] == s[off + k]);
            assert(body[k] == lower(strip_0x(s)[k]));
        }
    }
}

/// The address of an account.
#[derive(Clone, Copy, Debug, PartialEq, Eq, PartialOrd, Ord, Hash)]
pub struct Address(pub H160);

/// Text behind the `0x` or `0X` that it must start with.
pub open spec fn spec_clean_0x(s: Seq<u8>) -> Result<Seq<u8>, TypesError> {
    if s.len() >= 2 && s[0] == 48 && (s[1] == 120 || s[1] == 88) {
        Ok(s.subrange(2, s.len() as int))
    } else {
        Err(TypesError::HexPrefix)
    }
}

/// The address that 20 bytes are.
pub open spec fn spec_address_from_bytes(b: Seq<u8>) -> Result<Address, TypesError> {
    if b.len() != 20 {
        Err(TypesError::LengthMismatch { expect: 20, real: b.len() as usize })
    } else {
        Ok(Address(H160::spec_of(b)))
    }
}

/// The address that hex text behind `0x` spells.
pub open spec fn spec_address_from_hex(s: Seq<u8>) -> Result<Address, TypesError> {
    match spec_clean_0x(s) {
        Err(e) => Err(e),
        Ok(rest) => match spec_hex_decode(rest) {
            Err(e) => Err(e),
            Ok(b) => spec_address_from_bytes(b),
        },
    }
}

/// The address that text in checksum form spells.
pub open spec fn spec_address_from_str(s: Seq<u8>) -> Result<Address, TypesError> {
    if checksum_bytes(s) != s {
        Err(TypesError::InvalidCheckSum)
    } else {
        spec_address_from_hex(to_lower(s))
    }
}

/// The checksum form of an address.
pub open spec fn spec_eip55(a: Address) -> Seq<u8> {
    checksum_bytes(spec_hex(a.0@))
}

/// Reading the checksum form of an address gives the address.
pub proof fn lemma_eip55_round_trip(a: Address)
    ensures
        spec_address_from_str(spec_eip55(a)) == Ok::<Address, TypesError>(a),
{
    broadcast use vstd::array::group_array_axioms;

    let h = spec_hex(a.0@);
    lemma_unhex_hex(a.0@);
    assert(h.len() == 40);
    assert(strip_0x(h) == h);
    assert forall|i: int| 0 <= i < h.len() implies (48 <= #[trigger] h[i] <= 57) || (97 <= h[i]
        <= 102) by {
        assert(nibble(a.0@, i) < 16);
    }
    assert(to_lower(h) =~= h);
    let d = spec_digest(h);
    let e = checksum_bytes(h);
    let m = e.subrange(2, e.len() as int);
    assert(m.len() == 40);
    assert forall|i: int| 0 <= i < 40 implies (#[trigger] m[i] == h[i] || m[i] == upper(h[i])) by {
        assert(m[i] == e[i + 2]);
    }
    assert(!starts_0x(m)) by {
        assert(m[1] == h[1] || m[1] == upper(h[1]));
    }
    assert(starts_0x(e));
    assert(strip_0x(e) == strip_0x(m));
    assert(strip_0x(m) == m);
    assert(to_lower(m) =~= h) by {
        assert forall|i: int| 0 <= i < 40 implies lower(m[i]) == h[i] by {
            assert(m[i] == h[i] || m[i] == upper(h[i]));
        }
    }
    assert(checksum_bytes(e) =~= e);
    let le = to_lower(e);
    assert(le =~= seq![48u8, 120u8] + h) by {
        assert forall|i: int| 0 <= i < le.len() implies le[i] == (seq![48u8, 120u8] + h)[i] by {
            if i >= 2 {
                assert(e[i] == m[i - 2]);
                assert(lower(m[i - 2]) == to_lower(m)[i - 2]);
            }
        }
    }
    assert(le.subrange(2, le.len() as int) =~= h);
    H160::lemma_spec_of(a.0@);
}

impl Default for Address {
    /// The address of twenty zero bytes.
    fn default() -> (a: Address)
        ensures
            a.0@ == Seq::new(20, |i: int| 0u8),
    {
        Address(H160::zero())
    }
}

impl Address {
    /// The address in the last 20 bytes of a hash.
    pub fn from_hash(hash: H256) -> (a: Self)
        ensures
            a.0@ == hash@.subrange(12, 32),
    {
        Address(hash.low_address())
    }

    /// The address that exactly 20 bytes are.
    pub fn from_bytes(bytes: &[u8]) -> (r: Result<Self, TypesError>)
        ensures
            r == spec_address_from_bytes(bytes@),
    {
        if bytes.len() != ADDRESS_LEN {
            return Err(TypesError::LengthMismatch { expect: ADDRESS_LEN, real: bytes.len() });
        }
        let a = H160::from_slice(bytes);
        proof {
            H160::lemma_spec_of(a@);
        }
        Ok(Address(a))
    }

    /// The bytes of the address.
    pub fn as_slice(&self) -> (r: &[u8])
        ensures
            r@ == self.0@,
    {
        self.0.bytes.as_slice()
    }

    /// The address that the bytes of hex text behind `0x` or `0X` spell.
    pub fn from_hex_bytes(s: &[u8]) -> (r: Result<Self, TypesError>)
        ensures
            r == spec_address_from_hex(s@),
    {
        if !(s.len() >= 2 && s[0] == 48 && (s[1] == 120 || s[1] == 88)) {
            return Err(TypesError::HexPrefix);
        }
        let rest = slice_subrange(s, 2, s.len());
        match hex_decode_bytes(rest) {
            Err(e) => Err(e),
            Ok(b) => Self::from_bytes(b.as_slice()),
        }
    }

    /// The address that hex text behind `0x` or `0X` spells: 40 hex digits.
    pub fn from_hex(s: &str) -> (r: Result<Self, TypesError>)
        ensures
            r == spec_address_from_hex(s.spec_bytes()),
    {
        Self::from_hex_bytes(s.as_bytes())
    }

    /// The checksum form of the address.
    pub fn eip55(&self) -> (r: String)
        ensures
            r@ == ascii_chars(spec_eip55(*self)),
    {
        broadcast use vstd::array::group_array_axioms;

        proof {
            lemma_unhex_hex(self.0@);
            lemma_checksum_ascii(spec_hex(self.0@));
            assert(strip_0x(spec_hex(self.0@)) == spec_hex(self.0@));
        }
        let hex = hex_encode(self.0.bytes.as_slice());
        let text = hex.as_str();
        proof {
            lemma_ascii_bytes(text, spec_hex(self.0@));
        }
        let sum = checksum_text(text.as_bytes());
        ascii_string(sum.as_slice())
    }

    /// The address as text: its checksum form.
    pub fn to_string(&self) -> (r: String)
        ensures
            r@ == ascii_chars(spec_eip55(*self)),
    {
        self.eip55()
    }

    /// The address that text in checksum form spells. Fails where the
    /// case of the letters is not that of the checksum form.
    pub fn from_str(s: &str) -> (r: Result<Self, TypesError>)
        requires
            strip_0x(s.spec_bytes()).len() <= 64,
        ensures
            r == spec_address_from_str(s.spec_bytes()),
    {
        let bytes = s.as_bytes();
        let sum = checksum_text(bytes);
        if !crate::types::hash::bytes_eq(sum.as_slice(), bytes) {
            return Err(TypesError::InvalidCheckSum);
        }
        let mut low: Vec<u8> = Vec::new();
        let mut i: usize = 0;
        while i < bytes.len()
            invariant
                i <= bytes@.len(),
                low@ == to_lower(bytes@.subrange(0, i as int)),
            decreases bytes@.len() - i,
        {
            let c: u8 = bytes[i];
            let l: u8 = if 65 <= c && c <= 90 {
                c + 32
            } else {
                c
            };
            low.push(l);
            assert(low@ =~= to_lower(bytes@.subrange(0, i + 1)));
            i += 1;
        }
        assert(bytes@.subrange(0, bytes@.len() as int) =~= bytes@);
        Self::from_hex_bytes(low.as_slice())
    }
}

/// A string that spells ASCII bytes has these bytes.
pub proof fn lemma_ascii_bytes(s: &str, b: Seq<u8>)
    requires
        all_ascii(b),
        s@ == ascii_chars(b),
    ensures
        s.spec_bytes() == b,
{
    broadcast use vstd::string::is_ascii_spec_bytes;

    assert(vstd::string::is_ascii(s)) by {
        assert forall|i: int| 0 <= i < s@.len() implies '\0' <= #[trigger] s@[i] <= '\u{7f}' by {
            assert(s@[i] == b[i] as char);
            assert(b[i] < 128);
        }
    }
    assert(s.spec_bytes() =~= b) by {
        assert forall|i: int| 0 <= i < b.len() implies s.spec_bytes()[i] == b[i] by {
            assert(s@[i] == b[i] as char);
            assert(b[i] < 128);
        }
    }
}

/// Hex text behind `0x` or `0X`, as it was given.
#[derive(Clone, Debug, PartialEq, Eq, PartialOrd, Ord)]
pub struct Hex {
    text: String,
}

/// Whether text starts with `0x` or `0X`.
pub open spec fn is_prefixed(s: Seq<u8>) -> bool {
    s.len() >= 2 && s[0] == 48 && (s[1] == 120 || s[1] == 88)
}

/// The bytes that hex text spells, behind `0x` or `0X` or without it.
pub open spec fn spec_hex_from_string(s: Seq<u8>) -> Result<Seq<u8>, TypesError> {
    let body = if is_prefixed(s) {
        s.subrange(2, s.len() as int)
    } else {
        s
    };
    spec_hex_decode(body)
}

/// Hex text with its prefix: the text itself where it has one, and with
/// `0x` in front where it has none.
pub open spec fn spec_hex_text(s: Seq<u8>) -> Seq<u8> {
    if is_prefixed(s) {
        s
    } else {
        seq![48u8, 120u8] + s
    }
}

impl View for Hex {
    type V = Seq<u8>;

    /// The bytes that the text spells: none where it spells none.
    closed spec fn view(&self) -> Seq<u8> {
        match spec_hex_from_string(vstd::utf8::encode_utf8(self.text@)) {
            Ok(b) => b,
            Err(_) => Seq::empty(),
        }
    }
}

/// Text that spells bytes in hex is ASCII text.
pub proof fn lemma_hex_text_ascii(s: Seq<u8>)
    requires
        spec_hex_decode(s) is Ok,
    ensures
        all_ascii(s),
{
    let body = if starts_0x(s) {
        s.subrange(2, s.len() as int)
    } else {
        s
    };
    assert forall|i: int| 0 <= i < s.len() implies #[trigger] s[i] < 128 by {
        if starts_0x(s) {
            if i >= 2 {
                assert(digit_value(body[i - 2]) is Some);
            }
        } else {
            assert(digit_value(body[i]) is Some);
        }
    }
}

impl Default for Hex {
    /// The text of eight zero bytes: `0x0000000000000000`.
    fn default() -> (h: Hex)
        ensures
            h@ == Seq::new(8, |i: int| 0u8),
            h.spec_text() == ascii_chars(seq![48u8, 120u8] + Seq::new(16, |i: int| 48u8)),
    {
        let mut text: Vec<u8> = Vec::new();
        text.push(48u8);
        text.push(120u8);
        let mut i: usize = 0;
        while i < 16
            invariant
                i <= 16,
                text@ == seq![48u8, 120u8] + Seq::new(i as nat, |j: int| 48u8),
            decreases 16 - i,
        {
            text.push(48u8);
            assert(text@ =~= seq![48u8, 120u8] + Seq::new((i + 1) as nat, |j: int| 48u8));
            i += 1;
        }
        proof {
            let body = text@.subrange(2, text@.len() as int);
            assert(body =~= Seq::new(16, |j: int| 48u8));
            assert(!starts_0x(body));
            assert(all_hex(body));
            assert(spec_unhex(body) =~= Seq::new(8, |j: int| 0u8));
        }
        Hex::of_text(text)
    }
}

impl Hex {
    /// The text as it was given, with its prefix.
    pub closed spec fn spec_text(&self) -> Seq<char> {
        self.text@
    }

    /// The hex text that ASCII bytes with a prefix are.
    fn of_text(text: Vec<u8>) -> (h: Hex)
        requires
            all_ascii(text@),
        ensures
            h.spec_text() == ascii_chars(text@),
            h@ == (match spec_hex_from_string(text@) {
                Ok(b) => b,
                Err(_) => Seq::empty(),
            }),
    {
        let s = ascii_string(text.as_slice());
        let shown = s.as_str();
        proof {
            lemma_ascii_bytes(shown, text@);
        }
        Hex { text: s }
    }

    /// The text of no bytes: `0x`.
    pub fn empty() -> (h: Hex)
        ensures
            h@ == Seq::<u8>::empty(),
            h.spec_text() == ascii_chars(seq![48u8, 120u8]),
    {
        let mut text: Vec<u8> = Vec::new();
        text.push(48u8);
        text.push(120u8);
        proof {
            let body = text@.subrange(2, text@.len() as int);
            assert(body =~= Seq::<u8>::empty());
            assert(spec_unhex(body) =~= Seq::<u8>::empty());
            assert(text@ =~= seq![48u8, 120u8]);
        }
        Hex::of_text(text)
    }

    /// Whether there are no bytes: the text has two bytes, its prefix.
    pub fn is_empty(&self) -> (r: bool)
        ensures
            r == (vstd::utf8::encode_utf8(self.spec_text()).len() == 2),
    {
        self.text.as_str().as_bytes().len() == 2
    }

    /// The text of the given bytes: `0x` and two lower-case digits a byte.
    pub fn encode(src: &[u8]) -> (h: Hex)
        requires
            src@.len() <= 0x3fff_ffff,
        ensures
            h@ == src@,
            h.spec_text() == ascii_chars(seq![48u8, 120u8] + spec_hex(src@)),
    {
        let mut text: Vec<u8> = Vec::new();
        text.push(48u8);
        text.push(120u8);
        let hex = hex_encode(src);
        let digits = hex.as_str();
        proof {
            lemma_unhex_hex(src@);
            lemma_ascii_bytes(digits, spec_hex(src@));
        }
        crate::codec::rlp::push_all(&mut text, digits.as_bytes());
        proof {
            assert(text@ =~= seq![48u8, 120u8] + spec_hex(src@));
            assert(text@.subrange(2, text@.len() as int) =~= spec_hex(src@));
        }
        Hex::of_text(text)
    }

    /// The bytes that a hex string spells, behind `0x` or `0X` or without it.
    pub fn decode(s: String) -> (r: Result<Vec<u8>, TypesError>)
        ensures
            match spec_hex_from_string(vstd::utf8::encode_utf8(s@)) {
                Ok(b) => r matches Ok(v) && v@ == b,
                Err(e) => r == Err::<Vec<u8>, TypesError>(e),
            },
    {
        let b = s.as_str().as_bytes();
        let body = if b.len() >= 2 && b[0] == 48 && (b[1] == 120 || b[1] == 88) {
            slice_subrange(b, 2, b.len())
        } else {
            b
        };
        hex_decode_bytes(body)
    }

    /// The hex text that a string holds, behind `0x` or `0X` or without
    /// it; the text is kept as it is, with `0x` in front where it has no
    /// prefix. Fails for an odd number of digits and for anything that is
    /// no hex digit.
    pub fn from_string(s: String) -> (r: Result<Hex, TypesError>)
        ensures
            match spec_hex_from_string(vstd::utf8::encode_utf8(s@)) {
                Ok(b) => r matches Ok(h) && h@ == b && h.spec_text() == ascii_chars(
                    spec_hex_text(vstd::utf8::encode_utf8(s@)),
                ),
                Err(e) => r == Err::<Hex, TypesError>(e),
            },
    {
        let b = s.as_str().as_bytes();
        let prefixed = b.len() >= 2 && b[0] == 48 && (b[1] == 120 || b[1] == 88);
        let mut text: Vec<u8> = Vec::new();
        if !prefixed {
            text.push(48u8);
            text.push(120u8);
        }
        crate::codec::rlp::push_all(&mut text, b);
        assert(text@ =~= spec_hex_text(b@));
        let body = slice_subrange(text.as_slice(), 2, text.len());
        proof {
            if prefixed {
                assert(body@ =~= b@.subrange(2, b@.len() as int));
            } else {
                assert(body@ =~= b@);
            }
        }
        match hex_decode_bytes(body) {
            Ok(_) => {
                proof {
                    lemma_hex_text_ascii(body@);
                    assert(all_ascii(text@)) by {
                        assert forall|i: int| 0 <= i < text@.len() implies #[trigger] text@[i]
                            < 128 by {
                            if i >= 2 {
                                assert(text@[i] == body@[i - 2]);
                            }
                        }
                    }
                }
                Ok(Hex::of_text(text))
            },
            Err(e) => Err(e),
        }
    }

    /// The text as it was given, with its prefix.
    pub fn as_string(&self) -> (r: String)
        ensures
            r@ == self.spec_text(),
    {
        self.text.clone()
    }

    /// The text as it was given, without the two characters of its prefix.
    pub fn as_string_trim0x(&self) -> (r: String)
        ensures
            r@ == (if self.spec_text().len() >= 2 {
                self.spec_text().subrange(2, self.spec_text().len() as int)
            } else {
                Seq::empty()
            }),
    {
        let t = self.text.as_str();
        let n = t.unicode_len();
        if n < 2 {
            String::new()
        } else {
            t.substring_char(2, n).to_owned()
        }
    }

    /// The bytes that the text spells.
    pub fn as_bytes(&self) -> (r: Vec<u8>)
        ensures
            r@ == self@,
    {
        match Self::decode(self.text.clone()) {
            Ok(v) => v,
            Err(_) => Vec::new(),
        }
    }
}

} // verus!
