//! The fields that records are made of: scalars, fixed-width strings, byte strings.
//!
//! Each reader takes a buffer and a position and returns the value with the
//! position behind it.

use crate::codec::rlp::{
    lemma_next_of_list, lemma_next_of_str, next_item, push_str, rlp_list, rlp_str, spec_next,
};
use crate::types::hash::{H160, H256};
use crate::types::uint::{
    lemma_u64_scalar, u64_from_scalar, u64_of_scalar_bytes, u64_scalar_bytes,
    u64_to_scalar_bytes, U256,
};
use vstd::prelude::*;
use vstd::slice::slice_subrange;

verus! {

/// What of a buffer lies at and behind a position.
pub open spec fn tail(buf: Seq<u8>, pos: int) -> Seq<u8> {
    buf.subrange(pos, buf.len() as int)
}

/// The tail of a tail.
pub proof fn lemma_tail_tail(buf: Seq<u8>, a: int, b: int)
    requires
        0 <= a <= b <= buf.len(),
    ensures
        tail(tail(buf, a), b - a) == tail(buf, b),
        tail(buf, 0) == buf,
{
    assert(tail(tail(buf, a), b - a) =~= tail(buf, b));
    assert(tail(buf, 0) =~= buf);
}

/// How the result of a reader stands to what it is to give.
pub open spec fn reads<T>(
    buf: Seq<u8>,
    pos: usize,
    expect: Option<(T, Seq<u8>)>,
    got: Option<(T, usize)>,
) -> bool {
    match expect {
        None => got is None,
        Some((v, rest)) => {
            &&& got matches Some((gv, np))
            &&& gv == v
            &&& pos <= np <= buf.len()
            &&& tail(buf, np as int) == rest
        },
    }
}

/// The wire form of a number of 256 bits: that of its bytes without leading zeros.
#[verifier::opaque]
pub open spec fn enc_u256(u: U256) -> Seq<u8> {
    rlp_str(u.scalar_bytes())
}

/// The wire form of a number of 64 bits: that of its bytes without leading zeros.
#[verifier::opaque]
pub open spec fn enc_u64(x: u64) -> Seq<u8> {
    rlp_str(u64_scalar_bytes(x))
}

/// The wire form of a hash: that of its 32 bytes.
#[verifier::opaque]
pub open spec fn enc_h256(h: H256) -> Seq<u8> {
    rlp_str(h@)
}

/// The wire form of an address: that of its 20 bytes.
#[verifier::opaque]
pub open spec fn enc_h160(a: H160) -> Seq<u8> {
    rlp_str(a@)
}

/// The wire form of a byte string.
#[verifier::opaque]
pub open spec fn enc_bytes(b: Seq<u8>) -> Seq<u8> {
    rlp_str(b)
}

/// A 256-bit scalar: a string of at most 32 bytes without a leading zero.
#[verifier::opaque]
pub open spec fn dec_u256(s: Seq<u8>) -> Option<(U256, Seq<u8>)> {
    match spec_next(s) {
        Some((false, p, rest)) => if p.len() <= 32 && (p.len() == 0 || p[0] != 0) {
            Some((U256::spec_from_scalar(p), rest))
        } else {
            None
        },
        _ => None,
    }
}

/// A 64-bit scalar: a string of at most eight bytes without a leading zero.
#[verifier::opaque]
pub open spec fn dec_u64(s: Seq<u8>) -> Option<(u64, Seq<u8>)> {
    match spec_next(s) {
        Some((false, p, rest)) => if p.len() <= 8 && (p.len() == 0 || p[0] != 0) {
            Some((u64_from_scalar(p), rest))
        } else {
            None
        },
        _ => None,
    }
}

/// A string of exactly `n` bytes.
#[verifier::opaque]
pub open spec fn dec_fixed(s: Seq<u8>, n: nat) -> Option<(Seq<u8>, Seq<u8>)> {
    match spec_next(s) {
        Some((false, p, rest)) => if p.len() == n {
            Some((p, rest))
        } else {
            None
        },
        _ => None,
    }
}

/// A byte string of any length.
#[verifier::opaque]
pub open spec fn dec_bytes(s: Seq<u8>) -> Option<(Seq<u8>, Seq<u8>)> {
    match spec_next(s) {
        Some((false, p, rest)) => Some((p, rest)),
        _ => None,
    }
}

/// A list: its payload.
#[verifier::opaque]
pub open spec fn dec_list(s: Seq<u8>) -> Option<(Seq<u8>, Seq<u8>)> {
    match spec_next(s) {
        Some((true, p, rest)) => Some((p, rest)),
        _ => None,
    }
}

/// Reading the wire form of a number of 256 bits gives the number.
pub proof fn lemma_dec_enc_u256(u: U256, rest: Seq<u8>)
    ensures
        dec_u256(enc_u256(u) + rest) == Some((u, rest)),
        1 <= enc_u256(u).len() <= 41,
{
    reveal(enc_u256);
    reveal(dec_u256);
    U256::lemma_be_value(u);
    lemma_next_of_str(u.scalar_bytes(), rest);
}

/// Reading the wire form of a number of 64 bits gives the number.
pub proof fn lemma_dec_enc_u64(x: u64, rest: Seq<u8>)
    ensures
        dec_u64(enc_u64(x) + rest) == Some((x, rest)),
        1 <= enc_u64(x).len() <= 17,
{
    reveal(enc_u64);
    reveal(dec_u64);
    lemma_u64_scalar(x);
    lemma_next_of_str(u64_scalar_bytes(x), rest);
}

/// Reading the wire form of a byte string as one of its length, or of any, gives the string.
pub proof fn lemma_dec_enc_fixed(b: Seq<u8>, rest: Seq<u8>)
    requires
        b.len() <= u64::MAX,
    ensures
        dec_fixed(rlp_str(b) + rest, b.len()) == Some((b, rest)),
        dec_bytes(rlp_str(b) + rest) == Some((b, rest)),
        1 <= rlp_str(b).len() <= b.len() + 9,
{
    reveal(dec_fixed);
    reveal(dec_bytes);
    lemma_next_of_str(b, rest);
}

/// Reading the wire form of a hash gives its bytes.
pub proof fn lemma_dec_enc_h256(h: H256, rest: Seq<u8>)
    ensures
        dec_fixed(enc_h256(h) + rest, 32) == Some((h@, rest)),
        enc_h256(h).len() == 33,
{
    reveal(enc_h256);
    reveal(dec_fixed);
    lemma_next_of_str(h@, rest);
}

/// Reading the wire form of an address gives its bytes.
pub proof fn lemma_dec_enc_h160(a: H160, rest: Seq<u8>)
    ensures
        dec_fixed(enc_h160(a) + rest, 20) == Some((a@, rest)),
        enc_h160(a).len() == 21,
{
    reveal(enc_h160);
    reveal(dec_fixed);
    lemma_next_of_str(a@, rest);
}

/// Reading the wire form of a byte string gives the string.
pub proof fn lemma_dec_enc_bytes(b: Seq<u8>, rest: Seq<u8>)
    requires
        b.len() <= u64::MAX,
    ensures
        dec_bytes(enc_bytes(b) + rest) == Some((b, rest)),
        1 <= enc_bytes(b).len() <= b.len() + 9,
{
    reveal(enc_bytes);
    reveal(dec_bytes);
    lemma_next_of_str(b, rest);
}

/// Reading the wire form of a list gives its payload.
pub proof fn lemma_dec_list(payload: Seq<u8>, rest: Seq<u8>)
    requires
        payload.len() <= u64::MAX,
    ensures
        dec_list(rlp_list(payload) + rest) == Some((payload, rest)),
        1 <= rlp_list(payload).len() <= payload.len() + 9,
{
    reveal(dec_list);
    lemma_next_of_list(payload, rest);
}

/// Appends the encoding of a byte string of any length.
pub fn push_bytes(out: &mut Vec<u8>, b: &[u8])
    ensures
        final(out)@ == old(out)@ + enc_bytes(b@),
{
    proof {
        reveal(enc_bytes);
    }
    push_str(out, b);
}

/// Appends the wire form of a number of 256 bits.
pub fn push_u256(out: &mut Vec<u8>, u: &U256)
    ensures
        final(out)@ == old(out)@ + enc_u256(*u),
{
    proof {
        reveal(enc_u256);
    }
    let b = u.to_scalar_bytes();
    push_str(out, b.as_slice());
}

/// Appends the wire form of a number of 64 bits.
pub fn push_u64(out: &mut Vec<u8>, x: u64)
    ensures
        final(out)@ == old(out)@ + enc_u64(x),
{
    proof {
        reveal(enc_u64);
    }
    let b = u64_to_scalar_bytes(x);
    push_str(out, b.as_slice());
}

/// Appends the wire form of a hash.
pub fn push_h256(out: &mut Vec<u8>, h: &H256)
    ensures
        final(out)@ == old(out)@ + enc_h256(*h),
{
    proof {
        reveal(enc_h256);
    }
    push_str(out, h.bytes.as_slice());
}

/// Appends the wire form of an address.
pub fn push_h160(out: &mut Vec<u8>, a: &H160)
    ensures
        final(out)@ == old(out)@ + enc_h160(*a),
{
    proof {
        reveal(enc_h160);
    }
    push_str(out, a.bytes.as_slice());
}

/// Reads a number of 256 bits: the number, and the position behind it.
pub fn read_u256(buf: &[u8], pos: usize) -> (r: Option<(U256, usize)>)
    requires
        pos <= buf@.len(),
    ensures
        reads(buf@, pos, dec_u256(tail(buf@, pos as int)), r),
{
    proof {
        reveal(dec_u256);
    }
    match next_item(buf, pos) {
        None => None,
        Some(it) => {
            if it.is_list || it.end - it.start > 32 {
                return None;
            }
            let p = slice_subrange(buf, it.start, it.end);
            if p.len() > 0 && p[0] == 0 {
                return None;
            }
            Some((U256::from_scalar_bytes(p), it.end))
        },
    }
}

/// Reads a number of 64 bits: the number, and the position behind it.
pub fn read_u64(buf: &[u8], pos: usize) -> (r: Option<(u64, usize)>)
    requires
        pos <= buf@.len(),
    ensures
        reads(buf@, pos, dec_u64(tail(buf@, pos as int)), r),
{
    proof {
        reveal(dec_u64);
    }
    match next_item(buf, pos) {
        None => None,
        Some(it) => {
            if it.is_list || it.end - it.start > 8 {
                return None;
            }
            let p = slice_subrange(buf, it.start, it.end);
            if p.len() > 0 && p[0] == 0 {
                return None;
            }
            Some((u64_of_scalar_bytes(p), it.end))
        },
    }
}

/// Reads a string of exactly `n` bytes: where it lies, and the position behind it.
pub fn read_fixed(buf: &[u8], pos: usize, n: usize) -> (r: Option<(usize, usize)>)
    requires
        pos <= buf@.len(),
    ensures
        match dec_fixed(tail(buf@, pos as int), n as nat) {
            None => r is None,
            Some((p, rest)) => {
                &&& r matches Some((start, np))
                &&& pos <= start <= np <= buf@.len()
                &&& np - start == n
                &&& buf@.subrange(start as int, np as int) == p
                &&& tail(buf@, np as int) == rest
            },
        },
{
    proof {
        reveal(dec_fixed);
    }
    match next_item(buf, pos) {
        None => None,
        Some(it) => {
            if it.is_list || it.end - it.start != n {
                return None;
            }
            Some((it.start, it.end))
        },
    }
}

/// Reads a hash: the hash, and the position behind it.
pub fn read_h256(buf: &[u8], pos: usize) -> (r: Option<(H256, usize)>)
    requires
        pos <= buf@.len(),
    ensures
        match dec_fixed(tail(buf@, pos as int), 32) {
            None => r is None,
            Some((p, rest)) => {
                &&& r matches Some((h, np))
                &&& h@ == p
                &&& pos <= np <= buf@.len()
                &&& tail(buf@, np as int) == rest
            },
        },
{
    match read_fixed(buf, pos, 32) {
        None => None,
        Some((start, np)) => {
            let p = slice_subrange(buf, start, np);
            Some((H256::from_slice(p), np))
        },
    }
}

/// Reads an address: the address, and the position behind it.
pub fn read_h160(buf: &[u8], pos: usize) -> (r: Option<(H160, usize)>)
    requires
        pos <= buf@.len(),
    ensures
        match dec_fixed(tail(buf@, pos as int), 20) {
            None => r is None,
            Some((p, rest)) => {
                &&& r matches Some((h, np))
                &&& h@ == p
                &&& pos <= np <= buf@.len()
                &&& tail(buf@, np as int) == rest
            },
        },
{
    match read_fixed(buf, pos, 20) {
        None => None,
        Some((start, np)) => {
            let p = slice_subrange(buf, start, np);
            Some((H160::from_slice(p), np))
        },
    }
}

/// Reads a byte string of any length: where it lies, and the position behind it.
pub fn read_bytes(buf: &[u8], pos: usize) -> (r: Option<(usize, usize)>)
    requires
        pos <= buf@.len(),
    ensures
        match dec_bytes(tail(buf@, pos as int)) {
            None => r is None,
            Some((p, rest)) => {
                &&& r matches Some((start, np))
                &&& pos <= start <= np <= buf@.len()
                &&& buf@.subrange(start as int, np as int) == p
                &&& tail(buf@, np as int) == rest
            },
        },
{
    proof {
        reveal(dec_bytes);
    }
    match next_item(buf, pos) {
        None => None,
        Some(it) => {
            if it.is_list {
                return None;
            }
            Some((it.start, it.end))
        },
    }
}

/// Reads a list: where its payload lies, and the position behind it.
pub fn read_list(buf: &[u8], pos: usize) -> (r: Option<(usize, usize)>)
    requires
        pos <= buf@.len(),
    ensures
        match dec_list(tail(buf@, pos as int)) {
            None => r is None,
            Some((p, rest)) => {
                &&& r matches Some((start, np))
                &&& pos <= start <= np <= buf@.len()
                &&& buf@.subrange(start as int, np as int) == p
                &&& tail(buf@, np as int) == rest
            },
        },
{
    proof {
        reveal(dec_list);
    }
    match next_item(buf, pos) {
        None => None,
        Some(it) => {
            if !it.is_list {
                return None;
            }
            Some((it.start, it.end))
        },
    }
}

/// The encodings of the hashes of a list, one after another.
pub open spec fn enc_hashes(l: Seq<H256>) -> Seq<u8>
    decreases l.len(),
{
    if l.len() == 0 {
        Seq::empty()
    } else {
        enc_h256(l[0]) + enc_hashes(l.drop_first())
    }
}

/// The hashes that a byte string encodes one after another, if it does.
pub open spec fn dec_hashes(s: Seq<u8>) -> Option<Seq<H256>>
    decreases s.len(),
{
    if s.len() == 0 {
        Some(Seq::empty())
    } else {
        match dec_fixed(s, 32) {
            Some((h, rest)) => if rest.len() < s.len() {
                match dec_hashes(rest) {
                    Some(tail) => Some(seq![H256::spec_of(h)] + tail),
                    None => None,
                }
            } else {
                None
            },
            None => None,
        }
    }
}

/// Decoding the encodings of a list of hashes gives the list.
pub proof fn lemma_dec_enc_hashes(l: Seq<H256>)
    ensures
        dec_hashes(enc_hashes(l)) == Some(l),
        enc_hashes(l).len() == 33 * l.len(),
    decreases l.len(),
{
    if l.len() > 0 {
        let rest = enc_hashes(l.drop_first());
        lemma_dec_enc_hashes(l.drop_first());
        lemma_dec_enc_h256(l[0], rest);
        H256::lemma_spec_of(l[0]@);
        assert(seq![l[0]] + l.drop_first() =~= l);
    }
}

/// Appends the encoding of every hash of a list.
pub fn push_hashes(out: &mut Vec<u8>, l: &Vec<H256>)
    ensures
        final(out)@ == old(out)@ + enc_hashes(l@),
{
    let ghost before = out@;
    let mut i: usize = 0;
    assert(l@.subrange(0, l@.len() as int) =~= l@);
    assert(out@ + enc_hashes(l@) =~= before + enc_hashes(l@));
    while i < l.len()
        invariant
            i <= l@.len(),
            out@ + enc_hashes(l@.subrange(i as int, l@.len() as int)) == before + enc_hashes(l@),
        decreases l@.len() - i,
    {
        let ghost t = l@.subrange(i as int, l@.len() as int);
        assert(t.drop_first() =~= l@.subrange(i + 1, l@.len() as int));
        assert(t[0] == l@[i as int]);
        let ghost mid = out@;
        push_h256(out, &l[i]);
        assert(out@ + enc_hashes(t.drop_first()) =~= mid + enc_hashes(t));
        i += 1;
    }
    assert(l@.subrange(l@.len() as int, l@.len() as int) =~= Seq::<H256>::empty());
    assert(out@ =~= out@ + enc_hashes(Seq::<H256>::empty()));
}

/// Reads the hashes that a buffer holds one after another, from a position to its end.
pub fn read_hashes(buf: &[u8]) -> (r: Option<Vec<H256>>)
    ensures
        match dec_hashes(buf@) {
            Some(l) => r matches Some(v) && v@ == l,
            None => r is None,
        },
{
    let mut out: Vec<H256> = Vec::new();
    let mut pos: usize = 0;
    proof {
        lemma_tail_tail(buf@, 0, 0);
    }
    while pos < buf.len()
        invariant
            pos <= buf@.len(),
            match dec_hashes(tail(buf@, pos as int)) {
                Some(l) => dec_hashes(buf@) == Some(out@ + l),
                None => dec_hashes(buf@) is None,
            },
        decreases buf@.len() - pos,
    {
        let ghost s = tail(buf@, pos as int);
        match read_h256(buf, pos) {
            None => {
                return None;
            },
            Some((h, np)) => {
                proof {
                    H256::lemma_spec_of(h@);
                    let rest = tail(buf@, np as int);
                    assert(rest.len() == buf@.len() - np);
                    if np == pos {
                        assert(dec_hashes(s) is None);
                    } else {
                        match dec_hashes(rest) {
                            Some(l) => {
                                assert((out@.push(h)) + l =~= out@ + (seq![h] + l));
                            },
                            None => {},
                        }
                    }
                }
                if np == pos {
                    return None;
                }
                out.push(h);
                pos = np;
            },
        }
    }
    proof {
        assert(tail(buf@, pos as int).len() == 0);
        assert(out@ + Seq::<H256>::empty() =~= out@);
    }
    Some(out)
}

} // verus!
