//! Recursive-length-prefix items: byte strings and lists of items.
//!
//! A byte string of one byte below 0x80 is its own encoding. Any other string
//! of fewer than 56 bytes follows one byte `0x80 + length`; a longer one
//! follows `0xb7 + k` and the `k` bytes of its length, most significant first,
//! without leading zero. A list is the concatenation of its items' encodings
//! behind a header of the same shape that starts at `0xc0` and `0xf7`.

use crate::types::uint::{
    lemma_u64_scalar, pad_zeros, u64_from_scalar, u64_of_scalar_bytes, u64_scalar_bytes,
    u64_to_scalar_bytes,
};
use vstd::prelude::*;
use vstd::slice::slice_subrange;

verus! {

/// The header of an item whose payload has `len` bytes.
pub open spec fn rlp_header(is_list: bool, len: nat) -> Seq<u8> {
    let base: nat = if is_list {
        0xc0
    } else {
        0x80
    };
    if len < 56 {
        seq![(base + len) as u8]
    } else {
        let lb = u64_scalar_bytes(len as u64);
        seq![(base + 55 + lb.len()) as u8] + lb
    }
}

/// The encoding of a byte string.
pub open spec fn rlp_str(b: Seq<u8>) -> Seq<u8> {
    if b.len() == 1 && b[0] < 0x80 {
        b
    } else {
        rlp_header(false, b.len()) + b
    }
}

/// The encoding of a list whose items' encodings, one after another, are `payload`.
pub open spec fn rlp_list(payload: Seq<u8>) -> Seq<u8> {
    rlp_header(true, payload.len()) + payload
}

/// The first item of `s`: whether it is a list, how many header bytes it has
/// and how many payload bytes. `None` where `s` does not start with a whole,
/// shortest-form item.
pub open spec fn spec_head(s: Seq<u8>) -> Option<(bool, nat, nat)> {
    if s.len() == 0 {
        None
    } else {
        let b = s[0];
        if b < 0x80 {
            Some((false, 0nat, 1nat))
        } else if b <= 0xb7 {
            let n = (b - 0x80) as nat;
            if 1 + n > s.len() {
                None
            } else if n == 1 && s[1] < 0x80 {
                None
            } else {
                Some((false, 1nat, n))
            }
        } else if b <= 0xbf {
            spec_long_head(s, false, (b - 0xb7) as nat)
        } else if b <= 0xf7 {
            let n = (b - 0xc0) as nat;
            if 1 + n > s.len() {
                None
            } else {
                Some((true, 1nat, n))
            }
        } else {
            spec_long_head(s, true, (b - 0xf7) as nat)
        }
    }
}

/// The head of an item whose length is spelled in the `ll` bytes behind the first.
pub open spec fn spec_long_head(s: Seq<u8>, is_list: bool, ll: nat) -> Option<(bool, nat, nat)> {
    if 1 + ll > s.len() {
        None
    } else {
        let lb = s.subrange(1, 1 + ll as int);
        let n = u64_from_scalar(lb) as nat;
        if lb[0] == 0 || n < 56 || 1 + ll + n > s.len() {
            None
        } else {
            Some((is_list, 1 + ll, n))
        }
    }
}

/// The first item of `s`: whether it is a list, its payload, and what follows it.
pub open spec fn spec_next(s: Seq<u8>) -> Option<(bool, Seq<u8>, Seq<u8>)> {
    match spec_head(s) {
        None => None,
        Some((is_list, h, n)) => Some(
            (is_list, s.subrange(h as int, (h + n) as int), s.subrange((h + n) as int, s.len() as int)),
        ),
    }
}

/// A non-zero word has a non-empty shortest form.
pub proof fn lemma_scalar_nonzero(x: u64)
    requires
        x != 0,
    ensures
        1 <= u64_scalar_bytes(x).len() <= 8,
        u64_scalar_bytes(x)[0] != 0,
{
    lemma_u64_scalar(x);
    if u64_scalar_bytes(x).len() == 0 {
        let z = pad_zeros(u64_scalar_bytes(x), 8);
        assert(z[0] == 0 && z[1] == 0 && z[2] == 0 && z[3] == 0 && z[4] == 0 && z[5] == 0 && z[6]
            == 0 && z[7] == 0);
        assert(((0u8 as u64) << 56) | ((0u8 as u64) << 48) | ((0u8 as u64) << 40) | ((0u8 as u64)
            << 32) | ((0u8 as u64) << 24) | ((0u8 as u64) << 16) | ((0u8 as u64) << 8) | (
        0u8 as u64) == 0u64) by (bit_vector);
    }
}

/// The header of a payload of `len` bytes, read back in front of that payload.
pub proof fn lemma_head_of_header(is_list: bool, payload: Seq<u8>, rest: Seq<u8>)
    requires
        payload.len() <= u64::MAX,
        is_list || !(payload.len() == 1 && payload[0] < 0x80),
    ensures
        1 <= rlp_header(is_list, payload.len()).len() <= 9,
        spec_head(rlp_header(is_list, payload.len()) + payload + rest) == Some(
            (is_list, rlp_header(is_list, payload.len()).len(), payload.len()),
        ),
{
    let len = payload.len();
    let hdr = rlp_header(is_list, len);
    let s = hdr + payload + rest;
    if len < 56 {
        assert(s[0] == hdr[0]);
        if !is_list && len == 1 {
            assert(s[1] == payload[0]);
        }
    } else {
        let lb = u64_scalar_bytes(len as u64);
        lemma_scalar_nonzero(len as u64);
        lemma_u64_scalar(len as u64);
        let ll = lb.len();
        assert(s[0] == hdr[0]);
        assert(s.subrange(1, 1 + ll as int) =~= lb);
    }
}

/// A string's encoding, read back in front of anything, gives the string and what followed.
pub proof fn lemma_next_of_str(b: Seq<u8>, rest: Seq<u8>)
    requires
        b.len() <= u64::MAX,
    ensures
        spec_next(rlp_str(b) + rest) == Some((false, b, rest)),
        1 <= rlp_str(b).len() <= b.len() + 9,
{
    let s = rlp_str(b) + rest;
    if b.len() == 1 && b[0] < 0x80 {
        assert(s[0] == b[0]);
        assert(s.subrange(0, 1) =~= b);
        assert(s.subrange(1, s.len() as int) =~= rest);
    } else {
        lemma_head_of_header(false, b, rest);
        let h = rlp_header(false, b.len()).len();
        assert(s =~= rlp_header(false, b.len()) + b + rest);
        assert(s.subrange(h as int, (h + b.len()) as int) =~= b);
        assert(s.subrange((h + b.len()) as int, s.len() as int) =~= rest);
    }
}

/// A list's encoding, read back in front of anything, gives its payload and what followed.
pub proof fn lemma_next_of_list(payload: Seq<u8>, rest: Seq<u8>)
    requires
        payload.len() <= u64::MAX,
    ensures
        spec_next(rlp_list(payload) + rest) == Some((true, payload, rest)),
        1 <= rlp_list(payload).len() <= payload.len() + 9,
{
    let s = rlp_list(payload) + rest;
    lemma_head_of_header(true, payload, rest);
    let h = rlp_header(true, payload.len()).len();
    assert(s =~= rlp_header(true, payload.len()) + payload + rest);
    assert(s.subrange(h as int, (h + payload.len()) as int) =~= payload);
    assert(s.subrange((h + payload.len()) as int, s.len() as int) =~= rest);
}

/// Appends every byte of `src`.
pub fn push_all(out: &mut Vec<u8>, src: &[u8])
    ensures
        final(out)@ == old(out)@ + src@,
{
    let ghost before = out@;
    let mut i: usize = 0;
    while i < src.len()
        invariant
            i <= src@.len(),
            out@ == before + src@.subrange(0, i as int),
        decreases src@.len() - i,
    {
        out.push(src[i]);
        assert(out@ =~= before + src@.subrange(0, i + 1));
        i += 1;
    }
    assert(src@.subrange(0, src@.len() as int) =~= src@);
}

/// Appends the header of an item whose payload has `len` bytes.
pub fn push_header(out: &mut Vec<u8>, is_list: bool, len: usize)
    ensures
        final(out)@ == old(out)@ + rlp_header(is_list, len as nat),
{
    let ghost before = out@;
    let base: u8 = if is_list {
        0xc0
    } else {
        0x80
    };
    if len < 56 {
        out.push(base + (len as u8));
        assert(out@ =~= before + rlp_header(is_list, len as nat));
    } else {
        let lb = u64_to_scalar_bytes(len as u64);
        proof {
            lemma_scalar_nonzero(len as u64);
        }
        out.push(base + 55 + (lb.len() as u8));
        push_all(out, lb.as_slice());
        assert(out@ =~= before + rlp_header(is_list, len as nat));
    }
}

/// Appends the encoding of the byte string `b`.
pub fn push_str(out: &mut Vec<u8>, b: &[u8])
    ensures
        final(out)@ == old(out)@ + rlp_str(b@),
{
    let ghost before = out@;
    if b.len() == 1 && b[0] < 0x80 {
        out.push(b[0]);
        assert(out@ =~= before + rlp_str(b@));
    } else {
        push_header(out, false, b.len());
        push_all(out, b);
        assert(out@ =~= before + rlp_str(b@));
    }
}

/// Appends the encoding of the list whose items' encodings are `payload`.
pub fn push_list(out: &mut Vec<u8>, payload: &[u8])
    ensures
        final(out)@ == old(out)@ + rlp_list(payload@),
{
    let ghost before = out@;
    push_header(out, true, payload.len());
    push_all(out, payload);
    assert(out@ =~= before + rlp_list(payload@));
}

/// Where an item's payload lies in the buffer it was read from.
#[derive(Clone, Copy, Debug, PartialEq, Eq, Structural)]
pub struct RlpItem {
    pub is_list: bool,
    pub start: usize,
    pub end: usize,
}

/// Reads the item that starts at `pos`.
///
/// Returns `None` exactly where no whole, shortest-form item starts there.
pub fn next_item(buf: &[u8], pos: usize) -> (r: Option<RlpItem>)
    requires
        pos <= buf@.len(),
    ensures
        match spec_next(buf@.subrange(pos as int, buf@.len() as int)) {
            None => r is None,
            Some((is_list, payload, rest)) => {
                &&& r matches Some(it)
                &&& it.is_list == is_list
                &&& pos <= it.start <= it.end <= buf@.len()
                &&& buf@.subrange(it.start as int, it.end as int) == payload
                &&& buf@.subrange(it.end as int, buf@.len() as int) == rest
            },
        },
{
    let ghost s = buf@.subrange(pos as int, buf@.len() as int);
    let total: usize = buf.len();
    if pos >= total {
        return None;
    }
    let b: u8 = buf[pos];
    assert(s[0] == b);
    let avail: usize = total - pos;
    if b < 0x80 {
        assert(s.subrange(0, 1) =~= buf@.subrange(pos as int, pos + 1));
        assert(s.subrange(1, s.len() as int) =~= buf@.subrange(pos + 1, buf@.len() as int));
        Some(RlpItem { is_list: false, start: pos, end: pos + 1 })
    } else if b <= 0xb7 {
        let n: usize = (b - 0x80) as usize;
        if 1 + n > avail {
            return None;
        }
        if n == 1 {
            assert(s[1] == buf@[pos + 1]);
            if buf[pos + 1] < 0x80 {
                return None;
            }
        }
        assert(s.subrange(1, 1 + n) =~= buf@.subrange(pos + 1, pos + 1 + n));
        assert(s.subrange(1 + n, s.len() as int) =~= buf@.subrange(pos + 1 + n, buf@.len() as int));
        Some(RlpItem { is_list: false, start: pos + 1, end: pos + 1 + n })
    } else if b <= 0xbf {
        long_item(buf, pos, false, (b - 0xb7) as usize)
    } else if b <= 0xf7 {
        let n: usize = (b - 0xc0) as usize;
        if 1 + n > avail {
            return None;
        }
        assert(s.subrange(1, 1 + n) =~= buf@.subrange(pos + 1, pos + 1 + n));
        assert(s.subrange(1 + n, s.len() as int) =~= buf@.subrange(pos + 1 + n, buf@.len() as int));
        Some(RlpItem { is_list: true, start: pos + 1, end: pos + 1 + n })
    } else {
        long_item(buf, pos, true, (b - 0xf7) as usize)
    }
}

/// Reads the item at `pos` whose length is spelled in the `ll` bytes behind its first.
fn long_item(buf: &[u8], pos: usize, is_list: bool, ll: usize) -> (r: Option<RlpItem>)
    requires
        pos < buf@.len(),
        1 <= ll <= 8,
    ensures
        match spec_long_head(buf@.subrange(pos as int, buf@.len() as int), is_list, ll as nat) {
            None => r is None,
            Some((l, h, n)) => {
                &&& r matches Some(it)
                &&& it.is_list == l
                &&& it.start == pos + h
                &&& it.end == pos + h + n
                &&& it.end <= buf@.len()
                &&& buf@.subrange(it.start as int, it.end as int) == buf@.subrange(
                    pos as int,
                    buf@.len() as int,
                ).subrange(h as int, (h + n) as int)
                &&& buf@.subrange(it.end as int, buf@.len() as int) == buf@.subrange(
                    pos as int,
                    buf@.len() as int,
                ).subrange((h + n) as int, buf@.len() - pos)
            },
        },
{
    let ghost s = buf@.subrange(pos as int, buf@.len() as int);
    let avail: usize = buf.len() - pos;
    if 1 + ll > avail {
        return None;
    }
    let lb = slice_subrange(buf, pos + 1, pos + 1 + ll);
    assert(lb@ =~= s.subrange(1, 1 + ll));
    if lb[0] == 0 {
        return None;
    }
    let n64: u64 = u64_of_scalar_bytes(lb);
    let room: usize = avail - 1 - ll;
    if n64 < 56 || n64 > room as u64 {
        return None;
    }
    let n: usize = n64 as usize;
    let start: usize = pos + 1 + ll;
    let end: usize = start + n;
    assert(buf@.subrange(start as int, end as int) =~= s.subrange(1 + ll, 1 + ll + n));
    assert(buf@.subrange(end as int, buf@.len() as int) =~= s.subrange(
        1 + ll + n,
        buf@.len() - pos,
    ));
    Some(RlpItem { is_list, start, end })
}

} // verus!
