//! The wire form of headers and blocks.
//!
//! A header is the list of its sixteen fields in their order. A hash that
//! may be absent is the empty list, or the list of the hash. A block is
//! the list of its header and of the list of its transaction hashes.

use crate::codec::field::{
    dec_bytes, dec_fixed, dec_hashes, dec_list, dec_u256, dec_u64, enc_bytes, enc_h160, enc_h256,
    enc_hashes, enc_u256, enc_u64, lemma_dec_enc_bytes, lemma_dec_enc_fixed, lemma_dec_enc_h160,
    lemma_dec_enc_h256,
    lemma_dec_enc_hashes, lemma_dec_enc_u256, lemma_dec_enc_u64, lemma_dec_list,
    lemma_tail_tail, push_bytes, push_h160, push_h256, push_hashes, push_u256, push_u64,
    read_bytes, read_fixed, read_h160, read_h256, read_hashes, read_list, read_u256, read_u64,
    reads, tail,
};
use crate::codec::rlp::{push_list, rlp_list};
use crate::types::block::{Block, BlockView, Header, HeaderView};
use crate::types::hash::{slice_to_vec, Bloom, H160, H256, H64};
use crate::types::uint::U256;
use vstd::prelude::*;
use vstd::slice::slice_subrange;

verus! {

/// Who made the block on which, and what it led to: the first six fields
/// of a header.
pub type HeaderRoots = (H256, H160, H256, H256, H256, Bloom);

/// Difficulty, timestamp, number, gas used and gas limit: the next five
/// fields of a header.
pub type HeaderCounts = (U256, u64, u64, U256, U256);

/// Extra data, mixed hash, nonce, base fee and chain id: the last five
/// fields of a header.
pub type HeaderTail = (Seq<u8>, Option<H256>, H64, U256, u64);

/// The wire form of the first six fields of a header.
pub open spec fn enc_roots(h: HeaderView) -> Seq<u8> {
    enc_h256(h.prev_hash) + enc_h160(h.proposer) + enc_h256(h.state_root) + enc_h256(
        h.transactions_root,
    ) + enc_h256(h.receipts_root) + enc_bytes(h.log_bloom@)
}

/// The wire form of the next five fields of a header.
pub open spec fn enc_counts(h: HeaderView) -> Seq<u8> {
    enc_u256(h.difficulty) + enc_u64(h.timestamp) + enc_u64(h.number) + enc_u256(h.gas_used)
        + enc_u256(h.gas_limit)
}

/// The wire form of a hash that may be absent: the list of the hash, or
/// the empty list.
pub open spec fn enc_mixed(m: Option<H256>) -> Seq<u8> {
    match m {
        None => rlp_list(Seq::empty()),
        Some(h) => rlp_list(enc_h256(h)),
    }
}

/// The wire form of the last five fields of a header.
pub open spec fn enc_tail(h: HeaderView) -> Seq<u8> {
    enc_bytes(h.extra_data) + enc_mixed(h.mixed_hash) + enc_bytes(h.nonce@) + enc_u256(
        h.base_fee_per_gas,
    ) + enc_u64(h.chain_id)
}

/// The fields of a header, one after another.
pub open spec fn header_payload(h: HeaderView) -> Seq<u8> {
    enc_roots(h) + enc_counts(h) + enc_tail(h)
}

/// The wire form of a header: the list of its fields.
pub open spec fn header_encoding(h: HeaderView) -> Seq<u8> {
    rlp_list(header_payload(h))
}

/// The wire form of a block: the list of its header and of the list of
/// its transaction hashes.
pub open spec fn block_encoding(b: BlockView) -> Seq<u8> {
    rlp_list(header_encoding(b.header) + rlp_list(enc_hashes(b.tx_hashes)))
}

/// The first six fields of a header at the start of a byte string, and
/// what follows them.
#[verifier::opaque]
pub open spec fn dec_roots(s: Seq<u8>) -> Option<(HeaderRoots, Seq<u8>)> {
    match dec_fixed(s, 32) {
        Some((a, s1)) => match dec_fixed(s1, 20) {
            Some((b, s2)) => match dec_fixed(s2, 32) {
                Some((c, s3)) => match dec_fixed(s3, 32) {
                    Some((d, s4)) => match dec_fixed(s4, 32) {
                        Some((e, s5)) => match dec_fixed(s5, 256) {
                            Some((f, s6)) => Some(
                                (
                                    (
                                        H256::spec_of(a),
                                        H160::spec_of(b),
                                        H256::spec_of(c),
                                        H256::spec_of(d),
                                        H256::spec_of(e),
                                        Bloom::spec_of(f),
                                    ),
                                    s6,
                                ),
                            ),
                            None => None,
                        },
                        None => None,
                    },
                    None => None,
                },
                None => None,
            },
            None => None,
        },
        None => None,
    }
}

/// The next five fields of a header at the start of a byte string, and
/// what follows them.
#[verifier::opaque]
pub open spec fn dec_counts(s: Seq<u8>) -> Option<(HeaderCounts, Seq<u8>)> {
    match dec_u256(s) {
        Some((a, s1)) => match dec_u64(s1) {
            Some((b, s2)) => match dec_u64(s2) {
                Some((c, s3)) => match dec_u256(s3) {
                    Some((d, s4)) => match dec_u256(s4) {
                        Some((e, s5)) => Some(((a, b, c, d, e), s5)),
                        None => None,
                    },
                    None => None,
                },
                None => None,
            },
            None => None,
        },
        None => None,
    }
}

/// A hash that may be absent at the start of a byte string, and what
/// follows it: a list of nothing or of exactly one hash.
#[verifier::opaque]
pub open spec fn dec_mixed(s: Seq<u8>) -> Option<(Option<H256>, Seq<u8>)> {
    match dec_list(s) {
        None => None,
        Some((p, rest)) => if p.len() == 0 {
            Some((None, rest))
        } else {
            match dec_fixed(p, 32) {
                Some((h, behind)) => if behind.len() == 0 {
                    Some((Some(H256::spec_of(h)), rest))
                } else {
                    None
                },
                None => None,
            }
        },
    }
}

/// The last five fields of a header at the start of a byte string, and
/// what follows them.
#[verifier::opaque]
pub open spec fn dec_tail(s: Seq<u8>) -> Option<(HeaderTail, Seq<u8>)> {
    match dec_bytes(s) {
        Some((a, s1)) => match dec_mixed(s1) {
            Some((b, s2)) => match dec_fixed(s2, 8) {
                Some((c, s3)) => match dec_u256(s3) {
                    Some((d, s4)) => match dec_u64(s4) {
                        Some((e, s5)) => Some(((a, b, H64::spec_of(c), d, e), s5)),
                        None => None,
                    },
                    None => None,
                },
                None => None,
            },
            None => None,
        },
        None => None,
    }
}

/// The header with the given fields.
pub open spec fn header_of(r: HeaderRoots, c: HeaderCounts, t: HeaderTail) -> HeaderView {
    HeaderView {
        prev_hash: r.0,
        proposer: r.1,
        state_root: r.2,
        transactions_root: r.3,
        receipts_root: r.4,
        log_bloom: r.5,
        difficulty: c.0,
        timestamp: c.1,
        number: c.2,
        gas_used: c.3,
        gas_limit: c.4,
        extra_data: t.0,
        mixed_hash: t.1,
        nonce: t.2,
        base_fee_per_gas: t.3,
        chain_id: t.4,
    }
}

/// The header whose fields a byte string holds one after another, with
/// nothing behind them.
pub open spec fn dec_header_payload(p: Seq<u8>) -> Option<HeaderView> {
    match dec_roots(p) {
        Some((r, p1)) => match dec_counts(p1) {
            Some((c, p2)) => match dec_tail(p2) {
                Some((t, p3)) => if p3.len() == 0 {
                    Some(header_of(r, c, t))
                } else {
                    None
                },
                None => None,
            },
            None => None,
        },
        None => None,
    }
}

/// The header that a byte string is the wire form of, if it is one: the
/// list of the sixteen fields, with nothing behind it.
pub open spec fn spec_decode_header(s: Seq<u8>) -> Option<HeaderView> {
    match dec_list(s) {
        Some((p, rest)) => if rest.len() == 0 {
            dec_header_payload(p)
        } else {
            None
        },
        None => None,
    }
}

/// The block that a byte string is the wire form of, if it is one: the
/// list of a header and of a list of hashes, with nothing behind it.
pub open spec fn spec_decode_block(s: Seq<u8>) -> Option<BlockView> {
    match dec_list(s) {
        Some((p, rest)) => if rest.len() != 0 {
            None
        } else {
            match dec_list(p) {
                Some((hp, p1)) => match dec_header_payload(hp) {
                    Some(header) => match dec_list(p1) {
                        Some((l, p2)) => if p2.len() != 0 {
                            None
                        } else {
                            match dec_hashes(l) {
                                Some(tx_hashes) => Some(BlockView { header, tx_hashes }),
                                None => None,
                            }
                        },
                        None => None,
                    },
                    None => None,
                },
                None => None,
            }
        },
        None => None,
    }
}

/// Whether the wire form of a header can be written: its extra data is
/// not longer than a length of 64 bits can say, with room for the rest.
pub open spec fn header_wf(h: HeaderView) -> bool {
    h.extra_data.len() <= 0xffff_ffff_ffff_0000
}

/// Whether the wire form of a block can be written.
pub open spec fn block_wf(b: BlockView) -> bool {
    header_wf(b.header) && b.header.extra_data.len() + 33 * b.tx_hashes.len()
        <= 0xffff_ffff_ffff_0000
}

/// Reading the first six fields of a header from their wire form gives them.
pub proof fn lemma_dec_enc_roots(h: HeaderView, rest: Seq<u8>)
    ensures
        dec_roots(enc_roots(h) + rest) == Some(
            (
                (
                    h.prev_hash,
                    h.proposer,
                    h.state_root,
                    h.transactions_root,
                    h.receipts_root,
                    h.log_bloom,
                ),
                rest,
            ),
        ),
        enc_roots(h).len() <= 418,
{
    reveal(dec_roots);
    let f = enc_bytes(h.log_bloom@) + rest;
    let e = enc_h256(h.receipts_root) + f;
    let d = enc_h256(h.transactions_root) + e;
    let c = enc_h256(h.state_root) + d;
    let b = enc_h160(h.proposer) + c;
    lemma_dec_enc_h256(h.prev_hash, b);
    lemma_dec_enc_h160(h.proposer, c);
    lemma_dec_enc_h256(h.state_root, d);
    lemma_dec_enc_h256(h.transactions_root, e);
    lemma_dec_enc_h256(h.receipts_root, f);
    assert(dec_fixed(f, 256) == Some((h.log_bloom@, rest)) && enc_bytes(h.log_bloom@).len()
        <= 265) by {
        reveal(enc_bytes);
        lemma_dec_enc_fixed(h.log_bloom@, rest);
    }
    assert(enc_roots(h) + rest =~= enc_h256(h.prev_hash) + b);
    H256::lemma_spec_of(h.prev_hash@);
    H160::lemma_spec_of(h.proposer@);
    H256::lemma_spec_of(h.state_root@);
    H256::lemma_spec_of(h.transactions_root@);
    H256::lemma_spec_of(h.receipts_root@);
    Bloom::lemma_spec_of(h.log_bloom@);
}

/// Reading the next five fields of a header from their wire form gives them.
pub proof fn lemma_dec_enc_counts(h: HeaderView, rest: Seq<u8>)
    ensures
        dec_counts(enc_counts(h) + rest) == Some(
            ((h.difficulty, h.timestamp, h.number, h.gas_used, h.gas_limit), rest),
        ),
        enc_counts(h).len() <= 157,
{
    reveal(dec_counts);
    let e = enc_u256(h.gas_limit) + rest;
    let d = enc_u256(h.gas_used) + e;
    let c = enc_u64(h.number) + d;
    let b = enc_u64(h.timestamp) + c;
    lemma_dec_enc_u256(h.difficulty, b);
    lemma_dec_enc_u64(h.timestamp, c);
    lemma_dec_enc_u64(h.number, d);
    lemma_dec_enc_u256(h.gas_used, e);
    lemma_dec_enc_u256(h.gas_limit, rest);
    assert(enc_counts(h) + rest =~= enc_u256(h.difficulty) + b);
}

/// Reading a hash that may be absent from its wire form gives it.
pub proof fn lemma_dec_enc_mixed(m: Option<H256>, rest: Seq<u8>)
    ensures
        dec_mixed(enc_mixed(m) + rest) == Some((m, rest)),
        1 <= enc_mixed(m).len() <= 42,
{
    reveal(dec_mixed);
    match m {
        None => {
            lemma_dec_list(Seq::empty(), rest);
        },
        Some(h) => {
            let e = Seq::<u8>::empty();
            lemma_dec_enc_h256(h, e);
            lemma_dec_list(enc_h256(h), rest);
            assert(enc_h256(h) + e =~= enc_h256(h));
            H256::lemma_spec_of(h@);
        },
    }
}

/// Reading the last five fields of a header from their wire form gives them.
pub proof fn lemma_dec_enc_tail(h: HeaderView, rest: Seq<u8>)
    requires
        header_wf(h),
    ensures
        dec_tail(enc_tail(h) + rest) == Some(
            ((h.extra_data, h.mixed_hash, h.nonce, h.base_fee_per_gas, h.chain_id), rest),
        ),
        enc_tail(h).len() <= h.extra_data.len() + 126,
{
    reveal(dec_tail);
    let e = enc_u64(h.chain_id) + rest;
    let d = enc_u256(h.base_fee_per_gas) + e;
    let c = enc_bytes(h.nonce@) + d;
    let b = enc_mixed(h.mixed_hash) + c;
    lemma_dec_enc_bytes(h.extra_data, b);
    lemma_dec_enc_mixed(h.mixed_hash, c);
    assert(dec_fixed(c, 8) == Some((h.nonce@, d)) && enc_bytes(h.nonce@).len() <= 17) by {
        reveal(enc_bytes);
        lemma_dec_enc_fixed(h.nonce@, d);
    }
    lemma_dec_enc_u256(h.base_fee_per_gas, e);
    lemma_dec_enc_u64(h.chain_id, rest);
    assert(enc_tail(h) + rest =~= enc_bytes(h.extra_data) + b);
    H64::lemma_spec_of(h.nonce@);
}

/// Reading the fields of a header from their wire form gives the header.
pub proof fn lemma_dec_enc_header_payload(h: HeaderView)
    requires
        header_wf(h),
    ensures
        dec_header_payload(header_payload(h)) == Some(h),
        header_payload(h).len() <= h.extra_data.len() + 701,
{
    let e = Seq::<u8>::empty();
    let p2 = enc_tail(h) + e;
    let p1 = enc_counts(h) + p2;
    lemma_dec_enc_roots(h, p1);
    lemma_dec_enc_counts(h, p2);
    lemma_dec_enc_tail(h, e);
    assert(header_payload(h) =~= enc_roots(h) + p1);
}

/// Decoding the wire form of a header gives the header.
pub proof fn lemma_decode_encode_header(h: HeaderView)
    requires
        header_wf(h),
    ensures
        spec_decode_header(header_encoding(h)) == Some(h),
{
    let e = Seq::<u8>::empty();
    lemma_dec_enc_header_payload(h);
    lemma_dec_list(header_payload(h), e);
    assert(header_encoding(h) =~= rlp_list(header_payload(h)) + e);
}

/// Decoding the wire form of a block gives the block.
pub proof fn lemma_decode_encode_block(b: BlockView)
    requires
        block_wf(b),
    ensures
        spec_decode_block(block_encoding(b)) == Some(b),
{
    let e = Seq::<u8>::empty();
    let l = rlp_list(enc_hashes(b.tx_hashes));
    let p = header_encoding(b.header) + l;
    lemma_dec_enc_header_payload(b.header);
    lemma_dec_enc_hashes(b.tx_hashes);
    lemma_dec_list(header_payload(b.header), l);
    lemma_dec_list(enc_hashes(b.tx_hashes), e);
    lemma_dec_list(p, e);
    assert(l =~= rlp_list(enc_hashes(b.tx_hashes)) + e);
    assert(block_encoding(b) =~= rlp_list(p) + e);
}

/// Appends the wire form of a hash that may be absent.
fn push_mixed(out: &mut Vec<u8>, m: &Option<H256>)
    ensures
        final(out)@ == old(out)@ + enc_mixed(*m),
{
    let mut inner: Vec<u8> = Vec::new();
    match m {
        None => {},
        Some(h) => {
            push_h256(&mut inner, h);
        },
    }
    assert(inner@ =~= (match *m {
        None => Seq::<u8>::empty(),
        Some(h) => enc_h256(h),
    }));
    push_list(out, inner.as_slice());
}

/// Appends the fields of a header, one after another.
fn push_header_fields(out: &mut Vec<u8>, h: &Header)
    ensures
        final(out)@ == old(out)@ + header_payload(h@),
{
    push_h256(out, &h.prev_hash);
    push_h160(out, &h.proposer);
    push_h256(out, &h.state_root);
    push_h256(out, &h.transactions_root);
    push_h256(out, &h.receipts_root);
    push_bytes(out, h.log_bloom.bytes.as_slice());
    assert(out@ =~= old(out)@ + enc_roots(h@));
    push_u256(out, &h.difficulty);
    push_u64(out, h.timestamp);
    push_u64(out, h.number);
    push_u256(out, &h.gas_used);
    push_u256(out, &h.gas_limit);
    assert(out@ =~= old(out)@ + enc_roots(h@) + enc_counts(h@));
    push_bytes(out, h.extra_data.as_slice());
    push_mixed(out, &h.mixed_hash);
    push_bytes(out, h.nonce.bytes.as_slice());
    push_u256(out, &h.base_fee_per_gas);
    push_u64(out, h.chain_id);
    assert(out@ =~= old(out)@ + header_payload(h@));
}

/// Reads the first six fields of a header.
fn read_roots(buf: &[u8], pos: usize) -> (r: Option<
    ((H256, H160, H256, H256, H256, Bloom), usize),
>)
    requires
        pos <= buf@.len(),
    ensures
        reads(buf@, pos, dec_roots(tail(buf@, pos as int)), r),
{
    proof {
        reveal(dec_roots);
    }
    let (a, n1) = match read_h256(buf, pos) {
        None => { return None; },
        Some(x) => x,
    };
    let (b, n2) = match read_h160(buf, n1) {
        None => { return None; },
        Some(x) => x,
    };
    let (c, n3) = match read_h256(buf, n2) {
        None => { return None; },
        Some(x) => x,
    };
    let (d, n4) = match read_h256(buf, n3) {
        None => { return None; },
        Some(x) => x,
    };
    let (e, n5) = match read_h256(buf, n4) {
        None => { return None; },
        Some(x) => x,
    };
    let (start, n6) = match read_fixed(buf, n5, 256) {
        None => { return None; },
        Some(x) => x,
    };
    let f = Bloom::from_slice(slice_subrange(buf, start, n6));
    proof {
        H256::lemma_spec_of(a@);
        H160::lemma_spec_of(b@);
        H256::lemma_spec_of(c@);
        H256::lemma_spec_of(d@);
        H256::lemma_spec_of(e@);
        Bloom::lemma_spec_of(f@);
    }
    Some(((a, b, c, d, e, f), n6))
}

/// Reads the next five fields of a header.
fn read_counts(buf: &[u8], pos: usize) -> (r: Option<((U256, u64, u64, U256, U256), usize)>)
    requires
        pos <= buf@.len(),
    ensures
        reads(buf@, pos, dec_counts(tail(buf@, pos as int)), r),
{
    proof {
        reveal(dec_counts);
    }
    let (a, n1) = match read_u256(buf, pos) {
        None => { return None; },
        Some(x) => x,
    };
    let (b, n2) = match read_u64(buf, n1) {
        None => { return None; },
        Some(x) => x,
    };
    let (c, n3) = match read_u64(buf, n2) {
        None => { return None; },
        Some(x) => x,
    };
    let (d, n4) = match read_u256(buf, n3) {
        None => { return None; },
        Some(x) => x,
    };
    let (e, n5) = match read_u256(buf, n4) {
        None => { return None; },
        Some(x) => x,
    };
    Some(((a, b, c, d, e), n5))
}

/// Reads a hash that may be absent.
fn read_mixed(buf: &[u8], pos: usize) -> (r: Option<(Option<H256>, usize)>)
    requires
        pos <= buf@.len(),
    ensures
        reads(buf@, pos, dec_mixed(tail(buf@, pos as int)), r),
{
    proof {
        reveal(dec_mixed);
    }
    let (start, end) = match read_list(buf, pos) {
        None => { return None; },
        Some(x) => x,
    };
    if start == end {
        return Some((None, end));
    }
    let p = slice_subrange(buf, start, end);
    proof {
        lemma_tail_tail(p@, 0, 0);
    }
    let (h, behind) = match read_h256(p, 0) {
        None => { return None; },
        Some(x) => x,
    };
    if behind != p.len() {
        return None;
    }
    proof {
        H256::lemma_spec_of(h@);
    }
    Some((Some(h), end))
}

/// Reads the last five fields of a header: where the extra data lies,
/// and the other four.
fn read_tail(buf: &[u8], pos: usize) -> (r: Option<
    ((usize, usize), Option<H256>, H64, U256, u64, usize),
>)
    requires
        pos <= buf@.len(),
    ensures
        match dec_tail(tail(buf@, pos as int)) {
            None => r is None,
            Some((t, rest)) => {
                &&& r matches Some((at, m, n, f, c, np))
                &&& at.0 <= at.1 <= buf@.len()
                &&& buf@.subrange(at.0 as int, at.1 as int) == t.0
                &&& m == t.1
                &&& n == t.2
                &&& f == t.3
                &&& c == t.4
                &&& pos <= np <= buf@.len()
                &&& tail(buf@, np as int) == rest
            },
        },
{
    proof {
        reveal(dec_tail);
    }
    let (start, n1) = match read_bytes(buf, pos) {
        None => { return None; },
        Some(x) => x,
    };
    let (m, n2) = match read_mixed(buf, n1) {
        None => { return None; },
        Some(x) => x,
    };
    let (s3, n3) = match read_fixed(buf, n2, 8) {
        None => { return None; },
        Some(x) => x,
    };
    let nonce = H64::from_slice(slice_subrange(buf, s3, n3));
    let (f, n4) = match read_u256(buf, n3) {
        None => { return None; },
        Some(x) => x,
    };
    let (c, n5) = match read_u64(buf, n4) {
        None => { return None; },
        Some(x) => x,
    };
    proof {
        H64::lemma_spec_of(nonce@);
    }
    Some(((start, n1), m, nonce, f, c, n5))
}

/// Reads the header whose fields a buffer holds, with nothing behind them.
fn read_header_fields(p: &[u8]) -> (r: Option<Header>)
    ensures
        match dec_header_payload(p@) {
            Some(h) => r matches Some(got) && got@ == h,
            None => r is None,
        },
{
    proof {
        lemma_tail_tail(p@, 0, 0);
    }
    let (roots, n1) = match read_roots(p, 0) {
        None => { return None; },
        Some(x) => x,
    };
    let (counts, n2) = match read_counts(p, n1) {
        None => { return None; },
        Some(x) => x,
    };
    let (at, mixed_hash, nonce, base_fee_per_gas, chain_id, n3) = match read_tail(p, n2) {
        None => { return None; },
        Some(x) => x,
    };
    if n3 != p.len() {
        return None;
    }
    Some(
        Header {
            prev_hash: roots.0,
            proposer: roots.1,
            state_root: roots.2,
            transactions_root: roots.3,
            receipts_root: roots.4,
            log_bloom: roots.5,
            difficulty: counts.0,
            timestamp: counts.1,
            number: counts.2,
            gas_used: counts.3,
            gas_limit: counts.4,
            extra_data: slice_to_vec(slice_subrange(p, at.0, at.1)),
            mixed_hash,
            nonce,
            base_fee_per_gas,
            chain_id,
        },
    )
}

impl Header {
    /// The wire form of the header.
    pub fn encode(&self) -> (r: Vec<u8>)
        ensures
            r@ == header_encoding(self@),
    {
        let mut payload: Vec<u8> = Vec::new();
        push_header_fields(&mut payload, self);
        assert(payload@ =~= header_payload(self@));
        let mut out: Vec<u8> = Vec::new();
        push_list(&mut out, payload.as_slice());
        assert(out@ =~= header_encoding(self@));
        out
    }

    /// The number of bytes of the wire form of the header.
    pub fn size(&self) -> (n: usize)
        ensures
            n == header_encoding(self@).len(),
    {
        self.encode().len()
    }

    /// The header that `bytes` is the wire form of, or `None` where it is
    /// the wire form of none.
    pub fn decode(bytes: &[u8]) -> (r: Option<Header>)
        ensures
            match spec_decode_header(bytes@) {
                Some(h) => r matches Some(got) && got@ == h,
                None => r is None,
            },
    {
        proof {
            lemma_tail_tail(bytes@, 0, 0);
        }
        let (start, end) = match read_list(bytes, 0) {
            None => { return None; },
            Some(x) => x,
        };
        if end != bytes.len() {
            return None;
        }
        read_header_fields(slice_subrange(bytes, start, end))
    }
}

impl Block {
    /// The wire form of the block.
    pub fn encode(&self) -> (r: Vec<u8>)
        ensures
            r@ == block_encoding(self@),
    {
        let mut fields: Vec<u8> = Vec::new();
        push_header_fields(&mut fields, &self.header);
        assert(fields@ =~= header_payload(self@.header));
        let mut hashes: Vec<u8> = Vec::new();
        push_hashes(&mut hashes, &self.tx_hashes);
        assert(hashes@ =~= enc_hashes(self@.tx_hashes));
        let mut payload: Vec<u8> = Vec::new();
        push_list(&mut payload, fields.as_slice());
        push_list(&mut payload, hashes.as_slice());
        assert(payload@ =~= header_encoding(self@.header) + rlp_list(enc_hashes(self@.tx_hashes)));
        let mut out: Vec<u8> = Vec::new();
        push_list(&mut out, payload.as_slice());
        assert(out@ =~= block_encoding(self@));
        out
    }

    /// The block that `bytes` is the wire form of, or `None` where it is
    /// the wire form of none.
    pub fn decode(bytes: &[u8]) -> (r: Option<Block>)
        ensures
            match spec_decode_block(bytes@) {
                Some(b) => r matches Some(got) && got@ == b,
                None => r is None,
            },
    {
        proof {
            lemma_tail_tail(bytes@, 0, 0);
        }
        let (start, end) = match read_list(bytes, 0) {
            None => { return None; },
            Some(x) => x,
        };
        if end != bytes.len() {
            return None;
        }
        let p = slice_subrange(bytes, start, end);
        proof {
            lemma_tail_tail(p@, 0, 0);
        }
        let (hs, he) = match read_list(p, 0) {
            None => { return None; },
            Some(x) => x,
        };
        let header = match read_header_fields(slice_subrange(p, hs, he)) {
            None => { return None; },
            Some(h) => h,
        };
        let (ls, le) = match read_list(p, he) {
            None => { return None; },
            Some(x) => x,
        };
        if le != p.len() {
            return None;
        }
        let tx_hashes = match read_hashes(slice_subrange(p, ls, le)) {
            None => { return None; },
            Some(l) => l,
        };
        Some(Block { header, tx_hashes })
    }
}

} // verus!
