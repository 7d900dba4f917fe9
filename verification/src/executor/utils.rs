//! Roots over indexed lists, contract addresses, log blooms and revert messages.

use crate::codec::field::{enc_h160, enc_u256, push_h160, push_u256};
use crate::codec::rlp::{push_list, rlp_list};
use crate::collections::lex_lt;
use crate::storage::trie_db::{pairs_of, spec_trie_root, trie_root};
use crate::types::executor::Log;
use crate::types::hash::{spec_digest, Bloom, Hasher, MerkleRoot, H160, H256};
use crate::types::transaction::SignedTransaction;
use crate::types::uint::U256;
use vstd::prelude::*;
use vstd::slice::slice_subrange;

verus! {

/// The number of bytes that name a function.
pub const FUNC_SELECTOR_LEN: usize = 4;

/// The number of bytes of a word.
pub const U256_BE_BYTES_LEN: usize = 32;

/// Where the length of the message of a reverted call starts.
pub const REVERT_MSG_LEN_OFFSET: usize = 36;

/// Where the message of a reverted call starts.
pub const REVERT_EFFECT_MSG_OFFSET: usize = 68;

/// The number of bytes of a bloom.
pub const BLOOM_BYTE_LENGTH: usize = 256;

/// The address of a contract that `sender` creates with the given nonce,
/// in the last 20 bytes: the digest of the list of sender and nonce.
pub open spec fn spec_code_address(sender: H160, nonce: U256) -> Seq<u8> {
    spec_digest(rlp_list(enc_h160(sender) + enc_u256(nonce)))
}

/// The address of a contract that `sender` creates with the given nonce.
pub fn code_address(sender: &H160, nonce: &U256) -> (r: H256)
    ensures
        r@ == spec_code_address(*sender, *nonce),
{
    let mut payload: Vec<u8> = Vec::new();
    push_h160(&mut payload, sender);
    push_u256(&mut payload, nonce);
    assert(payload@ =~= enc_h160(*sender) + enc_u256(*nonce));
    let mut out: Vec<u8> = Vec::new();
    push_list(&mut out, payload.as_slice());
    assert(out@ =~= rlp_list(enc_h160(*sender) + enc_u256(*nonce)));
    Hasher::digest(out.as_slice())
}

/// The four bytes of an index, most significant first.
pub open spec fn u32_be(i: u32) -> Seq<u8> {
    seq![
        (i / 0x100_0000) as u8,
        ((i / 0x1_0000) % 256) as u8,
        ((i / 0x100) % 256) as u8,
        (i % 256) as u8,
    ]
}

/// The four bytes of a smaller index come first in the dictionary order.
pub proof fn lemma_u32_be_order(i: u32, j: u32)
    requires
        i < j,
    ensures
        lex_lt(u32_be(i), u32_be(j)),
{
    let a = u32_be(i);
    let b = u32_be(j);
    reveal_with_fuel(lex_lt, 5);
    let a1 = a.drop_first();
    let b1 = b.drop_first();
    let a2 = a1.drop_first();
    let b2 = b1.drop_first();
    let a3 = a2.drop_first();
    let b3 = b2.drop_first();
    assert(a1[0] == a[1] && a2[0] == a[2] && a3[0] == a[3]);
    assert(b1[0] == b[1] && b2[0] == b[2] && b3[0] == b[3]);
    assert(a3.len() == 1 && b3.len() == 1);
    assert(a3.drop_first().len() == 0);
    assert(i == (a[0] as int) * 0x100_0000 + (a[1] as int) * 0x1_0000 + (a[2] as int) * 0x100 + (
    a[3] as int));
    assert(j == (b[0] as int) * 0x100_0000 + (b[1] as int) * 0x1_0000 + (b[2] as int) * 0x100 + (
    b[3] as int));
}

/// The list as pairs for a trie: each item under the four bytes of its position.
pub open spec fn indexed_pairs(l: Seq<H256>) -> Seq<(Seq<u8>, Seq<u8>)> {
    Seq::new(l.len(), |i: int| (u32_be(i as u32), l[i]@))
}

/// The root of the trie that holds each item of a list under its position:
/// the nil hash for the empty list.
pub open spec fn spec_root_indexed(l: Seq<H256>) -> Seq<u8> {
    spec_trie_root(indexed_pairs(l))
}

/// The root of the trie that holds each hash of a list under the four
/// bytes of its position.
pub fn trie_root_indexed(input: &Vec<H256>) -> (r: MerkleRoot)
    requires
        input@.len() <= u32::MAX,
    ensures
        r@ == spec_root_indexed(input@),
{
    let mut pairs: Vec<(Vec<u8>, Vec<u8>)> = Vec::new();
    let mut i: usize = 0;
    while i < input.len()
        invariant
            i <= input@.len(),
            input@.len() <= u32::MAX,
            pairs@.len() == i,
            forall|j: int| 0 <= j < i ==> (#[trigger] pairs@[j]).0@ == u32_be(j as u32),
            forall|j: int| 0 <= j < i ==> (#[trigger] pairs@[j]).1@ == input@[j]@,
        decreases input@.len() - i,
    {
        let idx: u32 = i as u32;
        let mut key: Vec<u8> = Vec::new();
        key.push((idx / 0x100_0000) as u8);
        key.push(((idx / 0x1_0000) % 256) as u8);
        key.push(((idx / 0x100) % 256) as u8);
        key.push((idx % 256) as u8);
        assert(key@ =~= u32_be(idx));
        pairs.push((key, input[i].to_vec()));
        i += 1;
    }
    proof {
        assert(pairs_of(pairs@) =~= indexed_pairs(input@));
        assert forall|a: int, b: int| 0 <= a < b < pairs@.len() implies lex_lt(
            #[trigger] pairs@[a].0@,
            #[trigger] pairs@[b].0@,
        ) by {
            lemma_u32_be_order(a as u32, b as u32);
        }
    }
    trie_root(&pairs)
}

/// The hashes of the transactions of a list.
pub open spec fn tx_hashes_of(txs: Seq<SignedTransaction>) -> Seq<H256> {
    Seq::new(txs.len(), |i: int| txs[i].transaction.hash)
}

/// The hashes of the transactions of a list.
pub fn collect_tx_hashes(txs: &Vec<SignedTransaction>) -> (r: Vec<H256>)
    ensures
        r@ == tx_hashes_of(txs@),
{
    let mut out: Vec<H256> = Vec::new();
    let mut i: usize = 0;
    while i < txs.len()
        invariant
            i <= txs@.len(),
            out@.len() == i,
            forall|j: int| 0 <= j < i ==> out@[j] == txs@[j].transaction.hash,
        decreases txs@.len() - i,
    {
        out.push(txs[i].transaction.hash);
        i += 1;
    }
    assert(out@ =~= tx_hashes_of(txs@));
    out
}

/// The root of the trie that holds the hash of each transaction of a list
/// under the four bytes of its position.
pub fn trie_root_txs(input: &Vec<SignedTransaction>) -> (r: MerkleRoot)
    requires
        input@.len() <= u32::MAX,
    ensures
        r@ == spec_root_indexed(tx_hashes_of(input@)),
{
    let hashes = collect_tx_hashes(input);
    trie_root_indexed(&hashes)
}

/// The position in a bloom of the bit that two bytes of a digest select.
pub open spec fn bloom_bit(hi: u8, lo: u8) -> int {
    ((hi as int) * 256 + (lo as int)) % 2048
}

/// A bloom with one more bit set: the one that two bytes of a digest select.
pub open spec fn bloom_set(b: Seq<u8>, hi: u8, lo: u8) -> Seq<u8> {
    let bit = bloom_bit(hi, lo);
    b.update(255 - bit / 8, b[255 - bit / 8] | (1u8 << ((bit % 8) as u8)))
}

/// A bloom with the three bits set that a digest selects: one by each of
/// its first three pairs of bytes.
pub open spec fn bloom_of_digest(b: Seq<u8>, h: Seq<u8>) -> Seq<u8> {
    bloom_set(bloom_set(bloom_set(b, h[0], h[1]), h[2], h[3]), h[4], h[5])
}

/// A bloom with the three bits set that the digest of a byte string selects.
pub open spec fn bloom_accrue(b: Seq<u8>, x: Seq<u8>) -> Seq<u8> {
    bloom_of_digest(b, spec_digest(x))
}

/// Sets the bit of a bloom that two bytes of a digest select.
fn set_bloom_bit(bloom: &mut Bloom, hi: u8, lo: u8)
    ensures
        final(bloom)@ == bloom_set(old(bloom)@, hi, lo),
{
    let bit: usize = ((hi as usize) * 256 + (lo as usize)) % 2048;
    let at: usize = BLOOM_BYTE_LENGTH - 1 - bit / 8;
    let shift: u8 = (bit % 8) as u8;
    let mask: u8 = 1u8 << shift;
    let v: u8 = bloom.bytes[at] | mask;
    bloom.bytes[at] = v;
    assert(bloom@ =~= bloom_set(old(bloom)@, hi, lo));
}

/// Sets the three bits of a bloom that the digest of `x` selects.
pub fn m3_2048(bloom: &mut Bloom, x: &[u8])
    ensures
        final(bloom)@ == bloom_accrue(old(bloom)@, x@),
{
    let hash = Hasher::digest(x);
    set_bloom_bit(bloom, hash.bytes[0], hash.bytes[1]);
    set_bloom_bit(bloom, hash.bytes[2], hash.bytes[3]);
    set_bloom_bit(bloom, hash.bytes[4], hash.bytes[5]);
}

/// A bloom with the bits of the first `n` topics of a log set.
pub open spec fn bloom_topics(b: Seq<u8>, topics: Seq<H256>, n: int) -> Seq<u8>
    decreases n,
{
    if n <= 0 {
        b
    } else {
        bloom_accrue(bloom_topics(b, topics, n - 1), topics[n - 1]@)
    }
}

/// A bloom with the bits of a log set: those of its address and of each topic.
pub open spec fn bloom_log(b: Seq<u8>, log: Log) -> Seq<u8> {
    bloom_topics(bloom_accrue(b, log.address@), log.topics@, log.topics@.len() as int)
}

/// A bloom with the bits of the first `n` logs of a list set.
pub open spec fn bloom_logs(b: Seq<u8>, logs: Seq<Log>, n: int) -> Seq<u8>
    decreases n,
{
    if n <= 0 {
        b
    } else {
        bloom_log(bloom_logs(b, logs, n - 1), logs[n - 1])
    }
}

/// The bloom of a list of logs: for each log, the bits of its address and
/// of each of its topics.
pub open spec fn spec_logs_bloom(logs: Seq<Log>) -> Seq<u8> {
    bloom_logs(Seq::new(256, |i: int| 0u8), logs, logs.len() as int)
}

/// The bloom of a list of logs.
pub fn logs_bloom(logs: &Vec<Log>) -> (r: Bloom)
    ensures
        r@ == spec_logs_bloom(logs@),
{
    let mut bloom = Bloom::zero();
    let mut i: usize = 0;
    while i < logs.len()
        invariant
            i <= logs@.len(),
            bloom@ == bloom_logs(Seq::new(256, |i: int| 0u8), logs@, i as int),
        decreases logs@.len() - i,
    {
        let log = &logs[i];
        m3_2048(&mut bloom, log.address.bytes.as_slice());
        let mut j: usize = 0;
        let ghost start = bloom@;
        while j < log.topics.len()
            invariant
                j <= log.topics@.len(),
                bloom@ == bloom_topics(start, log.topics@, j as int),
            decreases log.topics@.len() - j,
        {
            m3_2048(&mut bloom, log.topics[j].bytes.as_slice());
            j += 1;
        }
        i += 1;
    }
    bloom
}

/// The part of the return data of a reverted call that is its message.
///
/// Return data of at least 68 bytes starts with four bytes that name the
/// error, 32 bytes of offset and 32 bytes that spell the length of the
/// message, most significant first; the message follows. Where the data
/// is shorter than that, or than its length says, all of it is the message.
pub open spec fn spec_revert_payload(input: Seq<u8>) -> Seq<u8> {
    if input.len() < REVERT_EFFECT_MSG_OFFSET {
        input
    } else {
        let n = U256::spec_from_be(
            input.subrange(REVERT_MSG_LEN_OFFSET as int, REVERT_EFFECT_MSG_OFFSET as int),
        )@;
        if input.len() < REVERT_EFFECT_MSG_OFFSET + n {
            input
        } else {
            input.subrange(REVERT_EFFECT_MSG_OFFSET as int, REVERT_EFFECT_MSG_OFFSET + n)
        }
    }
}

/// The characters that bytes stand for, one a byte.
pub open spec fn byte_chars(b: Seq<u8>) -> Seq<char> {
    Seq::new(b.len(), |i: int| b[i] as char)
}

/// The message of a reverted call: `execution reverted: ` and then the
/// message in the return data, one character a byte.
pub fn decode_revert_msg(input: &[u8]) -> (r: String)
    ensures
        r@ == "execution reverted: "@ + byte_chars(spec_revert_payload(input@)),
{
    let payload: &[u8] = if input.len() < REVERT_EFFECT_MSG_OFFSET {
        input
    } else {
        let n = U256::from_be_bytes(
            slice_subrange(input, REVERT_MSG_LEN_OFFSET, REVERT_EFFECT_MSG_OFFSET),
        );
        let room: usize = input.len() - REVERT_EFFECT_MSG_OFFSET;
        if !n.fits_u64() || n.as_u64() > room as u64 {
            input
        } else {
            slice_subrange(
                input,
                REVERT_EFFECT_MSG_OFFSET,
                REVERT_EFFECT_MSG_OFFSET + (n.as_u64() as usize),
            )
        }
    };
    let mut out: String = "execution reverted: ".to_owned();
    let ghost head = out@;
    let mut i: usize = 0;
    assert(out@ =~= head + byte_chars(payload@.subrange(0, 0)));
    while i < payload.len()
        invariant
            i <= payload@.len(),
            out@ == head + byte_chars(payload@.subrange(0, i as int)),
        decreases payload@.len() - i,
    {
        out.push(payload[i] as char);
        assert(out@ =~= head + byte_chars(payload@.subrange(0, i + 1)));
        i += 1;
    }
    assert(payload@.subrange(0, payload@.len() as int) =~= payload@);
    out
}

} // verus!
