//! Reading transactions back from their wire form.

use crate::codec::field::{
    dec_bytes, dec_fixed, dec_hashes, dec_list, dec_u256, dec_u64, enc_bytes, enc_h160,
    enc_hashes, enc_u256, enc_u64, lemma_dec_enc_bytes, lemma_dec_enc_fixed,
    lemma_dec_enc_h160, lemma_dec_enc_hashes, lemma_dec_enc_u256, lemma_dec_enc_u64,
    lemma_dec_list, lemma_tail_tail, read_bytes, read_fixed, read_h160, read_hashes, read_list,
    read_u256, read_u64, tail,
};
use crate::codec::rlp::rlp_list;
use crate::codec::transaction::{
    enc_access_item, enc_access_items, enc_access_list, enc_action, enc_common, enc_legacy_tail,
    enc_sig_scalar, enc_typed_signature, spec_truncate, tx_payload, utx_encoding,
};
use crate::types::hash::{slice_to_vec, spec_digest, Hasher, H160, H256};
use crate::types::transaction::{
    access_list_view, spec_extract_chain_id, spec_extract_standard_v, spec_replay_protection,
    AccessListItem, AccessListItemView, Eip1559Transaction, Eip2930Transaction,
    LegacyTransaction, SignatureComponents, SignatureComponentsView, TransactionAction,
    UnsignedTransaction, UnsignedTransactionView, UnverifiedTransaction,
    UnverifiedTransactionView,
};
use crate::types::uint::U256;
use vstd::prelude::*;
use vstd::slice::slice_subrange;

verus! {

/// An action: the empty string creates, a string of 20 bytes calls.
pub open spec fn dec_action(s: Seq<u8>) -> Option<(TransactionAction, Seq<u8>)> {
    match dec_bytes(s) {
        Some((p, rest)) => if p.len() == 0 {
            Some((TransactionAction::Create, rest))
        } else if p.len() == 20 {
            Some((TransactionAction::Call(H160::spec_of(p)), rest))
        } else {
            None
        },
        None => None,
    }
}

/// Reading the wire form of an action gives the action.
pub proof fn lemma_dec_enc_action(a: TransactionAction, rest: Seq<u8>)
    ensures
        dec_action(enc_action(a) + rest) == Some((a, rest)),
        1 <= enc_action(a).len() <= 21,
{
    reveal(enc_h160);
    reveal(enc_bytes);
    match a {
        TransactionAction::Call(addr) => {
            lemma_dec_enc_bytes(addr@, rest);
            lemma_dec_enc_h160(addr, rest);
            H160::lemma_spec_of(addr@);
        },
        TransactionAction::Create => {
            lemma_dec_enc_bytes(Seq::empty(), rest);
        },
    }
}

/// A part of a signature that was written as a number: its 32 bytes.
pub open spec fn dec_sig_scalar(s: Seq<u8>) -> Option<(Seq<u8>, Seq<u8>)> {
    match dec_u256(s) {
        Some((u, rest)) => Some((u.be_bytes(), rest)),
        None => None,
    }
}

/// Reading the wire form of a part of a signature gives the part.
pub proof fn lemma_dec_enc_sig_scalar(part: Seq<u8>, rest: Seq<u8>)
    requires
        part.len() == 32,
    ensures
        dec_sig_scalar(enc_sig_scalar(part) + rest) == Some((part, rest)),
        1 <= enc_sig_scalar(part).len() <= 41,
{
    reveal(enc_u256);
    let u = U256::spec_from_be(part);
    U256::lemma_be_bytes(part);
    assert(spec_truncate(part, 32) == part);
    assert(enc_sig_scalar(part) == enc_u256(u));
    lemma_dec_enc_u256(u, rest);
}

/// The signature of a typed transaction.
pub open spec fn dec_typed_signature(s: Seq<u8>) -> Option<(SignatureComponentsView, Seq<u8>)> {
    match dec_u64(s) {
        Some((v, s1)) => if v > 255 {
            None
        } else if v <= 1 {
            match dec_sig_scalar(s1) {
                Some((r, s2)) => match dec_sig_scalar(s2) {
                    Some((sv, s3)) => Some(
                        (SignatureComponentsView { r, s: sv, standard_v: v as u8 }, s3),
                    ),
                    None => None,
                },
                None => None,
            }
        } else {
            match dec_fixed(s1, 32) {
                Some((r, s2)) => match dec_fixed(s2, 32) {
                    Some((sv, s3)) => Some(
                        (SignatureComponentsView { r, s: sv, standard_v: v as u8 }, s3),
                    ),
                    None => None,
                },
                None => None,
            }
        },
        None => None,
    }
}

/// Whether both parts of a signature have 32 bytes.
pub open spec fn sig_wf(sig: SignatureComponentsView) -> bool {
    sig.r.len() == 32 && sig.s.len() == 32
}

/// Reading the wire form of the signature of a typed transaction gives the signature.
pub proof fn lemma_dec_enc_typed_signature(sig: SignatureComponentsView, rest: Seq<u8>)
    requires
        sig_wf(sig),
    ensures
        dec_typed_signature(enc_typed_signature(sig) + rest) == Some((sig, rest)),
        enc_typed_signature(sig).len() <= 99,
{
    reveal(enc_bytes);
    let v = sig.standard_v as u64;
    if sig.standard_v <= 1 {
        let t2 = enc_sig_scalar(sig.s) + rest;
        let t1 = enc_sig_scalar(sig.r) + t2;
        lemma_dec_enc_u64(v, t1);
        lemma_dec_enc_sig_scalar(sig.r, t2);
        lemma_dec_enc_sig_scalar(sig.s, rest);
        assert(enc_typed_signature(sig) + rest =~= enc_u64(v) + t1);
    } else {
        let t2 = enc_bytes(sig.s) + rest;
        let t1 = enc_bytes(sig.r) + t2;
        lemma_dec_enc_u64(v, t1);
        lemma_dec_enc_fixed(sig.r, t2);
        lemma_dec_enc_fixed(sig.s, rest);
        assert(enc_typed_signature(sig) + rest =~= enc_u64(v) + t1);
    }
}

/// What closes a signed transaction of the first kind: the chain id that
/// `v` holds, or the given one where it holds none, and the signature.
pub open spec fn dec_legacy_tail(s: Seq<u8>, default_chain_id: u64) -> Option<
    ((u64, SignatureComponentsView), Seq<u8>),
> {
    match dec_u64(s) {
        Some((v, s1)) => match spec_extract_standard_v(v) {
            Some(standard_v) => match dec_sig_scalar(s1) {
                Some((r, s2)) => match dec_sig_scalar(s2) {
                    Some((sv, s3)) => Some(
                        (
                            (
                                match spec_extract_chain_id(v) {
                                    Some(id) => id,
                                    None => default_chain_id,
                                },
                                SignatureComponentsView { r, s: sv, standard_v },
                            ),
                            s3,
                        ),
                    ),
                    None => None,
                },
                None => None,
            },
            None => None,
        },
        None => None,
    }
}

/// Reading what closes the wire form of a transaction of the first kind gives chain id and signature.
pub proof fn lemma_dec_enc_legacy_tail(
    chain_id: u64,
    sig: SignatureComponentsView,
    rest: Seq<u8>,
    default_chain_id: u64,
)
    requires
        sig_wf(sig),
        sig.standard_v <= 1,
        spec_replay_protection(sig.standard_v, Some(chain_id)) <= u64::MAX,
    ensures
        dec_legacy_tail(enc_legacy_tail(Some(chain_id), Some(sig)) + rest, default_chain_id)
            == Some(((chain_id, sig), rest)),
        enc_legacy_tail(Some(chain_id), Some(sig)).len() <= 99,
{
    let v = spec_replay_protection(sig.standard_v, Some(chain_id)) as u64;
    let t2 = enc_sig_scalar(sig.s) + rest;
    let t1 = enc_sig_scalar(sig.r) + t2;
    lemma_dec_enc_u64(v, t1);
    lemma_dec_enc_sig_scalar(sig.r, t2);
    lemma_dec_enc_sig_scalar(sig.s, rest);
    assert(enc_legacy_tail(Some(chain_id), Some(sig)) + rest =~= enc_u64(v) + t1);
}

/// One item of an access list: the list of an address and a list of storage keys.
pub open spec fn dec_access_item(s: Seq<u8>) -> Option<AccessListItemView> {
    match dec_fixed(s, 20) {
        Some((a, s1)) => match dec_list(s1) {
            Some((keys, s2)) => if s2.len() != 0 {
                None
            } else {
                match dec_hashes(keys) {
                    Some(k) => Some(
                        AccessListItemView { address: H160::spec_of(a), storage_keys: k },
                    ),
                    None => None,
                }
            },
            None => None,
        },
        None => None,
    }
}

/// The items of an access list, one after another.
pub open spec fn dec_access_items(s: Seq<u8>) -> Option<Seq<AccessListItemView>>
    decreases s.len(),
{
    if s.len() == 0 {
        Some(Seq::empty())
    } else {
        match dec_list(s) {
            Some((item, rest)) => if rest.len() < s.len() {
                match dec_access_item(item) {
                    Some(v) => match dec_access_items(rest) {
                        Some(l) => Some(seq![v] + l),
                        None => None,
                    },
                    None => None,
                }
            } else {
                None
            },
            None => None,
        }
    }
}

/// An access list: the list of its items.
pub open spec fn dec_access_list(s: Seq<u8>) -> Option<(Seq<AccessListItemView>, Seq<u8>)> {
    match dec_list(s) {
        Some((items, rest)) => match dec_access_items(items) {
            Some(l) => Some((l, rest)),
            None => None,
        },
        None => None,
    }
}

/// Whether every part of an access list is short enough to be encoded.
pub open spec fn access_list_wf(l: Seq<AccessListItemView>) -> bool {
    &&& enc_access_items(l).len() <= u64::MAX
    &&& forall|i: int|
        0 <= i < l.len() ==> 33 * (#[trigger] l[i]).storage_keys.len() + 30 <= u64::MAX
}

/// Reading the wire form of an entry of an access list gives the entry.
pub proof fn lemma_dec_enc_access_item(item: AccessListItemView)
    requires
        33 * item.storage_keys.len() + 30 <= u64::MAX,
    ensures
        dec_access_item(enc_h160(item.address) + rlp_list(enc_hashes(item.storage_keys))) == Some(
            item,
        ),
        (enc_h160(item.address) + rlp_list(enc_hashes(item.storage_keys))).len() <= 33
            * item.storage_keys.len() + 30,
{
    let keys = enc_hashes(item.storage_keys);
    lemma_dec_enc_hashes(item.storage_keys);
    let e = Seq::<u8>::empty();
    lemma_dec_list(keys, e);
    assert(rlp_list(keys) + e =~= rlp_list(keys));
    lemma_dec_enc_h160(item.address, rlp_list(keys));
    H160::lemma_spec_of(item.address@);
}

/// Reading the wire forms of the entries of an access list gives the entries.
pub proof fn lemma_dec_enc_access_items(l: Seq<AccessListItemView>)
    requires
        access_list_wf(l),
    ensures
        dec_access_items(enc_access_items(l)) == Some(l),
    decreases l.len(),
{
    if l.len() > 0 {
        let tail_items = l.drop_first();
        let rest = enc_access_items(tail_items);
        let payload = enc_h160(l[0].address) + rlp_list(enc_hashes(l[0].storage_keys));
        lemma_dec_enc_access_item(l[0]);
        lemma_dec_list(payload, rest);
        assert(enc_access_items(l) == enc_access_item(l[0]) + rest);
        assert(access_list_wf(tail_items)) by {
            assert forall|i: int| 0 <= i < tail_items.len() implies 33 * (
            #[trigger] tail_items[i]).storage_keys.len() + 30 <= u64::MAX by {
                assert(tail_items[i] == l[i + 1]);
            }
        }
        lemma_dec_enc_access_items(tail_items);
        assert(seq![l[0]] + tail_items =~= l);
    }
}

/// Reading the wire form of an access list gives the list.
pub proof fn lemma_dec_enc_access_list(l: Seq<AccessListItemView>, rest: Seq<u8>)
    requires
        access_list_wf(l),
    ensures
        dec_access_list(enc_access_list(l) + rest) == Some((l, rest)),
        enc_access_list(l).len() <= enc_access_items(l).len() + 9,
{
    lemma_dec_enc_access_items(l);
    lemma_dec_list(enc_access_items(l), rest);
}

/// The four fields that every kind of transaction has: gas limit, action,
/// value and data.
pub open spec fn dec_common(s: Seq<u8>) -> Option<
    ((U256, TransactionAction, U256, Seq<u8>), Seq<u8>),
> {
    match dec_u256(s) {
        Some((gas_limit, s1)) => match dec_action(s1) {
            Some((action, s2)) => match dec_u256(s2) {
                Some((value, s3)) => match dec_bytes(s3) {
                    Some((data, s4)) => Some(((gas_limit, action, value, data), s4)),
                    None => None,
                },
                None => None,
            },
            None => None,
        },
        None => None,
    }
}

/// Reading the wire form of the fields that all kinds of transactions share gives the fields.
pub proof fn lemma_dec_enc_common(t: UnsignedTransactionView, rest: Seq<u8>)
    requires
        t.data.len() <= u64::MAX,
    ensures
        dec_common(enc_common(t) + rest) == Some(
            ((t.gas_limit, t.action, t.value, t.data), rest),
        ),
        enc_common(t).len() <= t.data.len() + 112,
{
    let t3 = enc_bytes(t.data) + rest;
    let t2 = enc_u256(t.value) + t3;
    let t1 = enc_action(t.action) + t2;
    lemma_dec_enc_u256(t.gas_limit, t1);
    lemma_dec_enc_action(t.action, t2);
    lemma_dec_enc_u256(t.value, t3);
    lemma_dec_enc_bytes(t.data, rest);
    assert(enc_common(t) + rest =~= enc_u256(t.gas_limit) + t1);
}

/// What the wire form of a transaction holds besides its hash.
pub struct BodyView {
    pub unsigned: UnsignedTransactionView,
    pub signature: SignatureComponentsView,
    pub chain_id: u64,
}

/// The fields of a transaction of the first kind.
pub open spec fn dec_legacy_body(p: Seq<u8>, default_chain_id: u64) -> Option<BodyView> {
    match dec_u256(p) {
        Some((nonce, p1)) => match dec_u256(p1) {
            Some((gas_price, p2)) => match dec_common(p2) {
                Some((c, p3)) => match dec_legacy_tail(p3, default_chain_id) {
                    Some((t, p4)) => if p4.len() != 0 {
                        None
                    } else {
                        Some(
                            BodyView {
                                unsigned: UnsignedTransactionView {
                                    kind: 0,
                                    nonce,
                                    max_priority_fee_per_gas: U256 { w3: 0, w2: 0, w1: 0, w0: 0 },
                                    gas_price,
                                    gas_limit: c.0,
                                    action: c.1,
                                    value: c.2,
                                    data: c.3,
                                    access_list: Seq::empty(),
                                },
                                signature: t.1,
                                chain_id: t.0,
                            },
                        )
                    },
                    None => None,
                },
                None => None,
            },
            None => None,
        },
        None => None,
    }
}

/// The fields of a typed transaction behind its fees.
#[verifier::opaque]
pub open spec fn dec_typed_rest(
    kind: u8,
    chain_id: u64,
    nonce: U256,
    max_priority_fee_per_gas: U256,
    gas_price: U256,
    p: Seq<u8>,
) -> Option<BodyView> {
    match dec_common(p) {
        Some((c, p1)) => match dec_access_list(p1) {
            Some((access_list, p2)) => match dec_typed_signature(p2) {
                Some((signature, p3)) => if p3.len() != 0 {
                    None
                } else {
                    Some(
                        BodyView {
                            unsigned: UnsignedTransactionView {
                                kind,
                                nonce,
                                max_priority_fee_per_gas,
                                gas_price,
                                gas_limit: c.0,
                                action: c.1,
                                value: c.2,
                                data: c.3,
                                access_list,
                            },
                            signature,
                            chain_id,
                        },
                    )
                },
                None => None,
            },
            None => None,
        },
        None => None,
    }
}

/// The fields of a transaction of type 1.
pub open spec fn dec_eip2930_body(p: Seq<u8>) -> Option<BodyView> {
    match dec_u64(p) {
        Some((id, p1)) => match dec_u256(p1) {
            Some((nonce, p2)) => match dec_u256(p2) {
                Some((gas_price, p3)) => dec_typed_rest(
                    1,
                    id,
                    nonce,
                    U256 { w3: 0, w2: 0, w1: 0, w0: 0 },
                    gas_price,
                    p3,
                ),
                None => None,
            },
            None => None,
        },
        None => None,
    }
}

/// The fields of a transaction of type 2.
pub open spec fn dec_eip1559_body(p: Seq<u8>) -> Option<BodyView> {
    match dec_u64(p) {
        Some((id, p1)) => match dec_u256(p1) {
            Some((nonce, p2)) => match dec_u256(p2) {
                Some((tip, p3)) => match dec_u256(p3) {
                    Some((gas_price, p4)) => dec_typed_rest(2, id, nonce, tip, gas_price, p4),
                    None => None,
                },
                None => None,
            },
            None => None,
        },
        None => None,
    }
}

/// The payload of the one list that a byte string is, if it is one list.
pub open spec fn dec_whole_list(s: Seq<u8>) -> Option<Seq<u8>> {
    match dec_list(s) {
        Some((p, rest)) => if rest.len() == 0 {
            Some(p)
        } else {
            None
        },
        None => None,
    }
}

/// What a wire form holds besides the hash: a list is a transaction of
/// the first kind, and a list behind the byte 1 or 2 a typed one.
pub open spec fn dec_body(s: Seq<u8>, default_chain_id: u64) -> Option<BodyView> {
    if s.len() == 0 {
        None
    } else if s[0] >= 0x80 {
        match dec_whole_list(s) {
            Some(p) => dec_legacy_body(p, default_chain_id),
            None => None,
        }
    } else if s[0] == 1 {
        match dec_whole_list(s.subrange(1, s.len() as int)) {
            Some(p) => dec_eip2930_body(p),
            None => None,
        }
    } else if s[0] == 2 {
        match dec_whole_list(s.subrange(1, s.len() as int)) {
            Some(p) => dec_eip1559_body(p),
            None => None,
        }
    } else {
        None
    }
}

/// The transaction that a byte string is the wire form of, if it is one.
/// Its hash is the digest of the byte string. A transaction of the first
/// kind whose `v` holds no chain id gets the given one.
pub open spec fn spec_decode_utx(s: Seq<u8>, default_chain_id: u64) -> Option<
    UnverifiedTransactionView,
> {
    match dec_body(s, default_chain_id) {
        Some(b) => Some(
            UnverifiedTransactionView {
                unsigned: b.unsigned,
                signature: Some(b.signature),
                chain_id: b.chain_id,
                hash: H256::spec_of(spec_digest(s)),
            },
        ),
        None => None,
    }
}

/// Whether a transaction is one that a wire form can hold: it is signed
/// with parts of 32 bytes, its kind is known, fields that its kind lacks
/// are zero or empty, its hash is the digest of its wire form, and nothing
/// in it is too long to be encoded.
pub open spec fn utx_wf(t: UnverifiedTransactionView) -> bool {
    &&& t.signature is Some
    &&& sig_wf(t.signature->0)
    &&& t.unsigned.kind <= 2
    &&& t.unsigned.kind == 0 ==> {
        &&& t.signature->0.standard_v <= 1
        &&& spec_replay_protection(t.signature->0.standard_v, Some(t.chain_id)) <= u64::MAX
        &&& t.unsigned.access_list.len() == 0
    }
    &&& t.unsigned.kind != 2 ==> t.unsigned.max_priority_fee_per_gas == (U256 {
        w3: 0,
        w2: 0,
        w1: 0,
        w0: 0,
    })
    &&& t.unsigned.data.len() <= u64::MAX
    &&& access_list_wf(t.unsigned.access_list)
    &&& tx_payload(t.unsigned, Some(t.chain_id), t.signature).len() <= u64::MAX
    &&& t.hash@ == spec_digest(utx_encoding(t))
}

/// The body that a well-formed transaction has on the wire.
pub open spec fn body_of(t: UnverifiedTransactionView) -> BodyView {
    BodyView { unsigned: t.unsigned, signature: t.signature->0, chain_id: t.chain_id }
}

/// Decoding the fields of a transaction of the first kind gives them back.
proof fn lemma_legacy_payload(t: UnverifiedTransactionView, default_chain_id: u64)
    requires
        utx_wf(t),
        t.unsigned.kind == 0,
    ensures
        dec_legacy_body(tx_payload(t.unsigned, Some(t.chain_id), t.signature), default_chain_id)
            == Some(body_of(t)),
{
    let u = t.unsigned;
    let sig = t.signature->0;
    let e = Seq::<u8>::empty();
    let payload = tx_payload(u, Some(t.chain_id), t.signature);
    let tail_enc = enc_legacy_tail(Some(t.chain_id), t.signature);
    let t3 = tail_enc + e;
    let t2 = enc_common(u) + t3;
    let t1 = enc_u256(u.gas_price) + t2;
    lemma_dec_enc_u256(u.nonce, t1);
    lemma_dec_enc_u256(u.gas_price, t2);
    lemma_dec_enc_common(u, t3);
    lemma_dec_enc_legacy_tail(t.chain_id, sig, e, default_chain_id);
    assert(payload =~= enc_u256(u.nonce) + t1);
    assert(u.access_list =~= Seq::<AccessListItemView>::empty());
    assert(dec_u256(payload) == Some((u.nonce, t1)));
    assert(dec_u256(t1) == Some((u.gas_price, t2)));
    assert(dec_common(t2) == Some(((u.gas_limit, u.action, u.value, u.data), t3)));
    assert(dec_legacy_tail(t3, default_chain_id) == Some(((t.chain_id, sig), e)));
}

/// Decoding the fields of a typed transaction behind its fees gives them back.
proof fn lemma_typed_rest(t: UnverifiedTransactionView)
    requires
        utx_wf(t),
        t.unsigned.kind != 0,
    ensures
        dec_typed_rest(
            t.unsigned.kind,
            t.chain_id,
            t.unsigned.nonce,
            t.unsigned.max_priority_fee_per_gas,
            t.unsigned.gas_price,
            enc_common(t.unsigned) + enc_access_list(t.unsigned.access_list)
                + enc_typed_signature(t.signature->0),
        ) == Some(body_of(t)),
{
    reveal(dec_typed_rest);
    let u = t.unsigned;
    let sig = t.signature->0;
    let e = Seq::<u8>::empty();
    let t_sig = enc_typed_signature(sig) + e;
    let t_acc = enc_access_list(u.access_list) + t_sig;
    let t_common = enc_common(u) + t_acc;
    lemma_dec_enc_common(u, t_acc);
    lemma_dec_enc_access_list(u.access_list, t_sig);
    lemma_dec_enc_typed_signature(sig, e);
    assert(t_common =~= enc_common(u) + enc_access_list(u.access_list) + enc_typed_signature(
        sig,
    ));
    assert(dec_common(t_common) == Some(((u.gas_limit, u.action, u.value, u.data), t_acc)));
    assert(dec_access_list(t_acc) == Some((u.access_list, t_sig)));
    assert(dec_typed_signature(t_sig) == Some((sig, e)));
}

/// Decoding the fields of a transaction of type 1 gives them back.
proof fn lemma_eip2930_payload(t: UnverifiedTransactionView)
    requires
        utx_wf(t),
        t.unsigned.kind == 1,
    ensures
        dec_eip2930_body(tx_payload(t.unsigned, Some(t.chain_id), t.signature)) == Some(
            body_of(t),
        ),
{
    let u = t.unsigned;
    let sig = t.signature->0;
    let payload = tx_payload(u, Some(t.chain_id), t.signature);
    let t_common = enc_common(u) + enc_access_list(u.access_list) + enc_typed_signature(sig);
    lemma_typed_rest(t);
    let t2 = enc_u256(u.gas_price) + t_common;
    let t1 = enc_u256(u.nonce) + t2;
    lemma_dec_enc_u64(t.chain_id, t1);
    lemma_dec_enc_u256(u.nonce, t2);
    lemma_dec_enc_u256(u.gas_price, t_common);
    assert(payload =~= enc_u64(t.chain_id) + t1);
}

/// Decoding the fields of a transaction of type 2 gives them back.
proof fn lemma_eip1559_payload(t: UnverifiedTransactionView)
    requires
        utx_wf(t),
        t.unsigned.kind == 2,
    ensures
        dec_eip1559_body(tx_payload(t.unsigned, Some(t.chain_id), t.signature)) == Some(
            body_of(t),
        ),
{
    let u = t.unsigned;
    let sig = t.signature->0;
    let payload = tx_payload(u, Some(t.chain_id), t.signature);
    let t_common = enc_common(u) + enc_access_list(u.access_list) + enc_typed_signature(sig);
    lemma_typed_rest(t);
    let t3 = enc_u256(u.gas_price) + t_common;
    let t2 = enc_u256(u.max_priority_fee_per_gas) + t3;
    let t1 = enc_u256(u.nonce) + t2;
    lemma_dec_enc_u64(t.chain_id, t1);
    lemma_dec_enc_u256(u.nonce, t2);
    lemma_dec_enc_u256(u.max_priority_fee_per_gas, t3);
    lemma_dec_enc_u256(u.gas_price, t_common);
    assert(payload =~= enc_u64(t.chain_id) + t1);
}

/// The encoding of a list is the whole of one list, and starts with a
/// byte from 0xc0 on.
proof fn lemma_whole_list(payload: Seq<u8>)
    requires
        payload.len() <= u64::MAX,
    ensures
        dec_whole_list(rlp_list(payload)) == Some(payload),
        rlp_list(payload).len() >= 1,
        rlp_list(payload)[0] >= 0xc0,
{
    let e = Seq::<u8>::empty();
    lemma_dec_list(payload, e);
    assert(rlp_list(payload) + e =~= rlp_list(payload));
    let hdr = crate::codec::rlp::rlp_header(true, payload.len());
    assert(rlp_list(payload)[0] == hdr[0]);
    if payload.len() >= 56 {
        crate::codec::rlp::lemma_scalar_nonzero(payload.len() as u64);
    }
}

/// Decoding the body of the wire form of a transaction gives its body.
pub proof fn lemma_dec_body(t: UnverifiedTransactionView, default_chain_id: u64)
    requires
        utx_wf(t),
    ensures
        dec_body(utx_encoding(t), default_chain_id) == Some(body_of(t)),
{
    let payload = tx_payload(t.unsigned, Some(t.chain_id), t.signature);
    lemma_whole_list(payload);
    let s = utx_encoding(t);
    if t.unsigned.kind == 0 {
        lemma_legacy_payload(t, default_chain_id);
        assert(s == rlp_list(payload));
    } else {
        if t.unsigned.kind == 1 {
            lemma_eip2930_payload(t);
        } else {
            lemma_eip1559_payload(t);
        }
        assert(s[0] == t.unsigned.kind);
        assert(s.subrange(1, s.len() as int) =~= rlp_list(payload));
    }
}

/// Decoding the wire form of a transaction gives the transaction.
pub proof fn lemma_decode_encode_utx(t: UnverifiedTransactionView, default_chain_id: u64)
    requires
        utx_wf(t),
    ensures
        spec_decode_utx(utx_encoding(t), default_chain_id) == Some(t),
{
    broadcast use vstd::array::group_array_axioms;

    lemma_dec_body(t, default_chain_id);
    H256::lemma_spec_of(t.hash@);
}

fn read_action(buf: &[u8], pos: usize) -> (r: Option<(TransactionAction, usize)>)
    requires
        pos <= buf@.len(),
    ensures
        crate::codec::field::reads(buf@, pos, dec_action(tail(buf@, pos as int)), r),
{
    match read_bytes(buf, pos) {
        None => None,
        Some((start, np)) => {
            if np - start == 0 {
                Some((TransactionAction::Create, np))
            } else if np - start == 20 {
                let a = H160::from_slice(slice_subrange(buf, start, np));
                proof {
                    H160::lemma_spec_of(a@);
                }
                Some((TransactionAction::Call(a), np))
            } else {
                None
            }
        },
    }
}

fn read_sig_scalar(buf: &[u8], pos: usize) -> (r: Option<(Vec<u8>, usize)>)
    requires
        pos <= buf@.len(),
    ensures
        match dec_sig_scalar(tail(buf@, pos as int)) {
            None => r is None,
            Some((v, rest)) => {
                &&& r matches Some((got, np))
                &&& got@ == v
                &&& pos <= np <= buf@.len()
                &&& tail(buf@, np as int) == rest
            },
        },
{
    match read_u256(buf, pos) {
        None => None,
        Some((u, np)) => Some((u.to_be_bytes(), np)),
    }
}

fn read_sig_fixed(buf: &[u8], pos: usize) -> (r: Option<(Vec<u8>, usize)>)
    requires
        pos <= buf@.len(),
    ensures
        match dec_fixed(tail(buf@, pos as int), 32) {
            None => r is None,
            Some((v, rest)) => {
                &&& r matches Some((got, np))
                &&& got@ == v
                &&& pos <= np <= buf@.len()
                &&& tail(buf@, np as int) == rest
            },
        },
{
    match read_fixed(buf, pos, 32) {
        None => None,
        Some((start, np)) => Some((slice_to_vec(slice_subrange(buf, start, np)), np)),
    }
}

fn read_typed_signature(buf: &[u8], pos: usize) -> (r: Option<(SignatureComponents, usize)>)
    requires
        pos <= buf@.len(),
    ensures
        match dec_typed_signature(tail(buf@, pos as int)) {
            None => r is None,
            Some((v, rest)) => {
                &&& r matches Some((got, np))
                &&& got@ == v
                &&& pos <= np <= buf@.len()
                &&& tail(buf@, np as int) == rest
            },
        },
{
    let (v, p1) = match read_u64(buf, pos) {
        None => { return None; },
        Some(x) => x,
    };
    if v > 255 {
        return None;
    }
    if v <= 1 {
        let (r, p2) = match read_sig_scalar(buf, p1) {
            None => { return None; },
            Some(x) => x,
        };
        let (s, p3) = match read_sig_scalar(buf, p2) {
            None => { return None; },
            Some(x) => x,
        };
        Some((SignatureComponents { r, s, standard_v: v as u8 }, p3))
    } else {
        let (r, p2) = match read_sig_fixed(buf, p1) {
            None => { return None; },
            Some(x) => x,
        };
        let (s, p3) = match read_sig_fixed(buf, p2) {
            None => { return None; },
            Some(x) => x,
        };
        Some((SignatureComponents { r, s, standard_v: v as u8 }, p3))
    }
}

fn read_legacy_tail(buf: &[u8], pos: usize, default_chain_id: u64) -> (r: Option<
    (u64, SignatureComponents, usize),
>)
    requires
        pos <= buf@.len(),
    ensures
        match dec_legacy_tail(tail(buf@, pos as int), default_chain_id) {
            None => r is None,
            Some((v, rest)) => {
                &&& r matches Some((id, got, np))
                &&& id == v.0
                &&& got@ == v.1
                &&& pos <= np <= buf@.len()
                &&& tail(buf@, np as int) == rest
            },
        },
{
    let (v, p1) = match read_u64(buf, pos) {
        None => { return None; },
        Some(x) => x,
    };
    let standard_v = match SignatureComponents::extract_standard_v(v) {
        None => { return None; },
        Some(x) => x,
    };
    let (r, p2) = match read_sig_scalar(buf, p1) {
        None => { return None; },
        Some(x) => x,
    };
    let (s, p3) = match read_sig_scalar(buf, p2) {
        None => { return None; },
        Some(x) => x,
    };
    let id = match SignatureComponents::extract_chain_id(v) {
        Some(id) => id,
        None => default_chain_id,
    };
    Some((id, SignatureComponents { r, s, standard_v }, p3))
}

fn read_access_item(buf: &[u8]) -> (r: Option<AccessListItem>)
    ensures
        match dec_access_item(buf@) {
            None => r is None,
            Some(v) => r matches Some(got) && got@ == v,
        },
{
    proof {
        lemma_tail_tail(buf@, 0, 0);
    }
    let (address, p1) = match read_h160(buf, 0) {
        None => { return None; },
        Some(x) => x,
    };
    let (start, p2) = match read_list(buf, p1) {
        None => { return None; },
        Some(x) => x,
    };
    if p2 != buf.len() {
        return None;
    }
    let keys = match read_hashes(slice_subrange(buf, start, p2)) {
        None => { return None; },
        Some(x) => x,
    };
    proof {
        H160::lemma_spec_of(address@);
    }
    Some(AccessListItem { address, storage_keys: keys })
}

fn read_access_items(buf: &[u8]) -> (r: Option<Vec<AccessListItem>>)
    ensures
        match dec_access_items(buf@) {
            None => r is None,
            Some(v) => r matches Some(got) && access_list_view(got@) == v,
        },
{
    let mut out: Vec<AccessListItem> = Vec::new();
    let mut pos: usize = 0;
    proof {
        lemma_tail_tail(buf@, 0, 0);
        assert(access_list_view(out@) =~= Seq::<AccessListItemView>::empty());
    }
    while pos < buf.len()
        invariant
            pos <= buf@.len(),
            match dec_access_items(tail(buf@, pos as int)) {
                Some(l) => dec_access_items(buf@) == Some(access_list_view(out@) + l),
                None => dec_access_items(buf@) is None,
            },
        decreases buf@.len() - pos,
    {
        let ghost s = tail(buf@, pos as int);
        let (start, np) = match read_list(buf, pos) {
            None => { return None; },
            Some(x) => x,
        };
        if np == pos {
            proof {
                assert(tail(buf@, np as int).len() == s.len());
            }
            return None;
        }
        let item = match read_access_item(slice_subrange(buf, start, np)) {
            None => { return None; },
            Some(x) => x,
        };
        proof {
            let rest = tail(buf@, np as int);
            assert(rest.len() == buf@.len() - np);
            match dec_access_items(rest) {
                Some(l) => {
                    assert(access_list_view(out@.push(item)) + l =~= access_list_view(out@) + (
                    seq![item@] + l));
                },
                None => {},
            }
        }
        out.push(item);
        pos = np;
    }
    proof {
        assert(tail(buf@, pos as int).len() == 0);
        assert(access_list_view(out@) + Seq::<AccessListItemView>::empty() =~= access_list_view(
            out@,
        ));
    }
    Some(out)
}

fn read_access_list(buf: &[u8], pos: usize) -> (r: Option<(Vec<AccessListItem>, usize)>)
    requires
        pos <= buf@.len(),
    ensures
        match dec_access_list(tail(buf@, pos as int)) {
            None => r is None,
            Some((v, rest)) => {
                &&& r matches Some((got, np))
                &&& access_list_view(got@) == v
                &&& pos <= np <= buf@.len()
                &&& tail(buf@, np as int) == rest
            },
        },
{
    let (start, np) = match read_list(buf, pos) {
        None => { return None; },
        Some(x) => x,
    };
    match read_access_items(slice_subrange(buf, start, np)) {
        None => None,
        Some(l) => Some((l, np)),
    }
}

/// Gas limit, action, value and data, as they were read.
pub struct Common {
    pub gas_limit: U256,
    pub action: TransactionAction,
    pub value: U256,
    pub data: Vec<u8>,
}

fn read_common(buf: &[u8], pos: usize) -> (r: Option<(Common, usize)>)
    requires
        pos <= buf@.len(),
    ensures
        match dec_common(tail(buf@, pos as int)) {
            None => r is None,
            Some((v, rest)) => {
                &&& r matches Some((got, np))
                &&& got.gas_limit == v.0
                &&& got.action == v.1
                &&& got.value == v.2
                &&& got.data@ == v.3
                &&& pos <= np <= buf@.len()
                &&& tail(buf@, np as int) == rest
            },
        },
{
    let (gas_limit, p1) = match read_u256(buf, pos) {
        None => { return None; },
        Some(x) => x,
    };
    let (action, p2) = match read_action(buf, p1) {
        None => { return None; },
        Some(x) => x,
    };
    let (value, p3) = match read_u256(buf, p2) {
        None => { return None; },
        Some(x) => x,
    };
    let (start, p4) = match read_bytes(buf, p3) {
        None => { return None; },
        Some(x) => x,
    };
    let data = slice_to_vec(slice_subrange(buf, start, p4));
    Some((Common { gas_limit, action, value, data }, p4))
}

/// What was read of a wire form besides the hash.
pub struct Body {
    pub unsigned: UnsignedTransaction,
    pub signature: SignatureComponents,
    pub chain_id: u64,
}

/// Whether what was read is what the wire form holds.
pub open spec fn body_is(got: Option<Body>, want: Option<BodyView>) -> bool {
    match want {
        None => got is None,
        Some(v) => {
            &&& got matches Some(b)
            &&& b.unsigned@ == v.unsigned
            &&& b.signature@ == v.signature
            &&& b.chain_id == v.chain_id
        },
    }
}

fn read_legacy_body(p: &[u8], default_chain_id: u64) -> (r: Option<Body>)
    ensures
        body_is(r, dec_legacy_body(p@, default_chain_id)),
{
    proof {
        lemma_tail_tail(p@, 0, 0);
    }
    let (nonce, p1) = match read_u256(p, 0) {
        None => { return None; },
        Some(x) => x,
    };
    let (gas_price, p2) = match read_u256(p, p1) {
        None => { return None; },
        Some(x) => x,
    };
    let (c, p3) = match read_common(p, p2) {
        None => { return None; },
        Some(x) => x,
    };
    let (chain_id, signature, p4) = match read_legacy_tail(p, p3, default_chain_id) {
        None => { return None; },
        Some(x) => x,
    };
    if p4 != p.len() {
        return None;
    }
    Some(
        Body {
            unsigned: UnsignedTransaction::Legacy(
                LegacyTransaction {
                    nonce,
                    gas_price,
                    gas_limit: c.gas_limit,
                    action: c.action,
                    value: c.value,
                    data: c.data,
                },
            ),
            signature,
            chain_id,
        },
    )
}

/// The fields of a typed transaction behind its fees, as they were read.
pub struct TypedRest {
    pub common: Common,
    pub access_list: Vec<AccessListItem>,
    pub signature: SignatureComponents,
}

fn read_typed_rest(p: &[u8], pos: usize) -> (r: Option<TypedRest>)
    requires
        pos <= p@.len(),
    ensures
        forall|kind: u8, chain_id: u64, nonce: U256, tip: U256, gas_price: U256|
            match #[trigger] dec_typed_rest(
                kind,
                chain_id,
                nonce,
                tip,
                gas_price,
                tail(p@, pos as int),
            ) {
                None => r is None,
                Some(v) => {
                    &&& r matches Some(got)
                    &&& v.unsigned.kind == kind
                    &&& v.unsigned.nonce == nonce
                    &&& v.unsigned.max_priority_fee_per_gas == tip
                    &&& v.unsigned.gas_price == gas_price
                    &&& v.chain_id == chain_id
                    &&& got.common.gas_limit == v.unsigned.gas_limit
                    &&& got.common.action == v.unsigned.action
                    &&& got.common.value == v.unsigned.value
                    &&& got.common.data@ == v.unsigned.data
                    &&& access_list_view(got.access_list@) == v.unsigned.access_list
                    &&& got.signature@ == v.signature
                },
            },
{
    proof {
        reveal(dec_typed_rest);
    }
    let (common, p1) = match read_common(p, pos) {
        None => { return None; },
        Some(x) => x,
    };
    let (access_list, p2) = match read_access_list(p, p1) {
        None => { return None; },
        Some(x) => x,
    };
    let (signature, p3) = match read_typed_signature(p, p2) {
        None => { return None; },
        Some(x) => x,
    };
    if p3 != p.len() {
        return None;
    }
    Some(TypedRest { common, access_list, signature })
}

fn read_eip2930_body(p: &[u8]) -> (r: Option<Body>)
    ensures
        body_is(r, dec_eip2930_body(p@)),
{
    proof {
        lemma_tail_tail(p@, 0, 0);
    }
    let (chain_id, p1) = match read_u64(p, 0) {
        None => { return None; },
        Some(x) => x,
    };
    let (nonce, p2) = match read_u256(p, p1) {
        None => { return None; },
        Some(x) => x,
    };
    let (gas_price, p3) = match read_u256(p, p2) {
        None => { return None; },
        Some(x) => x,
    };
    let rest = match read_typed_rest(p, p3) {
        None => { return None; },
        Some(x) => x,
    };
    Some(
        Body {
            unsigned: UnsignedTransaction::Eip2930(
                Eip2930Transaction {
                    nonce,
                    gas_price,
                    gas_limit: rest.common.gas_limit,
                    action: rest.common.action,
                    value: rest.common.value,
                    data: rest.common.data,
                    access_list: rest.access_list,
                },
            ),
            signature: rest.signature,
            chain_id,
        },
    )
}

fn read_eip1559_body(p: &[u8]) -> (r: Option<Body>)
    ensures
        body_is(r, dec_eip1559_body(p@)),
{
    proof {
        lemma_tail_tail(p@, 0, 0);
    }
    let (chain_id, p1) = match read_u64(p, 0) {
        None => { return None; },
        Some(x) => x,
    };
    let (nonce, p2) = match read_u256(p, p1) {
        None => { return None; },
        Some(x) => x,
    };
    let (tip, p3) = match read_u256(p, p2) {
        None => { return None; },
        Some(x) => x,
    };
    let (gas_price, p4) = match read_u256(p, p3) {
        None => { return None; },
        Some(x) => x,
    };
    let rest = match read_typed_rest(p, p4) {
        None => { return None; },
        Some(x) => x,
    };
    Some(
        Body {
            unsigned: UnsignedTransaction::Eip1559(
                Eip1559Transaction {
                    nonce,
                    max_priority_fee_per_gas: tip,
                    gas_price,
                    gas_limit: rest.common.gas_limit,
                    action: rest.common.action,
                    value: rest.common.value,
                    data: rest.common.data,
                    access_list: rest.access_list,
                },
            ),
            signature: rest.signature,
            chain_id,
        },
    )
}

/// Where the payload of the one list lies that a buffer is, if it is one list.
fn read_whole_list(buf: &[u8]) -> (r: Option<(usize, usize)>)
    ensures
        match dec_whole_list(buf@) {
            None => r is None,
            Some(p) => r matches Some((start, end)) && start <= end <= buf@.len() && buf@.subrange(
                start as int,
                end as int,
            ) == p,
        },
{
    proof {
        lemma_tail_tail(buf@, 0, 0);
    }
    match read_list(buf, 0) {
        None => None,
        Some((start, np)) => if np == buf.len() {
            Some((start, np))
        } else {
            None
        },
    }
}

fn read_body(buf: &[u8], default_chain_id: u64) -> (r: Option<Body>)
    ensures
        body_is(r, dec_body(buf@, default_chain_id)),
{
    if buf.len() == 0 {
        return None;
    }
    let first: u8 = buf[0];
    if first >= 0x80 {
        match read_whole_list(buf) {
            None => None,
            Some((start, end)) => read_legacy_body(
                slice_subrange(buf, start, end),
                default_chain_id,
            ),
        }
    } else if first == 1 {
        let inner = slice_subrange(buf, 1, buf.len());
        match read_whole_list(inner) {
            None => None,
            Some((start, end)) => read_eip2930_body(slice_subrange(inner, start, end)),
        }
    } else if first == 2 {
        let inner = slice_subrange(buf, 1, buf.len());
        match read_whole_list(inner) {
            None => None,
            Some((start, end)) => read_eip1559_body(slice_subrange(inner, start, end)),
        }
    } else {
        None
    }
}

impl UnverifiedTransaction {
    /// The transaction that `bytes` is the wire form of, with the digest
    /// of `bytes` as its hash; `None` where `bytes` is the wire form of none.
    ///
    /// A transaction of the first kind whose `v` holds no chain id gets
    /// `default_chain_id`.
    pub fn decode(bytes: &[u8], default_chain_id: u64) -> (r: Option<UnverifiedTransaction>)
        ensures
            match spec_decode_utx(bytes@, default_chain_id) {
                Some(v) => r matches Some(t) && t@ == v,
                None => r is None,
            },
    {
        broadcast use vstd::array::group_array_axioms;

        match read_body(bytes, default_chain_id) {
            None => None,
            Some(b) => {
                let hash = Hasher::digest(bytes);
                proof {
                    H256::lemma_spec_of(hash@);
                }
                Some(
                    UnverifiedTransaction {
                        unsigned: b.unsigned,
                        signature: Some(b.signature),
                        chain_id: b.chain_id,
                        hash,
                    },
                )
            },
        }
    }
}

} // verus!
