//! The wire form of transactions.
//!
//! A transaction of the first kind is the list of nonce, gas price, gas
//! limit, action, value, data and the signature `v`, `r`, `s`, where `v`
//! holds the chain id. A typed transaction is its type byte and then the
//! list of chain id, nonce, fees, gas limit, action, value, data, access
//! list and signature.

use crate::codec::field::{
    enc_bytes, enc_h160, enc_hashes, enc_u256, enc_u64, push_bytes, push_h160, push_hashes,
    push_u256, push_u64,
};
use crate::codec::rlp::{push_list, push_str, rlp_list, rlp_str};
use crate::types::hash::{spec_digest, Hasher, H256};
use crate::types::transaction::{
    spec_replay_protection, AccessListItem, AccessListItemView, SignatureComponents,
    SignatureComponentsView, TransactionAction, UnsignedTransaction, UnsignedTransactionView,
    UnverifiedTransaction, UnverifiedTransactionView,
};
use crate::types::uint::{leading_zeros, strip_zeros};
use vstd::prelude::*;
use vstd::slice::slice_subrange;

verus! {

/// At most the first `n` items of a sequence.
pub open spec fn spec_truncate(s: Seq<u8>, n: nat) -> Seq<u8> {
    if s.len() <= n {
        s
    } else {
        s.subrange(0, n as int)
    }
}

/// At most the first `n` items of a slice.
pub fn truncate_slice(s: &[u8], n: usize) -> (r: &[u8])
    ensures
        r@ == spec_truncate(s@, n as nat),
{
    if s.len() <= n {
        s
    } else {
        slice_subrange(s, 0, n)
    }
}

/// The encoding of an action: the address to call, or the empty string to create.
pub open spec fn enc_action(a: TransactionAction) -> Seq<u8> {
    match a {
        TransactionAction::Call(addr) => enc_h160(addr),
        TransactionAction::Create => rlp_str(Seq::empty()),
    }
}

/// The encoding of a part of a signature as a number: the first 32 bytes
/// at most, without leading zeros.
pub open spec fn enc_sig_scalar(part: Seq<u8>) -> Seq<u8> {
    rlp_str(strip_zeros(spec_truncate(part, 32)))
}

/// The encoding of one item of an access list: the list of the address
/// and the list of the storage keys.
pub open spec fn enc_access_item(item: AccessListItemView) -> Seq<u8> {
    rlp_list(enc_h160(item.address) + rlp_list(enc_hashes(item.storage_keys)))
}

/// The encodings of the items of an access list, one after another.
pub open spec fn enc_access_items(l: Seq<AccessListItemView>) -> Seq<u8>
    decreases l.len(),
{
    if l.len() == 0 {
        Seq::empty()
    } else {
        enc_access_item(l[0]) + enc_access_items(l.drop_first())
    }
}

/// The encoding of an access list: the list of its items.
pub open spec fn enc_access_list(l: Seq<AccessListItemView>) -> Seq<u8> {
    rlp_list(enc_access_items(l))
}

/// The signature of a typed transaction: the recovery id and then `r` and
/// `s`, as numbers where the recovery id is 0 or 1 and as byte strings else.
pub open spec fn enc_typed_signature(sig: SignatureComponentsView) -> Seq<u8> {
    if sig.standard_v <= 1 {
        enc_u64(sig.standard_v as u64) + enc_sig_scalar(sig.r) + enc_sig_scalar(sig.s)
    } else {
        enc_u64(sig.standard_v as u64) + enc_bytes(sig.r) + enc_bytes(sig.s)
    }
}

/// What closes the list of a transaction of the first kind: the signature
/// with the chain id in `v`; without a signature the chain id and two
/// zeros; without either nothing.
pub open spec fn enc_legacy_tail(chain_id: Option<u64>, sig: Option<SignatureComponentsView>)
    -> Seq<u8> {
    match sig {
        Some(s) => enc_u64(spec_replay_protection(s.standard_v, chain_id) as u64)
            + enc_sig_scalar(s.r) + enc_sig_scalar(s.s),
        None => match chain_id {
            Some(id) => enc_u64(id) + enc_u64(0) + enc_u64(0),
            None => Seq::empty(),
        },
    }
}

/// The fields that every kind of transaction has, in their order.
pub open spec fn enc_common(t: UnsignedTransactionView) -> Seq<u8> {
    enc_u256(t.gas_limit) + enc_action(t.action) + enc_u256(t.value) + enc_bytes(t.data)
}

/// The items of the list that encodes a transaction.
pub open spec fn tx_payload(
    t: UnsignedTransactionView,
    chain_id: Option<u64>,
    sig: Option<SignatureComponentsView>,
) -> Seq<u8> {
    let id: u64 = match chain_id {
        Some(n) => n,
        None => 0,
    };
    let typed_sig = match sig {
        Some(s) => enc_typed_signature(s),
        None => Seq::empty(),
    };
    if t.kind == 0 {
        enc_u256(t.nonce) + enc_u256(t.gas_price) + enc_common(t) + enc_legacy_tail(chain_id, sig)
    } else if t.kind == 1 {
        enc_u64(id) + enc_u256(t.nonce) + enc_u256(t.gas_price) + enc_common(t) + enc_access_list(
            t.access_list,
        ) + typed_sig
    } else {
        enc_u64(id) + enc_u256(t.nonce) + enc_u256(t.max_priority_fee_per_gas) + enc_u256(
            t.gas_price,
        ) + enc_common(t) + enc_access_list(t.access_list) + typed_sig
    }
}

/// The wire form of a transaction: the list of its items, behind the type
/// byte where it is typed.
pub open spec fn tx_encoding(
    t: UnsignedTransactionView,
    chain_id: Option<u64>,
    sig: Option<SignatureComponentsView>,
) -> Seq<u8> {
    if t.kind == 0 {
        rlp_list(tx_payload(t, chain_id, sig))
    } else {
        seq![t.kind] + rlp_list(tx_payload(t, chain_id, sig))
    }
}

/// The wire form of an unverified transaction.
pub open spec fn utx_encoding(t: UnverifiedTransactionView) -> Seq<u8> {
    tx_encoding(t.unsigned, Some(t.chain_id), t.signature)
}

/// Whether the legacy `v` of a transaction fits in 64 bits.
pub open spec fn v_fits(t: UnverifiedTransactionView) -> bool {
    t.unsigned.kind == 0 && t.signature is Some ==> spec_replay_protection(
        t.signature->0.standard_v,
        Some(t.chain_id),
    ) <= u64::MAX
}

fn push_action(out: &mut Vec<u8>, a: &TransactionAction)
    ensures
        final(out)@ == old(out)@ + enc_action(*a),
{
    match a {
        TransactionAction::Call(addr) => push_h160(out, addr),
        TransactionAction::Create => {
            let empty: Vec<u8> = Vec::new();
            push_str(out, empty.as_slice());
            assert(empty@ =~= Seq::<u8>::empty());
        },
    }
}

fn push_sig_scalar(out: &mut Vec<u8>, part: &Vec<u8>)
    ensures
        final(out)@ == old(out)@ + enc_sig_scalar(part@),
{
    let t = truncate_slice(part.as_slice(), 32);
    let k = leading_zeros(t);
    let stripped = slice_subrange(t, k, t.len());
    push_str(out, stripped);
}

fn push_access_list(out: &mut Vec<u8>, l: &Vec<AccessListItem>)
    ensures
        final(out)@ == old(out)@ + enc_access_list(crate::types::transaction::access_list_view(l@)),
{
    let ghost before = out@;
    let ghost lv = crate::types::transaction::access_list_view(l@);
    let mut items: Vec<u8> = Vec::new();
    let mut i: usize = 0;
    assert(lv.subrange(0, lv.len() as int) =~= lv);
    assert(items@ + enc_access_items(lv) =~= enc_access_items(lv));
    while i < l.len()
        invariant
            i <= l@.len(),
            lv == crate::types::transaction::access_list_view(l@),
            items@ + enc_access_items(lv.subrange(i as int, lv.len() as int)) == enc_access_items(
                lv,
            ),
        decreases l@.len() - i,
    {
        let ghost t = lv.subrange(i as int, lv.len() as int);
        assert(t.drop_first() =~= lv.subrange(i + 1, lv.len() as int));
        assert(t[0] == l@[i as int]@);
        let mut keys: Vec<u8> = Vec::new();
        push_hashes(&mut keys, &l[i].storage_keys);
        assert(keys@ =~= enc_hashes(l@[i as int].storage_keys@));
        let mut item: Vec<u8> = Vec::new();
        push_h160(&mut item, &l[i].address);
        push_list(&mut item, keys.as_slice());
        assert(item@ =~= enc_h160(l@[i as int].address) + rlp_list(
            enc_hashes(l@[i as int].storage_keys@),
        ));
        let ghost mid = items@;
        push_list(&mut items, item.as_slice());
        assert(items@ + enc_access_items(t.drop_first()) =~= mid + enc_access_items(t));
        i += 1;
    }
    assert(lv.subrange(lv.len() as int, lv.len() as int) =~= Seq::<AccessListItemView>::empty());
    assert(items@ =~= items@ + enc_access_items(Seq::<AccessListItemView>::empty()));
    push_list(out, items.as_slice());
}

fn push_typed_signature(out: &mut Vec<u8>, sig: &SignatureComponents)
    ensures
        final(out)@ == old(out)@ + enc_typed_signature(sig@),
{
    let ghost before = out@;
    push_u64(out, sig.standard_v as u64);
    if sig.is_eth_sig() {
        push_sig_scalar(out, &sig.r);
        push_sig_scalar(out, &sig.s);
    } else {
        push_bytes(out, sig.r.as_slice());
        push_bytes(out, sig.s.as_slice());
    }
    assert(out@ =~= before + enc_typed_signature(sig@));
}

fn push_common(out: &mut Vec<u8>, t: &UnsignedTransaction)
    ensures
        final(out)@ == old(out)@ + enc_common(t@),
{
    let ghost before = out@;
    push_u256(out, &t.gas_limit());
    push_action(out, &t.action());
    push_u256(out, &t.value());
    push_bytes(out, t.data().as_slice());
    assert(out@ =~= before + enc_common(t@));
}

impl UnsignedTransaction {
    /// The wire form of the body with the given chain id and signature.
    pub fn encode(&self, chain_id: Option<u64>, signature: Option<&SignatureComponents>) -> (r:
        Vec<u8>)
        requires
            self@.kind == 0 && signature is Some ==> spec_replay_protection(
                signature->0.standard_v,
                chain_id,
            ) <= u64::MAX,
        ensures
            r@ == tx_encoding(
                self@,
                chain_id,
                match signature {
                    Some(s) => Some(s@),
                    None => None,
                },
            ),
    {
        let ghost sig_view: Option<SignatureComponentsView> = match signature {
            Some(s) => Some(s@),
            None => None,
        };
        let mut payload: Vec<u8> = Vec::new();
        let id: u64 = match chain_id {
            Some(n) => n,
            None => 0,
        };
        match self {
            UnsignedTransaction::Legacy(t) => {
                push_u256(&mut payload, &t.nonce);
                push_u256(&mut payload, &t.gas_price);
                push_common(&mut payload, self);
                let ghost head = payload@;
                match signature {
                    Some(sig) => {
                        push_u64(&mut payload, sig.add_chain_replay_protection(chain_id));
                        push_sig_scalar(&mut payload, &sig.r);
                        push_sig_scalar(&mut payload, &sig.s);
                    },
                    None => match chain_id {
                        Some(id) => {
                            push_u64(&mut payload, id);
                            push_u64(&mut payload, 0);
                            push_u64(&mut payload, 0);
                        },
                        None => {},
                    },
                }
                assert(payload@ =~= head + enc_legacy_tail(chain_id, sig_view));
            },
            UnsignedTransaction::Eip2930(t) => {
                push_u64(&mut payload, id);
                push_u256(&mut payload, &t.nonce);
                push_u256(&mut payload, &t.gas_price);
                push_common(&mut payload, self);
                push_access_list(&mut payload, &t.access_list);
                match signature {
                    Some(sig) => push_typed_signature(&mut payload, sig),
                    None => {},
                }
            },
            UnsignedTransaction::Eip1559(t) => {
                push_u64(&mut payload, id);
                push_u256(&mut payload, &t.nonce);
                push_u256(&mut payload, &t.max_priority_fee_per_gas);
                push_u256(&mut payload, &t.gas_price);
                push_common(&mut payload, self);
                push_access_list(&mut payload, &t.access_list);
                match signature {
                    Some(sig) => push_typed_signature(&mut payload, sig),
                    None => {},
                }
            },
        }
        assert(payload@ =~= tx_payload(self@, chain_id, sig_view));
        let mut out: Vec<u8> = Vec::new();
        if !self.is_legacy() {
            out.push(self.as_u8());
        }
        push_list(&mut out, payload.as_slice());
        assert(out@ =~= tx_encoding(self@, chain_id, sig_view));
        out
    }
}

impl UnverifiedTransaction {
    /// Whether the legacy `v` of the transaction fits in 64 bits, as its
    /// wire form needs it.
    pub fn v_in_range(&self) -> (r: bool)
        ensures
            r == v_fits(self@),
    {
        match (&self.unsigned, &self.signature) {
            (UnsignedTransaction::Legacy(_), Some(sig)) => {
                self.chain_id <= (u64::MAX - 35 - (sig.standard_v as u64)) / 2
            },
            _ => true,
        }
    }

    /// The wire form of the transaction.
    pub fn rlp_bytes(&self) -> (r: Vec<u8>)
        requires
            v_fits(self@),
        ensures
            r@ == utx_encoding(self@),
    {
        let sig: Option<&SignatureComponents> = match &self.signature {
            Some(s) => Some(s),
            None => None,
        };
        self.unsigned.encode(Some(self.chain_id), sig)
    }

    /// The transaction with its hash set to the digest of its wire form.
    pub fn calc_hash(self) -> (r: Self)
        requires
            v_fits(self@),
        ensures
            r.hash@ == spec_digest(utx_encoding(self@)),
            r.unsigned == self.unsigned,
            r.signature == self.signature,
            r.chain_id == self.chain_id,
    {
        let bytes = self.rlp_bytes();
        let hash = Hasher::digest(bytes.as_slice());
        UnverifiedTransaction {
            unsigned: self.unsigned,
            signature: self.signature,
            chain_id: self.chain_id,
            hash,
        }
    }

    /// Whether the hash of the transaction is the digest of its wire form.
    pub fn check_hash(&self) -> (r: bool)
        requires
            v_fits(self@),
        ensures
            r == (self.hash@ == spec_digest(utx_encoding(self@))),
    {
        let bytes = self.rlp_bytes();
        let hash = Hasher::digest(bytes.as_slice());
        hash.same(&self.hash)
    }

    /// The digest that the signature of the transaction signs: that of the
    /// body without signature, with the chain id where asked.
    pub fn signature_hash(&self, with_chain_id: bool) -> (r: H256)
        ensures
            r@ == spec_digest(
                tx_encoding(
                    self@.unsigned,
                    if with_chain_id {
                        Some(self.chain_id)
                    } else {
                        None
                    },
                    None,
                ),
            ),
    {
        let chain_id = if with_chain_id {
            Some(self.chain_id)
        } else {
            None
        };
        let bytes = self.unsigned.encode(chain_id, None);
        Hasher::digest(bytes.as_slice())
    }
}

} // verus!
