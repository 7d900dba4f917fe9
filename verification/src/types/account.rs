//! Accounts of the world state and their wire form.

use crate::codec::field::{
    dec_fixed, dec_list, dec_u256, enc_h256, enc_u256, lemma_dec_enc_h256, lemma_dec_enc_u256,
    lemma_dec_list, lemma_tail_tail, push_h256, push_u256, read_h256, read_list, read_u256,
};
use crate::codec::rlp::{push_list, rlp_list};
use crate::types::hash::{nil_data_bytes, nil_hash, H256};
use crate::types::uint::U256;
use vstd::prelude::*;
use vstd::slice::slice_subrange;

verus! {

/// An account: its transaction count, its balance, the root of its storage
/// and the hash of its code.
#[derive(Clone, Copy, Debug, PartialEq, Eq)]
pub struct Account {
    pub nonce: U256,
    pub balance: U256,
    pub storage_root: H256,
    pub code_hash: H256,
}

/// The nonce and balance of an account.
#[derive(Clone, Copy, Debug, PartialEq, Eq, Structural)]
pub struct Basic {
    pub balance: U256,
    pub nonce: U256,
}

impl Account {
    /// The four fields of the list that encodes the account.
    pub open spec fn payload(&self) -> Seq<u8> {
        enc_u256(self.nonce) + enc_u256(self.balance) + enc_h256(self.storage_root) + enc_h256(
            self.code_hash,
        )
    }

    /// The wire form: the list of nonce, balance, storage root and code hash.
    pub open spec fn spec_encode(&self) -> Seq<u8> {
        rlp_list(self.payload())
    }

    /// The account that a byte string encodes, if it encodes one: a list of
    /// exactly these four fields, with nothing behind it.
    pub open spec fn spec_decode(s: Seq<u8>) -> Option<Account> {
        match dec_list(s) {
            Some((p, rest)) => if rest.len() != 0 {
                None
            } else {
                match dec_u256(p) {
                    Some((nonce, p1)) => match dec_u256(p1) {
                        Some((balance, p2)) => match dec_fixed(p2, 32) {
                            Some((sr, p3)) => match dec_fixed(p3, 32) {
                                Some((ch, p4)) => if p4.len() != 0 {
                                    None
                                } else {
                                    Some(
                                        Account {
                                            nonce,
                                            balance,
                                            storage_root: H256::spec_of(sr),
                                            code_hash: H256::spec_of(ch),
                                        },
                                    )
                                },
                                None => None,
                            },
                            None => None,
                        },
                        None => None,
                    },
                    None => None,
                }
            },
            None => None,
        }
    }

    /// No balance, no transactions and no code.
    pub open spec fn spec_is_empty(&self) -> bool {
        self.balance@ == 0 && self.nonce@ == 0 && self.code_hash@ == nil_data_bytes()
    }

    /// The account of an address that the state does not hold.
    pub open spec fn spec_default() -> Account {
        Account {
            nonce: U256 { w3: 0, w2: 0, w1: 0, w0: 0 },
            balance: U256 { w3: 0, w2: 0, w1: 0, w0: 0 },
            storage_root: H256::spec_of(nil_data_bytes()),
            code_hash: H256::spec_of(nil_data_bytes()),
        }
    }

    /// The account of an address that the state does not hold: nothing in
    /// it, with the nil hash for storage root and code hash.
    pub fn empty() -> (a: Account)
        ensures
            a == Self::spec_default(),
            a.nonce@ == 0,
            a.balance@ == 0,
            a.storage_root@ == nil_data_bytes(),
            a.code_hash@ == nil_data_bytes(),
            a.spec_is_empty(),
    {
        let a = Account {
            nonce: U256::zero(),
            balance: U256::zero(),
            storage_root: nil_hash(),
            code_hash: nil_hash(),
        };
        proof {
            H256::lemma_spec_of(nil_data_bytes());
        }
        a
    }

    /// Whether the account is empty: no balance, no nonce, no code.
    pub fn is_empty(&self) -> (r: bool)
        ensures
            r == self.spec_is_empty(),
    {
        let nil = nil_hash();
        self.balance.is_zero() && self.nonce.is_zero() && self.code_hash.same(&nil)
    }

    /// The wire form of the account.
    pub fn encode(&self) -> (r: Vec<u8>)
        ensures
            r@ == self.spec_encode(),
    {
        let mut payload: Vec<u8> = Vec::new();
        push_u256(&mut payload, &self.nonce);
        push_u256(&mut payload, &self.balance);
        push_h256(&mut payload, &self.storage_root);
        push_h256(&mut payload, &self.code_hash);
        assert(payload@ =~= self.payload());
        let mut out: Vec<u8> = Vec::new();
        push_list(&mut out, payload.as_slice());
        assert(out@ =~= self.spec_encode());
        out
    }

    /// The account that `bytes` encodes, or `None` where they encode none.
    pub fn decode(bytes: &[u8]) -> (r: Option<Account>)
        ensures
            r == Self::spec_decode(bytes@),
    {
        proof {
            lemma_tail_tail(bytes@, 0, 0);
        }
        let (start, end) = match read_list(bytes, 0) {
            None => { return None; },
            Some(x) => x,
        };
        if end != bytes.len() {
            return None;
        }
        let p = slice_subrange(bytes, start, end);
        proof {
            lemma_tail_tail(p@, 0, 0);
        }
        let (nonce, n1) = match read_u256(p, 0) {
            None => { return None; },
            Some(x) => x,
        };
        let (balance, n2) = match read_u256(p, n1) {
            None => { return None; },
            Some(x) => x,
        };
        let (storage_root, n3) = match read_h256(p, n2) {
            None => { return None; },
            Some(x) => x,
        };
        let (code_hash, n4) = match read_h256(p, n3) {
            None => { return None; },
            Some(x) => x,
        };
        if n4 != p.len() {
            return None;
        }
        let a = Account { nonce, balance, storage_root, code_hash };
        proof {
            H256::lemma_spec_of(storage_root@);
            H256::lemma_spec_of(code_hash@);
        }
        Some(a)
    }

    /// Decoding the wire form of an account gives the account.
    pub proof fn lemma_decode_encode(a: Account)
        ensures
            Self::spec_decode(a.spec_encode()) == Some(a),
    {
        let e = Seq::<u8>::empty();
        let p = a.payload();
        let p1 = enc_u256(a.balance) + enc_h256(a.storage_root) + enc_h256(a.code_hash);
        let p2 = enc_h256(a.storage_root) + enc_h256(a.code_hash);
        let p3 = enc_h256(a.code_hash);
        lemma_dec_enc_u256(a.nonce, p1);
        lemma_dec_enc_u256(a.balance, p2);
        lemma_dec_enc_h256(a.storage_root, p3);
        lemma_dec_enc_h256(a.code_hash, e);
        assert(p =~= enc_u256(a.nonce) + p1);
        assert(p1 =~= enc_u256(a.balance) + p2);
        assert(p2 =~= enc_h256(a.storage_root) + p3);
        assert(p3 =~= enc_h256(a.code_hash) + e);
        lemma_dec_list(p, e);
        assert(a.spec_encode() =~= rlp_list(p) + e);
        H256::lemma_spec_of(a.storage_root@);
        H256::lemma_spec_of(a.code_hash@);
    }
}

} // verus!
