//! Transactions: the three kinds of unsigned body, signatures, and the
//! unverified and signed wrappers.

use crate::types::hash::{slice_to_vec, H160, H256};
use crate::types::uint::U256;
use vstd::prelude::*;

verus! {

/// The gas that a zero byte of a payload costs.
pub const GAS_PER_ZERO_BYTE: u64 = 4;

/// The gas that every other byte of a payload costs.
pub const GAS_PER_NONZERO_BYTE: u64 = 68;

/// The gas that every transaction costs before it runs.
pub const GAS_CALL_TRANSACTION: u64 = 21_000;

/// The gas that a creation costs more.
pub const GAS_CREATE_TRANSACTION: u64 = 32_000;

/// The smallest gas limit of a transaction.
pub const MIN_TRANSACTION_GAS_LIMIT: u64 = 21_000;

/// The priority fee per gas of the chain.
pub const MAX_PRIORITY_FEE_PER_GAS: u64 = 1_337;

/// The gas price of a query that names none.
pub const MIN_GAS_PRICE: u64 = 1;

/// The gas that the payload of a transaction costs: 4 for each zero byte,
/// 68 for every other, at most `u64::MAX`.
pub open spec fn spec_data_gas_cost(data: Seq<u8>) -> nat
    decreases data.len(),
{
    if data.len() == 0 {
        0
    } else {
        let rest = spec_data_gas_cost(data.drop_last());
        let own: nat = if data.last() == 0 {
            4
        } else {
            68
        };
        if rest + own > u64::MAX {
            u64::MAX as nat
        } else {
            rest + own
        }
    }
}

/// The gas that the payload of a transaction costs.
pub fn data_gas_cost(data: &[u8]) -> (r: u64)
    ensures
        r == spec_data_gas_cost(data@),
{
    let mut acc: u64 = 0;
    let mut i: usize = 0;
    assert(data@.subrange(0, 0) =~= Seq::<u8>::empty());
    while i < data.len()
        invariant
            i <= data@.len(),
            acc == spec_data_gas_cost(data@.subrange(0, i as int)),
        decreases data@.len() - i,
    {
        let own: u64 = if data[i] == 0 {
            GAS_PER_ZERO_BYTE
        } else {
            GAS_PER_NONZERO_BYTE
        };
        proof {
            let t = data@.subrange(0, i + 1);
            assert(t.drop_last() =~= data@.subrange(0, i as int));
            assert(t.last() == data@[i as int]);
        }
        acc = acc.saturating_add(own);
        i += 1;
    }
    assert(data@.subrange(0, data@.len() as int) =~= data@);
    acc
}

/// What a transaction does: call an account or create a contract.
#[derive(Clone, Copy, Debug, PartialEq, Eq)]
pub enum TransactionAction {
    Call(H160),
    Create,
}

/// An address and storage keys that a transaction declares it will touch.
#[derive(Clone, Debug, PartialEq, Eq)]
pub struct AccessListItem {
    pub address: H160,
    pub storage_keys: Vec<H256>,
}

/// What an entry of an access list holds.
pub struct AccessListItemView {
    pub address: H160,
    pub storage_keys: Seq<H256>,
}

impl View for AccessListItem {
    type V = AccessListItemView;

    open spec fn view(&self) -> AccessListItemView {
        AccessListItemView { address: self.address, storage_keys: self.storage_keys@ }
    }
}

/// The addresses and storage keys that a transaction declares it will touch.
pub type AccessList = Vec<AccessListItem>;

/// The items of an access list.
pub open spec fn access_list_view(l: Seq<AccessListItem>) -> Seq<AccessListItemView> {
    Seq::new(l.len(), |i: int| l[i]@)
}

/// A copy of a list of hashes.
pub fn copy_hashes(src: &Vec<H256>) -> (r: Vec<H256>)
    ensures
        r@ == src@,
{
    let mut out: Vec<H256> = Vec::new();
    let mut i: usize = 0;
    while i < src.len()
        invariant
            i <= src@.len(),
            out@ == src@.subrange(0, i as int),
        decreases src@.len() - i,
    {
        out.push(src[i]);
        assert(out@ =~= src@.subrange(0, i + 1));
        i += 1;
    }
    assert(src@.subrange(0, src@.len() as int) =~= src@);
    out
}

/// A copy of an access list.
pub fn copy_access_list(src: &Vec<AccessListItem>) -> (r: Vec<AccessListItem>)
    ensures
        access_list_view(r@) == access_list_view(src@),
{
    let mut out: Vec<AccessListItem> = Vec::new();
    let mut i: usize = 0;
    while i < src.len()
        invariant
            i <= src@.len(),
            out@.len() == i,
            forall|j: int| 0 <= j < i ==> (#[trigger] out@[j])@ == src@[j]@,
        decreases src@.len() - i,
    {
        out.push(
            AccessListItem {
                address: src[i].address,
                storage_keys: copy_hashes(&src[i].storage_keys),
            },
        );
        i += 1;
    }
    assert(access_list_view(out@) =~= access_list_view(src@));
    out
}

/// A transaction of the first kind: a gas price and no access list.
#[derive(Clone, Debug, PartialEq, Eq)]
pub struct LegacyTransaction {
    pub nonce: U256,
    pub gas_price: U256,
    pub gas_limit: U256,
    pub action: TransactionAction,
    pub value: U256,
    pub data: Vec<u8>,
}

/// A transaction of type 1: a gas price and an access list.
#[derive(Clone, Debug, PartialEq, Eq)]
pub struct Eip2930Transaction {
    pub nonce: U256,
    pub gas_price: U256,
    pub gas_limit: U256,
    pub action: TransactionAction,
    pub value: U256,
    pub data: Vec<u8>,
    pub access_list: AccessList,
}

/// A transaction of type 2: a priority fee, a fee cap (held as the gas
/// price) and an access list.
#[derive(Clone, Debug, PartialEq, Eq)]
pub struct Eip1559Transaction {
    pub nonce: U256,
    pub max_priority_fee_per_gas: U256,
    pub gas_price: U256,
    pub gas_limit: U256,
    pub action: TransactionAction,
    pub value: U256,
    pub data: Vec<u8>,
    pub access_list: AccessList,
}

/// The body of a transaction, of one of the three kinds.
#[derive(Clone, Debug, PartialEq, Eq)]
pub enum UnsignedTransaction {
    Legacy(LegacyTransaction),
    Eip2930(Eip2930Transaction),
    Eip1559(Eip1559Transaction),
}

/// What a transaction body holds, whatever its kind.
pub struct UnsignedTransactionView {
    /// 0 for the first kind, 1 and 2 for the typed ones.
    pub kind: u8,
    pub nonce: U256,
    /// Zero but for type 2.
    pub max_priority_fee_per_gas: U256,
    pub gas_price: U256,
    pub gas_limit: U256,
    pub action: TransactionAction,
    pub value: U256,
    pub data: Seq<u8>,
    /// Empty for the first kind.
    pub access_list: Seq<AccessListItemView>,
}

impl View for UnsignedTransaction {
    type V = UnsignedTransactionView;

    open spec fn view(&self) -> UnsignedTransactionView {
        match self {
            UnsignedTransaction::Legacy(t) => UnsignedTransactionView {
                kind: 0,
                nonce: t.nonce,
                max_priority_fee_per_gas: U256 { w3: 0, w2: 0, w1: 0, w0: 0 },
                gas_price: t.gas_price,
                gas_limit: t.gas_limit,
                action: t.action,
                value: t.value,
                data: t.data@,
                access_list: Seq::empty(),
            },
            UnsignedTransaction::Eip2930(t) => UnsignedTransactionView {
                kind: 1,
                nonce: t.nonce,
                max_priority_fee_per_gas: U256 { w3: 0, w2: 0, w1: 0, w0: 0 },
                gas_price: t.gas_price,
                gas_limit: t.gas_limit,
                action: t.action,
                value: t.value,
                data: t.data@,
                access_list: access_list_view(t.access_list@),
            },
            UnsignedTransaction::Eip1559(t) => UnsignedTransactionView {
                kind: 2,
                nonce: t.nonce,
                max_priority_fee_per_gas: t.max_priority_fee_per_gas,
                gas_price: t.gas_price,
                gas_limit: t.gas_limit,
                action: t.action,
                value: t.value,
                data: t.data@,
                access_list: access_list_view(t.access_list@),
            },
        }
    }
}

impl UnsignedTransaction {
    /// Whether the transaction is of the first kind.
    pub fn is_legacy(&self) -> (r: bool)
        ensures
            r == (self@.kind == 0),
    {
        match self {
            UnsignedTransaction::Legacy(_) => true,
            _ => false,
        }
    }

    /// Whether the transaction is of the kind with a priority fee.
    pub fn is_eip1559(&self) -> (r: bool)
        ensures
            r == (self@.kind == 2),
    {
        match self {
            UnsignedTransaction::Eip1559(_) => true,
            _ => false,
        }
    }

    /// The type byte: 0, 1 or 2.
    pub fn as_u8(&self) -> (r: u8)
        ensures
            r == self@.kind,
    {
        match self {
            UnsignedTransaction::Legacy(_) => 0,
            UnsignedTransaction::Eip2930(_) => 1,
            UnsignedTransaction::Eip1559(_) => 2,
        }
    }

    /// The nonce of the transaction.
    pub fn nonce(&self) -> (r: U256)
        ensures
            r == self@.nonce,
    {
        match self {
            UnsignedTransaction::Legacy(t) => t.nonce,
            UnsignedTransaction::Eip2930(t) => t.nonce,
            UnsignedTransaction::Eip1559(t) => t.nonce,
        }
    }

    /// The gas price of the transaction.
    pub fn gas_price(&self) -> (r: U256)
        ensures
            r == self@.gas_price,
    {
        match self {
            UnsignedTransaction::Legacy(t) => t.gas_price,
            UnsignedTransaction::Eip2930(t) => t.gas_price,
            UnsignedTransaction::Eip1559(t) => t.gas_price,
        }
    }

    /// The priority fee of the transaction: zero where its kind has none.
    pub fn max_priority_fee_per_gas(&self) -> (r: U256)
        ensures
            r == self@.max_priority_fee_per_gas,
    {
        match self {
            UnsignedTransaction::Eip1559(t) => t.max_priority_fee_per_gas,
            _ => U256::zero(),
        }
    }

    /// The gas limit of the transaction.
    pub fn gas_limit(&self) -> (r: U256)
        ensures
            r == self@.gas_limit,
    {
        match self {
            UnsignedTransaction::Legacy(t) => t.gas_limit,
            UnsignedTransaction::Eip2930(t) => t.gas_limit,
            UnsignedTransaction::Eip1559(t) => t.gas_limit,
        }
    }

    /// The value that the transaction sends.
    pub fn value(&self) -> (r: U256)
        ensures
            r == self@.value,
    {
        match self {
            UnsignedTransaction::Legacy(t) => t.value,
            UnsignedTransaction::Eip2930(t) => t.value,
            UnsignedTransaction::Eip1559(t) => t.value,
        }
    }

    /// What the transaction does.
    pub fn action(&self) -> (r: TransactionAction)
        ensures
            r == self@.action,
    {
        match self {
            UnsignedTransaction::Legacy(t) => t.action,
            UnsignedTransaction::Eip2930(t) => t.action,
            UnsignedTransaction::Eip1559(t) => t.action,
        }
    }

    /// The payload of the transaction.
    pub fn data(&self) -> (r: &Vec<u8>)
        ensures
            r@ == self@.data,
    {
        match self {
            UnsignedTransaction::Legacy(t) => &t.data,
            UnsignedTransaction::Eip2930(t) => &t.data,
            UnsignedTransaction::Eip1559(t) => &t.data,
        }
    }

    /// A copy of the access list: empty for the first kind.
    pub fn access_list(&self) -> (r: AccessList)
        ensures
            access_list_view(r@) == self@.access_list,
    {
        match self {
            UnsignedTransaction::Legacy(_) => {
                let r: AccessList = Vec::new();
                assert(access_list_view(r@) =~= Seq::<AccessListItemView>::empty());
                r
            },
            UnsignedTransaction::Eip2930(t) => copy_access_list(&t.access_list),
            UnsignedTransaction::Eip1559(t) => copy_access_list(&t.access_list),
        }
    }

    /// The most that the transaction can cost its sender: the gas limit at
    /// the gas price, and the value.
    pub fn may_cost(&self) -> (r: U256)
        ensures
            r@ == crate::types::uint::nat_min(
                crate::types::uint::nat_min(
                    self@.gas_price@ * self@.gas_limit@,
                    crate::types::uint::u256_max(),
                ) + self@.value@,
                crate::types::uint::u256_max(),
            ),
    {
        let gas = self.gas_price().saturating_mul(&self.gas_limit());
        gas.saturating_add(&self.value())
    }

    /// A copy of the body.
    pub fn duplicate(&self) -> (r: Self)
        ensures
            r@ == self@,
    {
        match self {
            UnsignedTransaction::Legacy(t) => UnsignedTransaction::Legacy(
                LegacyTransaction {
                    nonce: t.nonce,
                    gas_price: t.gas_price,
                    gas_limit: t.gas_limit,
                    action: t.action,
                    value: t.value,
                    data: slice_to_vec(t.data.as_slice()),
                },
            ),
            UnsignedTransaction::Eip2930(t) => UnsignedTransaction::Eip2930(
                Eip2930Transaction {
                    nonce: t.nonce,
                    gas_price: t.gas_price,
                    gas_limit: t.gas_limit,
                    action: t.action,
                    value: t.value,
                    data: slice_to_vec(t.data.as_slice()),
                    access_list: copy_access_list(&t.access_list),
                },
            ),
            UnsignedTransaction::Eip1559(t) => UnsignedTransaction::Eip1559(
                Eip1559Transaction {
                    nonce: t.nonce,
                    max_priority_fee_per_gas: t.max_priority_fee_per_gas,
                    gas_price: t.gas_price,
                    gas_limit: t.gas_limit,
                    action: t.action,
                    value: t.value,
                    data: slice_to_vec(t.data.as_slice()),
                    access_list: copy_access_list(&t.access_list),
                },
            ),
        }
    }
}

/// The three parts of a signature. `standard_v` is the recovery id.
#[derive(Clone, Debug, PartialEq, Eq)]
pub struct SignatureComponents {
    pub r: Vec<u8>,
    pub s: Vec<u8>,
    pub standard_v: u8,
}

/// What a signature holds.
pub struct SignatureComponentsView {
    pub r: Seq<u8>,
    pub s: Seq<u8>,
    pub standard_v: u8,
}

impl View for SignatureComponents {
    type V = SignatureComponentsView;

    open spec fn view(&self) -> SignatureComponentsView {
        SignatureComponentsView { r: self.r@, s: self.s@, standard_v: self.standard_v }
    }
}

/// The recovery id that a legacy `v` holds: 27 and 28 stand for 0 and 1,
/// and from 35 on the parity decides.
pub open spec fn spec_extract_standard_v(v: u64) -> Option<u8> {
    if v == 27 {
        Some(0u8)
    } else if v == 28 {
        Some(1u8)
    } else if v >= 35 {
        Some(((v - 1) % 2) as u8)
    } else {
        None
    }
}

/// The chain id that a legacy `v` holds, from 35 on.
pub open spec fn spec_extract_chain_id(v: u64) -> Option<u64> {
    if v >= 35 {
        Some(((v - 35) / 2) as u64)
    } else {
        None
    }
}

/// The legacy `v` of a recovery id: with a chain id `35 + 2 * id` more,
/// without one 27 more.
pub open spec fn spec_replay_protection(standard_v: u8, chain_id: Option<u64>) -> int {
    standard_v + match chain_id {
        Some(n) => 35 + n * 2,
        None => 27,
    }
}

impl SignatureComponents {
    /// Whether the signature is of the curve whose recovery id is 0 or 1.
    pub fn is_eth_sig(&self) -> (r: bool)
        ensures
            r == (self.standard_v <= 1),
    {
        self.standard_v <= 1
    }

    /// The recovery id that a legacy `v` holds: 27 and 28 hold 0 and 1, and from 35 on its parity tells.
    pub fn extract_standard_v(v: u64) -> (r: Option<u8>)
        ensures
            r == spec_extract_standard_v(v),
    {
        if v == 27 {
            Some(0)
        } else if v == 28 {
            Some(1)
        } else if v >= 35 {
            Some(((v - 1) % 2) as u8)
        } else {
            None
        }
    }

    /// The chain id that a legacy `v` holds, from 35 on.
    pub fn extract_chain_id(v: u64) -> (r: Option<u64>)
        ensures
            r == spec_extract_chain_id(v),
    {
        if v >= 35 {
            Some((v - 35) / 2)
        } else {
            None
        }
    }

    /// The legacy `v` of this signature on the given chain.
    pub fn add_chain_replay_protection(&self, chain_id: Option<u64>) -> (r: u64)
        requires
            spec_replay_protection(self.standard_v, chain_id) <= u64::MAX,
        ensures
            r == spec_replay_protection(self.standard_v, chain_id),
    {
        (self.standard_v as u64) + match chain_id {
            Some(n) => 35 + n * 2,
            None => 27,
        }
    }

    /// The signature as one byte string: `r`, `s`, then the recovery id.
    pub fn as_bytes(&self) -> (r: Vec<u8>)
        ensures
            r@ == self.r@ + self.s@ + seq![self.standard_v],
    {
        let mut out: Vec<u8> = slice_to_vec(self.r.as_slice());
        let mut i: usize = 0;
        while i < self.s.len()
            invariant
                i <= self.s@.len(),
                out@ == self.r@ + self.s@.subrange(0, i as int),
            decreases self.s@.len() - i,
        {
            out.push(self.s[i]);
            assert(out@ =~= self.r@ + self.s@.subrange(0, i + 1));
            i += 1;
        }
        assert(self.s@.subrange(0, self.s@.len() as int) =~= self.s@);
        out.push(self.standard_v);
        out
    }

    /// A copy of the signature.
    pub fn duplicate(&self) -> (r: Self)
        ensures
            r@ == self@,
    {
        SignatureComponents {
            r: slice_to_vec(self.r.as_slice()),
            s: slice_to_vec(self.s.as_slice()),
            standard_v: self.standard_v,
        }
    }
}

/// A transaction as it came in: the body, the signature if there is one,
/// the chain id and the hash of the wire form.
#[derive(Clone, Debug, PartialEq, Eq)]
pub struct UnverifiedTransaction {
    pub unsigned: UnsignedTransaction,
    pub signature: Option<SignatureComponents>,
    pub chain_id: u64,
    pub hash: H256,
}

/// What a transaction with its signature holds.
pub struct UnverifiedTransactionView {
    pub unsigned: UnsignedTransactionView,
    pub signature: Option<SignatureComponentsView>,
    pub chain_id: u64,
    pub hash: H256,
}

impl View for UnverifiedTransaction {
    type V = UnverifiedTransactionView;

    open spec fn view(&self) -> UnverifiedTransactionView {
        UnverifiedTransactionView {
            unsigned: self.unsigned@,
            signature: match self.signature {
                Some(s) => Some(s@),
                None => None,
            },
            chain_id: self.chain_id,
            hash: self.hash,
        }
    }
}

impl UnverifiedTransaction {
    /// A copy of the transaction.
    pub fn duplicate(&self) -> (r: Self)
        ensures
            r@ == self@,
    {
        UnverifiedTransaction {
            unsigned: self.unsigned.duplicate(),
            signature: match &self.signature {
                Some(s) => Some(s.duplicate()),
                None => None,
            },
            chain_id: self.chain_id,
            hash: self.hash,
        }
    }
}

/// A transaction with the sender that its signature was found to be of.
#[derive(Clone, Debug, PartialEq, Eq)]
pub struct SignedTransaction {
    pub transaction: UnverifiedTransaction,
    pub sender: H160,
    /// The 64 bytes of the sender's public key, where they are known.
    pub public: Option<Vec<u8>>,
}

/// What a transaction with its sender holds.
pub struct SignedTransactionView {
    pub transaction: UnverifiedTransactionView,
    pub sender: H160,
    pub public: Option<Seq<u8>>,
}

impl View for SignedTransaction {
    type V = SignedTransactionView;

    open spec fn view(&self) -> SignedTransactionView {
        SignedTransactionView {
            transaction: self.transaction@,
            sender: self.sender,
            public: match self.public {
                Some(p) => Some(p@),
                None => None,
            },
        }
    }
}

impl SignedTransaction {
    /// A copy of the transaction.
    pub fn duplicate(&self) -> (r: Self)
        ensures
            r@ == self@,
    {
        SignedTransaction {
            transaction: self.transaction.duplicate(),
            sender: self.sender,
            public: match &self.public {
                Some(p) => Some(slice_to_vec(p.as_slice())),
                None => None,
            },
        }
    }
}

/// The transactions of a list.
pub open spec fn txs_view(l: Seq<SignedTransaction>) -> Seq<SignedTransactionView> {
    Seq::new(l.len(), |i: int| l[i]@)
}

} // verus!
