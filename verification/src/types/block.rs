//! Proposals, headers and blocks.

use crate::codec::field::{
    enc_h160, enc_h256, enc_hashes, enc_u64, push_h160, push_h256, push_hashes, push_u64,
};
use crate::codec::rlp::{push_list, rlp_list};
use crate::types::hash::{spec_digest, Bloom, Hasher, MerkleRoot, H160, H256, H64};
use crate::types::transaction::{copy_hashes, SignedTransaction};
use crate::types::uint::U256;
use crate::types::hash::slice_to_vec;
use vstd::prelude::*;

verus! {

/// The number of a block.
pub type BlockNumber = u64;

/// The most gas that the transactions of a block may use.
pub const MAX_BLOCK_GAS_LIMIT: u64 = 50_000_000;

/// The base fee of every block.
pub const BASE_FEE_PER_GAS: u64 = 0x539;

/// The root of the empty list of transactions or receipts, as bytes.
pub const RLP_NULL: [u8; 32] = [
    0x56, 0xe8, 0x1f, 0x17, 0x1b, 0xcc, 0x55, 0xa6, 0xff, 0x83, 0x45, 0xe6, 0x92, 0xc0, 0xf8,
    0x6e, 0x5b, 0x48, 0xe0, 0x1b, 0x99, 0x6c, 0xad, 0xc0, 0x01, 0x62, 0x2f, 0xb5, 0xe3, 0x63,
    0xb4, 0x21,
];

/// A block before it is executed: the header without the results of the
/// execution, and the hashes of its transactions in their order.
#[derive(Clone, Debug, PartialEq, Eq)]
pub struct Proposal {
    pub prev_hash: H256,
    pub proposer: H160,
    pub transactions_root: MerkleRoot,
    pub timestamp: u64,
    pub number: BlockNumber,
    pub gas_limit: U256,
    pub extra_data: Vec<u8>,
    pub mixed_hash: Option<H256>,
    pub base_fee_per_gas: U256,
    pub chain_id: u64,
    pub tx_hashes: Vec<H256>,
}

/// What a proposal holds.
pub struct ProposalView {
    pub prev_hash: H256,
    pub proposer: H160,
    pub transactions_root: MerkleRoot,
    pub timestamp: u64,
    pub number: BlockNumber,
    pub gas_limit: U256,
    pub extra_data: Seq<u8>,
    pub mixed_hash: Option<H256>,
    pub base_fee_per_gas: U256,
    pub chain_id: u64,
    pub tx_hashes: Seq<H256>,
}

impl View for Proposal {
    type V = ProposalView;

    open spec fn view(&self) -> ProposalView {
        ProposalView {
            prev_hash: self.prev_hash,
            proposer: self.proposer,
            transactions_root: self.transactions_root,
            timestamp: self.timestamp,
            number: self.number,
            gas_limit: self.gas_limit,
            extra_data: self.extra_data@,
            mixed_hash: self.mixed_hash,
            base_fee_per_gas: self.base_fee_per_gas,
            chain_id: self.chain_id,
            tx_hashes: self.tx_hashes@,
        }
    }
}

/// The header of a block.
#[derive(Clone, Debug, PartialEq, Eq)]
pub struct Header {
    pub prev_hash: H256,
    pub proposer: H160,
    pub state_root: MerkleRoot,
    pub transactions_root: MerkleRoot,
    pub receipts_root: MerkleRoot,
    pub log_bloom: Bloom,
    pub difficulty: U256,
    pub timestamp: u64,
    pub number: BlockNumber,
    pub gas_used: U256,
    pub gas_limit: U256,
    pub extra_data: Vec<u8>,
    pub mixed_hash: Option<H256>,
    pub nonce: H64,
    pub base_fee_per_gas: U256,
    pub chain_id: u64,
}

/// What a header holds.
pub struct HeaderView {
    pub prev_hash: H256,
    pub proposer: H160,
    pub state_root: MerkleRoot,
    pub transactions_root: MerkleRoot,
    pub receipts_root: MerkleRoot,
    pub log_bloom: Bloom,
    pub difficulty: U256,
    pub timestamp: u64,
    pub number: BlockNumber,
    pub gas_used: U256,
    pub gas_limit: U256,
    pub extra_data: Seq<u8>,
    pub mixed_hash: Option<H256>,
    pub nonce: H64,
    pub base_fee_per_gas: U256,
    pub chain_id: u64,
}

impl View for Header {
    type V = HeaderView;

    open spec fn view(&self) -> HeaderView {
        HeaderView {
            prev_hash: self.prev_hash,
            proposer: self.proposer,
            state_root: self.state_root,
            transactions_root: self.transactions_root,
            receipts_root: self.receipts_root,
            log_bloom: self.log_bloom,
            difficulty: self.difficulty,
            timestamp: self.timestamp,
            number: self.number,
            gas_used: self.gas_used,
            gas_limit: self.gas_limit,
            extra_data: self.extra_data@,
            mixed_hash: self.mixed_hash,
            nonce: self.nonce,
            base_fee_per_gas: self.base_fee_per_gas,
            chain_id: self.chain_id,
        }
    }
}

/// A block: its header and the hashes of its transactions in their order.
#[derive(Clone, Debug, PartialEq, Eq)]
pub struct Block {
    pub header: Header,
    pub tx_hashes: Vec<H256>,
}

/// What a block holds.
pub struct BlockView {
    pub header: HeaderView,
    pub tx_hashes: Seq<H256>,
}

impl View for Block {
    type V = BlockView;

    open spec fn view(&self) -> BlockView {
        BlockView { header: self.header@, tx_hashes: self.tx_hashes@ }
    }
}

/// The proposal that a header stands for: its fields, with no transaction hashes.
pub open spec fn proposal_of_header(h: HeaderView) -> ProposalView {
    ProposalView {
        prev_hash: h.prev_hash,
        proposer: h.proposer,
        transactions_root: h.transactions_root,
        timestamp: h.timestamp,
        number: h.number,
        gas_limit: h.gas_limit,
        extra_data: h.extra_data,
        mixed_hash: h.mixed_hash,
        base_fee_per_gas: h.base_fee_per_gas,
        chain_id: h.chain_id,
        tx_hashes: Seq::empty(),
    }
}

/// The wire form of a proposal: the list of previous hash, proposer,
/// transactions root, timestamp, number, and the list of transaction hashes.
pub open spec fn proposal_encoding(p: ProposalView) -> Seq<u8> {
    rlp_list(
        enc_h256(p.prev_hash) + enc_h160(p.proposer) + enc_h256(p.transactions_root) + enc_u64(
            p.timestamp,
        ) + enc_u64(p.number) + rlp_list(enc_hashes(p.tx_hashes)),
    )
}

/// The hash of a proposal: the digest of its wire form.
pub open spec fn proposal_hash(p: ProposalView) -> Seq<u8> {
    spec_digest(proposal_encoding(p))
}

impl Proposal {
    /// The proposal that a header stands for.
    pub fn from_header(h: &Header) -> (p: Proposal)
        ensures
            p@ == proposal_of_header(h@),
    {
        Proposal {
            prev_hash: h.prev_hash,
            proposer: h.proposer,
            transactions_root: h.transactions_root,
            timestamp: h.timestamp,
            number: h.number,
            gas_limit: h.gas_limit,
            extra_data: slice_to_vec(h.extra_data.as_slice()),
            mixed_hash: h.mixed_hash,
            base_fee_per_gas: h.base_fee_per_gas,
            chain_id: h.chain_id,
            tx_hashes: Vec::new(),
        }
    }

    /// The proposal that a block stands for: that of its header.
    pub fn from_block(b: &Block) -> (p: Proposal)
        ensures
            p@ == proposal_of_header(b@.header),
    {
        Self::from_header(&b.header)
    }

    /// The wire form of the proposal.
    pub fn encode(&self) -> (r: Vec<u8>)
        ensures
            r@ == proposal_encoding(self@),
    {
        let mut hashes: Vec<u8> = Vec::new();
        push_hashes(&mut hashes, &self.tx_hashes);
        assert(hashes@ =~= enc_hashes(self.tx_hashes@));
        let mut payload: Vec<u8> = Vec::new();
        push_h256(&mut payload, &self.prev_hash);
        push_h160(&mut payload, &self.proposer);
        push_h256(&mut payload, &self.transactions_root);
        push_u64(&mut payload, self.timestamp);
        push_u64(&mut payload, self.number);
        push_list(&mut payload, hashes.as_slice());
        let mut out: Vec<u8> = Vec::new();
        push_list(&mut out, payload.as_slice());
        assert(out@ =~= proposal_encoding(self@)) by {
            assert(payload@ =~= enc_h256(self.prev_hash) + enc_h160(self.proposer) + enc_h256(
                self.transactions_root,
            ) + enc_u64(self.timestamp) + enc_u64(self.number) + rlp_list(
                enc_hashes(self.tx_hashes@),
            ));
        }
        out
    }

    /// The hash of the proposal: the digest of its wire form.
    pub fn hash(&self) -> (h: H256)
        ensures
            h@ == proposal_hash(self@),
    {
        let bytes = self.encode();
        Hasher::digest(bytes.as_slice())
    }

    /// A copy of the proposal.
    pub fn duplicate(&self) -> (r: Self)
        ensures
            r@ == self@,
    {
        Proposal {
            prev_hash: self.prev_hash,
            proposer: self.proposer,
            transactions_root: self.transactions_root,
            timestamp: self.timestamp,
            number: self.number,
            gas_limit: self.gas_limit,
            extra_data: slice_to_vec(self.extra_data.as_slice()),
            mixed_hash: self.mixed_hash,
            base_fee_per_gas: self.base_fee_per_gas,
            chain_id: self.chain_id,
            tx_hashes: copy_hashes(&self.tx_hashes),
        }
    }
}

impl Header {
    /// The hash of the header: that of the proposal it stands for.
    pub fn hash(&self) -> (h: H256)
        ensures
            h@ == proposal_hash(proposal_of_header(self@)),
    {
        Proposal::from_header(self).hash()
    }

    /// A copy of the header.
    pub fn duplicate(&self) -> (r: Self)
        ensures
            r@ == self@,
    {
        Header {
            prev_hash: self.prev_hash,
            proposer: self.proposer,
            state_root: self.state_root,
            transactions_root: self.transactions_root,
            receipts_root: self.receipts_root,
            log_bloom: self.log_bloom,
            difficulty: self.difficulty,
            timestamp: self.timestamp,
            number: self.number,
            gas_used: self.gas_used,
            gas_limit: self.gas_limit,
            extra_data: slice_to_vec(self.extra_data.as_slice()),
            mixed_hash: self.mixed_hash,
            nonce: self.nonce,
            base_fee_per_gas: self.base_fee_per_gas,
            chain_id: self.chain_id,
        }
    }
}

impl Block {
    /// The hash of the block: that of the proposal its header stands for.
    pub fn hash(&self) -> (h: H256)
        ensures
            h@ == proposal_hash(proposal_of_header(self@.header)),
    {
        Proposal::from_block(self).hash()
    }

    /// The first block of a chain: no parent, no transactions, the given
    /// state root and timestamp.
    pub fn genesis(chain_id: u64, state_root: MerkleRoot, timestamp: u64) -> (b: Block)
        ensures
            b.header.number == 0,
            b.header.chain_id == chain_id,
            b.header.state_root == state_root,
            b.header.timestamp == timestamp,
            b.header.transactions_root.bytes == RLP_NULL,
            b.header.receipts_root.bytes == RLP_NULL,
            b.header.gas_limit@ == MAX_BLOCK_GAS_LIMIT,
            b.header.base_fee_per_gas@ == BASE_FEE_PER_GAS,
            b.header.gas_used@ == 0,
            b.header.difficulty@ == 1,
            b.header.mixed_hash is None,
            b.header.extra_data@.len() == 0,
            b.header.prev_hash@ == Seq::new(32, |i: int| 0u8),
            b.header.proposer@ == Seq::new(20, |i: int| 0u8),
            b.header.log_bloom@ == Seq::new(256, |i: int| 0u8),
            b.header.nonce@ == Seq::new(8, |i: int| 0u8),
            b.tx_hashes@.len() == 0,
    {
        let header = Header {
            prev_hash: H256::zero(),
            proposer: H160::zero(),
            state_root,
            transactions_root: H256 { bytes: RLP_NULL },
            receipts_root: H256 { bytes: RLP_NULL },
            log_bloom: Bloom::zero(),
            difficulty: U256::one(),
            timestamp,
            number: 0,
            gas_used: U256::zero(),
            gas_limit: U256::from_u64(MAX_BLOCK_GAS_LIMIT),
            extra_data: Vec::new(),
            mixed_hash: None,
            nonce: H64::zero(),
            base_fee_per_gas: U256::from_u64(BASE_FEE_PER_GAS),
            chain_id,
        };
        Block { header, tx_hashes: Vec::new() }
    }

    /// A copy of the block.
    pub fn duplicate(&self) -> (r: Self)
        ensures
            r@ == self@,
    {
        Block { header: self.header.duplicate(), tx_hashes: copy_hashes(&self.tx_hashes) }
    }
}

/// A block with its transactions.
#[derive(Clone, Debug, PartialEq, Eq)]
pub struct RichBlock {
    pub block: Block,
    pub txs: Vec<SignedTransaction>,
}

/// A block with its transactions.
pub type FatBlock = RichBlock;

} // verus!
