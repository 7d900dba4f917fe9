//! What a node says of itself: chain id, version, and whether it is
//! catching up with the chain.

use crate::types::hash::{spec_digest, Hasher, H160, H256};
use crate::types::primitive::Hex;
use crate::types::text::{ascii_chars, ascii_string};
use crate::types::uint::U256;
use vstd::prelude::*;

verus! {

/// How far a node has caught up with the chain.
#[derive(Clone, Copy, Debug, Default, PartialEq, Eq, Structural)]
pub struct SyncStatus {
    pub starting_block: u64,
    pub current_block: u64,
    pub highest_block: u64,
}

/// What a node says when asked whether it is catching up.
#[derive(Clone, Copy, Debug, PartialEq, Eq, Structural)]
pub enum Web3SyncStatus {
    /// It is: this is how far it has got.
    Doing(SyncStatus),
    /// It is not.
    False,
}

/// What is set once for a chain and read everywhere.
#[derive(Clone, Debug, PartialEq, Eq)]
pub struct ChainConfig {
    pub chain_id: u64,
    pub protocol_version: Hex,
    pub sync_status: SyncStatus,
}

/// Sets the chain id.
pub fn set_chain_id(cfg: &mut ChainConfig, id: u64)
    ensures
        final(cfg).chain_id == id,
        final(cfg).protocol_version == old(cfg).protocol_version,
        final(cfg).sync_status == old(cfg).sync_status,
{
    cfg.chain_id = id;
}

/// Sets how far the node has caught up with the chain.
pub fn set_node_sync_status(cfg: &mut ChainConfig, s: SyncStatus)
    ensures
        final(cfg).sync_status == s,
        final(cfg).chain_id == old(cfg).chain_id,
        final(cfg).protocol_version == old(cfg).protocol_version,
{
    cfg.sync_status = s;
}

/// The decimal digits of a number, as ASCII bytes, most significant first.
pub open spec fn decimal(n: nat) -> Seq<u8>
    decreases n,
{
    if n < 10 {
        seq![(48 + n) as u8]
    } else {
        decimal(n / 10).push((48 + n % 10) as u8)
    }
}

/// The decimal digits of a number, as ASCII bytes.
pub fn decimal_text(n: u64) -> (r: Vec<u8>)
    ensures
        r@ == decimal(n as nat),
        crate::types::text::all_ascii(r@),
    decreases n,
{
    if n < 10 {
        let mut r: Vec<u8> = Vec::new();
        r.push(48 + (n as u8));
        r
    } else {
        let mut r = decimal_text(n / 10);
        r.push(48 + ((n % 10) as u8));
        r
    }
}

/// What a node answers about itself.
#[derive(Clone, Debug, PartialEq, Eq)]
pub struct NodeRpcImpl {
    version: String,
}

impl NodeRpcImpl {
    /// The version that the node names.
    pub closed spec fn spec_version(&self) -> Seq<char> {
        self.version@
    }

    /// A node that names the given version.
    pub fn new(version: &str) -> (n: Self)
        ensures
            n.spec_version() == version@,
    {
        NodeRpcImpl { version: version.to_owned() }
    }

    /// The id of the chain.
    pub fn chain_id(&self, cfg: &ChainConfig) -> (r: U256)
        ensures
            r@ == cfg.chain_id,
    {
        U256::from_u64(cfg.chain_id)
    }

    /// The chain id in decimal digits.
    pub fn net_version(&self, cfg: &ChainConfig) -> (r: String)
        ensures
            r@ == ascii_chars(decimal(cfg.chain_id as nat)),
    {
        let digits = decimal_text(cfg.chain_id);
        ascii_string(digits.as_slice())
    }

    /// The version that the node names.
    pub fn client_version(&self) -> (r: String)
        ensures
            r@ == self.spec_version(),
    {
        self.version.clone()
    }

    /// Whether the node listens for connections: it always does.
    pub fn listening(&self) -> (r: bool)
        ensures
            r,
    {
        true
    }

    /// Whether the node is catching up: it is not where it stands at the
    /// highest block it knows of.
    pub fn syncing(&self, cfg: &ChainConfig) -> (r: Web3SyncStatus)
        ensures
            r == (if cfg.sync_status.current_block == cfg.sync_status.highest_block {
                Web3SyncStatus::False
            } else {
                Web3SyncStatus::Doing(cfg.sync_status)
            }),
    {
        let s = cfg.sync_status;
        if s.current_block == s.highest_block {
            Web3SyncStatus::False
        } else {
            Web3SyncStatus::Doing(s)
        }
    }

    /// Whether the node mines: it never does.
    pub fn mining(&self) -> (r: bool)
        ensures
            !r,
    {
        false
    }

    /// The address that mining pays to: the zero address.
    pub fn coinbase(&self) -> (r: H160)
        ensures
            r@ == Seq::new(20, |i: int| 0u8),
    {
        H160::zero()
    }

    /// The rate of hashing: one.
    pub fn hashrate(&self) -> (r: U256)
        ensures
            r@ == 1,
    {
        U256::one()
    }

    /// The digest of the bytes that hex text spells.
    pub fn sha3(&self, data: &Hex) -> (r: H256)
        ensures
            r@ == spec_digest(data@),
    {
        let bytes = data.as_bytes();
        Hasher::digest(bytes.as_slice())
    }
}

} // verus!
