//! Accounts in the world state, read and written through a trie of the store.

use crate::storage::store::{lookup, FunStorage, StorageView};
use crate::storage::trie_db::{MptOnce, MptStore, StoreView, TrieError, WORLD_STATE_META_KEY};
use crate::types::account::Account;
use crate::types::hash::H160;
use vstd::prelude::*;

verus! {

/// Why an account could not be read.
#[derive(Clone, Copy, Debug, PartialEq, Eq, Structural)]
pub enum AccountError {
    /// The store does not hold the block.
    BlockNotFound,
    /// The tries do not hold the world state of the block.
    State(TrieError),
    /// What the world state holds at the address is no account.
    BadAccount,
}

/// The account that a world state holds at an address: the empty account
/// where it holds nothing there, none where it holds what is no account.
pub open spec fn spec_account_in(state: Map<Seq<u8>, Seq<u8>>, a: H160) -> Option<Account> {
    match lookup(state, a@) {
        None => Some(Account::spec_default()),
        Some(bytes) => Account::spec_decode(bytes),
    }
}

/// The account at an address of a world state.
///
/// Fails where the state cannot be read, and where it holds bytes at the
/// address that are no account.
pub fn get_account_by_state(state: &MptOnce, address: H160) -> (r: Result<Account, AccountError>)
    ensures
        r == (if !state.spec_held() {
            Err::<Account, AccountError>(AccountError::State(TrieError::RootNotFound))
        } else {
            match spec_account_in(state@, address) {
                Some(a) => Ok::<Account, AccountError>(a),
                None => Err::<Account, AccountError>(AccountError::BadAccount),
            }
        }),
{
    match state.get(address.bytes.as_slice()) {
        Err(e) => Err(AccountError::State(e)),
        Ok(None) => Ok(Account::empty()),
        Ok(Some(bytes)) => match Account::decode(bytes.as_slice()) {
            Some(acc) => Ok(acc),
            None => Err(AccountError::BadAccount),
        },
    }
}

/// Writes an account at an address of a world state. Nothing reaches the
/// store before the state is committed.
///
/// Fails, writing nothing, where the state cannot be read.
pub fn save_account_by_state(state: &mut MptOnce, address: H160, account: &Account) -> (r: Result<
    (),
    TrieError,
>)
    ensures
        final(state).spec_key() == old(state).spec_key(),
        final(state).committed_root() == old(state).committed_root(),
        final(state).spec_held() == old(state).spec_held(),
        old(state).spec_held() ==> {
            &&& r == Ok::<(), TrieError>(())
            &&& final(state)@ == old(state)@.insert(address@, account.spec_encode())
            &&& spec_account_in(final(state)@, address) == Some(*account)
        },
        !old(state).spec_held() ==> r == Err::<(), TrieError>(TrieError::RootNotFound)
            && final(state)@ == old(state)@,
{
    let bytes = account.encode();
    proof {
        Account::lemma_decode_encode(*account);
    }
    state.insert(address.bytes.as_slice(), bytes.as_slice())
}

/// The account at an address in the world state that a block leaves: the
/// block with the given number, or the latest.
pub open spec fn spec_account_by_backend(
    tries: StoreView,
    storage: StorageView,
    a: H160,
    number: Option<u64>,
) -> Result<Account, AccountError> {
    let block = match number {
        Some(n) => lookup(storage.blocks, n),
        None => storage.latest_block(),
    };
    match block {
        None => Err(AccountError::BlockNotFound),
        Some(b) => if !tries.contains_key(WORLD_STATE_META_KEY@) {
            Err(AccountError::State(TrieError::BackendNotFound))
        } else if !tries[WORLD_STATE_META_KEY@].contains_key(b.header.state_root@) {
            Err(AccountError::State(TrieError::RootNotFound))
        } else {
            match spec_account_in(tries[WORLD_STATE_META_KEY@][b.header.state_root@], a) {
                Some(acc) => Ok(acc),
                None => Err(AccountError::BadAccount),
            }
        },
    }
}

/// The account at an address in the world state that a block leaves: the
/// block with the given number, or the latest.
pub fn get_account_by_backend(
    trie_db: &MptStore,
    storage: &FunStorage,
    address: H160,
    number: Option<u64>,
) -> (r: Result<Account, AccountError>)
    ensures
        r == spec_account_by_backend(trie_db@, storage@, address, number),
{
    let header = match number {
        Some(n) => match storage.get_block_header(n) {
            Some(h) => h,
            None => { return Err(AccountError::BlockNotFound); },
        },
        None => match storage.get_latest_block_header() {
            Ok(h) => h,
            Err(_) => { return Err(AccountError::BlockNotFound); },
        },
    };
    let key = WORLD_STATE_META_KEY;
    let state = match trie_db.trie_restore(key.as_slice(), header.state_root) {
        Ok(s) => s,
        Err(e) => { return Err(AccountError::State(e)); },
    };
    get_account_by_state(&state, address)
}

} // verus!
