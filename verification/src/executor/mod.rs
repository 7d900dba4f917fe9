//! The executor: the backend that the virtual machine reads and writes
//! through, and the accounting around each run of it.
//!
//! The virtual machine itself is handed in as a function from the backend
//! and a call to an outcome. Everything here holds of whatever that
//! function gives back.

pub mod adapter;
pub mod precompiles;
pub mod utils;

use crate::executor::adapter::{state_at, Apply, RTEvmExecutorAdapter, WorldView};
use crate::executor::utils::{
    code_address, spec_code_address, spec_root_indexed, trie_root_indexed,
};
use crate::storage::trie_db::{spec_map_root, TrieError};
use crate::types::account::Account;
use crate::types::executor::{
    invalid_nonce_view, logs_view, resps_view, ExecResp, ExecRespView, ExitReason, Log, LogView,
    TxResp, TxRespView,
};
use crate::types::hash::{slice_to_vec, spec_digest, Hasher, H160, H256};
use crate::types::transaction::{
    access_list_view, data_gas_cost, spec_data_gas_cost, txs_view, AccessListItem,
    AccessListItemView, SignedTransaction, SignedTransactionView, TransactionAction,
    GAS_CALL_TRANSACTION, GAS_CREATE_TRANSACTION, MIN_TRANSACTION_GAS_LIMIT,
};
use crate::types::uint::{
    lemma_u256_of, nat_min, spec_sat_add, spec_sat_mul, spec_sat_sub, u256_max, u256_of, U256,
};
use vstd::prelude::*;

verus! {

/// What the virtual machine is asked to run.
#[derive(Clone, Debug, PartialEq, Eq)]
pub struct EvmCall {
    pub caller: H160,
    /// The account to call; `None` to create a contract.
    pub to: Option<H160>,
    pub value: U256,
    pub data: Vec<u8>,
    pub gas_limit: u64,
    pub access_list: Vec<AccessListItem>,
}

/// What a call holds.
pub struct EvmCallView {
    pub caller: H160,
    pub to: Option<H160>,
    pub value: U256,
    pub data: Seq<u8>,
    pub gas_limit: u64,
    pub access_list: Seq<AccessListItemView>,
}

impl View for EvmCall {
    type V = EvmCallView;

    open spec fn view(&self) -> EvmCallView {
        EvmCallView {
            caller: self.caller,
            to: self.to,
            value: self.value,
            data: self.data@,
            gas_limit: self.gas_limit,
            access_list: access_list_view(self.access_list@),
        }
    }
}

/// What a run of the virtual machine gave.
#[derive(Clone, Debug, PartialEq, Eq)]
pub struct EvmOutcome {
    pub exit_reason: ExitReason,
    pub ret: Vec<u8>,
    pub used_gas: u64,
    pub remain_gas: u64,
    /// The changes to the world state, to be made where the run succeeded.
    pub values: Vec<Apply>,
    pub logs: Vec<Log>,
    /// The address that the machine gives a contract created by the caller.
    pub create_address: H160,
}

/// How the execution of a transaction starts.
#[derive(Clone, Debug, PartialEq, Eq)]
pub enum TxStart {
    /// The nonce of the transaction is not that of its sender: this is the response.
    Aborted(TxResp),
    /// The virtual machine is to run this call.
    Run { call: EvmCall, current_nonce: U256 },
}

/// How the execution of a transaction starts, with the world it leaves.
pub enum TxStartView {
    Aborted { world: WorldView, resp: TxRespView },
    Run { world: WorldView, call: EvmCallView, current_nonce: U256 },
}

/// The call that a transaction asks the virtual machine to run.
pub open spec fn call_of_tx(tx: SignedTransactionView) -> EvmCallView {
    EvmCallView {
        caller: tx.sender,
        to: match tx.transaction.unsigned.action {
            TransactionAction::Call(a) => Some(a),
            TransactionAction::Create => None,
        },
        value: tx.transaction.unsigned.value,
        data: tx.transaction.unsigned.data,
        gas_limit: tx.transaction.unsigned.gas_limit@ as u64,
        access_list: tx.transaction.unsigned.access_list,
    }
}

/// An account with another nonce and balance.
pub open spec fn account_with(acc: Account, nonce: U256, balance: U256) -> Account {
    Account { nonce, balance, storage_root: acc.storage_root, code_hash: acc.code_hash }
}

/// How the execution of a transaction starts in a world whose context
/// holds the gas price of the transaction.
///
/// Where the nonce of the transaction is not that of its sender, the
/// sender pays the smallest gas limit at the gas price, its nonce goes up
/// by one, and the transaction ends with the invalid-nonce error. Else the
/// sender pays the gas limit at the gas price in advance, and the virtual
/// machine is to run.
#[verifier::opaque]
pub open spec fn spec_prepare(w: WorldView, tx: SignedTransactionView) -> TxStartView {
    let price = w.ctx.gas_price;
    let acc = w.account(tx.sender);
    if tx.transaction.unsigned.nonce != acc.nonce {
        let fee = spec_sat_mul(price, u256_of(MIN_TRANSACTION_GAS_LIMIT as nat));
        TxStartView::Aborted {
            world: w.with_account(
                tx.sender,
                account_with(
                    acc,
                    spec_sat_add(acc.nonce, u256_of(1)),
                    spec_sat_sub(acc.balance, fee),
                ),
            ),
            resp: TxRespView {
                exit_reason: invalid_nonce_view(),
                ret: Seq::empty(),
                gas_used: MIN_TRANSACTION_GAS_LIMIT,
                remain_gas: 0,
                fee_cost: fee,
                logs: Seq::empty(),
                code_address: None,
                removed: false,
            },
        }
    } else {
        let prepay = spec_sat_mul(price, tx.transaction.unsigned.gas_limit);
        TxStartView::Run {
            world: w.with_account(
                tx.sender,
                account_with(acc, acc.nonce, spec_sat_sub(acc.balance, prepay)),
            ),
            call: call_of_tx(tx),
            current_nonce: acc.nonce,
        }
    }
}

/// The world after the changes of a run were made, where it succeeded,
/// and the error where one of them could not be made.
pub open spec fn spec_applied(w: WorldView, o: EvmOutcome) -> (WorldView, Option<TrieError>) {
    if o.exit_reason.is_succeed() {
        let a = w.applied(o.values@, true);
        if a.1 is Some {
            a
        } else {
            (a.0.with_logs(logs_view(o.logs@)), None)
        }
    } else {
        (w, None)
    }
}

/// How the execution of a transaction ends after a run of the virtual machine.
///
/// The changes of a run that succeeded are made, empty accounts removed.
/// Then the nonce of the sender is one more than before the run, and the
/// sender gets back the gas that is left at the gas price.
#[verifier::opaque]
pub open spec fn spec_complete(
    w: WorldView,
    tx: SignedTransactionView,
    current_nonce: U256,
    o: EvmOutcome,
) -> (WorldView, Result<TxRespView, TrieError>) {
    let price = w.ctx.gas_price;
    let applied = spec_applied(w, o);
    match applied.1 {
        Some(e) => (applied.0, Err(e)),
        None => {
            let w2 = applied.0;
            let acc = w2.account(tx.sender);
            let remain = spec_sat_mul(u256_of(o.remain_gas as nat), price);
            (
                w2.with_account(
                    tx.sender,
                    account_with(
                        acc,
                        spec_sat_add(current_nonce, u256_of(1)),
                        spec_sat_add(acc.balance, remain),
                    ),
                ),
                Ok(
                    TxRespView {
                        exit_reason: o.exit_reason@,
                        ret: o.ret@,
                        gas_used: o.used_gas,
                        remain_gas: o.remain_gas,
                        fee_cost: spec_sat_mul(price, u256_of(o.used_gas as nat)),
                        logs: Seq::empty(),
                        code_address: if tx.transaction.unsigned.action is Create
                            && o.exit_reason.is_succeed() {
                            Some(H256::spec_of(spec_code_address(tx.sender, current_nonce)))
                        } else {
                            None
                        },
                        removed: false,
                    },
                ),
            )
        },
    }
}

/// The execution of one transaction of a block, given what the virtual
/// machine gives where it runs: the context takes sender and gas price of
/// the transaction, the transaction is executed, the world state is
/// committed, and the logs go from the context into the response.
pub open spec fn spec_exec_tx(w: WorldView, tx: SignedTransactionView, o: EvmOutcome) -> (
    WorldView,
    Result<TxRespView, TrieError>,
) {
    let w0 = w.with_sender(tx.sender, tx.transaction.unsigned.gas_price);
    let done = match spec_prepare(w0, tx) {
        TxStartView::Aborted { world, resp } => (world, Ok::<TxRespView, TrieError>(resp)),
        TxStartView::Run { world, call, current_nonce } => spec_complete(
            world,
            tx,
            current_nonce,
            o,
        ),
    };
    match done.1 {
        Err(e) => (done.0, Err(e)),
        Ok(resp) => {
            let w2 = done.0.committed();
            (w2.with_logs(Seq::empty()), Ok(TxRespView { logs: w2.ctx.logs, ..resp }))
        },
    }
}

/// How far the execution of a list of transactions got.
pub struct ExecTrace {
    pub world: WorldView,
    pub resps: Seq<TxRespView>,
    pub error: Option<TrieError>,
    pub gas: u64,
    pub fee: U256,
}

/// The sum of two amounts of gas, at most `u64::MAX`.
pub open spec fn gas_sum(a: u64, b: u64) -> u64 {
    if a + b > u64::MAX {
        u64::MAX
    } else {
        (a + b) as u64
    }
}

/// The execution of the transactions of a list in their order, given what
/// the virtual machine gives for each, up to the first whose changes
/// could not be made.
pub open spec fn spec_exec(w: WorldView, txs: Seq<SignedTransactionView>, outs: Seq<EvmOutcome>)
    -> ExecTrace
    decreases txs.len(),
{
    if txs.len() == 0 {
        ExecTrace { world: w, resps: Seq::empty(), error: None, gas: 0, fee: u256_of(0) }
    } else {
        let p = spec_exec(w, txs.drop_last(), outs.drop_last());
        if p.error is Some {
            p
        } else {
            let step = spec_exec_tx(p.world, txs.last(), outs.last());
            match step.1 {
                Err(e) => ExecTrace { world: step.0, error: Some(e), ..p },
                Ok(r) => ExecTrace {
                    world: step.0,
                    resps: p.resps.push(r),
                    error: None,
                    gas: gas_sum(p.gas, r.gas_used),
                    fee: spec_sat_add(p.fee, r.fee_cost),
                },
            }
        }
    }
}

/// Whether the virtual machine can give the outcome for the call in the world.
pub open spec fn evm_gave<E: Fn(&RTEvmExecutorAdapter, &EvmCall) -> EvmOutcome>(
    evm: &E,
    w: WorldView,
    call: EvmCallView,
    o: EvmOutcome,
) -> bool {
    exists|b: RTEvmExecutorAdapter, c: EvmCall|
        b@ == w && c@ == call && b.wf() && #[trigger] evm.ensures((&b, &c), o)
}

/// Whether the outcome is one that the virtual machine can give for the
/// transaction in the world, where the transaction makes it run.
pub open spec fn step_ok<E: Fn(&RTEvmExecutorAdapter, &EvmCall) -> EvmOutcome>(
    evm: &E,
    w: WorldView,
    tx: SignedTransactionView,
    o: EvmOutcome,
) -> bool {
    match spec_prepare(w.with_sender(tx.sender, tx.transaction.unsigned.gas_price), tx) {
        TxStartView::Aborted { .. } => true,
        TxStartView::Run { world, call, .. } => evm_gave(evm, world, call, o),
    }
}

/// Whether each outcome of a list is one that the virtual machine can give
/// for its transaction in the world that the execution has reached by then.
pub open spec fn trace_ok<E: Fn(&RTEvmExecutorAdapter, &EvmCall) -> EvmOutcome>(
    evm: &E,
    w: WorldView,
    txs: Seq<SignedTransactionView>,
    outs: Seq<EvmOutcome>,
) -> bool
    decreases txs.len(),
{
    txs.len() == 0 || {
        let p = spec_exec(w, txs.drop_last(), outs.drop_last());
        &&& trace_ok(evm, w, txs.drop_last(), outs.drop_last())
        &&& p.error is None ==> step_ok(evm, p.world, txs.last(), outs.last())
    }
}

/// The digests of the return data of the responses of a list.
pub open spec fn ret_digests(resps: Seq<TxRespView>) -> Seq<H256> {
    Seq::new(resps.len(), |i: int| H256::spec_of(spec_digest(resps[i].ret)))
}

/// The hashes of the transactions of a list.
pub open spec fn hashes_of(txs: Seq<SignedTransactionView>) -> Seq<H256> {
    Seq::new(txs.len(), |i: int| txs[i].transaction.hash)
}

/// The response to a block whose execution went through.
pub open spec fn spec_exec_resp(t: ExecTrace, txs: Seq<SignedTransactionView>) -> ExecRespView {
    ExecRespView {
        state_root: H256::spec_of(spec_map_root(t.world.state)),
        transaction_root: H256::spec_of(spec_root_indexed(hashes_of(txs))),
        receipt_root: H256::spec_of(spec_root_indexed(ret_digests(t.resps))),
        gas_used: t.gas,
        fee_used: t.fee,
        txs_resp: t.resps,
    }
}

/// Whether a result of the execution of a block, and the world after it,
/// are what the given outcomes of the virtual machine lead to.
///
/// The outcomes are those of the transactions up to the first whose
/// changes could not be made, or of all. After the last transaction the
/// world state is committed once more.
#[verifier::opaque]
pub open spec fn exec_result_is<E: Fn(&RTEvmExecutorAdapter, &EvmCall) -> EvmOutcome>(
    evm: &E,
    w: WorldView,
    txs: Seq<SignedTransactionView>,
    outs: Seq<EvmOutcome>,
    r: Result<ExecResp, TrieError>,
    after: WorldView,
) -> bool {
    let done = txs.subrange(0, outs.len() as int);
    let t = spec_exec(w, done, outs);
    &&& outs.len() <= txs.len()
    &&& trace_ok(evm, w, done, outs)
    &&& match t.error {
        Some(e) => r == Err::<ExecResp, TrieError>(e) && after == t.world,
        None => {
            &&& outs.len() == txs.len()
            &&& r matches Ok(resp)
            &&& resp@ == spec_exec_resp(t, txs)
            &&& after == t.world.committed()
        },
    }
}

/// The gas that every call or creation costs before it runs: that of a
/// call, that of a creation more where one is created, and that of the payload.
pub open spec fn spec_base_gas(creates: bool, data: Seq<u8>) -> u64 {
    let intrinsic: u64 = if creates {
        (GAS_CREATE_TRANSACTION + GAS_CALL_TRANSACTION) as u64
    } else {
        GAS_CALL_TRANSACTION
    };
    gas_sum(intrinsic, spec_data_gas_cost(data) as u64)
}

/// The response to a query, given what the virtual machine gave.
pub open spec fn spec_call_resp(price: U256, creates: bool, base_gas: u64, o: EvmOutcome)
    -> TxRespView {
    let used = gas_sum(o.used_gas, base_gas);
    TxRespView {
        exit_reason: o.exit_reason@,
        ret: o.ret@,
        gas_used: used,
        remain_gas: o.remain_gas,
        fee_cost: spec_sat_mul(price, u256_of(used as nat)),
        logs: Seq::empty(),
        code_address: if creates {
            Some(H256::spec_of(Seq::new(12, |i: int| 0u8) + o.create_address@))
        } else {
            None
        },
        removed: false,
    }
}

/// An account that was written at an address is the account at that address.
pub proof fn lemma_with_account(w: WorldView, a: H160, acc: Account)
    ensures
        w.with_account(a, acc).account(a) == acc,
        w.with_account(a, acc).account_opt(a) == Some(acc),
{
    Account::lemma_decode_encode(acc);
}

/// Every transaction that is executed raises the nonce of its sender by
/// one, whether or not its own nonce was right.
pub proof fn lemma_exec_tx_nonce(w: WorldView, tx: SignedTransactionView, o: EvmOutcome)
    requires
        spec_exec_tx(w, tx, o).1 is Ok,
    ensures
        spec_exec_tx(w, tx, o).0.account(tx.sender).nonce@ == nat_min(
            w.account(tx.sender).nonce@ + 1,
            u256_max(),
        ),
        spec_exec_tx(w, tx, o).0.account_opt(tx.sender) is Some,
{
    reveal(spec_prepare);
    reveal(spec_complete);
    let w0 = w.with_sender(tx.sender, tx.transaction.unsigned.gas_price);
    let acc = w0.account(tx.sender);
    assert(acc == w.account(tx.sender));
    U256::lemma_view_injective(acc.nonce, acc.nonce);
    lemma_u256_of(1);
    lemma_u256_of(nat_min(acc.nonce@ + 1, u256_max()));
    match spec_prepare(w0, tx) {
        TxStartView::Aborted { world, resp } => {
            let fee = spec_sat_mul(w0.ctx.gas_price, u256_of(MIN_TRANSACTION_GAS_LIMIT as nat));
            lemma_with_account(
                w0,
                tx.sender,
                account_with(
                    acc,
                    spec_sat_add(acc.nonce, u256_of(1)),
                    spec_sat_sub(acc.balance, fee),
                ),
            );
        },
        TxStartView::Run { world, call, current_nonce } => {
            let applied = spec_applied(world, o);
            let w2 = applied.0;
            let acc2 = w2.account(tx.sender);
            let remain = spec_sat_mul(u256_of(o.remain_gas as nat), world.ctx.gas_price);
            lemma_with_account(
                w2,
                tx.sender,
                account_with(
                    acc2,
                    spec_sat_add(current_nonce, u256_of(1)),
                    spec_sat_add(acc2.balance, remain),
                ),
            );
        },
    }
}

/// The execution of one transaction names the address of new code only
/// where the transaction creates.
pub proof fn lemma_exec_tx_code_address(w: WorldView, tx: SignedTransactionView, o: EvmOutcome)
    requires
        spec_exec_tx(w, tx, o).1 is Ok,
        tx.transaction.unsigned.action is Call,
    ensures
        spec_exec_tx(w, tx, o).1->Ok_0.code_address is None,
{
    reveal(spec_prepare);
    reveal(spec_complete);
}

/// The execution of a transaction that creates, has the nonce of its
/// sender and whose run succeeds names the address of the new code: the
/// one that sender and nonce give.
pub proof fn lemma_exec_tx_created(w: WorldView, tx: SignedTransactionView, o: EvmOutcome)
    requires
        spec_exec_tx(w, tx, o).1 is Ok,
        tx.transaction.unsigned.action is Create,
        tx.transaction.unsigned.nonce == w.account(tx.sender).nonce,
        o.exit_reason.is_succeed(),
    ensures
        spec_exec_tx(w, tx, o).1->Ok_0.code_address == Some(
            H256::spec_of(spec_code_address(tx.sender, tx.transaction.unsigned.nonce)),
        ),
        spec_exec_tx(w, tx, o).1->Ok_0.exit_reason == o.exit_reason@,
        spec_exec_tx(w, tx, o).1->Ok_0.gas_used == o.used_gas,
{
    reveal(spec_prepare);
    reveal(spec_complete);
}

/// The execution of a transaction that has the nonce of its sender and
/// whose run does not succeed changes no account but that of the sender:
/// every other address has the account and the code that it had, and the
/// response names no address of new code and has the exit reason and the
/// gas of the run.
pub proof fn lemma_exec_tx_failed(w: WorldView, tx: SignedTransactionView, o: EvmOutcome, x: H160)
    requires
        spec_exec_tx(w, tx, o).1 is Ok,
        tx.transaction.unsigned.nonce == w.account(tx.sender).nonce,
        !o.exit_reason.is_succeed(),
        x != tx.sender,
    ensures
        spec_exec_tx(w, tx, o).1->Ok_0.code_address is None,
        spec_exec_tx(w, tx, o).1->Ok_0.exit_reason == o.exit_reason@,
        spec_exec_tx(w, tx, o).1->Ok_0.gas_used == o.used_gas,
        spec_exec_tx(w, tx, o).0.account_opt(x) == w.account_opt(x),
        spec_exec_tx(w, tx, o).0.state.contains_key(x@) == w.state.contains_key(x@),
        spec_exec_tx(w, tx, o).0.code(x) == w.code(x),
{
    reveal(spec_prepare);
    reveal(spec_complete);
    H160::lemma_view_injective(x, tx.sender);
}

/// An execution that went through has a response for each transaction,
/// and a response names the address of new code only where its
/// transaction creates.
pub proof fn lemma_exec_resps(
    w: WorldView,
    txs: Seq<SignedTransactionView>,
    outs: Seq<EvmOutcome>,
)
    requires
        outs.len() == txs.len(),
        spec_exec(w, txs, outs).error is None,
    ensures
        spec_exec(w, txs, outs).resps.len() == txs.len(),
        forall|i: int|
            0 <= i < txs.len() && (#[trigger] txs[i]).transaction.unsigned.action is Call
                ==> spec_exec(w, txs, outs).resps[i].code_address is None,
    decreases txs.len(),
{
    if txs.len() > 0 {
        let p = spec_exec(w, txs.drop_last(), outs.drop_last());
        assert(p.error is None);
        lemma_exec_resps(w, txs.drop_last(), outs.drop_last());
        let all = spec_exec(w, txs, outs).resps;
        assert forall|i: int|
            0 <= i < txs.len() && (#[trigger] txs[i]).transaction.unsigned.action is Call implies all[i].code_address is None by {
            if i < txs.len() - 1 {
                assert(txs.drop_last()[i] == txs[i]);
                assert(all[i] == p.resps[i]);
            } else {
                assert(txs.last() == txs[i]);
                lemma_exec_tx_code_address(p.world, txs.last(), outs.last());
            }
        }
    }
}

/// After the execution of transactions that are all of one sender, the
/// nonce of the sender is what it was before and the number of the
/// transactions more (at most 2^256 - 1).
pub proof fn lemma_exec_nonce(
    w: WorldView,
    txs: Seq<SignedTransactionView>,
    outs: Seq<EvmOutcome>,
    sender: H160,
)
    requires
        outs.len() == txs.len(),
        forall|i: int| 0 <= i < txs.len() ==> (#[trigger] txs[i]).sender == sender,
        spec_exec(w, txs, outs).error is None,
    ensures
        spec_exec(w, txs, outs).world.account(sender).nonce@ == nat_min(
            w.account(sender).nonce@ + txs.len(),
            u256_max(),
        ),
        txs.len() > 0 ==> spec_exec(w, txs, outs).world.account_opt(sender) is Some,
    decreases txs.len(),
{
    U256::lemma_view_injective(w.account(sender).nonce, w.account(sender).nonce);
    if txs.len() > 0 {
        let p = spec_exec(w, txs.drop_last(), outs.drop_last());
        assert(p.error is None);
        assert forall|i: int| 0 <= i < txs.drop_last().len() implies (#[trigger] txs.drop_last()[i]).sender
            == sender by {
            assert(txs.drop_last()[i] == txs[i]);
        }
        lemma_exec_nonce(w, txs.drop_last(), outs.drop_last(), sender);
        assert(txs.last() == txs[txs.len() - 1]);
        lemma_exec_tx_nonce(p.world, txs.last(), outs.last());
    }
}

/// The executor.
#[derive(Clone, Copy, Debug, Default, PartialEq, Eq)]
pub struct RTEvmExecutor;

impl RTEvmExecutor {
    /// Starts the execution of a transaction: checks the nonce and takes
    /// the advance payment. The context holds the gas price of the transaction.
    pub fn prepare_tx(backend: &mut RTEvmExecutorAdapter, tx: &SignedTransaction) -> (r: TxStart)
        requires
            old(backend).wf(),
            tx@.transaction.unsigned.gas_limit@ <= u64::MAX,
        ensures
            final(backend).wf(),
            match spec_prepare(old(backend)@, tx@) {
                TxStartView::Aborted { world, resp } => {
                    &&& r matches TxStart::Aborted(got)
                    &&& got@ == resp
                    &&& final(backend)@ == world
                },
                TxStartView::Run { world, call, current_nonce } => {
                    &&& r matches TxStart::Run { call: c, current_nonce: n }
                    &&& c@ == call
                    &&& n == current_nonce
                    &&& final(backend)@ == world
                },
            },
    {
        proof {
            reveal(spec_prepare);
        }
        let sender = tx.sender;
        let price = backend.gas_price();
        let gas_limit = tx.transaction.unsigned.gas_limit();
        let account = backend.get_account(sender);
        let current_nonce = account.nonce;
        proof {
            U256::lemma_of_view(U256 { w3: 0, w2: 0, w1: 0, w0: 1 });
            U256::lemma_of_view(
                U256 { w3: 0, w2: 0, w1: 0, w0: MIN_TRANSACTION_GAS_LIMIT },
            );
        }
        if tx.transaction.unsigned.nonce() != current_nonce {
            let min_gas_limit = U256::from_u64(MIN_TRANSACTION_GAS_LIMIT);
            let fee_cost = price.saturating_mul(&min_gas_limit);
            let changed = Account {
                nonce: current_nonce.saturating_add(&U256::one()),
                balance: account.balance.saturating_sub(&fee_cost),
                storage_root: account.storage_root,
                code_hash: account.code_hash,
            };
            backend.save_account(sender, &changed);
            let resp = TxResp {
                exit_reason: ExitReason::invalid_nonce(),
                ret: Vec::new(),
                gas_used: MIN_TRANSACTION_GAS_LIMIT,
                remain_gas: 0,
                fee_cost,
                logs: Vec::new(),
                code_address: None,
                removed: false,
            };
            assert(logs_view(resp.logs@) =~= Seq::<LogView>::empty());
            assert(resp.ret@ =~= Seq::<u8>::empty());
            return TxStart::Aborted(resp);
        }
        let prepay = price.saturating_mul(&gas_limit);
        let changed = Account {
            nonce: account.nonce,
            balance: account.balance.saturating_sub(&prepay),
            storage_root: account.storage_root,
            code_hash: account.code_hash,
        };
        backend.save_account(sender, &changed);
        let call = EvmCall {
            caller: sender,
            to: match tx.transaction.unsigned.action() {
                TransactionAction::Call(a) => Some(a),
                TransactionAction::Create => None,
            },
            value: tx.transaction.unsigned.value(),
            data: slice_to_vec(tx.transaction.unsigned.data().as_slice()),
            gas_limit: gas_limit.as_u64(),
            access_list: tx.transaction.unsigned.access_list(),
        };
        TxStart::Run { call, current_nonce }
    }

    /// Ends the execution of a transaction after a run of the virtual
    /// machine: makes the changes of a run that succeeded, sets the nonce
    /// of the sender and gives back what is left of the advance payment.
    ///
    /// Fails where a change could not be made.
    #[verifier::rlimit(60)]
    pub fn complete_tx(
        backend: &mut RTEvmExecutorAdapter,
        tx: &SignedTransaction,
        current_nonce: U256,
        outcome: EvmOutcome,
    ) -> (r: Result<TxResp, TrieError>)
        requires
            old(backend).wf(),
        ensures
            final(backend).wf(),
            final(backend)@ == spec_complete(old(backend)@, tx@, current_nonce, outcome).0,
            match spec_complete(old(backend)@, tx@, current_nonce, outcome).1 {
                Err(e) => r == Err::<TxResp, TrieError>(e),
                Ok(resp) => r matches Ok(got) && got@ == resp,
            },
    {
        broadcast use vstd::array::group_array_axioms;

        proof {
            reveal(spec_complete);
        }
        let price = backend.gas_price();
        let EvmOutcome { exit_reason, ret, used_gas, remain_gas, values, logs, create_address } =
            outcome;
        let succeeded = exit_reason.is_succeed();
        let creates = match tx.transaction.unsigned.action() {
            TransactionAction::Create => true,
            TransactionAction::Call(_) => false,
        };
        let code_addr = if creates && succeeded {
            let a = code_address(&tx.sender, &current_nonce);
            proof {
                H256::lemma_spec_of(a@);
            }
            Some(a)
        } else {
            None
        };
        if succeeded {
            match backend.apply_changes(&values, logs, true) {
                Err(e) => { return Err(e); },
                Ok(()) => {},
            }
        }
        proof {
            U256::lemma_of_view(U256 { w3: 0, w2: 0, w1: 0, w0: 1 });
            U256::lemma_of_view(U256 { w3: 0, w2: 0, w1: 0, w0: remain_gas });
            U256::lemma_of_view(U256 { w3: 0, w2: 0, w1: 0, w0: used_gas });
        }
        let account = backend.get_account(tx.sender);
        let remain = U256::from_u64(remain_gas).saturating_mul(&price);
        let changed = Account {
            nonce: current_nonce.saturating_add(&U256::one()),
            balance: account.balance.saturating_add(&remain),
            storage_root: account.storage_root,
            code_hash: account.code_hash,
        };
        backend.save_account(tx.sender, &changed);
        let resp = TxResp {
            exit_reason,
            ret,
            gas_used: used_gas,
            remain_gas,
            fee_cost: price.saturating_mul(&U256::from_u64(used_gas)),
            logs: Vec::new(),
            code_address: code_addr,
            removed: false,
        };
        assert(logs_view(resp.logs@) =~= Seq::<LogView>::empty());
        Ok(resp)
    }

    /// Executes one transaction: starts it, lets the virtual machine run
    /// where the nonce is right, and ends it.
    ///
    /// Fails where a change of the run could not be made.
    pub fn evm_exec<E: Fn(&RTEvmExecutorAdapter, &EvmCall) -> EvmOutcome>(
        backend: &mut RTEvmExecutorAdapter,
        tx: &SignedTransaction,
        evm: &E,
    ) -> (r: Result<TxResp, TrieError>)
        requires
            old(backend).wf(),
            tx@.transaction.unsigned.gas_limit@ <= u64::MAX,
            forall|b: &RTEvmExecutorAdapter, c: &EvmCall| #[trigger] evm.requires((b, c)),
        ensures
            final(backend).wf(),
            match spec_prepare(old(backend)@, tx@) {
                TxStartView::Aborted { world, resp } => {
                    &&& r matches Ok(got)
                    &&& got@ == resp
                    &&& final(backend)@ == world
                },
                TxStartView::Run { world, call, current_nonce } => exists|o: EvmOutcome|
                    {
                        &&& evm_gave(evm, world, call, o)
                        &&& final(backend)@ == (#[trigger] spec_complete(
                            world,
                            tx@,
                            current_nonce,
                            o,
                        )).0
                        &&& match spec_complete(world, tx@, current_nonce, o).1 {
                            Err(e) => r == Err::<TxResp, TrieError>(e),
                            Ok(resp) => r matches Ok(got) && got@ == resp,
                        }
                    },
            },
    {
        match Self::prepare_tx(backend, tx) {
            TxStart::Aborted(resp) => Ok(resp),
            TxStart::Run { call, current_nonce } => {
                let ghost world = backend@;
                let ghost b0 = *backend;
                let outcome = evm(&*backend, &call);
                let ghost o = outcome;
                assert(evm_gave(evm, world, call@, o)) by {
                    assert(b0@ == world && call@ == call@ && b0.wf() && evm.ensures(
                        (&b0, &call),
                        o,
                    ));
                }
                let r = Self::complete_tx(backend, tx, current_nonce, outcome);
                assert(backend@ == spec_complete(world, tx@, current_nonce, o).0);
                r
            },
        }
    }

    /// The response to a query, given what the virtual machine gave for it.
    pub fn call_response(price: U256, creates: bool, base_gas: u64, outcome: EvmOutcome) -> (r:
        TxResp)
        ensures
            r@ == spec_call_resp(price, creates, base_gas, outcome),
    {
        broadcast use vstd::array::group_array_axioms;

        let EvmOutcome { exit_reason, ret, used_gas, remain_gas, values, logs, create_address } =
            outcome;
        let used: u64 = used_gas.saturating_add(base_gas);
        proof {
            U256::lemma_of_view(U256 { w3: 0, w2: 0, w1: 0, w0: used });
        }
        let code_address = if creates {
            let a = H256::from_address(&create_address);
            proof {
                H256::lemma_spec_of(a@);
            }
            Some(a)
        } else {
            None
        };
        let resp = TxResp {
            exit_reason,
            ret,
            gas_used: used,
            remain_gas,
            fee_cost: price.saturating_mul(&U256::from_u64(used)),
            logs: Vec::new(),
            code_address,
            removed: false,
        };
        assert(logs_view(resp.logs@) =~= Seq::<LogView>::empty());
        resp
    }

    /// Answers a query: lets the virtual machine run the call, or the
    /// creation where `to` is `None`, on the backend as it stands, and
    /// gives the response. The backend is not changed.
    pub fn call<E: Fn(&RTEvmExecutorAdapter, &EvmCall) -> EvmOutcome>(
        &self,
        backend: &RTEvmExecutorAdapter,
        gas_limit: u64,
        from: Option<H160>,
        to: Option<H160>,
        value: U256,
        data: Vec<u8>,
        evm: &E,
    ) -> (r: TxResp)
        requires
            forall|b: &RTEvmExecutorAdapter, c: &EvmCall| #[trigger] evm.requires((b, c)),
        ensures
            exists|c: EvmCall, o: EvmOutcome|
                {
                    &&& c@ == (EvmCallView {
                        caller: match from {
                            Some(a) => a,
                            None => H160::spec_of(Seq::new(20, |i: int| 0u8)),
                        },
                        to,
                        value,
                        data: data@,
                        gas_limit,
                        access_list: Seq::empty(),
                    })
                    &&& #[trigger] evm.ensures((backend, &c), o)
                    &&& r@ == spec_call_resp(
                        backend@.ctx.gas_price,
                        to is None,
                        spec_base_gas(to is None, data@),
                        o,
                    )
                },
    {
        broadcast use vstd::array::group_array_axioms;

        let creates = to.is_none();
        let intrinsic: u64 = if creates {
            GAS_CREATE_TRANSACTION + GAS_CALL_TRANSACTION
        } else {
            GAS_CALL_TRANSACTION
        };
        let base_gas: u64 = intrinsic.saturating_add(data_gas_cost(data.as_slice()));
        let caller = match from {
            Some(a) => a,
            None => {
                let z = H160::zero();
                proof {
                    H160::lemma_spec_of(z@);
                }
                z
            },
        };
        let call = EvmCall { caller, to, value, data, gas_limit, access_list: Vec::new() };
        assert(access_list_view(call.access_list@) =~= Seq::<AccessListItemView>::empty());
        let outcome = evm(backend, &call);
        let ghost o = outcome;
        let r = Self::call_response(backend.gas_price(), creates, base_gas, outcome);
        assert(evm.ensures((backend, &call), o));
        r
    }

    /// Executes one transaction of a block: the context takes its sender
    /// and gas price, the transaction is executed, the world state is
    /// committed and the logs go from the context into the response.
    fn exec_one<E: Fn(&RTEvmExecutorAdapter, &EvmCall) -> EvmOutcome>(
        backend: &mut RTEvmExecutorAdapter,
        tx: &SignedTransaction,
        evm: &E,
    ) -> (r: (Result<TxResp, TrieError>, Ghost<EvmOutcome>))
        requires
            old(backend).wf(),
            tx@.transaction.unsigned.gas_limit@ <= u64::MAX,
            forall|b: &RTEvmExecutorAdapter, c: &EvmCall| #[trigger] evm.requires((b, c)),
        ensures
            final(backend).wf(),
            step_ok(evm, old(backend)@, tx@, r.1@),
            final(backend)@ == spec_exec_tx(old(backend)@, tx@, r.1@).0,
            match spec_exec_tx(old(backend)@, tx@, r.1@).1 {
                Err(e) => r.0 == Err::<TxResp, TrieError>(e),
                Ok(resp) => r.0 matches Ok(got) && got@ == resp,
            },
    {
        backend.set_gas_price(tx.transaction.unsigned.gas_price());
        backend.set_origin(tx.sender);
        assert(backend@ == old(backend)@.with_sender(
            tx.sender,
            tx@.transaction.unsigned.gas_price,
        ));
        let ghost o: EvmOutcome;
        let step = match Self::prepare_tx(backend, tx) {
            TxStart::Aborted(resp) => {
                proof {
                    o = arbitrary();
                }
                resp
            },
            TxStart::Run { call, current_nonce } => {
                let ghost world = backend@;
                let ghost b0 = *backend;
                let outcome = evm(&*backend, &call);
                proof {
                    o = outcome;
                    assert(evm_gave(evm, world, call@, o)) by {
                        assert(b0@ == world && call@ == call@ && b0.wf() && evm.ensures(
                            (&b0, &call),
                            o,
                        ));
                    }
                }
                match Self::complete_tx(backend, tx, current_nonce, outcome) {
                    Err(e) => {
                        return (Err(e), Ghost(o));
                    },
                    Ok(resp) => resp,
                }
            },
        };
        let _ = backend.commit();
        let logs = backend.get_logs();
        let mut resp = step;
        resp.logs = logs;
        (Ok(resp), Ghost(o))
    }

    /// Executes the transactions of a block in their order and commits the
    /// world state.
    ///
    /// For each transaction the context takes its sender and gas price, the
    /// transaction is executed, the world state is committed and the logs
    /// go from the context into the response. The roots of the response
    /// are that of the world state, that of the transaction hashes and that
    /// of the digests of the return data.
    ///
    /// Fails at the first transaction whose changes could not be made.
    pub fn exec<E: Fn(&RTEvmExecutorAdapter, &EvmCall) -> EvmOutcome>(
        &self,
        backend: &mut RTEvmExecutorAdapter,
        txs: &Vec<SignedTransaction>,
        evm: &E,
    ) -> (r: Result<ExecResp, TrieError>)
        requires
            old(backend).wf(),
            txs@.len() <= u32::MAX,
            forall|i: int|
                0 <= i < txs@.len() ==> (#[trigger] txs@[i])@.transaction.unsigned.gas_limit@
                    <= u64::MAX,
            forall|b: &RTEvmExecutorAdapter, c: &EvmCall| #[trigger] evm.requires((b, c)),
        ensures
            final(backend).wf(),
            exists|outs: Seq<EvmOutcome>| #[trigger]
                exec_result_is(evm, old(backend)@, txs_view(txs@), outs, r, final(backend)@),
            r matches Ok(resp) ==> {
                &&& resp.state_root@ == spec_map_root(final(backend)@.state)
                &&& state_at(final(backend)@.tries, resp.state_root) == Some(
                    final(backend)@.state,
                )
                &&& resp.transaction_root@ == spec_root_indexed(hashes_of(txs_view(txs@)))
                &&& resp.receipt_root@ == spec_root_indexed(
                    ret_digests(resps_view(resp.txs_resp@)),
                )
            },
    {
        broadcast use vstd::array::group_array_axioms;

        proof {
            reveal(exec_result_is);
        }
        let ghost w0 = backend@;
        let ghost all = txs_view(txs@);
        let ghost mut outs: Seq<EvmOutcome> = Seq::empty();
        let mut res: Vec<TxResp> = Vec::new();
        let mut tx_hashes: Vec<H256> = Vec::new();
        let mut receipt_hashes: Vec<H256> = Vec::new();
        let mut gas: u64 = 0;
        let mut fee: U256 = U256::zero();
        let mut i: usize = 0;
        proof {
            U256::lemma_of_view(fee);
            assert(all.subrange(0, 0) =~= Seq::<SignedTransactionView>::empty());
            assert(resps_view(res@) =~= Seq::<TxRespView>::empty());
        }
        while i < txs.len()
            invariant
                i <= txs@.len(),
                txs@.len() <= u32::MAX,
                forall|k: int|
                    0 <= k < txs@.len() ==> (#[trigger] txs@[k])@.transaction.unsigned.gas_limit@
                        <= u64::MAX,
                forall|b: &RTEvmExecutorAdapter, c: &EvmCall| #[trigger] evm.requires((b, c)),
                w0 == old(backend)@,
                all == txs_view(txs@),
                backend.wf(),
                outs.len() == i,
                trace_ok(evm, w0, all.subrange(0, i as int), outs),
                spec_exec(w0, all.subrange(0, i as int), outs).error is None,
                backend@ == spec_exec(w0, all.subrange(0, i as int), outs).world,
                resps_view(res@) == spec_exec(w0, all.subrange(0, i as int), outs).resps,
                gas == spec_exec(w0, all.subrange(0, i as int), outs).gas,
                fee == spec_exec(w0, all.subrange(0, i as int), outs).fee,
                tx_hashes@.len() == i,
                forall|k: int| 0 <= k < i ==> tx_hashes@[k] == txs@[k].transaction.hash,
                receipt_hashes@.len() == i,
                res@.len() == i,
                forall|k: int|
                    0 <= k < i ==> receipt_hashes@[k] == H256::spec_of(
                        spec_digest((#[trigger] res@[k]).ret@),
                    ),
            decreases txs@.len() - i,
        {
            let tx = &txs[i];
            let ghost before = spec_exec(w0, all.subrange(0, i as int), outs);
            let ghost next = all.subrange(0, i + 1);
            proof {
                assert(next.drop_last() =~= all.subrange(0, i as int));
                assert(next.last() == tx@);
            }
            let (step, Ghost(o)) = Self::exec_one(backend, tx, evm);
            let ghost full = outs.push(o);
            proof {
                assert(full.drop_last() =~= outs);
                assert(full.last() == o);
                assert(all.subrange(0, full.len() as int) == next);
            }
            proof {
                reveal(exec_result_is);
            }
            let resp = match step {
                Err(e) => {
                    assert(exec_result_is(
                        evm,
                        w0,
                        all,
                        full,
                        Err::<ExecResp, TrieError>(e),
                        backend@,
                    ));
                    return Err(e);
                },
                Ok(resp) => resp,
            };
            gas = gas.saturating_add(resp.gas_used);
            fee = fee.saturating_add(&resp.fee_cost);
            tx_hashes.push(tx.transaction.hash);
            let digest = Hasher::digest(resp.ret.as_slice());
            proof {
                H256::lemma_spec_of(digest@);
                let after = spec_exec(w0, next, full);
                assert(after.error is None);
                assert(after.resps == before.resps.push(resp@));
                assert(resps_view(res@.push(resp)) =~= before.resps.push(resp@));
                outs = full;
            }
            receipt_hashes.push(digest);
            res.push(resp);
            i += 1;
        }
        let state_root = backend.commit();
        let transaction_root = trie_root_indexed(&tx_hashes);
        let receipt_root = trie_root_indexed(&receipt_hashes);
        proof {
            assert(all.subrange(0, txs@.len() as int) =~= all);
            let t = spec_exec(w0, all, outs);
            assert(tx_hashes@ =~= hashes_of(all));
            assert(receipt_hashes@ =~= ret_digests(t.resps)) by {
                assert forall|k: int| 0 <= k < receipt_hashes@.len() implies receipt_hashes@[k]
                    == ret_digests(t.resps)[k] by {
                    assert(t.resps[k] == res@[k]@);
                }
            }
            H256::lemma_spec_of(state_root@);
            H256::lemma_spec_of(transaction_root@);
            H256::lemma_spec_of(receipt_root@);
        }
        let resp = ExecResp {
            state_root,
            transaction_root,
            receipt_root,
            gas_used: gas,
            fee_used: fee,
            txs_resp: res,
        };
        proof {
            reveal(exec_result_is);
        }
        assert(exec_result_is(evm, w0, all, outs, Ok::<ExecResp, TrieError>(resp), backend@));
        Ok(resp)
    }

    /// The account at an address.
    pub fn get_account(&self, backend: &RTEvmExecutorAdapter, address: &H160) -> (r: Account)
        ensures
            r == backend@.account(*address),
    {
        backend.get_account(*address)
    }
}

} // verus!
