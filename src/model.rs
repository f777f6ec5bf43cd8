use vstd::prelude::*;
use crate::ledger::{balance_spec, transfer_spec, Config};
use crate::records::{
    encode_account_spec, opt_bytes_view, AccountId, CallStampView, DeferredStorageWriteView,
    TransferEntryView,
};

verus! {

/// Metadata of a live contract.
#[derive(Debug, Clone)]
pub struct AliveContractInfo {
    /// Identifier of the contract's storage namespace.
    pub trie_id: Vec<u8>,
    /// Index of the contract's code in the code store.
    pub code_hash: u64,
    /// Root of the contract's storage as the directory reports it.
    pub storage_root: Vec<u8>,
}

/// What the contract directory knows of an account.
#[derive(Debug, Clone)]
pub enum ContractInfo {
    Alive(AliveContractInfo),
    Tombstone,
}

/// One host operation of a deterministic executable.
#[derive(Debug, Clone)]
pub enum HostOp {
    /// Writes (or, with `None`, deletes) a storage entry of the running contract.
    SetStorage([u8; 32], Option<Vec<u8>>),
    /// Reads a storage entry of the running contract and appends it to the output.
    GetStorage([u8; 32]),
    /// Transfers value to an account.
    Transfer(AccountId, u64),
    /// Calls a contract with a value and input; its output is appended.
    Call(AccountId, u64, Vec<u8>),
    /// Appends bytes to the output.
    Output(Vec<u8>),
    /// Appends the call's input to the output.
    ReadInput,
    /// Stops execution with a failure.
    Trap,
}

/// A host operation as values.
pub enum HostOpView {
    SetStorage(Seq<u8>, Option<Seq<u8>>),
    GetStorage(Seq<u8>),
    Transfer(AccountId, u64),
    Call(AccountId, u64, Seq<u8>),
    Output(Seq<u8>),
    ReadInput,
    Trap,
}

impl View for HostOp {
    type V = HostOpView;

    open spec fn view(&self) -> HostOpView {
        match self {
            HostOp::SetStorage(k, v) => HostOpView::SetStorage(k@, opt_bytes_view(*v)),
            HostOp::GetStorage(k) => HostOpView::GetStorage(k@),
            HostOp::Transfer(to, v) => HostOpView::Transfer(*to, *v),
            HostOp::Call(to, v, input) => HostOpView::Call(*to, *v, input@),
            HostOp::Output(d) => HostOpView::Output(d@),
            HostOp::ReadInput => HostOpView::ReadInput,
            HostOp::Trap => HostOpView::Trap,
        }
    }
}

/// The view of an executable.
pub open spec fn code_view(c: Seq<HostOp>) -> Seq<HostOpView> {
    c.map_values(|o: HostOp| o@)
}

/// The views of a code store.
pub open spec fn codes_view(c: Seq<Vec<HostOp>>) -> Seq<Seq<HostOpView>> {
    c.map_values(|v: Vec<HostOp>| code_view(v@))
}

/// Why a call chain failed.
#[derive(Debug, Clone, Copy, PartialEq, Eq, Structural)]
pub enum ExecError {
    MaxCallDepthReached,
    OutOfGas,
    NotCallable,
    CodeNotFound,
    /// The requester cannot pay the value and keep the subsistence threshold.
    BelowSubsistenceThreshold,
    /// The ledger refused a move: the source cannot pay it and stay alive.
    TransferFailed,
    ContractTrapped,
}

/// Output of a call; `reverted` marks that its state changes were discarded.
#[derive(Debug, Clone)]
pub struct ExecReturnValue {
    pub reverted: bool,
    pub data: Vec<u8>,
}

/// One provisional storage write, as held in the journal.
#[derive(Debug, Clone)]
pub struct StorageWrite {
    pub owner: AccountId,
    pub key: [u8; 32],
    pub value: Option<Vec<u8>>,
}

/// A journal entry as values.
pub struct StorageWriteView {
    pub owner: AccountId,
    pub key: Seq<u8>,
    pub value: Option<Seq<u8>>,
}

impl View for StorageWrite {
    type V = StorageWriteView;

    open spec fn view(&self) -> StorageWriteView {
        StorageWriteView { owner: self.owner, key: self.key@, value: opt_bytes_view(self.value) }
    }
}

/// The views of a journal.
pub open spec fn journal_view(j: Seq<StorageWrite>) -> Seq<StorageWriteView> {
    j.map_values(|w: StorageWrite| w@)
}

/// The value of `key` in `owner`'s storage after the journal's writes, the
/// latest one winning.
pub open spec fn read_spec(j: Seq<StorageWriteView>, owner: AccountId, key: Seq<u8>) -> Option<Seq<u8>>
    decreases j.len(),
{
    if j.len() == 0 {
        None
    } else if j.last().owner == owner && j.last().key == key {
        j.last().value
    } else {
        read_spec(j.drop_last(), owner, key)
    }
}

/// The journal with every write after the first `mark` discarded.
pub open spec fn rollback_spec(j: Seq<StorageWriteView>, mark: nat) -> Seq<StorageWriteView> {
    if mark <= j.len() { j.subrange(0, mark as int) } else { j }
}

/// What stays fixed during a call chain.
pub struct Env {
    pub cfg: Config,
    pub contracts: Seq<ContractInfo>,
    pub codes: Seq<Seq<HostOpView>>,
}

/// The escrow account that acts as caller, and the requester whose funds back the chain.
pub struct Parties {
    pub escrow: AccountId,
    pub requester: AccountId,
}

/// Everything a call chain changes: real balances, the provisional storage
/// journal, the gas left, and the three record sequences.
pub struct ChainState {
    pub balances: Seq<(AccountId, u64)>,
    pub journal: Seq<StorageWriteView>,
    pub gas: u64,
    pub transfers: Seq<TransferEntryView>,
    pub writes: Seq<DeferredStorageWriteView>,
    pub stamps: Seq<CallStampView>,
}

/// The metadata of `a` if it is a live contract.
pub open spec fn alive_info(contracts: Seq<ContractInfo>, a: AccountId) -> Option<AliveContractInfo> {
    if a < contracts.len() {
        match contracts[a as int] {
            ContractInfo::Alive(info) => Some(info),
            ContractInfo::Tombstone => None,
        }
    } else {
        None
    }
}

/// Whether the requester can pay `value` and still hold the subsistence threshold.
pub open spec fn solvent(cfg: Config, balances: Seq<(AccountId, u64)>, requester: AccountId, value: u64) -> bool {
    let total = balance_spec(balances, requester);
    total >= value && total - value >= cfg.subsistence_threshold_spec()
}

/// The escrow transfer protocol: check solvency, move `value` from the
/// requester to the escrow account, and record a transfer to `target`.
pub open spec fn escrow_transfer_spec(
    cfg: Config,
    s: ChainState,
    p: Parties,
    target: AccountId,
    value: u64,
) -> (ChainState, Result<(), ExecError>) {
    if !solvent(cfg, s.balances, p.requester, value) {
        (s, Err(ExecError::BelowSubsistenceThreshold))
    } else {
        (
            ChainState {
                balances: transfer_spec(s.balances, p.requester, p.escrow, value, cfg.existential_deposit).unwrap(),
                transfers: s.transfers.push(
                    TransferEntryView { to: encode_account_spec(target), value, data: Seq::empty() },
                ),
                ..s
            },
            Ok(()),
        )
    }
}

/// A storage write of the running contract: recorded, then applied provisionally.
pub open spec fn set_storage_spec(
    s: ChainState,
    self_account: AccountId,
    trie_id: Seq<u8>,
    key: Seq<u8>,
    value: Option<Seq<u8>>,
) -> ChainState {
    ChainState {
        writes: s.writes.push(
            DeferredStorageWriteView { dest: encode_account_spec(self_account), trie_id, key, value },
        ),
        journal: s.journal.push(StorageWriteView { owner: self_account, key, value }),
        ..s
    }
}

/// How many more levels of calls may still be entered below `depth`.
pub open spec fn depth_measure(env: Env, depth: nat) -> nat {
    if depth <= env.cfg.max_depth { (env.cfg.max_depth - depth) as nat } else { 0 }
}

/// The guards and the set-up of a call at `depth`: the depth limit, the gas
/// charge, the callee's liveness, the call stamp, and the escrow transfer when
/// `value` is positive. On success, the callee's metadata.
pub open spec fn enter_spec(
    env: Env,
    s: ChainState,
    depth: nat,
    p: Parties,
    dest: AccountId,
    transfer_dest: AccountId,
    value: u64,
) -> (ChainState, Result<AliveContractInfo, ExecError>) {
    if depth >= env.cfg.max_depth {
        (s, Err(ExecError::MaxCallDepthReached))
    } else if s.gas < env.cfg.call_cost {
        (ChainState { gas: 0, ..s }, Err(ExecError::OutOfGas))
    } else {
        let s1 = ChainState { gas: (s.gas - env.cfg.call_cost) as u64, ..s };
        match alive_info(env.contracts, dest) {
            None => (s1, Err(ExecError::NotCallable)),
            Some(info) => {
                let s2 = ChainState {
                    stamps: s1.stamps.push(
                        CallStampView { storage: info.storage_root@, dest: encode_account_spec(dest) },
                    ),
                    ..s1
                };
                if value > 0 {
                    let (s3, tr) = escrow_transfer_spec(env.cfg, s2, p, transfer_dest, value);
                    match tr {
                        Err(e) => (s3, Err(e)),
                        Ok(_) => (s3, Ok(info)),
                    }
                } else {
                    (s2, Ok(info))
                }
            },
        }
    }
}

/// How a call ends once its code has run: a failure discards the call's
/// provisional writes (those after `mark`), and so does the outermost call
/// whatever happened. The outermost call always reports a reverted result:
/// with the code's output when it ran to completion, with no output when it
/// failed. A deeper call hands its failure up unchanged.
pub open spec fn finish_spec(
    s: ChainState,
    depth: nat,
    mark: nat,
    r: Result<Seq<u8>, ExecError>,
) -> (ChainState, Result<(bool, Seq<u8>), ExecError>) {
    match r {
        Err(e) => if depth == 0 {
            (ChainState { journal: rollback_spec(s.journal, mark), ..s }, Ok((true, Seq::empty())))
        } else {
            (ChainState { journal: rollback_spec(s.journal, mark), ..s }, Err(e))
        },
        Ok(out) => if depth == 0 {
            (ChainState { journal: rollback_spec(s.journal, mark), ..s }, Ok((true, out)))
        } else {
            (s, Ok((false, out)))
        },
    }
}

/// The effect of an operation other than a call, given the output `out`
/// produced before it: the new state and output, or the failure.
pub open spec fn simple_op_spec(
    env: Env,
    s: ChainState,
    p: Parties,
    self_account: AccountId,
    trie_id: Seq<u8>,
    input: Seq<u8>,
    op: HostOpView,
    out: Seq<u8>,
) -> (ChainState, Result<Seq<u8>, ExecError>) {
    match op {
        HostOpView::SetStorage(key, value) => (set_storage_spec(s, self_account, trie_id, key, value), Ok(out)),
        HostOpView::GetStorage(key) => match read_spec(s.journal, self_account, key) {
            Some(b) => (s, Ok(out + b)),
            None => (s, Ok(out)),
        },
        HostOpView::Transfer(to, value) => {
            let (s1, r) = escrow_transfer_spec(env.cfg, s, p, to, value);
            match r {
                Err(e) => (s1, Err(e)),
                Ok(_) => (s1, Ok(out)),
            }
        },
        // Calls are carried out by `step_spec`, which never hands them here.
        HostOpView::Call(_, _, _) => (s, Ok(out)),
        HostOpView::Output(data) => (s, Ok(out + data)),
        HostOpView::ReadInput => (s, Ok(out + input)),
        HostOpView::Trap => (s, Err(ExecError::ContractTrapped)),
    }
}

/// Runs `code` at `depth` from operation `i` on, with `out` produced so far.
/// A call operation enters the callee one level deeper, exactly as
/// `host_call_spec` states.
#[verifier::opaque]
pub open spec fn run_spec(
    env: Env,
    s: ChainState,
    depth: nat,
    p: Parties,
    self_account: AccountId,
    trie_id: Seq<u8>,
    input: Seq<u8>,
    code: Seq<HostOpView>,
    i: nat,
    out: Seq<u8>,
) -> (ChainState, Result<Seq<u8>, ExecError>)
    decreases depth_measure(env, depth), code.len() - i,
{
    if i >= code.len() {
        (s, Ok(out))
    } else {
        match code[i as int] {
            HostOpView::Call(to, value, call_input) => {
                let (s1, r) = match alive_info(env.contracts, to) {
                    None => (s, Err(ExecError::NotCallable)),
                    Some(info) => if info.code_hash >= env.codes.len() {
                        (s, Err(ExecError::CodeNotFound))
                    } else if depth < env.cfg.max_depth {
                        let (s2, e) = enter_spec(env, s, depth + 1, p, to, to, value);
                        match e {
                            Err(err) => (s2, Err(err)),
                            Ok(callee) => {
                                let (s3, rr) = run_spec(
                                    env, s2, depth + 1, p, to, callee.trie_id@, call_input,
                                    env.codes[info.code_hash as int], 0, Seq::empty());
                                finish_spec(s3, depth + 1, s.journal.len(), rr)
                            },
                        }
                    } else {
                        (s, Err(ExecError::MaxCallDepthReached))
                    },
                };
                match r {
                    Err(e) => (s1, Err(e)),
                    Ok(ret) => run_spec(env, s1, depth, p, self_account, trie_id, input, code, i + 1, out + ret.1),
                }
            },
            _ => {
                let (s1, r) = simple_op_spec(env, s, p, self_account, trie_id, input, code[i as int], out);
                match r {
                    Err(e) => (s1, Err(e)),
                    Ok(o) => run_spec(env, s1, depth, p, self_account, trie_id, input, code, i + 1, o),
                }
            },
        }
    }
}

/// The outcome of one call at `depth`: the guards, the call stamp, the escrow
/// transfer, the execution, and the rollback that the outermost call always forces.
pub open spec fn call_spec(
    env: Env,
    s: ChainState,
    depth: nat,
    p: Parties,
    dest: AccountId,
    transfer_dest: AccountId,
    value: u64,
    input: Seq<u8>,
    code: Seq<HostOpView>,
) -> (ChainState, Result<(bool, Seq<u8>), ExecError>) {
    let (s2, e) = enter_spec(env, s, depth, p, dest, transfer_dest, value);
    match e {
        Err(err) => (s2, Err(err)),
        Ok(info) => {
            let (s3, r) = run_spec(env, s2, depth, p, dest, info.trie_id@, input, code, 0, Seq::empty());
            finish_spec(s3, depth, s.journal.len(), r)
        },
    }
}

/// A call made by running code at `depth`: resolve the callee and its code,
/// then enter it one level deeper.
pub open spec fn host_call_spec(
    env: Env,
    s: ChainState,
    depth: nat,
    p: Parties,
    to: AccountId,
    value: u64,
    input: Seq<u8>,
) -> (ChainState, Result<(bool, Seq<u8>), ExecError>) {
    match alive_info(env.contracts, to) {
        None => (s, Err(ExecError::NotCallable)),
        Some(info) => if info.code_hash >= env.codes.len() {
            (s, Err(ExecError::CodeNotFound))
        } else if depth < env.cfg.max_depth {
            call_spec(env, s, depth + 1, p, to, to, value, input, env.codes[info.code_hash as int])
        } else {
            (s, Err(ExecError::MaxCallDepthReached))
        },
    }
}

/// The effect of one operation of running code at `depth`, given the output
/// `out` produced before it.
#[verifier::opaque]
pub open spec fn step_spec(
    env: Env,
    s: ChainState,
    depth: nat,
    p: Parties,
    self_account: AccountId,
    trie_id: Seq<u8>,
    input: Seq<u8>,
    op: HostOpView,
    out: Seq<u8>,
) -> (ChainState, Result<Seq<u8>, ExecError>) {
    match op {
        HostOpView::Call(to, value, call_input) => {
            let (s1, r) = host_call_spec(env, s, depth, p, to, value, call_input);
            match r {
                Err(e) => (s1, Err(e)),
                Ok(ret) => (s1, Ok(out + ret.1)),
            }
        },
        _ => simple_op_spec(env, s, p, self_account, trie_id, input, op, out),
    }
}

/// One step of running code: the operation at `i`, then the rest.
pub proof fn lemma_run_step(
    env: Env,
    s: ChainState,
    depth: nat,
    p: Parties,
    self_account: AccountId,
    trie_id: Seq<u8>,
    input: Seq<u8>,
    code: Seq<HostOpView>,
    i: nat,
    out: Seq<u8>,
)
    requires
        i < code.len(),
    ensures
        ({
            let (s1, r) = step_spec(env, s, depth, p, self_account, trie_id, input, code[i as int], out);
            run_spec(env, s, depth, p, self_account, trie_id, input, code, i, out) == match r {
                Err(e) => (s1, Err(e)),
                Ok(o) => run_spec(env, s1, depth, p, self_account, trie_id, input, code, i + 1, o),
            }
        }),
{
    reveal(run_spec);
    reveal(step_spec);
}

/// Running code past its end produces what was produced so far.
pub proof fn lemma_run_end(
    env: Env,
    s: ChainState,
    depth: nat,
    p: Parties,
    self_account: AccountId,
    trie_id: Seq<u8>,
    input: Seq<u8>,
    code: Seq<HostOpView>,
    i: nat,
    out: Seq<u8>,
)
    requires
        i >= code.len(),
    ensures
        run_spec(env, s, depth, p, self_account, trie_id, input, code, i, out) == (s, Ok::<Seq<u8>, ExecError>(out)),
{
    reveal(run_spec);
}

} // verus!
