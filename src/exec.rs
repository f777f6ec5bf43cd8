use vstd::prelude::*;
use crate::ledger::{balance_spec, lemma_transfer_defined, transfer_spec, Config, GasMeter, Ledger};
use crate::model::{
    alive_info, call_spec, code_view, codes_view, escrow_transfer_spec, host_call_spec, journal_view,
    lemma_run_end, lemma_run_step, read_spec, rollback_spec, run_spec, set_storage_spec,
    simple_op_spec, solvent, step_spec, AliveContractInfo, ChainState, ContractInfo, Env, ExecError,
    ExecReturnValue, HostOp, Parties, StorageWrite, StorageWriteView,
};
use crate::records::{
    copy_bytes, copy_opt_bytes, encode_account, encode_account_spec, opt_bytes_view, same_key,
    stamps_view, transfers_view, writes_view, AccountId, CallStamp, CallStampView,
    DeferredStorageWrite, DeferredStorageWriteView, TransferEntry, TransferEntryView,
};

verus! {

/// The view of a call's result.
pub open spec fn ret_view(r: Result<ExecReturnValue, ExecError>) -> Result<(bool, Seq<u8>), ExecError> {
    match r {
        Ok(v) => Ok((v.reverted, v.data@)),
        Err(e) => Err(e),
    }
}

/// The view of an execution's output.
pub open spec fn out_view(r: Result<Vec<u8>, ExecError>) -> Result<Seq<u8>, ExecError> {
    match r {
        Ok(v) => Ok(v@),
        Err(e) => Err(e),
    }
}

/// The state of a call chain as held by the world, the gas meter and the recorder.
pub open spec fn chain_state(world: WorldState, gas: GasMeter, rec: EffectRecorder) -> ChainState {
    ChainState {
        balances: world.ledger.balances@,
        journal: journal_view(world.journal@),
        gas: gas.gas_left,
        transfers: transfers_view(rec.transfers@),
        writes: writes_view(rec.deferred_storage_writes@),
        stamps: stamps_view(rec.call_stamps@),
    }
}

/// Moves `value` from `transactor` to `dest`, keeping `transactor` alive.
pub fn just_transfer(
    ledger: &mut Ledger,
    config: &Config,
    transactor: &AccountId,
    dest: &AccountId,
    value: u64,
) -> (r: Result<(), ExecError>)
    requires
        old(ledger).wf(),
    ensures
        final(ledger).wf(),
        r is Ok == transfer_spec(old(ledger).balances@, *transactor, *dest, value, config.existential_deposit).is_some(),
        r is Ok ==> final(ledger).balances@
            == transfer_spec(old(ledger).balances@, *transactor, *dest, value, config.existential_deposit).unwrap(),
        r is Err ==> r == Err::<(), ExecError>(ExecError::TransferFailed) && final(ledger).balances@ == old(ledger).balances@,
{
    if ledger.transfer(*transactor, *dest, value, config.existential_deposit) {
        Ok(())
    } else {
        Err(ExecError::TransferFailed)
    }
}

/// What the escrow transfer protocol does: with balances `b0` and transfer
/// records `t0` before, `b1` and `t1` after, and result `r`.
pub open spec fn escrow_transfer_post(
    cfg: Config,
    b0: Seq<(AccountId, u64)>,
    t0: Seq<TransferEntryView>,
    b1: Seq<(AccountId, u64)>,
    t1: Seq<TransferEntryView>,
    p: Parties,
    target: AccountId,
    value: u64,
    r: Result<(), ExecError>,
) -> bool {
    if solvent(cfg, b0, p.requester, value) {
        &&& r == Ok::<(), ExecError>(())
        &&& b1 == transfer_spec(b0, p.requester, p.escrow, value, cfg.existential_deposit).unwrap()
        &&& t1 == t0.push(TransferEntryView { to: encode_account_spec(target), value, data: Seq::empty() })
    } else {
        &&& r == Err::<(), ExecError>(ExecError::BelowSubsistenceThreshold)
        &&& b1 == b0
        &&& t1 == t0
    }
}

proof fn lemma_escrow_transfer_post(
    cfg: Config,
    s: ChainState,
    b1: Seq<(AccountId, u64)>,
    t1: Seq<TransferEntryView>,
    p: Parties,
    target: AccountId,
    value: u64,
    r: Result<(), ExecError>,
)
    requires
        escrow_transfer_post(cfg, s.balances, s.transfers, b1, t1, p, target, value, r),
    ensures
        escrow_transfer_spec(cfg, s, p, target, value) == (ChainState { balances: b1, transfers: t1, ..s }, r),
{
    if !solvent(cfg, s.balances, p.requester, value) {
        assert(ChainState { balances: b1, transfers: t1, ..s } == s);
    }
}

/// Checks that the requester can pay `value` and still hold the subsistence
/// threshold, moves `value` from the requester to the escrow account, and
/// records a transfer of `value` to `target_to`.
pub fn escrow_transfer(
    escrow_account: &AccountId,
    requester: &AccountId,
    target_to: &AccountId,
    value: u64,
    ledger: &mut Ledger,
    transfers: &mut Vec<TransferEntry>,
    config: &Config,
) -> (r: Result<(), ExecError>)
    requires
        old(ledger).wf(),
    ensures
        final(ledger).wf(),
        escrow_transfer_post(
            *config,
            old(ledger).balances@,
            transfers_view(old(transfers)@),
            final(ledger).balances@,
            transfers_view(final(transfers)@),
            Parties { escrow: *escrow_account, requester: *requester },
            *target_to,
            value,
            r,
        ),
{
    let total = ledger.total_balance(*requester);
    if total < value || total - value < config.subsistence_threshold() {
        return Err(ExecError::BelowSubsistenceThreshold);
    }
    proof {
        lemma_transfer_defined(ledger.balances@, *requester, *escrow_account, value, config.existential_deposit);
    }
    match just_transfer(ledger, config, requester, escrow_account, value) {
        Err(e) => Err(e),
        Ok(()) => {
            let ghost before = transfers@;
            transfers.push(TransferEntry { to: encode_account(*target_to), value, data: Vec::new() });
            assert(transfers_view(transfers@) =~= transfers_view(before).push(
                TransferEntryView { to: encode_account_spec(*target_to), value, data: Seq::empty() },
            ));
            Ok(())
        },
    }
}

/// The fixed setting of a call chain: its limits, the contract directory,
/// the code store, and the time and block number it runs at.
pub struct ExecutionContext {
    pub config: Config,
    pub contracts: Vec<ContractInfo>,
    pub codes: Vec<Vec<HostOp>>,
    pub timestamp: u64,
    pub block_number: u64,
}

/// What a call chain changes for real or provisionally: the ledger, and the
/// journal of provisional storage writes.
pub struct WorldState {
    pub ledger: Ledger,
    pub journal: Vec<StorageWrite>,
}

/// The trace of a call chain: transfers, storage writes and call stamps, in
/// the order in which they happened.
pub struct EffectRecorder {
    pub transfers: Vec<TransferEntry>,
    pub deferred_storage_writes: Vec<DeferredStorageWrite>,
    pub call_stamps: Vec<CallStamp>,
}

impl EffectRecorder {
    pub fn new() -> (r: EffectRecorder)
        ensures
            r.transfers@.len() == 0,
            r.deferred_storage_writes@.len() == 0,
            r.call_stamps@.len() == 0,
    {
        EffectRecorder { transfers: Vec::new(), deferred_storage_writes: Vec::new(), call_stamps: Vec::new() }
    }
}

impl WorldState {
    /// A world with the given ledger and no provisional writes.
    pub fn new(ledger: Ledger) -> (r: WorldState)
        requires
            ledger.wf(),
        ensures
            r.ledger.wf(),
            r.ledger.balances@ == ledger.balances@,
            r.journal@.len() == 0,
    {
        WorldState { ledger, journal: Vec::new() }
    }
}

impl ExecutionContext {
    pub open spec fn env(&self) -> Env {
        Env { cfg: self.config, contracts: self.contracts@, codes: codes_view(self.codes@) }
    }

    pub fn new(
        config: Config,
        contracts: Vec<ContractInfo>,
        codes: Vec<Vec<HostOp>>,
        timestamp: u64,
        block_number: u64,
    ) -> (r: ExecutionContext)
        ensures
            r.config == config,
            r.contracts@ == contracts@,
            r.codes@ == codes@,
            r.timestamp == timestamp,
            r.block_number == block_number,
    {
        ExecutionContext { config, contracts, codes, timestamp, block_number }
    }

    /// The metadata of `a` if it is a live contract.
    pub fn alive_contract(&self, a: AccountId) -> (r: Option<&AliveContractInfo>)
        ensures
            match r {
                Some(info) => alive_info(self.contracts@, a) == Some(*info),
                None => alive_info(self.contracts@, a) is None,
            },
    {
        if a < self.contracts.len() as u64 {
            match &self.contracts[a as usize] {
                ContractInfo::Alive(info) => Some(info),
                ContractInfo::Tombstone => None,
            }
        } else {
            None
        }
    }
}

/// The host interface seen by code that runs inside an escrow call: storage
/// writes and transfers are recorded, calls recurse into the escrow protocol,
/// and the escrow account stands as the caller.
pub struct EscrowCallContext {
    /// The escrow account, reported as the caller.
    pub caller: AccountId,
    /// The party whose funds back every transfer of the chain.
    pub requester: AccountId,
    /// The contract that is running.
    pub self_account: AccountId,
    /// The storage namespace of the running contract.
    pub trie_id: Vec<u8>,
    pub value_transferred: u64,
    /// Depth of the call that is running; the outermost call is at zero.
    pub depth: u32,
}

impl EscrowCallContext {
    pub open spec fn parties(&self) -> Parties {
        Parties { escrow: self.caller, requester: self.requester }
    }

    /// Reads a storage entry of the running contract, provisional writes included.
    pub fn get_storage(&self, world: &WorldState, key: &[u8; 32]) -> (r: Option<Vec<u8>>)
        ensures
            opt_bytes_view(r) == read_spec(journal_view(world.journal@), self.self_account, key@),
    {
        let mut i: usize = world.journal.len();
        assert(world.journal@.subrange(0, i as int) =~= world.journal@);
        while i > 0
            invariant
                i <= world.journal@.len(),
                read_spec(journal_view(world.journal@), self.self_account, key@)
                    == read_spec(journal_view(world.journal@.subrange(0, i as int)), self.self_account, key@),
            decreases i,
        {
            let ghost j = journal_view(world.journal@.subrange(0, i as int));
            assert(journal_view(world.journal@.subrange(0, i - 1)) =~= j.drop_last());
            let w = &world.journal[i - 1];
            if w.owner == self.self_account && same_key(&w.key, key) {
                return copy_opt_bytes(&w.value);
            }
            i = i - 1;
        }
        assert(journal_view(world.journal@.subrange(0, 0)) =~= Seq::<StorageWriteView>::empty());
        None
    }

    /// Records the write, then applies it provisionally.
    pub fn set_storage(
        &self,
        world: &mut WorldState,
        recorder: &mut EffectRecorder,
        key: [u8; 32],
        value: Option<Vec<u8>>,
    )
        ensures
            final(world).ledger == old(world).ledger,
            forall|gas: GasMeter| chain_state(*final(world), gas, *final(recorder)) == set_storage_spec(
                #[trigger] chain_state(*old(world), gas, *old(recorder)),
                self.self_account,
                self.trie_id@,
                key@,
                opt_bytes_view(value),
            ),
    {
        let ghost w0 = recorder.deferred_storage_writes@;
        let ghost j0 = world.journal@;
        recorder.deferred_storage_writes.push(DeferredStorageWrite {
            dest: encode_account(self.self_account),
            trie_id: copy_bytes(&self.trie_id),
            key,
            value: copy_opt_bytes(&value),
        });
        world.journal.push(StorageWrite { owner: self.self_account, key, value });
        assert(writes_view(recorder.deferred_storage_writes@) =~= writes_view(w0).push(
            DeferredStorageWriteView {
                dest: encode_account_spec(self.self_account),
                trie_id: self.trie_id@,
                key: key@,
                value: opt_bytes_view(value),
            },
        ));
        assert(journal_view(world.journal@) =~= journal_view(j0).push(
            StorageWriteView { owner: self.self_account, key: key@, value: opt_bytes_view(value) },
        ));
    }

    /// Runs the escrow transfer protocol for a transfer the code makes: the
    /// requester pays the escrow account, and the transfer to `to` is recorded.
    pub fn transfer(
        &self,
        ctx: &ExecutionContext,
        world: &mut WorldState,
        recorder: &mut EffectRecorder,
        to: &AccountId,
        value: u64,
    ) -> (r: Result<(), ExecError>)
        requires
            old(world).ledger.wf(),
        ensures
            final(world).ledger.wf(),
            final(world).journal == old(world).journal,
            final(recorder).deferred_storage_writes == old(recorder).deferred_storage_writes,
            final(recorder).call_stamps == old(recorder).call_stamps,
            escrow_transfer_post(
                ctx.config,
                old(world).ledger.balances@,
                transfers_view(old(recorder).transfers@),
                final(world).ledger.balances@,
                transfers_view(final(recorder).transfers@),
                self.parties(),
                *to,
                value,
                r,
            ),
    {
        escrow_transfer(&self.caller, &self.requester, to, value, &mut world.ledger, &mut recorder.transfers, &ctx.config)
    }

    /// The escrow account, which code sees as its caller.
    pub fn caller(&self) -> (r: AccountId)
        ensures
            r == self.caller,
    {
        self.caller
    }

    /// The running contract.
    pub fn address(&self) -> (r: AccountId)
        ensures
            r == self.self_account,
    {
        self.self_account
    }

    /// The escrow account's balance, which code sees as its own.
    pub fn balance(&self, world: &WorldState) -> (r: u64)
        ensures
            r == balance_spec(world.ledger.balances@, self.caller),
    {
        world.ledger.total_balance(self.caller)
    }

    pub fn value_transferred(&self) -> (r: u64)
        ensures
            r == self.value_transferred,
    {
        self.value_transferred
    }

    pub fn minimum_balance(&self, ctx: &ExecutionContext) -> (r: u64)
        ensures
            r == ctx.config.existential_deposit,
    {
        ctx.config.existential_deposit
    }

    pub fn tombstone_deposit(&self, ctx: &ExecutionContext) -> (r: u64)
        ensures
            r == ctx.config.tombstone_deposit,
    {
        ctx.config.tombstone_deposit
    }

    /// The time the chain runs at.
    pub fn now(&self, ctx: &ExecutionContext) -> (r: u64)
        ensures
            r == ctx.timestamp,
    {
        ctx.timestamp
    }

    pub fn block_number(&self, ctx: &ExecutionContext) -> (r: u64)
        ensures
            r == ctx.block_number,
    {
        ctx.block_number
    }

    pub fn max_value_size(&self, ctx: &ExecutionContext) -> (r: u32)
        ensures
            r == ctx.config.max_value_size,
    {
        ctx.config.max_value_size
    }

    /// Runs `code` against this host interface and returns the bytes it produced.
    pub fn execute(
        &self,
        ctx: &ExecutionContext,
        world: &mut WorldState,
        gas_meter: &mut GasMeter,
        recorder: &mut EffectRecorder,
        code: &Vec<HostOp>,
        input: &Vec<u8>,
    ) -> (r: Result<Vec<u8>, ExecError>)
        requires
            old(world).ledger.wf(),
            self.depth < ctx.config.max_depth,
        ensures
            final(world).ledger.wf(),
            run_spec(
                ctx.env(),
                chain_state(*old(world), *old(gas_meter), *old(recorder)),
                self.depth as nat,
                self.parties(),
                self.self_account,
                self.trie_id@,
                input@,
                code_view(code@),
                0,
                Seq::empty(),
            ) == (chain_state(*final(world), *final(gas_meter), *final(recorder)), out_view(r)),
        decreases ctx.config.max_depth - self.depth, 2nat,
    {
        let ghost whole = run_spec(
            ctx.env(),
            chain_state(*world, *gas_meter, *recorder),
            self.depth as nat,
            self.parties(),
            self.self_account,
            self.trie_id@,
            input@,
            code_view(code@),
            0,
            Seq::empty(),
        );
        let mut out: Vec<u8> = Vec::new();
        let mut i: usize = 0;
        while i < code.len()
            invariant
                self.depth < ctx.config.max_depth,
                world.ledger.wf(),
                i <= code@.len(),
                whole == run_spec(
                    ctx.env(),
                    chain_state(*old(world), *old(gas_meter), *old(recorder)),
                    self.depth as nat,
                    self.parties(),
                    self.self_account,
                    self.trie_id@,
                    input@,
                    code_view(code@),
                    0,
                    Seq::empty(),
                ),
                whole == run_spec(
                    ctx.env(),
                    chain_state(*world, *gas_meter, *recorder),
                    self.depth as nat,
                    self.parties(),
                    self.self_account,
                    self.trie_id@,
                    input@,
                    code_view(code@),
                    i as nat,
                    out@,
                ),
            decreases code.len() - i,
        {
            assert(code_view(code@)[i as int] == code@[i as int]@);
            proof {
                lemma_run_step(
                    ctx.env(),
                    chain_state(*world, *gas_meter, *recorder),
                    self.depth as nat,
                    self.parties(),
                    self.self_account,
                    self.trie_id@,
                    input@,
                    code_view(code@),
                    i as nat,
                    out@,
                );
            }
            match self.run_op(ctx, world, gas_meter, recorder, &code[i], input, &mut out) {
                Err(e) => {
                    return Err(e);
                },
                Ok(()) => {},
            }
            i = i + 1;
        }
        proof {
            lemma_run_end(
                ctx.env(),
                chain_state(*world, *gas_meter, *recorder),
                self.depth as nat,
                self.parties(),
                self.self_account,
                self.trie_id@,
                input@,
                code_view(code@),
                i as nat,
                out@,
            );
        }
        Ok(out)
    }

    /// Carries out one operation of running code, appending what it produces to `out`.
    pub fn run_op(
        &self,
        ctx: &ExecutionContext,
        world: &mut WorldState,
        gas_meter: &mut GasMeter,
        recorder: &mut EffectRecorder,
        op: &HostOp,
        input: &Vec<u8>,
        out: &mut Vec<u8>,
    ) -> (r: Result<(), ExecError>)
        requires
            old(world).ledger.wf(),
            self.depth < ctx.config.max_depth,
        ensures
            final(world).ledger.wf(),
            step_spec(
                ctx.env(),
                chain_state(*old(world), *old(gas_meter), *old(recorder)),
                self.depth as nat,
                self.parties(),
                self.self_account,
                self.trie_id@,
                input@,
                op@,
                old(out)@,
            ) == (
                chain_state(*final(world), *final(gas_meter), *final(recorder)),
                match r {
                    Ok(_) => Ok(final(out)@),
                    Err(e) => Err(e),
                },
            ),
        decreases ctx.config.max_depth - self.depth, 1nat,
    {
        proof {
            reveal(step_spec);
        }
        match op {
            HostOp::Call(to, value, call_input) => {
                match self.call(ctx, world, gas_meter, recorder, to, *value, copy_bytes(call_input)) {
                    Err(e) => Err(e),
                    Ok(ret) => {
                        let mut d = ret.data;
                        out.append(&mut d);
                        Ok(())
                    },
                }
            },
            _ => {
                let r = self.step(ctx, world, recorder, op, input, out);
                assert(chain_state(*old(world), *gas_meter, *old(recorder)) == chain_state(*old(world), *old(gas_meter), *old(recorder)));
                r
            },
        }
    }

    /// Carries out one operation other than a call, appending what it
    /// produces to `out`.
    pub fn step(
        &self,
        ctx: &ExecutionContext,
        world: &mut WorldState,
        recorder: &mut EffectRecorder,
        op: &HostOp,
        input: &Vec<u8>,
        out: &mut Vec<u8>,
    ) -> (r: Result<(), ExecError>)
        requires
            old(world).ledger.wf(),
        ensures
            final(world).ledger.wf(),
            forall|gas: GasMeter|
                simple_op_spec(
                    ctx.env(),
                    #[trigger] chain_state(*old(world), gas, *old(recorder)),
                    self.parties(),
                    self.self_account,
                    self.trie_id@,
                    input@,
                    op@,
                    old(out)@,
                ) == (
                    chain_state(*final(world), gas, *final(recorder)),
                    match r {
                        Ok(_) => Ok(final(out)@),
                        Err(e) => Err(e),
                    },
                ),
    {
        match op {
            HostOp::SetStorage(key, value) => {
                self.set_storage(world, recorder, *key, copy_opt_bytes(value));
                Ok(())
            },
            HostOp::GetStorage(key) => {
                match self.get_storage(world, key) {
                    Some(b) => {
                        let mut b = b;
                        out.append(&mut b);
                    },
                    None => {
                        assert(out@ =~= old(out)@);
                    },
                }
                Ok(())
            },
            HostOp::Transfer(to, value) => {
                let ghost w0 = *world;
                let ghost r0 = *recorder;
                let r = self.transfer(ctx, world, recorder, to, *value);
                proof {
                    assert forall|gas: GasMeter| #[trigger] chain_state(w0, gas, r0) == chain_state(w0, gas, r0) by {
                        lemma_escrow_transfer_post(
                            ctx.config,
                            chain_state(w0, gas, r0),
                            world.ledger.balances@,
                            transfers_view(recorder.transfers@),
                            self.parties(),
                            *to,
                            *value,
                            r,
                        );
                    }
                }
                r
            },
            // Calls are carried out by `run_op`, which never hands them here.
            HostOp::Call(_, _, _) => Ok(()),
            HostOp::Output(data) => {
                let mut d = copy_bytes(data);
                out.append(&mut d);
                Ok(())
            },
            HostOp::ReadInput => {
                let mut d = copy_bytes(input);
                out.append(&mut d);
                Ok(())
            },
            HostOp::Trap => Err(ExecError::ContractTrapped),
        }
    }

    /// A call made by running code: the callee must be a live contract whose
    /// code is known; it is then entered one level deeper, under the same
    /// escrow account, requester and recorder.
    pub fn call(
        &self,
        ctx: &ExecutionContext,
        world: &mut WorldState,
        gas_meter: &mut GasMeter,
        recorder: &mut EffectRecorder,
        to: &AccountId,
        value: u64,
        input_data: Vec<u8>,
    ) -> (r: Result<ExecReturnValue, ExecError>)
        requires
            old(world).ledger.wf(),
            self.depth < ctx.config.max_depth,
        ensures
            final(world).ledger.wf(),
            host_call_spec(
                ctx.env(),
                chain_state(*old(world), *old(gas_meter), *old(recorder)),
                self.depth as nat,
                self.parties(),
                *to,
                value,
                input_data@,
            ) == (chain_state(*final(world), *final(gas_meter), *final(recorder)), ret_view(r)),
        decreases ctx.config.max_depth - self.depth, 0nat,
    {
        let code_hash = match ctx.alive_contract(*to) {
            Some(info) => info.code_hash,
            None => {
                return Err(ExecError::NotCallable);
            },
        };
        if code_hash >= ctx.codes.len() as u64 {
            return Err(ExecError::CodeNotFound);
        }
        let executable = &ctx.codes[code_hash as usize];
        assert(ctx.env().codes[code_hash as int] == code_view(executable@));
        ctx.escrow_call(
            world,
            self.depth + 1,
            &self.caller,
            &self.requester,
            to,
            to,
            value,
            gas_meter,
            input_data,
            recorder,
            executable,
        )
    }
}

impl ExecutionContext {
    /// Makes a call to `dest` at `depth` on behalf of `requester`, with
    /// `escrow_account` as the caller, optionally moving `value` through the
    /// escrow protocol. The outermost call always discards its provisional
    /// storage writes and, once execution succeeds, returns the output marked
    /// as reverted.
    pub fn escrow_call(
        &self,
        world: &mut WorldState,
        depth: u32,
        escrow_account: &AccountId,
        requester: &AccountId,
        dest: &AccountId,
        transfer_dest: &AccountId,
        value: u64,
        gas_meter: &mut GasMeter,
        input_data: Vec<u8>,
        recorder: &mut EffectRecorder,
        executable: &Vec<HostOp>,
    ) -> (r: Result<ExecReturnValue, ExecError>)
        requires
            old(world).ledger.wf(),
            depth <= self.config.max_depth,
        ensures
            final(world).ledger.wf(),
            call_spec(
                self.env(),
                chain_state(*old(world), *old(gas_meter), *old(recorder)),
                depth as nat,
                Parties { escrow: *escrow_account, requester: *requester },
                *dest,
                *transfer_dest,
                value,
                input_data@,
                code_view(executable@),
            ) == (chain_state(*final(world), *final(gas_meter), *final(recorder)), ret_view(r)),
        decreases self.config.max_depth - depth, 3nat,
    {
        if depth >= self.config.max_depth {
            return Err(ExecError::MaxCallDepthReached);
        }
        if !gas_meter.charge(self.config.call_cost) {
            return Err(ExecError::OutOfGas);
        }
        let info = match self.alive_contract(*dest) {
            Some(info) => info,
            None => {
                return Err(ExecError::NotCallable);
            },
        };
        let ghost st0 = recorder.call_stamps@;
        recorder.call_stamps.push(CallStamp { storage: copy_bytes(&info.storage_root), dest: encode_account(*dest) });
        assert(stamps_view(recorder.call_stamps@) =~= stamps_view(st0).push(
            CallStampView { storage: info.storage_root@, dest: encode_account_spec(*dest) },
        ));
        let mark = world.journal.len();
        if value > 0 {
            let ghost s2 = chain_state(*world, *gas_meter, *recorder);
            let tr = escrow_transfer(escrow_account, requester, transfer_dest, value, &mut world.ledger, &mut recorder.transfers, &self.config);
            proof {
                lemma_escrow_transfer_post(
                    self.config,
                    s2,
                    world.ledger.balances@,
                    transfers_view(recorder.transfers@),
                    Parties { escrow: *escrow_account, requester: *requester },
                    *transfer_dest,
                    value,
                    tr,
                );
            }
            match tr {
                Err(e) => {
                    return Err(e);
                },
                Ok(()) => {},
            }
        }
        let ext = EscrowCallContext {
            caller: *escrow_account,
            requester: *requester,
            self_account: *dest,
            trie_id: copy_bytes(&info.trie_id),
            value_transferred: value,
            depth,
        };
        let res = ext.execute(self, world, gas_meter, recorder, executable, &input_data);
        let ghost j4 = world.journal@;
        match res {
            Err(e) => {
                world.journal.truncate(mark);
                assert(journal_view(world.journal@) =~= rollback_spec(journal_view(j4), mark as nat));
                if depth == 0 {
                    Ok(ExecReturnValue { reverted: true, data: Vec::new() })
                } else {
                    Err(e)
                }
            },
            Ok(output) => {
                if depth == 0 {
                    world.journal.truncate(mark);
                    assert(journal_view(world.journal@) =~= rollback_spec(journal_view(j4), mark as nat));
                    Ok(ExecReturnValue { reverted: true, data: output })
                } else {
                    Ok(ExecReturnValue { reverted: false, data: output })
                }
            },
        }
    }
}

} // verus!
