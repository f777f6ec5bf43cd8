use escrow_exec::exec::{
    escrow_transfer, just_transfer, EffectRecorder, EscrowCallContext, ExecutionContext, WorldState,
};
use escrow_exec::ledger::{Config, GasMeter, Ledger};
use escrow_exec::model::{AliveContractInfo, ContractInfo, ExecError, HostOp};
use escrow_exec::records::{encode_account, CallStamp, TransferEntry};

const ESCROW: u64 = 10;
const REQUESTER: u64 = 11;

fn config(max_depth: u32) -> Config {
    Config { max_depth, call_cost: 10, existential_deposit: 100, tombstone_deposit: 0, max_value_size: 16 }
}

fn alive(n: u64) -> ContractInfo {
    ContractInfo::Alive(AliveContractInfo {
        trie_id: vec![0xa0 + n as u8],
        code_hash: n,
        storage_root: vec![0xb0 + n as u8],
    })
}

fn ledger(requester_balance: u64) -> Ledger {
    let mut l = Ledger::new();
    assert!(l.deposit(ESCROW, 500));
    assert!(l.deposit(REQUESTER, requester_balance));
    l
}

fn key(last: u8) -> [u8; 32] {
    let mut k = [0u8; 32];
    k[31] = last;
    k
}

/// Contracts 0 .. codes.len() are alive, each running the code of its own index.
fn setup(max_depth: u32, codes: Vec<Vec<HostOp>>) -> ExecutionContext {
    let contracts = (0..codes.len() as u64).map(alive).collect();
    ExecutionContext::new(config(max_depth), contracts, codes, 1_600_000_000, 77)
}

fn top_call(
    ctx: &ExecutionContext,
    world: &mut WorldState,
    gas: &mut GasMeter,
    rec: &mut EffectRecorder,
    value: u64,
    input: Vec<u8>,
) -> Result<escrow_exec::model::ExecReturnValue, ExecError> {
    let code = ctx.codes[0].clone();
    ctx.escrow_call(world, 0, &ESCROW, &REQUESTER, &0, &0, value, gas, input, rec, &code)
}

#[test]
fn transfer_with_enough_balance_is_recorded() {
    let mut l = ledger(1000);
    let mut transfers = Vec::new();
    let r = escrow_transfer(&ESCROW, &REQUESTER, &3, 50, &mut l, &mut transfers, &config(4));
    assert_eq!(r, Ok(()));
    assert_eq!(transfers, vec![TransferEntry { to: encode_account(3), value: 50, data: vec![] }]);
    assert_eq!(l.total_balance(REQUESTER), 950);
    assert_eq!(l.total_balance(ESCROW), 550);
}

#[test]
fn transfer_below_subsistence_threshold_is_refused() {
    let mut l = ledger(120);
    let mut transfers = Vec::new();
    let r = escrow_transfer(&ESCROW, &REQUESTER, &3, 50, &mut l, &mut transfers, &config(4));
    assert_eq!(r, Err(ExecError::BelowSubsistenceThreshold));
    assert!(transfers.is_empty());
    assert_eq!(l.total_balance(REQUESTER), 120);
    assert_eq!(l.total_balance(ESCROW), 500);
}

#[test]
fn transfer_exactly_at_threshold_passes() {
    let mut l = ledger(150);
    let mut transfers = Vec::new();
    let r = escrow_transfer(&ESCROW, &REQUESTER, &3, 50, &mut l, &mut transfers, &config(4));
    assert_eq!(r, Ok(()));
    assert_eq!(l.total_balance(REQUESTER), 100);
}

#[test]
fn requester_short_of_the_value_is_refused_even_with_no_threshold() {
    let mut l = ledger(1000);
    let mut transfers = Vec::new();
    let cfg = Config { max_depth: 4, call_cost: 10, existential_deposit: 0, tombstone_deposit: 0, max_value_size: 16 };
    let r = escrow_transfer(&ESCROW, &99, &3, 1, &mut l, &mut transfers, &cfg);
    assert_eq!(r, Err(ExecError::BelowSubsistenceThreshold));
    assert!(transfers.is_empty());
    assert_eq!(l.total_balance(99), 0);
}

#[test]
fn escrow_account_with_no_balance_yet_is_credited() {
    let mut l = Ledger::new();
    assert!(l.deposit(REQUESTER, 1000));
    let mut transfers = Vec::new();
    let r = escrow_transfer(&1234, &REQUESTER, &3, 50, &mut l, &mut transfers, &config(4));
    assert_eq!(r, Ok(()));
    assert_eq!(transfers, vec![TransferEntry { to: encode_account(3), value: 50, data: vec![] }]);
    assert_eq!(l.total_balance(REQUESTER), 950);
    assert_eq!(l.total_balance(1234), 50);
}

#[test]
fn deposit_refuses_to_overflow_the_total() {
    let mut l = Ledger::new();
    assert!(l.deposit(1, u64::MAX - 5));
    assert!(!l.deposit(2, 6));
    assert_eq!(l.total_balance(2), 0);
    assert!(l.deposit(2, 5));
    assert_eq!(l.total_balance(2), 5);
}

#[test]
fn just_transfer_keeps_source_alive() {
    let mut l = ledger(150);
    let cfg = config(4);
    assert_eq!(just_transfer(&mut l, &cfg, &REQUESTER, &ESCROW, 60), Err(ExecError::TransferFailed));
    assert_eq!(l.total_balance(REQUESTER), 150);
    assert_eq!(just_transfer(&mut l, &cfg, &REQUESTER, &ESCROW, 50), Ok(()));
    assert_eq!(l.total_balance(REQUESTER), 100);
    assert_eq!(l.total_balance(ESCROW), 550);
}

#[test]
fn repeated_writes_are_all_recorded_in_order() {
    let ctx = setup(4, vec![vec![
        HostOp::SetStorage(key(1), Some(vec![0xaa])),
        HostOp::SetStorage(key(1), Some(vec![0xbb])),
    ]]);
    let mut world = WorldState::new(ledger(1000));
    let mut gas = GasMeter::new(1000);
    let mut rec = EffectRecorder::new();
    let r = top_call(&ctx, &mut world, &mut gas, &mut rec, 0, vec![]).unwrap();
    assert!(r.reverted);
    let w = &rec.deferred_storage_writes;
    assert_eq!(w.len(), 2);
    assert_eq!(w[0].key, key(1));
    assert_eq!(w[0].value, Some(vec![0xaa]));
    assert_eq!(w[1].key, key(1));
    assert_eq!(w[1].value, Some(vec![0xbb]));
    assert_eq!(w[0].dest, encode_account(0));
    assert_eq!(w[0].trie_id, vec![0xa0]);
    assert!(world.journal.is_empty());
}

#[test]
fn top_level_success_is_reported_as_reverted() {
    let ctx = setup(4, vec![vec![HostOp::Output(vec![1, 2]), HostOp::ReadInput]]);
    let mut world = WorldState::new(ledger(1000));
    let mut gas = GasMeter::new(1000);
    let mut rec = EffectRecorder::new();
    let r = top_call(&ctx, &mut world, &mut gas, &mut rec, 0, vec![7]).unwrap();
    assert!(r.reverted);
    assert_eq!(r.data, vec![1, 2, 7]);
    assert_eq!(gas.gas_left, 990);
}

#[test]
fn reads_see_earlier_writes_of_the_chain() {
    let ctx = setup(4, vec![
        vec![
            HostOp::SetStorage(key(1), Some(vec![5])),
            HostOp::GetStorage(key(1)),
            HostOp::SetStorage(key(1), None),
            HostOp::GetStorage(key(1)),
            HostOp::Call(1, 0, vec![]),
        ],
        vec![HostOp::GetStorage(key(1)), HostOp::SetStorage(key(1), Some(vec![6])), HostOp::GetStorage(key(1))],
    ]);
    let mut world = WorldState::new(ledger(1000));
    let mut gas = GasMeter::new(1000);
    let mut rec = EffectRecorder::new();
    let r = top_call(&ctx, &mut world, &mut gas, &mut rec, 0, vec![]).unwrap();
    // The callee has its own storage: it sees nothing of the caller's key.
    assert_eq!(r.data, vec![5, 6]);
    assert_eq!(rec.deferred_storage_writes.len(), 3);
    assert!(world.journal.is_empty());
}

#[test]
fn stamps_follow_call_order() {
    let ctx = setup(4, vec![vec![HostOp::Call(1, 0, vec![]), HostOp::Call(2, 0, vec![])], vec![], vec![]]);
    let mut world = WorldState::new(ledger(1000));
    let mut gas = GasMeter::new(1000);
    let mut rec = EffectRecorder::new();
    top_call(&ctx, &mut world, &mut gas, &mut rec, 0, vec![]).unwrap();
    assert_eq!(
        rec.call_stamps,
        vec![
            CallStamp { storage: vec![0xb0], dest: encode_account(0) },
            CallStamp { storage: vec![0xb1], dest: encode_account(1) },
            CallStamp { storage: vec![0xb2], dest: encode_account(2) },
        ]
    );
    assert_eq!(gas.gas_left, 970);
}

#[test]
fn nested_transfers_are_backed_by_the_requester() {
    let ctx = setup(4, vec![vec![HostOp::Transfer(5, 30), HostOp::Call(1, 20, vec![])], vec![HostOp::Transfer(6, 40)]]);
    let mut world = WorldState::new(ledger(1000));
    let mut gas = GasMeter::new(1000);
    let mut rec = EffectRecorder::new();
    let r = top_call(&ctx, &mut world, &mut gas, &mut rec, 0, vec![]).unwrap();
    assert!(r.reverted);
    assert_eq!(
        rec.transfers,
        vec![
            TransferEntry { to: encode_account(5), value: 30, data: vec![] },
            TransferEntry { to: encode_account(1), value: 20, data: vec![] },
            TransferEntry { to: encode_account(6), value: 40, data: vec![] },
        ]
    );
    assert_eq!(world.ledger.total_balance(REQUESTER), 910);
    assert_eq!(world.ledger.total_balance(ESCROW), 590);
    assert_eq!(world.ledger.total_balance(5), 0);
}

#[test]
fn insolvent_transfer_inside_code_reverts_the_chain() {
    let ctx = setup(4, vec![vec![HostOp::SetStorage(key(2), Some(vec![1])), HostOp::Output(vec![4]), HostOp::Transfer(5, 50)]]);
    let mut world = WorldState::new(ledger(120));
    let mut gas = GasMeter::new(1000);
    let mut rec = EffectRecorder::new();
    let code = ctx.codes[0].clone();
    let nested = ctx.escrow_call(&mut world, 1, &ESCROW, &REQUESTER, &0, &0, 0, &mut gas, vec![], &mut rec, &code);
    assert_eq!(nested.unwrap_err(), ExecError::BelowSubsistenceThreshold);
    let mut rec = EffectRecorder::new();
    let r = top_call(&ctx, &mut world, &mut gas, &mut rec, 0, vec![]).unwrap();
    assert!(r.reverted);
    assert!(r.data.is_empty());
    assert!(rec.transfers.is_empty());
    assert_eq!(rec.deferred_storage_writes.len(), 1);
    assert!(world.journal.is_empty());
    assert_eq!(world.ledger.total_balance(REQUESTER), 120);
}

#[test]
fn replay_gives_the_same_trace() {
    let codes = vec![
        vec![HostOp::SetStorage(key(3), Some(vec![9])), HostOp::Transfer(4, 25), HostOp::Call(1, 0, vec![1])],
        vec![HostOp::SetStorage(key(4), None)],
    ];
    let ctx = setup(4, codes);
    let mut recs = Vec::new();
    for _ in 0..2 {
        let mut world = WorldState::new(ledger(1000));
        let mut gas = GasMeter::new(1000);
        let mut rec = EffectRecorder::new();
        top_call(&ctx, &mut world, &mut gas, &mut rec, 15, vec![]).unwrap();
        recs.push(rec);
    }
    assert_eq!(recs[0].transfers, recs[1].transfers);
    assert_eq!(recs[0].deferred_storage_writes, recs[1].deferred_storage_writes);
    assert_eq!(recs[0].call_stamps, recs[1].call_stamps);
    assert_eq!(recs[0].transfers.len(), 2);
}

/// Contract k calls contract k + 1; the last one does nothing.
fn chain(n: u64) -> Vec<Vec<HostOp>> {
    (0..n).map(|k| if k + 1 < n { vec![HostOp::Call(k + 1, 0, vec![])] } else { vec![HostOp::Output(vec![42])] }).collect()
}

#[test]
fn chain_of_max_depth_calls_succeeds() {
    let ctx = setup(3, chain(3));
    let mut world = WorldState::new(ledger(1000));
    let mut gas = GasMeter::new(1000);
    let mut rec = EffectRecorder::new();
    let r = top_call(&ctx, &mut world, &mut gas, &mut rec, 0, vec![]).unwrap();
    assert!(r.reverted);
    assert_eq!(r.data, vec![42]);
    assert_eq!(rec.call_stamps.len(), 3);
}

#[test]
fn chain_past_max_depth_fails_at_the_last_level() {
    let ctx = setup(3, chain(4));
    let mut world = WorldState::new(ledger(1000));
    let mut gas = GasMeter::new(1000);
    let mut rec = EffectRecorder::new();
    let code = ctx.codes[0].clone();
    let nested = ctx.escrow_call(&mut world, 1, &ESCROW, &REQUESTER, &0, &0, 0, &mut gas, vec![], &mut rec, &code);
    assert_eq!(nested.unwrap_err(), ExecError::MaxCallDepthReached);
    let mut rec = EffectRecorder::new();
    let r = top_call(&ctx, &mut world, &mut gas, &mut rec, 0, vec![]).unwrap();
    assert!(r.reverted);
    assert!(r.data.is_empty());
    assert_eq!(rec.call_stamps.len(), 3);
}

#[test]
fn call_at_the_depth_limit_is_refused() {
    let ctx = setup(2, chain(1));
    let mut world = WorldState::new(ledger(1000));
    let mut gas = GasMeter::new(1000);
    let mut rec = EffectRecorder::new();
    let code = ctx.codes[0].clone();
    let r = ctx.escrow_call(&mut world, 2, &ESCROW, &REQUESTER, &0, &0, 0, &mut gas, vec![], &mut rec, &code);
    assert_eq!(r.unwrap_err(), ExecError::MaxCallDepthReached);
    assert_eq!(gas.gas_left, 1000);
    assert!(rec.call_stamps.is_empty());
}

#[test]
fn nested_call_is_not_marked_reverted() {
    let ctx = setup(3, vec![vec![HostOp::SetStorage(key(1), Some(vec![1])), HostOp::Output(vec![3])]]);
    let mut world = WorldState::new(ledger(1000));
    let mut gas = GasMeter::new(1000);
    let mut rec = EffectRecorder::new();
    let code = ctx.codes[0].clone();
    let r = ctx.escrow_call(&mut world, 1, &ESCROW, &REQUESTER, &0, &0, 0, &mut gas, vec![], &mut rec, &code).unwrap();
    assert!(!r.reverted);
    assert_eq!(r.data, vec![3]);
    assert_eq!(world.journal.len(), 1);
}

#[test]
fn out_of_gas_empties_the_meter() {
    let ctx = setup(4, chain(1));
    let mut world = WorldState::new(ledger(1000));
    let mut gas = GasMeter::new(5);
    let mut rec = EffectRecorder::new();
    let r = top_call(&ctx, &mut world, &mut gas, &mut rec, 0, vec![]);
    assert_eq!(r.unwrap_err(), ExecError::OutOfGas);
    assert_eq!(gas.gas_left, 0);
    assert!(rec.call_stamps.is_empty());
}

#[test]
fn calling_a_tombstone_or_plain_account_fails() {
    let mut ctx = setup(4, vec![vec![HostOp::Call(1, 0, vec![])], vec![]]);
    ctx.contracts[1] = ContractInfo::Tombstone;
    let mut world = WorldState::new(ledger(1000));
    let mut gas = GasMeter::new(1000);
    let mut rec = EffectRecorder::new();
    let r = top_call(&ctx, &mut world, &mut gas, &mut rec, 0, vec![]).unwrap();
    assert!(r.reverted);
    assert!(r.data.is_empty());
    assert_eq!(rec.call_stamps.len(), 1);
    let mut rec = EffectRecorder::new();
    let code = ctx.codes[0].clone();
    let nested = ctx.escrow_call(&mut world, 1, &ESCROW, &REQUESTER, &0, &0, 0, &mut gas, vec![], &mut rec, &code);
    assert_eq!(nested.unwrap_err(), ExecError::NotCallable);

    let mut rec = EffectRecorder::new();
    let r = ctx.escrow_call(&mut world, 0, &ESCROW, &REQUESTER, &REQUESTER, &REQUESTER, 0, &mut gas, vec![], &mut rec, &vec![]);
    assert_eq!(r.unwrap_err(), ExecError::NotCallable);
    assert!(rec.call_stamps.is_empty());
}

#[test]
fn call_to_contract_with_unknown_code_fails() {
    let mut ctx = setup(4, vec![vec![HostOp::Call(1, 0, vec![])]]);
    ctx.contracts.push(ContractInfo::Alive(AliveContractInfo { trie_id: vec![1], code_hash: 7, storage_root: vec![2] }));
    let mut world = WorldState::new(ledger(1000));
    let mut gas = GasMeter::new(1000);
    let mut rec = EffectRecorder::new();
    let code = ctx.codes[0].clone();
    let nested = ctx.escrow_call(&mut world, 1, &ESCROW, &REQUESTER, &0, &0, 0, &mut gas, vec![], &mut rec, &code);
    assert_eq!(nested.unwrap_err(), ExecError::CodeNotFound);
    let r = top_call(&ctx, &mut world, &mut gas, &mut rec, 0, vec![]).unwrap();
    assert!(r.reverted);
}

#[test]
fn trap_at_the_top_reverts_with_no_output() {
    let ctx = setup(4, vec![vec![HostOp::SetStorage(key(1), Some(vec![1])), HostOp::Output(vec![8]), HostOp::Trap]]);
    let mut world = WorldState::new(ledger(1000));
    let mut gas = GasMeter::new(1000);
    let mut rec = EffectRecorder::new();
    let r = top_call(&ctx, &mut world, &mut gas, &mut rec, 0, vec![]).unwrap();
    assert!(r.reverted);
    assert!(r.data.is_empty());
    assert!(world.journal.is_empty());
    assert_eq!(rec.deferred_storage_writes.len(), 1);
}

#[test]
fn call_value_goes_through_escrow() {
    let ctx = setup(4, chain(1));
    let mut world = WorldState::new(ledger(1000));
    let mut gas = GasMeter::new(1000);
    let mut rec = EffectRecorder::new();
    top_call(&ctx, &mut world, &mut gas, &mut rec, 50, vec![]).unwrap();
    assert_eq!(rec.transfers, vec![TransferEntry { to: encode_account(0), value: 50, data: vec![] }]);
    assert_eq!(world.ledger.total_balance(REQUESTER), 950);
    assert_eq!(world.ledger.total_balance(ESCROW), 550);
}

#[test]
fn insolvent_call_value_fails_before_execution() {
    let ctx = setup(4, vec![vec![HostOp::SetStorage(key(1), None)]]);
    let mut world = WorldState::new(ledger(120));
    let mut gas = GasMeter::new(1000);
    let mut rec = EffectRecorder::new();
    let r = top_call(&ctx, &mut world, &mut gas, &mut rec, 50, vec![]);
    assert_eq!(r.unwrap_err(), ExecError::BelowSubsistenceThreshold);
    assert!(rec.transfers.is_empty());
    assert!(rec.deferred_storage_writes.is_empty());
    assert_eq!(rec.call_stamps.len(), 1);
}

#[test]
fn account_encoding_is_little_endian() {
    assert_eq!(encode_account(0x0102_0304_0506_0708), vec![8, 7, 6, 5, 4, 3, 2, 1]);
    assert_eq!(encode_account(0), vec![0; 8]);
}

#[test]
fn subsistence_threshold_saturates() {
    let c = Config { max_depth: 1, call_cost: 0, existential_deposit: u64::MAX, tombstone_deposit: 5, max_value_size: 16 };
    assert_eq!(c.subsistence_threshold(), u64::MAX);
    assert_eq!(config(1).subsistence_threshold(), 100);
}

#[test]
fn gas_meter_charges() {
    let mut g = GasMeter::new(10);
    assert!(g.charge(4));
    assert_eq!(g.gas_left(), 6);
    assert!(!g.charge(7));
    assert_eq!(g.gas_left(), 0);
}

#[test]
fn host_interface_reports_escrow_identity() {
    let ctx = setup(4, chain(1));
    let world = WorldState::new(ledger(1000));
    let ext = EscrowCallContext { caller: ESCROW, requester: REQUESTER, self_account: 0, trie_id: vec![], value_transferred: 9, depth: 0 };
    assert_eq!(ext.caller(), ESCROW);
    assert_eq!(ext.address(), 0);
    assert_eq!(ext.balance(&world), 500);
    assert_eq!(ext.value_transferred(), 9);
    assert_eq!(ext.minimum_balance(&ctx), 100);
    assert_eq!(ext.tombstone_deposit(&ctx), 0);
    assert_eq!(ext.now(&ctx), 1_600_000_000);
    assert_eq!(ext.block_number(&ctx), 77);
    assert_eq!(ext.max_value_size(&ctx), 16);
}
