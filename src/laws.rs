use vstd::prelude::*;
use crate::model::{
    alive_info, call_spec, depth_measure, enter_spec, finish_spec, lemma_run_end,
    lemma_run_step, rollback_spec, run_spec, simple_op_spec, step_spec, ChainState, Env, ExecError,
    HostOpView, Parties, solvent,
};
use crate::records::{encode_account_spec, AccountId, CallStampView, TransferEntryView};

verus! {

/// `a` is a prefix of `b`.
pub open spec fn prefix_of<T>(a: Seq<T>, b: Seq<T>) -> bool {
    &&& a.len() <= b.len()
    &&& forall|k: int| 0 <= k < a.len() ==> #[trigger] b[k] == a[k]
}

/// `b` came from `a` by appending only: to each record sequence and to the
/// journal, with no more gas left than before.
pub open spec fn extends(a: ChainState, b: ChainState) -> bool {
    &&& prefix_of(a.transfers, b.transfers)
    &&& prefix_of(a.writes, b.writes)
    &&& prefix_of(a.stamps, b.stamps)
    &&& prefix_of(a.journal, b.journal)
    &&& b.gas <= a.gas
}

proof fn lemma_extends_trans(a: ChainState, b: ChainState, c: ChainState)
    requires
        extends(a, b),
        extends(b, c),
    ensures
        extends(a, c),
{
}

proof fn lemma_enter_extends(
    env: Env,
    s: ChainState,
    depth: nat,
    p: Parties,
    dest: AccountId,
    transfer_dest: AccountId,
    value: u64,
)
    ensures
        extends(s, enter_spec(env, s, depth, p, dest, transfer_dest, value).0),
        enter_spec(env, s, depth, p, dest, transfer_dest, value).0.journal == s.journal,
{
}

proof fn lemma_finish_extends(a: ChainState, s: ChainState, depth: nat, r: Result<Seq<u8>, ExecError>)
    requires
        extends(a, s),
    ensures
        extends(a, finish_spec(s, depth, a.journal.len(), r).0),
        depth == 0 ==> finish_spec(s, depth, a.journal.len(), r).0.journal == a.journal,
        r is Err ==> finish_spec(s, depth, a.journal.len(), r).0.journal == a.journal,
{
    assert(rollback_spec(s.journal, a.journal.len()) =~= a.journal);
}

/// Running code only appends to the trace and the journal, and never gives gas back.
pub proof fn lemma_run_extends(
    env: Env,
    s: ChainState,
    depth: nat,
    p: Parties,
    self_account: AccountId,
    trie_id: Seq<u8>,
    input: Seq<u8>,
    code: Seq<HostOpView>,
    i: nat,
    out: Seq<u8>,
)
    ensures
        extends(s, run_spec(env, s, depth, p, self_account, trie_id, input, code, i, out).0),
    decreases depth_measure(env, depth), 0nat, code.len() - i,
{
    if i >= code.len() {
        lemma_run_end(env, s, depth, p, self_account, trie_id, input, code, i, out);
    } else {
        lemma_run_step(env, s, depth, p, self_account, trie_id, input, code, i, out);
        reveal(step_spec);
        let (s1, r) = step_spec(env, s, depth, p, self_account, trie_id, input, code[i as int], out);
        match code[i as int] {
            HostOpView::Call(to, value, call_input) => {
                if let Some(info) = alive_info(env.contracts, to) {
                    if info.code_hash < env.codes.len() && depth < env.cfg.max_depth {
                        let callee = env.codes[info.code_hash as int];
                        lemma_call_extends(env, s, depth + 1, p, to, to, value, call_input, callee);
                    }
                }
            },
            _ => {
                lemma_simple_op_extends(env, s, p, self_account, trie_id, input, code[i as int], out);
            },
        }
        if r is Ok {
            lemma_run_extends(env, s1, depth, p, self_account, trie_id, input, code, i + 1, r->Ok_0);
            lemma_extends_trans(
                s,
                s1,
                run_spec(env, s1, depth, p, self_account, trie_id, input, code, i + 1, r->Ok_0).0,
            );
        }
    }
}

proof fn lemma_simple_op_extends(
    env: Env,
    s: ChainState,
    p: Parties,
    self_account: AccountId,
    trie_id: Seq<u8>,
    input: Seq<u8>,
    op: HostOpView,
    out: Seq<u8>,
)
    ensures
        extends(s, simple_op_spec(env, s, p, self_account, trie_id, input, op, out).0),
{
}

/// A whole call only appends to the trace and the journal, and never gives gas back.
pub proof fn lemma_call_extends(
    env: Env,
    s: ChainState,
    depth: nat,
    p: Parties,
    dest: AccountId,
    transfer_dest: AccountId,
    value: u64,
    input: Seq<u8>,
    code: Seq<HostOpView>,
)
    ensures
        extends(s, call_spec(env, s, depth, p, dest, transfer_dest, value, input, code).0),
        depth == 0 ==> call_spec(env, s, depth, p, dest, transfer_dest, value, input, code).0.journal == s.journal,
    decreases depth_measure(env, depth), 1nat, 0nat,
{
    let (s2, e) = enter_spec(env, s, depth, p, dest, transfer_dest, value);
    lemma_enter_extends(env, s, depth, p, dest, transfer_dest, value);
    if e is Ok {
        let info = e->Ok_0;
        let (s3, r) = run_spec(env, s2, depth, p, dest, info.trie_id@, input, code, 0, Seq::empty());
        lemma_run_extends(env, s2, depth, p, dest, info.trie_id@, input, code, 0, Seq::empty());
        lemma_extends_trans(s, s2, s3);
        lemma_finish_extends(s, s3, depth, r);
    }
}

/// The outermost call of a chain never reports a committed result: when it
/// succeeds its output is marked as reverted, and whatever happens every
/// provisional storage write of the chain is discarded. Once its own guards
/// and escrow transfer have passed it always succeeds, whatever the code does.
pub proof fn lemma_outermost_call_reverts(
    env: Env,
    s: ChainState,
    p: Parties,
    dest: AccountId,
    transfer_dest: AccountId,
    value: u64,
    input: Seq<u8>,
    code: Seq<HostOpView>,
)
    ensures
        ({
            let (s1, r) = call_spec(env, s, 0, p, dest, transfer_dest, value, input, code);
            &&& r is Ok ==> r->Ok_0.0
            &&& s1.journal == s.journal
            &&& enter_spec(env, s, 0, p, dest, transfer_dest, value).1 is Ok ==> r is Ok
        }),
{
    lemma_call_extends(env, s, 0, p, dest, transfer_dest, value, input, code);
}

/// Call stamps only accumulate, in call order: the stamps held before a call
/// stay in front, and a call that passes the depth, gas and liveness guards
/// leaves the stamp of its callee right behind them, whatever happens next.
pub proof fn lemma_call_stamps(
    env: Env,
    s: ChainState,
    depth: nat,
    p: Parties,
    dest: AccountId,
    transfer_dest: AccountId,
    value: u64,
    input: Seq<u8>,
    code: Seq<HostOpView>,
)
    ensures
        prefix_of(s.stamps, call_spec(env, s, depth, p, dest, transfer_dest, value, input, code).0.stamps),
        depth < env.cfg.max_depth && s.gas >= env.cfg.call_cost && alive_info(env.contracts, dest) is Some ==> {
            let stamps = call_spec(env, s, depth, p, dest, transfer_dest, value, input, code).0.stamps;
            &&& stamps.len() >= s.stamps.len() + 1
            &&& stamps[s.stamps.len() as int] == CallStampView {
                storage: alive_info(env.contracts, dest)->Some_0.storage_root@,
                dest: encode_account_spec(dest),
            }
        },
{
    lemma_call_extends(env, s, depth, p, dest, transfer_dest, value, input, code);
    let (s2, e) = enter_spec(env, s, depth, p, dest, transfer_dest, value);
    if depth < env.cfg.max_depth && s.gas >= env.cfg.call_cost && alive_info(env.contracts, dest) is Some {
        assert(s2.stamps[s.stamps.len() as int] == CallStampView {
            storage: alive_info(env.contracts, dest)->Some_0.storage_root@,
            dest: encode_account_spec(dest),
        });
        if e is Ok {
            let info = e->Ok_0;
            let (s3, r) = run_spec(env, s2, depth, p, dest, info.trie_id@, input, code, 0, Seq::empty());
            lemma_run_extends(env, s2, depth, p, dest, info.trie_id@, input, code, 0, Seq::empty());
            lemma_finish_extends(s2, s3, depth, r);
            assert(s2.journal.len() == s.journal.len());
        }
    }
}

/// The trace is a function of the setting, the world, the gas and the call:
/// replaying a call on the same world and gas, each time into an empty
/// recorder, yields the same transfers, storage writes and stamps.
pub proof fn lemma_replay_same_trace(
    env: Env,
    s1: ChainState,
    s2: ChainState,
    depth: nat,
    p: Parties,
    dest: AccountId,
    transfer_dest: AccountId,
    value: u64,
    input: Seq<u8>,
    code: Seq<HostOpView>,
)
    requires
        s1.balances == s2.balances,
        s1.journal == s2.journal,
        s1.gas == s2.gas,
        s1.transfers.len() == 0 && s2.transfers.len() == 0,
        s1.writes.len() == 0 && s2.writes.len() == 0,
        s1.stamps.len() == 0 && s2.stamps.len() == 0,
    ensures
        ({
            let t1 = call_spec(env, s1, depth, p, dest, transfer_dest, value, input, code).0;
            let t2 = call_spec(env, s2, depth, p, dest, transfer_dest, value, input, code).0;
            &&& t1.transfers == t2.transfers
            &&& t1.writes == t2.writes
            &&& t1.stamps == t2.stamps
        }),
{
    assert(s1.transfers =~= s2.transfers);
    assert(s1.writes =~= s2.writes);
    assert(s1.stamps =~= s2.stamps);
    assert(s1 == s2);
}

/// A call at the depth limit is refused with `MaxCallDepthReached` and changes nothing.
pub proof fn lemma_depth_limit(
    env: Env,
    s: ChainState,
    p: Parties,
    dest: AccountId,
    transfer_dest: AccountId,
    value: u64,
    input: Seq<u8>,
    code: Seq<HostOpView>,
)
    ensures
        call_spec(env, s, env.cfg.max_depth as nat, p, dest, transfer_dest, value, input, code) == (
            s,
            Err::<(bool, Seq<u8>), ExecError>(ExecError::MaxCallDepthReached),
        ),
{
}

/// The calls of `code` nest at most `k` levels deep, counting the level
/// that runs `code`: every contract it calls is live with known code, and
/// that code's calls nest at most `k - 1` levels deep.
pub open spec fn nests_within(env: Env, code: Seq<HostOpView>, k: nat) -> bool
    decreases k,
{
    &&& k >= 1
    &&& forall|i: int| 0 <= i < code.len() ==> match #[trigger] code[i] {
        HostOpView::Call(to, _, _) => {
            &&& alive_info(env.contracts, to) is Some
            &&& alive_info(env.contracts, to)->Some_0.code_hash < env.codes.len()
            &&& nests_within(env, env.codes[alive_info(env.contracts, to)->Some_0.code_hash as int], (k - 1) as nat)
        },
        _ => true,
    }
}

proof fn lemma_run_within_depth(
    env: Env,
    s: ChainState,
    depth: nat,
    p: Parties,
    self_account: AccountId,
    trie_id: Seq<u8>,
    input: Seq<u8>,
    code: Seq<HostOpView>,
    i: nat,
    out: Seq<u8>,
    k: nat,
)
    requires
        nests_within(env, code, k),
        depth + k <= env.cfg.max_depth,
    ensures
        run_spec(env, s, depth, p, self_account, trie_id, input, code, i, out).1 != Err::<Seq<u8>, ExecError>(
            ExecError::MaxCallDepthReached,
        ),
    decreases depth_measure(env, depth), 0nat, code.len() - i,
{
    if i >= code.len() {
        lemma_run_end(env, s, depth, p, self_account, trie_id, input, code, i, out);
    } else {
        lemma_run_step(env, s, depth, p, self_account, trie_id, input, code, i, out);
        reveal(step_spec);
        let (s1, r) = step_spec(env, s, depth, p, self_account, trie_id, input, code[i as int], out);
        match code[i as int] {
            HostOpView::Call(to, value, call_input) => {
                let info = alive_info(env.contracts, to)->Some_0;
                let callee = env.codes[info.code_hash as int];
                lemma_call_within_depth(env, s, depth + 1, p, to, to, value, call_input, callee, (k - 1) as nat);
            },
            _ => {},
        }
        if r is Ok {
            lemma_run_within_depth(env, s1, depth, p, self_account, trie_id, input, code, i + 1, r->Ok_0, k);
        }
    }
}

proof fn lemma_call_within_depth(
    env: Env,
    s: ChainState,
    depth: nat,
    p: Parties,
    dest: AccountId,
    transfer_dest: AccountId,
    value: u64,
    input: Seq<u8>,
    code: Seq<HostOpView>,
    k: nat,
)
    requires
        nests_within(env, code, k),
        depth + k <= env.cfg.max_depth,
    ensures
        call_spec(env, s, depth, p, dest, transfer_dest, value, input, code).1 != Err::<(bool, Seq<u8>), ExecError>(
            ExecError::MaxCallDepthReached,
        ),
    decreases depth_measure(env, depth), 1nat, 0nat,
{
    let (s2, e) = enter_spec(env, s, depth, p, dest, transfer_dest, value);
    if e is Ok {
        let info = e->Ok_0;
        lemma_run_within_depth(env, s2, depth, p, dest, info.trie_id@, input, code, 0, Seq::empty(), k);
    }
}

/// Code whose calls nest at most `k` levels deep, entered at `depth` with
/// `depth + k <= max_depth`, never meets the depth limit: no level of it
/// fails with `MaxCallDepthReached`. Entered at depth zero, so with up to
/// `max_depth` nested levels, it succeeds with a reverted result once its
/// own guards and escrow transfer have passed.
pub proof fn lemma_nested_calls_within_depth(
    env: Env,
    s: ChainState,
    depth: nat,
    p: Parties,
    dest: AccountId,
    transfer_dest: AccountId,
    value: u64,
    input: Seq<u8>,
    code: Seq<HostOpView>,
    k: nat,
)
    requires
        nests_within(env, code, k),
        depth + k <= env.cfg.max_depth,
    ensures
        ({
            let r = call_spec(env, s, depth, p, dest, transfer_dest, value, input, code).1;
            &&& r != Err::<(bool, Seq<u8>), ExecError>(ExecError::MaxCallDepthReached)
            &&& depth == 0 && enter_spec(env, s, depth, p, dest, transfer_dest, value).1 is Ok ==> r is Ok && r->Ok_0.0
        }),
{
    lemma_call_within_depth(env, s, depth, p, dest, transfer_dest, value, input, code, k);
    if depth == 0 {
        lemma_outermost_call_reverts(env, s, p, dest, transfer_dest, value, input, code);
    }
}

/// A call that passes its depth, gas and liveness guards with a positive
/// value and a requester who can pay it records the escrow transfer to
/// `transfer_dest` right behind the transfers held before, ahead of any
/// transfer its code makes.
pub proof fn lemma_call_records_escrow_transfer(
    env: Env,
    s: ChainState,
    depth: nat,
    p: Parties,
    dest: AccountId,
    transfer_dest: AccountId,
    value: u64,
    input: Seq<u8>,
    code: Seq<HostOpView>,
)
    requires
        depth < env.cfg.max_depth,
        s.gas >= env.cfg.call_cost,
        alive_info(env.contracts, dest) is Some,
        value > 0,
        solvent(env.cfg, s.balances, p.requester, value),
    ensures
        ({
            let t = call_spec(env, s, depth, p, dest, transfer_dest, value, input, code).0.transfers;
            &&& t.len() >= s.transfers.len() + 1
            &&& t[s.transfers.len() as int] == TransferEntryView {
                to: encode_account_spec(transfer_dest),
                value,
                data: Seq::empty(),
            }
        }),
{
    lemma_call_extends(env, s, depth, p, dest, transfer_dest, value, input, code);
    let (s2, e) = enter_spec(env, s, depth, p, dest, transfer_dest, value);
    assert(e is Ok);
    let info = e->Ok_0;
    let (s3, r) = run_spec(env, s2, depth, p, dest, info.trie_id@, input, code, 0, Seq::empty());
    lemma_run_extends(env, s2, depth, p, dest, info.trie_id@, input, code, 0, Seq::empty());
    lemma_finish_extends(s2, s3, depth, r);
}

} // verus!
