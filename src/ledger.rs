use vstd::prelude::*;
use crate::records::AccountId;

verus! {

/// Limits and deposits that govern a call chain.
#[derive(Debug, Clone, Copy)]
pub struct Config {
    /// Number of nested call levels that may run; a call at this depth is refused.
    pub max_depth: u32,
    /// Gas charged for every call attempt that passes the depth check.
    pub call_cost: u64,
    /// Least balance that keeps an account alive.
    pub existential_deposit: u64,
    /// Deposit a contract keeps back for its tombstone.
    pub tombstone_deposit: u64,
    /// Largest storage value that code may write, in bytes.
    pub max_value_size: u32,
}

impl Config {
    pub open spec fn subsistence_threshold_spec(&self) -> u64 {
        if self.existential_deposit + self.tombstone_deposit > u64::MAX {
            u64::MAX
        } else {
            (self.existential_deposit + self.tombstone_deposit) as u64
        }
    }

    /// Balance an account must keep: existential plus tombstone deposit, saturating.
    pub fn subsistence_threshold(&self) -> (r: u64)
        ensures
            r == self.subsistence_threshold_spec(),
    {
        self.existential_deposit.saturating_add(self.tombstone_deposit)
    }
}

/// Remaining gas of one call chain.
#[derive(Debug, Clone, Copy)]
pub struct GasMeter {
    pub gas_left: u64,
}

impl GasMeter {
    pub fn new(gas_limit: u64) -> (r: GasMeter)
        ensures
            r.gas_left == gas_limit,
    {
        GasMeter { gas_left: gas_limit }
    }

    /// Charges `amount`; on exhaustion the meter drops to zero and `false` is returned.
    pub fn charge(&mut self, amount: u64) -> (ok: bool)
        ensures
            ok == (amount <= old(self).gas_left),
            ok ==> final(self).gas_left == old(self).gas_left - amount,
            !ok ==> final(self).gas_left == 0,
    {
        if amount <= self.gas_left {
            self.gas_left = self.gas_left - amount;
            true
        } else {
            self.gas_left = 0;
            false
        }
    }

    pub fn gas_left(&self) -> (r: u64)
        ensures
            r == self.gas_left,
    {
        self.gas_left
    }
}

/// The index of the entry that holds `a`'s balance (the last one naming
/// `a`), or -1 where no entry names it.
pub open spec fn find_spec(b: Seq<(AccountId, u64)>, a: AccountId) -> int
    decreases b.len(),
{
    if b.len() == 0 {
        -1
    } else if b.last().0 == a {
        b.len() - 1
    } else {
        find_spec(b.drop_last(), a)
    }
}

/// The sum of every entry's balance.
pub open spec fn sum_spec(b: Seq<(AccountId, u64)>) -> int
    decreases b.len(),
{
    if b.len() == 0 { 0 } else { sum_spec(b.drop_last()) + b.last().1 }
}

/// The balance of `a`; an account that no entry names holds nothing.
pub open spec fn balance_spec(b: Seq<(AccountId, u64)>, a: AccountId) -> u64 {
    let i = find_spec(b, a);
    if i >= 0 { b[i].1 } else { 0 }
}

/// `b` with `v` added to `a`'s balance; an account that no entry names gets one.
pub open spec fn credit_spec(b: Seq<(AccountId, u64)>, a: AccountId, v: u64) -> Seq<(AccountId, u64)> {
    let i = find_spec(b, a);
    if i >= 0 { b.update(i, (a, (b[i].1 + v) as u64)) } else { b.push((a, v)) }
}

/// `b` with `v` taken from `a`'s balance.
pub open spec fn debit_spec(b: Seq<(AccountId, u64)>, a: AccountId, v: u64) -> Seq<(AccountId, u64)> {
    let i = find_spec(b, a);
    b.update(i, (a, (b[i].1 - v) as u64))
}

/// The result of moving `value` from `from` to `to` with keep-alive
/// semantics: `None` where the source holds less than `value` or would fall
/// below the existential deposit `ed`.
#[verifier::opaque]
pub open spec fn transfer_spec(b: Seq<(AccountId, u64)>, from: AccountId, to: AccountId, value: u64, ed: u64) -> Option<
    Seq<(AccountId, u64)>,
> {
    let fb = balance_spec(b, from);
    if fb < value || fb - value < ed {
        None
    } else if from == to || value == 0 {
        Some(b)
    } else {
        Some(credit_spec(debit_spec(b, from, value), to, value))
    }
}

/// A transfer that the source can afford with keep-alive semantics happens.
pub proof fn lemma_transfer_defined(b: Seq<(AccountId, u64)>, from: AccountId, to: AccountId, value: u64, ed: u64)
    requires
        balance_spec(b, from) >= value,
        balance_spec(b, from) - value >= ed,
    ensures
        transfer_spec(b, from, to, value, ed) is Some,
{
    reveal(transfer_spec);
}

proof fn lemma_find(b: Seq<(AccountId, u64)>, a: AccountId)
    ensures
        find_spec(b, a) == -1 || (0 <= find_spec(b, a) < b.len() && b[find_spec(b, a)].0 == a),
    decreases b.len(),
{
    if b.len() > 0 && b.last().0 != a {
        lemma_find(b.drop_last(), a);
    }
}

proof fn lemma_find_same_accounts(b: Seq<(AccountId, u64)>, c: Seq<(AccountId, u64)>, a: AccountId)
    requires
        b.len() == c.len(),
        forall|k: int| 0 <= k < b.len() ==> #[trigger] b[k].0 == c[k].0,
    ensures
        find_spec(b, a) == find_spec(c, a),
    decreases b.len(),
{
    if b.len() > 0 {
        assert(b.last().0 == c.last().0);
        lemma_find_same_accounts(b.drop_last(), c.drop_last(), a);
    }
}

proof fn lemma_sum_update(b: Seq<(AccountId, u64)>, i: int, x: (AccountId, u64))
    requires
        0 <= i < b.len(),
    ensures
        sum_spec(b.update(i, x)) == sum_spec(b) - b[i].1 + x.1,
    decreases b.len(),
{
    let c = b.update(i, x);
    if i < b.len() - 1 {
        assert(c.drop_last() =~= b.drop_last().update(i, x));
        lemma_sum_update(b.drop_last(), i, x);
    } else {
        assert(c.drop_last() =~= b.drop_last());
    }
}

proof fn lemma_sum_push(b: Seq<(AccountId, u64)>, x: (AccountId, u64))
    ensures
        sum_spec(b.push(x)) == sum_spec(b) + x.1,
{
    assert(b.push(x).drop_last() =~= b);
}

proof fn lemma_sum_bounds(b: Seq<(AccountId, u64)>, i: int, j: int)
    requires
        0 <= i < b.len(),
        0 <= j < b.len(),
    ensures
        sum_spec(b) >= 0,
        b[i].1 <= sum_spec(b),
        i != j ==> b[i].1 + b[j].1 <= sum_spec(b),
    decreases b.len(),
{
    let n = b.len() - 1;
    if i < n && j < n {
        lemma_sum_bounds(b.drop_last(), i, j);
    } else if i < n {
        lemma_sum_bounds(b.drop_last(), i, i);
    } else if j < n {
        lemma_sum_bounds(b.drop_last(), j, j);
    } else if n > 0 {
        lemma_sum_bounds(b.drop_last(), 0, 0);
    }
}

/// The balances of all accounts, as a list of entries in which the last
/// entry naming an account holds its balance, with the total of all entries.
#[derive(Debug, Clone)]
pub struct Ledger {
    pub balances: Vec<(AccountId, u64)>,
    pub total: u64,
}

impl Ledger {
    /// The total is the sum of all entries, so no balance can overflow.
    pub open spec fn wf(&self) -> bool {
        self.total as int == sum_spec(self.balances@)
    }

    /// A ledger in which every account holds nothing.
    pub fn new() -> (r: Ledger)
        ensures
            r.wf(),
            r.balances@.len() == 0,
    {
        Ledger { balances: Vec::new(), total: 0 }
    }

    fn find(&self, a: AccountId) -> (r: Option<usize>)
        ensures
            match r {
                Some(i) => find_spec(self.balances@, a) == i as int && i < self.balances@.len()
                    && self.balances@[i as int].0 == a,
                None => find_spec(self.balances@, a) == -1,
            },
    {
        proof {
            lemma_find(self.balances@, a);
        }
        let mut i: usize = self.balances.len();
        assert(self.balances@.subrange(0, i as int) =~= self.balances@);
        while i > 0
            invariant
                i <= self.balances@.len(),
                find_spec(self.balances@, a) == find_spec(self.balances@.subrange(0, i as int), a),
            decreases i,
        {
            let ghost b = self.balances@.subrange(0, i as int);
            assert(self.balances@.subrange(0, i - 1) =~= b.drop_last());
            if self.balances[i - 1].0 == a {
                return Some(i - 1);
            }
            i = i - 1;
        }
        None
    }

    /// Total holdings of an account.
    pub fn total_balance(&self, a: AccountId) -> (r: u64)
        ensures
            r == balance_spec(self.balances@, a),
    {
        match self.find(a) {
            Some(i) => self.balances[i].1,
            None => 0,
        }
    }

    /// Adds newly issued `value` to `a`, unless the total would overflow.
    pub fn deposit(&mut self, a: AccountId, value: u64) -> (ok: bool)
        requires
            old(self).wf(),
        ensures
            final(self).wf(),
            ok == (old(self).total + value <= u64::MAX),
            ok ==> final(self).balances@ == credit_spec(old(self).balances@, a, value),
            !ok ==> final(self).balances@ == old(self).balances@,
    {
        if value > u64::MAX - self.total {
            return false;
        }
        let ghost b = self.balances@;
        match self.find(a) {
            Some(i) => {
                proof {
                    lemma_sum_bounds(b, i as int, i as int);
                    lemma_sum_update(b, i as int, (a, (b[i as int].1 + value) as u64));
                }
                let v = self.balances[i].1;
                self.balances.set(i, (a, v + value));
            },
            None => {
                proof {
                    lemma_sum_push(b, (a, value));
                }
                self.balances.push((a, value));
            },
        }
        self.total = self.total + value;
        true
    }

    /// Moves `value` from `from` to `to`, keeping `from` at or above `ed`.
    pub fn transfer(&mut self, from: AccountId, to: AccountId, value: u64, ed: u64) -> (ok: bool)
        requires
            old(self).wf(),
        ensures
            final(self).wf(),
            ok == transfer_spec(old(self).balances@, from, to, value, ed).is_some(),
            ok ==> final(self).balances@ == transfer_spec(old(self).balances@, from, to, value, ed).unwrap(),
            !ok ==> final(self).balances@ == old(self).balances@,
    {
        reveal(transfer_spec);
        let ghost b = self.balances@;
        let fb = self.total_balance(from);
        if fb < value || fb - value < ed {
            return false;
        }
        if from == to || value == 0 {
            return true;
        }
        let fi = match self.find(from) {
            Some(i) => i,
            None => {
                return false;
            },
        };
        proof {
            lemma_sum_bounds(b, fi as int, fi as int);
            lemma_sum_update(b, fi as int, (from, (fb - value) as u64));
        }
        self.balances.set(fi, (from, fb - value));
        let ghost b1 = self.balances@;
        proof {
            assert forall|k: int| 0 <= k < b.len() implies #[trigger] b[k].0 == b1[k].0 by {}
            lemma_find_same_accounts(b, b1, to);
        }
        match self.find(to) {
            Some(ti) => {
                proof {
                    lemma_find(b, to);
                    lemma_sum_bounds(b, fi as int, ti as int);
                    lemma_sum_update(b1, ti as int, (to, (b1[ti as int].1 + value) as u64));
                }
                let tb = self.balances[ti].1;
                self.balances.set(ti, (to, tb + value));
            },
            None => {
                proof {
                    lemma_sum_push(b1, (to, value));
                }
                self.balances.push((to, value));
            },
        }
        true
    }
}

} // verus!
