use vstd::prelude::*;

use crate::launchpad::{
    balance_of, deposit_fits, deposited, entry_bytes, launch_started, period_over, purchased,
    purchasing_power, staked, storage_cost,
    withdrawn, LaunchpadView, MONTH, WEEKANDMONTH,
};
use crate::period_contract::{deposited_in_period, user_balance, PeriodView};

verus! {

/// The sum of all stored balances.
pub open spec fn balances_sum(m: Map<Seq<char>, u128>) -> int
    decreases m.dom().len(),
    when m.dom().finite()
{
    if m.dom().len() == 0 {
        0
    } else {
        let k = m.dom().choose();
        m[k] + balances_sum(m.remove(k))
    }
}

proof fn lemma_sum_nonnegative(m: Map<Seq<char>, u128>)
    requires
        m.dom().finite(),
    ensures
        balances_sum(m) >= 0,
    decreases m.dom().len(),
{
    if m.dom().len() > 0 {
        let k = m.dom().choose();
        lemma_sum_nonnegative(m.remove(k));
    }
}

/// Removing any key takes exactly its value off the sum.
proof fn lemma_sum_remove(m: Map<Seq<char>, u128>, k: Seq<char>)
    requires
        m.dom().finite(),
        m.contains_key(k),
    ensures
        balances_sum(m) == m[k] + balances_sum(m.remove(k)),
    decreases m.dom().len(),
{
    let c = m.dom().choose();
    if c != k {
        lemma_sum_remove(m.remove(c), k);
        lemma_sum_remove(m.remove(k), c);
        assert(m.remove(c).remove(k) =~= m.remove(k).remove(c));
    }
}

/// Storing `v` under `k` changes the sum by `v` less what `k` held.
proof fn lemma_sum_insert(m: Map<Seq<char>, u128>, k: Seq<char>, v: u128)
    requires
        m.dom().finite(),
    ensures
        balances_sum(m.insert(k, v)) == balances_sum(m) - balance_of(m, k) + v,
{
    lemma_sum_remove(m.insert(k, v), k);
    if m.contains_key(k) {
        lemma_sum_remove(m, k);
        assert(m.insert(k, v).remove(k) =~= m.remove(k));
    } else {
        assert(m.insert(k, v).remove(k) =~= m);
    }
}

/// No single balance exceeds the sum.
proof fn lemma_balance_within_sum(m: Map<Seq<char>, u128>, k: Seq<char>)
    requires
        m.dom().finite(),
    ensures
        balance_of(m, k) <= balances_sum(m),
{
    if m.contains_key(k) {
        lemma_sum_remove(m, k);
        lemma_sum_nonnegative(m.remove(k));
    } else {
        lemma_sum_nonnegative(m);
    }
}

/// After a deposit, the depositor's balance reads its former balance plus the
/// deposit; after a withdrawal, its former balance less the amount.
pub proof fn law_balance_reads_back(s: LaunchpadView, account: Seq<char>, amount: u128)
    ensures
        deposit_fits(s, account, amount) ==> balance_of(deposited(s, account, amount).balances, account)
            == balance_of(s.balances, account) + amount,
        amount <= balance_of(s.balances, account) ==> balance_of(
            withdrawn(s, account, amount).balances,
            account,
        ) == balance_of(s.balances, account) - amount,
{
}

/// A fresh contract's total equals the sum of its (no) balances.
pub proof fn law_fresh_contract_is_balanced()
    ensures
        balances_sum(Map::<Seq<char>, u128>::empty()) == 0,
{
}

/// A deposit followed by a withdrawal of the same amount, by the same
/// account, is accepted and leaves every balance and the total as they were.
pub proof fn law_deposit_then_withdraw_restores(
    s: LaunchpadView,
    now: u64,
    account: Seq<char>,
    amount: u128,
)
    requires
        period_over(s.stake_called, now, MONTH),
        deposit_fits(s, account, amount),
    ensures
        ({
            let s1 = deposited(s, account, amount);
            let s2 = withdrawn(s1, account, amount);
            &&& period_over(s1.stake_called, now, MONTH)
            &&& amount <= balance_of(s1.balances, account)
            &&& amount <= s1.total
            &&& s2.total == s.total
            &&& s2.stake_called == s.stake_called
            &&& forall|other: Seq<char>| #[trigger]
                balance_of(s2.balances, other) == balance_of(s.balances, other)
        }),
{
}

/// A deposit or a withdrawal changes the balance of its own account only.
pub proof fn law_deposit_and_withdraw_touch_only_the_caller(
    s: LaunchpadView,
    account: Seq<char>,
    other: Seq<char>,
    amount: u128,
)
    requires
        account != other,
    ensures
        balance_of(deposited(s, account, amount).balances, other) == balance_of(s.balances, other),
        balance_of(withdrawn(s, account, amount).balances, other) == balance_of(s.balances, other),
{
}

/// Deposits and withdrawals keep the total equal to the sum of the stored
/// balances; while that holds, a withdrawal within the caller's balance
/// never exceeds the total.
pub proof fn law_total_matches_balances(s: LaunchpadView, account: Seq<char>, amount: u128)
    requires
        s.balances.dom().finite(),
        balances_sum(s.balances) == s.total,
    ensures
        deposit_fits(s, account, amount) ==> balances_sum(deposited(s, account, amount).balances)
            == deposited(s, account, amount).total,
        amount <= balance_of(s.balances, account) ==> amount <= s.total && balances_sum(
            withdrawn(s, account, amount).balances,
        ) == withdrawn(s, account, amount).total,
{
    lemma_balance_within_sum(s.balances, account);
    if deposit_fits(s, account, amount) {
        lemma_sum_insert(
            s.balances,
            account,
            (balance_of(s.balances, account) + amount) as u128,
        );
    }
    if amount <= balance_of(s.balances, account) {
        lemma_sum_insert(
            s.balances,
            account,
            (balance_of(s.balances, account) - amount) as u128,
        );
    }
}

/// One accepted call, by its effect on the state.
pub enum Step {
    /// A deposit that credits `.1` to account `.0`: the attached deposit less
    /// the storage cost of a new entry.
    Deposit(Seq<char>, u128),
    /// A withdrawal of `.1` by account `.0`.
    Withdraw(Seq<char>, u128),
    /// A stake at block time `.0`.
    Stake(u64),
    /// A launch of `.1` tokens of account `.0`.
    Launch(Seq<char>, u128),
    /// A purchase by buyer `.0` of tokens of account `.1`.
    Purchase(Seq<char>, Seq<char>),
    /// A call that leaves the state as it was: an unstake, a getter, or any
    /// refused call.
    Unchanged,
}

/// The state after `step`.
pub open spec fn apply(s: LaunchpadView, step: Step) -> LaunchpadView {
    match step {
        Step::Deposit(a, x) => deposited(s, a, x),
        Step::Withdraw(a, x) => withdrawn(s, a, x),
        Step::Stake(now) => staked(s, now),
        Step::Launch(a, x) => launch_started(s, a, x),
        Step::Purchase(b, t) => purchased(s, b, t),
        Step::Unchanged => s,
    }
}

/// Whether the contract takes `step` in state `s` without overflow: a
/// deposit fits, and a withdrawal is within the balance and the total.
pub open spec fn step_fits(s: LaunchpadView, step: Step) -> bool {
    match step {
        Step::Deposit(a, x) => deposit_fits(s, a, x),
        Step::Withdraw(a, x) => x <= balance_of(s.balances, a) && x <= s.total,
        _ => true,
    }
}

/// The state after the steps, in order, from `s`.
pub open spec fn run(s: LaunchpadView, steps: Seq<Step>) -> LaunchpadView
    decreases steps.len(),
{
    if steps.len() == 0 {
        s
    } else {
        apply(run(s, steps.drop_last()), steps.last())
    }
}

/// Whether every step fits in the state it is taken in.
pub open spec fn run_fits(s: LaunchpadView, steps: Seq<Step>) -> bool
    decreases steps.len(),
{
    steps.len() == 0 || (run_fits(s, steps.drop_last()) && step_fits(
        run(s, steps.drop_last()),
        steps.last(),
    ))
}

/// What `account` deposited less what it withdrew, over the steps.
pub open spec fn net_deposits_of(steps: Seq<Step>, account: Seq<char>) -> int
    decreases steps.len(),
{
    if steps.len() == 0 {
        0
    } else {
        net_deposits_of(steps.drop_last(), account) + match steps.last() {
            Step::Deposit(a, x) => if a == account {
                x as int
            } else {
                0
            },
            Step::Withdraw(a, x) => if a == account {
                -(x as int)
            } else {
                0
            },
            _ => 0,
        }
    }
}

/// All deposits less all withdrawals, over the steps.
pub open spec fn net_deposits(steps: Seq<Step>) -> int
    decreases steps.len(),
{
    if steps.len() == 0 {
        0
    } else {
        net_deposits(steps.drop_last()) + match steps.last() {
            Step::Deposit(_, x) => x as int,
            Step::Withdraw(_, x) => -(x as int),
            _ => 0,
        }
    }
}

/// Whether no step is a launch.
pub open spec fn no_launch(steps: Seq<Step>) -> bool {
    forall|i: int| 0 <= i < steps.len() ==> !(#[trigger] steps[i] is Launch)
}

/// The state of a fresh contract.
pub open spec fn fresh() -> LaunchpadView {
    LaunchpadView {
        balances: Map::empty(),
        total: 0,
        stake_called: 0,
        purchases: Set::empty(),
    }
}

proof fn lemma_run_balance(s: LaunchpadView, steps: Seq<Step>, account: Seq<char>)
    requires
        run_fits(s, steps),
        no_launch(steps),
    ensures
        balance_of(run(s, steps).balances, account) == balance_of(s.balances, account)
            + net_deposits_of(steps, account),
    decreases steps.len(),
{
    if steps.len() > 0 {
        let p = steps.drop_last();
        assert forall|i: int| 0 <= i < p.len() implies !(#[trigger] p[i] is Launch) by {
            assert(p[i] == steps[i]);
        }
        assert(!(steps[steps.len() - 1] is Launch));
        lemma_run_balance(s, p, account);
    }
}

proof fn lemma_run_total(s: LaunchpadView, steps: Seq<Step>)
    requires
        run_fits(s, steps),
    ensures
        run(s, steps).total == s.total + net_deposits(steps),
    decreases steps.len(),
{
    if steps.len() > 0 {
        lemma_run_total(s, steps.drop_last());
    }
}

/// From a fresh contract, through any accepted deposits and withdrawals (and
/// stakes and calls that change nothing, but no launch), each account's
/// balance is what it deposited less what it withdrew.
pub proof fn law_balance_is_net_deposits(steps: Seq<Step>, account: Seq<char>)
    requires
        run_fits(fresh(), steps),
        no_launch(steps),
    ensures
        balance_of(run(fresh(), steps).balances, account) == net_deposits_of(steps, account),
{
    lemma_run_balance(fresh(), steps, account);
}

/// From a fresh contract, through any accepted calls, the total is all that
/// was deposited less all that was withdrawn: stakes, launches, unstakes and
/// purchases leave it as it is.
pub proof fn law_total_is_net_deposits(steps: Seq<Step>)
    requires
        run_fits(fresh(), steps),
    ensures
        run(fresh(), steps).total == net_deposits(steps),
{
    lemma_run_total(fresh(), steps);
}

/// No call removes a stored entry: an account stored before a run of calls
/// is stored after it.
proof fn lemma_run_keeps_entries(s: LaunchpadView, steps: Seq<Step>, account: Seq<char>)
    requires
        s.balances.contains_key(account),
    ensures
        run(s, steps).balances.contains_key(account),
    decreases steps.len(),
{
    if steps.len() > 0 {
        lemma_run_keeps_entries(s, steps.drop_last(), account);
    }
}

/// Storage is charged only where a call adds an entry: once an account has
/// an entry, whatever its value and whatever calls follow (withdrawing the
/// whole balance included), storing under it costs nothing; an account
/// without an entry pays for the entry's bytes, which are more than none.
pub proof fn law_storage_charged_only_for_new_entries(
    s: LaunchpadView,
    steps: Seq<Step>,
    account: Seq<char>,
    byte_cost: u128,
)
    ensures
        s.balances.contains_key(account) ==> storage_cost(run(s, steps).balances, account, byte_cost)
            == 0,
        !s.balances.contains_key(account) ==> storage_cost(s.balances, account, byte_cost)
            == entry_bytes(account) * byte_cost && entry_bytes(account) > 0,
{
    if s.balances.contains_key(account) {
        lemma_run_keeps_entries(s, steps, account);
    }
}

/// A deposit or a withdrawal leaves its caller with an entry, so that the
/// caller's later calls are charged no storage.
pub proof fn law_caller_keeps_entry(s: LaunchpadView, account: Seq<char>, amount: u128, byte_cost: u128)
    ensures
        storage_cost(deposited(s, account, amount).balances, account, byte_cost) == 0,
        storage_cost(withdrawn(s, account, amount).balances, account, byte_cost) == 0,
        storage_cost(
            withdrawn(deposited(s, account, amount), account, amount).balances,
            account,
            byte_cost,
        ) == 0,
{
}

/// Only a purchase changes the recorded purchases: deposits, withdrawals,
/// stakes, launches and the calls that change nothing keep them as they were.
pub proof fn law_only_purchases_change_purchases(s: LaunchpadView, step: Step)
    requires
        !(step is Purchase),
    ensures
        apply(s, step).purchases == s.purchases,
{
}

/// A stake and a launch keep the recorded purchases.
pub proof fn law_stake_and_launch_keep_purchases(
    s: LaunchpadView,
    now: u64,
    token: Seq<char>,
    amount: u128,
)
    ensures
        staked(s, now).purchases == s.purchases,
        launch_started(s, token, amount).purchases == s.purchases,
{
}

proof fn lemma_run_keeps_purchases(s: LaunchpadView, steps: Seq<Step>, pair: (Seq<char>, Seq<char>))
    requires
        s.purchases.contains(pair),
    ensures
        run(s, steps).purchases.contains(pair),
    decreases steps.len(),
{
    if steps.len() > 0 {
        lemma_run_keeps_purchases(s, steps.drop_last(), pair);
    }
}

/// A purchase adds its own record and nothing else: earlier purchases stay
/// recorded, and balances, total and stake time are as they were.
pub proof fn law_purchase_adds_only_its_record(
    s: LaunchpadView,
    buyer: Seq<char>,
    token: Seq<char>,
    pair: (Seq<char>, Seq<char>),
)
    ensures
        purchased(s, buyer, token).purchases.contains(pair) <==> s.purchases.contains(pair) || pair
            == (buyer, token),
        purchased(s, buyer, token).balances == s.balances,
        purchased(s, buyer, token).total == s.total,
        purchased(s, buyer, token).stake_called == s.stake_called,
{
}

/// A purchase is recorded for good: whatever calls follow it (stakes and
/// launches of any token included), the buyer stays recorded as having
/// bought that token, so its purchase of that token is refused again.
pub proof fn law_purchase_recorded_for_good(
    s: LaunchpadView,
    buyer: Seq<char>,
    token: Seq<char>,
    steps: Seq<Step>,
)
    ensures
        run(purchased(s, buyer, token), steps).purchases.contains((buyer, token)),
{
    lemma_run_keeps_purchases(purchased(s, buyer, token), steps, (buyer, token));
}

/// A stake at `at` closes deposits, withdrawals and unstaking for a month and
/// further stakes for a month and a week; after that they are open again.
pub proof fn law_stake_locks_periods(s: LaunchpadView, at: u64, now: u64)
    ensures
        period_over(staked(s, at).stake_called, now, MONTH) <==> now >= at + MONTH,
        period_over(staked(s, at).stake_called, now, WEEKANDMONTH) <==> now >= at
            + WEEKANDMONTH,
        staked(s, at).balances == s.balances && staked(s, at).total == s.total,
{
}

/// The token amount a launch records for an account is what that account's
/// balance reads afterwards: balances and token amounts are one stored value.
pub proof fn law_launch_amount_is_the_account_balance(
    s: LaunchpadView,
    token: Seq<char>,
    amount: u128,
)
    ensures
        balance_of(launch_started(s, token, amount).balances, token) == amount,
        launch_started(s, token, amount).total == s.total,
{
}

/// While the total equals the sum of the balances, no purchase is worth more
/// than the tokens on sale.
pub proof fn law_purchase_within_sale(s: LaunchpadView, buyer: Seq<char>, token: Seq<char>)
    requires
        s.balances.dom().finite(),
        balances_sum(s.balances) == s.total,
        s.total > 0,
    ensures
        0 <= purchasing_power(s, buyer, token) <= balance_of(s.balances, token),
{
    lemma_balance_within_sum(s.balances, buyer);
    let b = balance_of(s.balances, buyer) as int;
    let t = balance_of(s.balances, token) as int;
    let n = s.total as int;
    assert(0 <= b * t / n <= t) by (nonlinear_arith)
        requires
            0 <= b <= n,
            0 <= t,
            n > 0,
    {
        assert(b * t <= n * t);
        assert((b * t) / n <= (n * t) / n);
        assert((n * t) / n == t);
    }
}

/// The sum of the balances of `accounts`.
pub open spec fn balances_of(m: Map<Seq<char>, u128>, accounts: Seq<Seq<char>>) -> int
    decreases accounts.len(),
{
    if accounts.len() == 0 {
        0
    } else {
        balances_of(m, accounts.drop_last()) + balance_of(m, accounts.last())
    }
}

/// The sum of the purchasing powers of `buyers` for tokens of `token`.
pub open spec fn allocations(s: LaunchpadView, buyers: Seq<Seq<char>>, token: Seq<char>) -> int
    decreases buyers.len(),
{
    if buyers.len() == 0 {
        0
    } else {
        allocations(s, buyers.drop_last(), token) + purchasing_power(s, buyers.last(), token)
    }
}

/// The balances of distinct accounts add up to no more than all balances.
proof fn lemma_balances_of_within_sum(m: Map<Seq<char>, u128>, accounts: Seq<Seq<char>>)
    requires
        m.dom().finite(),
        accounts.no_duplicates(),
    ensures
        balances_of(m, accounts) <= balances_sum(m),
    decreases accounts.len(),
{
    if accounts.len() == 0 {
        lemma_sum_nonnegative(m);
    } else {
        let p = accounts.drop_last();
        let a = accounts.last();
        let m2 = m.remove(a);
        assert(p.no_duplicates()) by {
            assert forall|i: int, j: int| 0 <= i < p.len() && 0 <= j < p.len() && i != j implies p[i]
                != p[j] by {
                assert(p[i] == accounts[i] && p[j] == accounts[j]);
            }
        }
        lemma_balances_of_within_sum(m2, p);
        lemma_balances_of_remove(m, p, a);
        if m.contains_key(a) {
            lemma_sum_remove(m, a);
        } else {
            assert(m2 =~= m);
        }
    }
}

/// Removing an account that `accounts` does not hold leaves their balances.
proof fn lemma_balances_of_remove(m: Map<Seq<char>, u128>, accounts: Seq<Seq<char>>, a: Seq<char>)
    requires
        !accounts.contains(a),
    ensures
        balances_of(m.remove(a), accounts) == balances_of(m, accounts),
    decreases accounts.len(),
{
    if accounts.len() > 0 {
        let p = accounts.drop_last();
        assert(!p.contains(a)) by {
            if p.contains(a) {
                let i = choose|i: int| 0 <= i < p.len() && p[i] == a;
                assert(accounts[i] == a);
            }
        }
        assert(accounts.last() != a) by {
            assert(accounts[accounts.len() - 1] == accounts.last());
        }
        lemma_balances_of_remove(m, p, a);
    }
}

/// The allocations of the buyers, times the total, are at most the sum of
/// their balances times the tokens on sale.
proof fn lemma_allocations_scaled(s: LaunchpadView, buyers: Seq<Seq<char>>, token: Seq<char>)
    requires
        s.total > 0,
    ensures
        0 <= allocations(s, buyers, token),
        allocations(s, buyers, token) * s.total <= balances_of(s.balances, buyers) * balance_of(
            s.balances,
            token,
        ),
    decreases buyers.len(),
{
    if buyers.len() > 0 {
        let p = buyers.drop_last();
        lemma_allocations_scaled(s, p, token);
        let a = allocations(s, p, token);
        let q = purchasing_power(s, buyers.last(), token);
        let b = balances_of(s.balances, p);
        let x = balance_of(s.balances, buyers.last()) as int;
        let t = balance_of(s.balances, token) as int;
        let n = s.total as int;
        assert(q == (x * t) / n);
        assert(0 <= a + q && (a + q) * n <= (b + x) * t) by (nonlinear_arith)
            requires
                0 <= a,
                a * n <= b * t,
                q == (x * t) / n,
                n > 0,
                0 <= x,
                0 <= t,
        {
            assert(q * n <= x * t);
            assert(0 <= q);
        }
    }
}

/// While the total equals the sum of the balances, the purchasing powers of
/// distinct buyers together are no more than the tokens on sale.
pub proof fn law_allocations_within_sale(s: LaunchpadView, buyers: Seq<Seq<char>>, token: Seq<char>)
    requires
        s.balances.dom().finite(),
        balances_sum(s.balances) == s.total,
        s.total > 0,
        buyers.no_duplicates(),
    ensures
        0 <= allocations(s, buyers, token) <= balance_of(s.balances, token),
{
    lemma_balances_of_within_sum(s.balances, buyers);
    lemma_allocations_scaled(s, buyers, token);
    let a = allocations(s, buyers, token);
    let b = balances_of(s.balances, buyers);
    let t = balance_of(s.balances, token) as int;
    let n = s.total as int;
    assert(a <= t) by (nonlinear_arith)
        requires
            0 <= a,
            a * n <= b * t,
            b <= n,
            n > 0,
            0 <= t,
    {
        assert(b * t <= n * t);
    }
}

/// A recorded purchase is refused when tried again: each buyer buys tokens
/// of a token account once.
pub proof fn law_purchase_once(s: LaunchpadView, buyer: Seq<char>, token: Seq<char>)
    ensures
        purchased(s, buyer, token).purchases.contains((buyer, token)),
        purchased(s, buyer, token).balances == s.balances,
        purchased(s, buyer, token).total == s.total,
{
}

/// A deposit in the period-based contract adds the deposit to its signer's
/// balance and leaves every other user's balance as it was.
pub proof fn law_period_deposit_adds_to_signer_only(
    s: PeriodView,
    now: u64,
    signer: Seq<char>,
    other: Seq<char>,
    amount: u128,
)
    requires
        now >= s.start_period,
        amount + user_balance(s, signer) <= u128::MAX,
        other != signer,
    ensures
        user_balance(deposited_in_period(s, now, signer, amount), signer) == user_balance(s, signer)
            + amount,
        user_balance(deposited_in_period(s, now, signer, amount), other) == user_balance(s, other),
{
}

} // verus!
