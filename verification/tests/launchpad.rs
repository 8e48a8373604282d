use launchpad::launchpad::{
    Contract, LaunchpadError, Payout, PoolCall, PoolMethod, FT_TRANSFER_DEPOSIT, MONTH,
    OWNER_ACCOUNT, POOL_CALL_GAS, STORAGE_RECORD_OVERHEAD, WEEKANDMONTH, XCC_GAS,
};

const OPEN: u64 = MONTH as u64;
/// Storage priced at nothing, so that deposits are credited whole.
const FREE: u128 = 0;
/// NEAR's price of a byte of storage, in yoctoNEAR.
const BYTE_COST: u128 = 10_000_000_000_000_000_000;

fn s(x: &str) -> String {
    x.to_string()
}

fn funded(deposits: &[(&str, u128)]) -> Contract {
    let mut c = Contract::init();
    for (who, amount) in deposits {
        assert_eq!(c.deposit_balance(OPEN, &s(who), *amount, FREE), Ok(()));
    }
    c
}

fn launch(c: &mut Contract, token: &str, amount: u128) {
    assert_eq!(c.start_launch(&s(OWNER_ACCOUNT), s(token), amount, 0, FREE), Ok(0));
}

/// The bytes a new entry for `account` takes.
fn entry_bytes(account: &str) -> u128 {
    STORAGE_RECORD_OVERHEAD + 1 + 4 + account.len() as u128 + 16
}

#[test]
fn init_is_empty() {
    let c = Contract::init();
    assert_eq!(c.get_total_balance(), 0);
    assert_eq!(c.get_user_balance(&s("alice.near")), 0);
    assert_eq!(c.get_tokens(&s("token.near")), 0);
    assert_eq!(c.get_stake_called(), 0);
    assert!(c.entries().is_empty());
}

#[test]
fn default_is_init() {
    let c = Contract::default();
    assert_eq!(c.get_total_balance(), 0);
    assert_eq!(c.get_stake_called(), 0);
    assert!(c.entries().is_empty());
}

#[test]
fn deposit_refused_within_a_month_of_the_last_stake() {
    let mut c = Contract::init();
    let r = c.deposit_balance(OPEN - 1, &s("alice.near"), 5, FREE);
    assert_eq!(r, Err(LaunchpadError::StakingPeriodNotOver));
    assert_eq!(r.unwrap_err().message(), "staking period is not over yet");
    assert_eq!(c.get_user_balance(&s("alice.near")), 0);
    assert_eq!(c.get_total_balance(), 0);
}

#[test]
fn deposits_accumulate() {
    let mut c = funded(&[("alice.near", 100), ("bob.near", 7)]);
    assert_eq!(c.deposit_balance(OPEN + 10, &s("alice.near"), 50, FREE), Ok(()));
    assert_eq!(c.get_user_balance(&s("alice.near")), 150);
    assert_eq!(c.get_user_balance(&s("bob.near")), 7);
    assert_eq!(c.get_total_balance(), 157);
}

#[test]
fn storage_cost_of_new_and_stored_accounts() {
    let c = funded(&[("alice.near", 100)]);
    assert_eq!(c.storage_cost_of(&s("alice.near"), BYTE_COST), Some(0));
    assert_eq!(
        c.storage_cost_of(&s("bob.near"), BYTE_COST),
        Some(entry_bytes("bob.near") * BYTE_COST)
    );
    assert_eq!(entry_bytes("bob.near"), 69);
    assert_eq!(c.storage_cost_of(&s("bob.near"), u128::MAX), None);
}

#[test]
fn first_deposit_pays_for_its_storage() {
    let mut c = Contract::init();
    let cost = entry_bytes("alice.near") * BYTE_COST;
    assert_eq!(c.deposit_balance(OPEN, &s("alice.near"), cost + 500, BYTE_COST), Ok(()));
    assert_eq!(c.get_user_balance(&s("alice.near")), 500);
    assert_eq!(c.get_total_balance(), 500);
    assert_eq!(c.deposit_balance(OPEN, &s("alice.near"), 20, BYTE_COST), Ok(()));
    assert_eq!(c.get_user_balance(&s("alice.near")), 520);
    assert_eq!(c.get_total_balance(), 520);
}

#[test]
fn deposit_below_storage_cost_is_refused() {
    let mut c = Contract::init();
    let cost = entry_bytes("alice.near") * BYTE_COST;
    let r = c.deposit_balance(OPEN, &s("alice.near"), cost - 1, BYTE_COST);
    assert_eq!(r, Err(LaunchpadError::InsufficientStorageDeposit));
    assert_eq!(r.unwrap_err().message(), "attached deposit does not cover the storage cost");
    assert_eq!(c.get_total_balance(), 0);
    assert!(c.entries().is_empty());
}

#[test]
fn withdraw_beyond_balance_is_refused() {
    let mut c = funded(&[("alice.near", 100)]);
    let r = c.withdraw_balance(OPEN, &s("alice.near"), 101, 0, FREE);
    assert_eq!(r, Err(LaunchpadError::NotEnoughBalance));
    assert_eq!(r.unwrap_err().message(), "not enough balance");
    assert_eq!(c.get_user_balance(&s("alice.near")), 100);
    assert_eq!(c.get_total_balance(), 100);
}

#[test]
fn withdraw_refused_within_a_month_of_the_last_stake() {
    let mut c = Contract::init();
    assert_eq!(
        c.withdraw_balance(0, &s("alice.near"), 0, 0, FREE),
        Err(LaunchpadError::StakingPeriodNotOver)
    );
}

#[test]
fn withdraw_pays_out_the_amount_and_refunds_the_deposit() {
    let mut c = funded(&[("alice.near", 100), ("bob.near", 20)]);
    let r = c.withdraw_balance(OPEN, &s("alice.near"), 40, 3, BYTE_COST);
    assert_eq!(r, Ok((Payout { receiver: s("alice.near"), amount: 40 }, 3)));
    assert_eq!(c.get_user_balance(&s("alice.near")), 60);
    assert_eq!(c.get_user_balance(&s("bob.near")), 20);
    assert_eq!(c.get_total_balance(), 80);
}

#[test]
fn zero_withdrawal_by_new_account_pays_for_its_entry() {
    let mut c = funded(&[("alice.near", 100)]);
    let cost = entry_bytes("carol.near") * BYTE_COST;
    assert_eq!(
        c.withdraw_balance(OPEN, &s("carol.near"), 0, cost - 1, BYTE_COST),
        Err(LaunchpadError::InsufficientStorageDeposit)
    );
    assert_eq!(
        c.withdraw_balance(OPEN, &s("carol.near"), 0, cost + 9, BYTE_COST),
        Ok((Payout { receiver: s("carol.near"), amount: 0 }, 9))
    );
    assert_eq!(c.entries().len(), 2);
}

#[test]
fn deposit_then_withdraw_restores() {
    let mut c = funded(&[("bob.near", 20)]);
    assert_eq!(c.deposit_balance(OPEN, &s("alice.near"), 33, FREE), Ok(()));
    assert!(c.withdraw_balance(OPEN, &s("alice.near"), 33, 0, FREE).is_ok());
    assert_eq!(c.get_user_balance(&s("alice.near")), 0);
    assert_eq!(c.get_user_balance(&s("bob.near")), 20);
    assert_eq!(c.get_total_balance(), 20);
}

#[test]
fn balances_and_total_are_net_deposits() {
    let mut c = funded(&[("alice.near", 100), ("bob.near", 20), ("alice.near", 5)]);
    assert!(c.withdraw_balance(OPEN, &s("alice.near"), 30, 0, FREE).is_ok());
    assert!(c.withdraw_balance(OPEN, &s("bob.near"), 20, 0, FREE).is_ok());
    assert!(c.stake(WEEKANDMONTH as u64, s("pool.near")).is_ok());
    launch(&mut c, "token.near", 1000);
    assert_eq!(c.get_user_balance(&s("alice.near")), 75);
    assert_eq!(c.get_user_balance(&s("bob.near")), 0);
    assert_eq!(c.get_total_balance(), 75);
}

#[test]
fn stake_sends_the_total_to_the_pool() {
    let mut c = funded(&[("alice.near", 100), ("bob.near", 20)]);
    let now = WEEKANDMONTH as u64;
    let r = c.stake(now, s("pool.near"));
    assert_eq!(
        r,
        Ok(PoolCall {
            pool: s("pool.near"),
            method: PoolMethod::DepositAndStake,
            deposit: 120,
            gas: POOL_CALL_GAS,
        })
    );
    assert_eq!(c.get_stake_called(), now as u128);
    assert_eq!(c.get_total_balance(), 120);
}

#[test]
fn stake_refused_within_a_month_and_a_week() {
    let mut c = Contract::init();
    let r = c.stake(WEEKANDMONTH as u64 - 1, s("pool.near"));
    assert_eq!(r, Err(LaunchpadError::StakingOrWithdrawingPeriodNotOver));
    assert_eq!(
        r.unwrap_err().message(),
        "staking period or withdrawing period is not over yet"
    );
    assert_eq!(c.get_stake_called(), 0);
}

#[test]
fn stake_locks_deposits_for_a_month() {
    let mut c = funded(&[("alice.near", 100)]);
    let at = WEEKANDMONTH as u64;
    assert!(c.stake(at, s("pool.near")).is_ok());
    let alice = s("alice.near");
    assert_eq!(
        c.deposit_balance(at + OPEN - 1, &alice, 1, FREE),
        Err(LaunchpadError::StakingPeriodNotOver)
    );
    assert_eq!(
        c.withdraw_balance(at + OPEN - 1, &alice, 1, 0, FREE),
        Err(LaunchpadError::StakingPeriodNotOver)
    );
    assert_eq!(c.deposit_balance(at + OPEN, &alice, 1, FREE), Ok(()));
    assert_eq!(
        c.stake(at + WEEKANDMONTH as u64 - 1, s("pool.near")),
        Err(LaunchpadError::StakingOrWithdrawingPeriodNotOver)
    );
    assert!(c.stake(at + WEEKANDMONTH as u64, s("pool.near")).is_ok());
}

#[test]
fn unstake_calls_the_pool_twice() {
    let mut c = funded(&[("alice.near", 100)]);
    let r = c.unstake(OPEN, s("pool.near")).unwrap();
    assert_eq!(
        r,
        vec![
            PoolCall { pool: s("pool.near"), method: PoolMethod::UnstakeAll, deposit: 0, gas: POOL_CALL_GAS },
            PoolCall { pool: s("pool.near"), method: PoolMethod::WithdrawAll, deposit: 0, gas: POOL_CALL_GAS },
        ]
    );
    assert_eq!(c.get_total_balance(), 100);
}

#[test]
fn unstake_refused_within_a_month() {
    let mut c = Contract::init();
    assert_eq!(c.unstake(OPEN - 1, s("pool.near")), Err(LaunchpadError::StakingPeriodNotOver));
}

#[test]
fn pool_method_names() {
    assert_eq!(PoolMethod::DepositAndStake.name(), "deposit_and_stake");
    assert_eq!(PoolMethod::UnstakeAll.name(), "unstake_all");
    assert_eq!(PoolMethod::WithdrawAll.name(), "withdraw_all");
}

#[test]
fn only_the_owner_starts_a_launch() {
    let mut c = Contract::init();
    let r = c.start_launch(&s("mallory.near"), s("token.near"), 1000, 0, FREE);
    assert_eq!(r, Err(LaunchpadError::OwnerOnly));
    assert_eq!(r.unwrap_err().message(), "Owner's method");
    assert_eq!(c.get_tokens(&s("token.near")), 0);
    launch(&mut c, "token.near", 1000);
    assert_eq!(c.get_tokens(&s("token.near")), 1000);
}

#[test]
fn launch_pays_for_its_storage_and_refunds_the_rest() {
    let mut c = Contract::init();
    let cost = entry_bytes("token.near") * BYTE_COST;
    let owner = s(OWNER_ACCOUNT);
    assert_eq!(
        c.start_launch(&owner, s("token.near"), 1000, cost - 1, BYTE_COST),
        Err(LaunchpadError::InsufficientStorageDeposit)
    );
    assert_eq!(c.get_tokens(&s("token.near")), 0);
    assert_eq!(c.start_launch(&owner, s("token.near"), 1000, cost + 7, BYTE_COST), Ok(7));
    assert_eq!(c.get_tokens(&s("token.near")), 1000);
    assert_eq!(c.start_launch(&owner, s("token.near"), 5, 11, BYTE_COST), Ok(11));
    assert_eq!(c.get_tokens(&s("token.near")), 5);
}

#[test]
fn owner_account_is_erentester() {
    assert_eq!(OWNER_ACCOUNT, "erentester.testnet");
}

#[test]
fn launch_amount_and_balance_share_storage() {
    let mut c = funded(&[("alice.near", 100)]);
    launch(&mut c, "alice.near", 7);
    assert_eq!(c.get_user_balance(&s("alice.near")), 7);
    assert_eq!(c.get_tokens(&s("alice.near")), 7);
    assert_eq!(c.get_total_balance(), 100);
    assert_eq!(c.deposit_balance(OPEN, &s("token.near"), 3, FREE), Ok(()));
    assert_eq!(c.get_tokens(&s("token.near")), 3);
}

#[test]
fn purchase_power_is_share_of_tokens() {
    let mut c = funded(&[("alice.near", 30), ("bob.near", 70)]);
    launch(&mut c, "token.near", 1000);
    let r = c.purchase(&s("alice.near"), 299, s("token.near"), FREE);
    assert_eq!(r, Err(LaunchpadError::InsufficientDeposit));
    assert_eq!(
        r.unwrap_err().message(),
        "need to attach deposit equal to your purchasing power"
    );
    let (t, refund) = c.purchase(&s("alice.near"), 300, s("token.near"), FREE).unwrap();
    assert_eq!(t.token, "token.near");
    assert_eq!(t.receiver, "alice.near");
    assert_eq!(t.amount, 300);
    assert_eq!(t.args, "{\"receiver_id\": \"alice.near\", \"amount\": \"300\"}");
    assert_eq!(t.deposit, FT_TRANSFER_DEPOSIT);
    assert_eq!(t.gas, XCC_GAS);
    assert_eq!(refund, 0);
    assert_eq!(c.get_user_balance(&s("alice.near")), 30);
    assert_eq!(c.get_total_balance(), 100);
}

#[test]
fn purchase_refunds_deposit_beyond_power() {
    let mut c = funded(&[("alice.near", 30), ("bob.near", 70)]);
    launch(&mut c, "token.near", 1000);
    let (t, refund) = c.purchase(&s("alice.near"), 450, s("token.near"), FREE).unwrap();
    assert_eq!(t.amount, 300);
    assert_eq!(refund, 150);
}

#[test]
fn purchase_rounds_down() {
    let mut c = funded(&[("alice.near", 1), ("bob.near", 2)]);
    launch(&mut c, "token.near", 1000);
    let (t, refund) = c.purchase(&s("alice.near"), 1000, s("token.near"), FREE).unwrap();
    assert_eq!(t.amount, 333);
    assert_eq!(refund, 667);
    assert_eq!(t.args, format!("{{\"receiver_id\": \"{}\", \"amount\": \"{}\"}}", "alice.near", 333));
}

#[test]
fn purchase_by_account_without_balance_is_free() {
    let mut c = funded(&[("alice.near", 10)]);
    launch(&mut c, "token.near", 1000);
    let (t, refund) = c.purchase(&s("carol.near"), 0, s("token.near"), FREE).unwrap();
    assert_eq!(t.amount, 0);
    assert_eq!(refund, 0);
    assert_eq!(t.args, "{\"receiver_id\": \"carol.near\", \"amount\": \"0\"}");
}

#[test]
fn purchase_never_exceeds_the_sale() {
    let mut c = funded(&[("alice.near", 5), ("bob.near", 5)]);
    launch(&mut c, "token.near", 77);
    for who in ["alice.near", "bob.near"] {
        let (t, _) = c.purchase(&s(who), u128::MAX, s("token.near"), FREE).unwrap();
        assert!(t.amount <= 77);
        assert_eq!(t.amount, 38);
    }
}

#[test]
fn total_matches_sum_of_balances_after_deposits_and_withdrawals() {
    let mut c = funded(&[("alice.near", 100), ("bob.near", 20), ("alice.near", 5)]);
    assert!(c.withdraw_balance(OPEN, &s("bob.near"), 15, 0, FREE).is_ok());
    let sum: u128 = c.entries().iter().map(|(_, v)| *v).sum();
    assert_eq!(sum, c.get_total_balance());
    assert_eq!(sum, 110);
}

#[test]
fn parts_round_trip() {
    let mut c = funded(&[("alice.near", 100), ("bob.near", 20)]);
    assert!(c.stake(WEEKANDMONTH as u64, s("pool.near")).is_ok());
    let entries = c.entries().clone();
    let d = Contract::from_parts(&entries, c.get_total_balance(), c.get_stake_called(), &vec![]);
    assert_eq!(d.get_user_balance(&s("alice.near")), 100);
    assert_eq!(d.get_user_balance(&s("bob.near")), 20);
    assert_eq!(d.get_total_balance(), 120);
    assert_eq!(d.get_stake_called(), WEEKANDMONTH);
    assert_eq!(d.entries(), &entries);
}

#[test]
fn error_messages() {
    assert_eq!(LaunchpadError::StakingPeriodNotOver.message(), "staking period is not over yet");
    assert_eq!(LaunchpadError::NotEnoughBalance.message(), "not enough balance");
    assert_eq!(LaunchpadError::OwnerOnly.message(), "Owner's method");
}

#[test]
fn second_purchase_is_refused() {
    let mut c = funded(&[("alice.near", 30), ("bob.near", 70)]);
    launch(&mut c, "token.near", 1000);
    assert!(c.purchase(&s("alice.near"), 300, s("token.near"), FREE).is_ok());
    assert!(c.has_purchased(&s("alice.near"), &s("token.near")));
    assert!(!c.has_purchased(&s("bob.near"), &s("token.near")));
    let r = c.purchase(&s("alice.near"), 300, s("token.near"), FREE);
    assert_eq!(r, Err(LaunchpadError::AlreadyPurchased));
    assert_eq!(r.unwrap_err().message(), "tokens of this launch were already purchased");
    assert!(c.purchase(&s("bob.near"), 700, s("token.near"), FREE).is_ok());
    assert_eq!(c.purchases().len(), 2);
}

#[test]
fn purchase_pays_for_its_record() {
    let mut c = funded(&[("alice.near", 30), ("bob.near", 70)]);
    launch(&mut c, "token.near", 1000);
    let record = (STORAGE_RECORD_OVERHEAD + 1 + 4 + 10 + 4 + 10) * BYTE_COST;
    assert_eq!(
        Contract::purchase_record_cost(&s("alice.near"), &s("token.near"), BYTE_COST),
        Some(record)
    );
    let r = c.purchase(&s("alice.near"), 300 + record - 1, s("token.near"), BYTE_COST);
    assert_eq!(r, Err(LaunchpadError::InsufficientStorageDeposit));
    assert!(!c.has_purchased(&s("alice.near"), &s("token.near")));
    let (t, refund) = c.purchase(&s("alice.near"), 300 + record + 5, s("token.near"), BYTE_COST).unwrap();
    assert_eq!(t.amount, 300);
    assert_eq!(refund, 5);
}

#[test]
fn purchases_survive_round_trip() {
    let mut c = funded(&[("alice.near", 30)]);
    launch(&mut c, "token.near", 1000);
    assert!(c.purchase(&s("alice.near"), 1000, s("token.near"), FREE).is_ok());
    let d = Contract::from_parts(c.entries(), c.get_total_balance(), c.get_stake_called(), c.purchases());
    assert!(d.has_purchased(&s("alice.near"), &s("token.near")));
}

#[test]
fn allocations_together_within_sale() {
    let mut c = funded(&[("a.near", 3), ("b.near", 3), ("c.near", 4)]);
    launch(&mut c, "token.near", 10);
    let mut sum = 0;
    for who in ["a.near", "b.near", "c.near"] {
        let (t, _) = c.purchase(&s(who), u128::MAX, s("token.near"), FREE).unwrap();
        sum += t.amount;
    }
    assert!(sum <= 10);
}
