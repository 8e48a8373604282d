use vstd::prelude::*;
use vstd::string::StringExecFns;

use crate::ft_args::{ft_transfer_args, ft_transfer_json};
use crate::ledger::{entries_map, entries_set, AccountMap, PairSet};
use vstd::utf8::encode_utf8;

verus! {

/// Thirty days, in nanoseconds of block time: how long deposits and
/// withdrawals stay closed after a stake.
pub const MONTH: u128 = 2592000000000000;

/// Thirty-seven days, in nanoseconds of block time: how long after a stake
/// the next stake may be made.
pub const WEEKANDMONTH: u128 = 3196800000000000;

/// Gas attached to the `ft_transfer` call of a purchase.
pub const XCC_GAS: u64 = 100000000000000;

/// Gas attached to each call to a staking pool.
pub const POOL_CALL_GAS: u64 = 45000000000000;

/// The yoctoNEAR attached to the `ft_transfer` call of a purchase.
pub const FT_TRANSFER_DEPOSIT: u128 = 1;

/// Bytes that NEAR counts for every stored record on top of its key and value.
pub const STORAGE_RECORD_OVERHEAD: u128 = 40;

/// The only account that may start a launch.
pub const OWNER_ACCOUNT: &'static str = "erentester.testnet";

/// Why the contract refuses a call.
#[derive(PartialEq, Eq, Structural, Debug, Clone, Copy)]
pub enum LaunchpadError {
    /// A deposit, withdrawal or unstake came less than a month after the last stake.
    StakingPeriodNotOver,
    /// A stake came less than a month and a week after the last stake.
    StakingOrWithdrawingPeriodNotOver,
    /// A withdrawal asked for more than the caller's balance.
    NotEnoughBalance,
    /// Someone other than the owner tried to start a launch.
    OwnerOnly,
    /// A purchase came with less deposit than the caller's purchasing power.
    InsufficientDeposit,
    /// A call that adds a stored entry came with less deposit than the
    /// entry's storage cost.
    InsufficientStorageDeposit,
    /// A buyer already bought tokens of this token account.
    AlreadyPurchased,
}

impl LaunchpadError {
    /// The message with which the contract panics on this refusal.
    pub fn message(&self) -> (r: &'static str)
        ensures
            r@ == error_message(*self),
    {
        match self {
            LaunchpadError::StakingPeriodNotOver => "staking period is not over yet",
            LaunchpadError::StakingOrWithdrawingPeriodNotOver => "staking period or withdrawing period is not over yet",
            LaunchpadError::NotEnoughBalance => "not enough balance",
            LaunchpadError::OwnerOnly => "Owner's method",
            LaunchpadError::InsufficientDeposit => "need to attach deposit equal to your purchasing power",
            LaunchpadError::InsufficientStorageDeposit => "attached deposit does not cover the storage cost",
            LaunchpadError::AlreadyPurchased => "tokens of this launch were already purchased",
        }
    }
}

/// The message of each refusal.
pub open spec fn error_message(e: LaunchpadError) -> Seq<char> {
    match e {
        LaunchpadError::StakingPeriodNotOver => "staking period is not over yet"@,
        LaunchpadError::StakingOrWithdrawingPeriodNotOver => "staking period or withdrawing period is not over yet"@,
        LaunchpadError::NotEnoughBalance => "not enough balance"@,
        LaunchpadError::OwnerOnly => "Owner's method"@,
        LaunchpadError::InsufficientDeposit => "need to attach deposit equal to your purchasing power"@,
        LaunchpadError::InsufficientStorageDeposit => "attached deposit does not cover the storage cost"@,
        LaunchpadError::AlreadyPurchased => "tokens of this launch were already purchased"@,
    }
}

/// A method of a staking pool that the contract calls.
#[derive(PartialEq, Eq, Structural, Debug, Clone, Copy)]
pub enum PoolMethod {
    DepositAndStake,
    UnstakeAll,
    WithdrawAll,
}

impl PoolMethod {
    /// The method's name on the pool contract.
    pub fn name(&self) -> (r: &'static str)
        ensures
            r@ == pool_method_name(*self),
    {
        match self {
            PoolMethod::DepositAndStake => "deposit_and_stake",
            PoolMethod::UnstakeAll => "unstake_all",
            PoolMethod::WithdrawAll => "withdraw_all",
        }
    }
}

/// The name of each pool method.
pub open spec fn pool_method_name(m: PoolMethod) -> Seq<char> {
    match m {
        PoolMethod::DepositAndStake => "deposit_and_stake"@,
        PoolMethod::UnstakeAll => "unstake_all"@,
        PoolMethod::WithdrawAll => "withdraw_all"@,
    }
}

/// A call to a staking pool, with arguments `{}`.
#[derive(PartialEq, Eq, Debug, Clone)]
pub struct PoolCall {
    pub pool: String,
    pub method: PoolMethod,
    pub deposit: u128,
    pub gas: u64,
}

/// A transfer of NEAR to an account.
#[derive(PartialEq, Eq, Debug, Clone)]
pub struct Payout {
    pub receiver: String,
    pub amount: u128,
}

/// An `ft_transfer` call to a token contract, which sends `amount` tokens to
/// `receiver`; `args` are the call's JSON arguments.
#[derive(PartialEq, Eq, Debug, Clone)]
pub struct FtTransfer {
    pub token: String,
    pub receiver: String,
    pub amount: u128,
    pub args: String,
    pub deposit: u128,
    pub gas: u64,
}

/// What the contract holds: the values stored under its one storage prefix,
/// by account; the total deposited; the block time of the last stake; and
/// the purchases made, as pairs of buyer and token.
///
/// User balances and token amounts on sale are both stored under that
/// prefix, so an account's balance and its token amount are one value.
#[verifier::ext_equal]
pub struct LaunchpadView {
    pub balances: Map<Seq<char>, u128>,
    pub total: u128,
    pub stake_called: u128,
    pub purchases: Set<(Seq<char>, Seq<char>)>,
}

/// What the getters report for `account`: its stored value, or zero.
pub open spec fn balance_of(balances: Map<Seq<char>, u128>, account: Seq<char>) -> u128 {
    if balances.contains_key(account) {
        balances[account]
    } else {
        0
    }
}

/// Whether a period of `length` that began at `start` is over at `now`.
pub open spec fn period_over(start: u128, now: u64, length: u128) -> bool {
    now as int >= start + length
}

/// Whether a deposit of `amount` by `sender` fits in the balance and the total.
pub open spec fn deposit_fits(s: LaunchpadView, sender: Seq<char>, amount: u128) -> bool {
    &&& balance_of(s.balances, sender) + amount <= u128::MAX
    &&& s.total + amount <= u128::MAX
}

/// The state after `sender` deposits `amount`.
pub open spec fn deposited(s: LaunchpadView, sender: Seq<char>, amount: u128) -> LaunchpadView {
    LaunchpadView {
        balances: s.balances.insert(sender, (balance_of(s.balances, sender) + amount) as u128),
        total: (s.total + amount) as u128,
        ..s
    }
}

/// The state after `sender` withdraws `amount`.
pub open spec fn withdrawn(s: LaunchpadView, sender: Seq<char>, amount: u128) -> LaunchpadView {
    LaunchpadView {
        balances: s.balances.insert(sender, (balance_of(s.balances, sender) - amount) as u128),
        total: (s.total - amount) as u128,
        ..s
    }
}

/// The state after a stake at `now`.
pub open spec fn staked(s: LaunchpadView, now: u64) -> LaunchpadView {
    LaunchpadView { stake_called: now as u128, ..s }
}

/// The state after a launch of `amount` tokens of `token` starts.
pub open spec fn launch_started(s: LaunchpadView, token: Seq<char>, amount: u128) -> LaunchpadView {
    LaunchpadView { balances: s.balances.insert(token, amount), ..s }
}

/// The state after `buyer` buys tokens of `token`.
pub open spec fn purchased(s: LaunchpadView, buyer: Seq<char>, token: Seq<char>) -> LaunchpadView {
    LaunchpadView { purchases: s.purchases.insert((buyer, token)), ..s }
}

/// Bytes of chain storage that the record of a purchase takes: the record
/// overhead and the key (the one-byte prefix and the buyer's and the
/// token's account ids, each after a four-byte length); the value is empty.
pub open spec fn purchase_record_bytes(buyer: Seq<char>, token: Seq<char>) -> int {
    STORAGE_RECORD_OVERHEAD + 1 + 4 + encode_utf8(buyer).len() + 4 + encode_utf8(token).len()
}

/// Bytes of chain storage that the entry of `account` takes: the record
/// overhead, the key (the one-byte prefix, a four-byte length and the
/// account id's UTF-8 bytes) and the sixteen-byte value.
pub open spec fn entry_bytes(account: Seq<char>) -> int {
    STORAGE_RECORD_OVERHEAD + 1 + 4 + encode_utf8(account).len() + 16
}

/// What storing under `account` costs at `byte_cost` per byte: nothing where
/// the account already has an entry, else the bytes of its new entry.
pub open spec fn storage_cost(balances: Map<Seq<char>, u128>, account: Seq<char>, byte_cost: u128) -> int {
    if balances.contains_key(account) {
        0
    } else {
        entry_bytes(account) * byte_cost
    }
}

/// How many tokens of `token` `buyer` may buy: its share of the total
/// deposited, applied to the token's amount, rounded down.
pub open spec fn purchasing_power(s: LaunchpadView, buyer: Seq<char>, token: Seq<char>) -> int {
    (balance_of(s.balances, buyer) * balance_of(s.balances, token)) / (s.total as int)
}

/// The launchpad contract: users deposit NEAR, the deposits are staked with a
/// pool, and users buy launched tokens in proportion to their deposits.
pub struct Contract {
    storage: AccountMap<u128>,
    total: u128,
    stake_called: u128,
    purchases: PairSet,
}

impl View for Contract {
    type V = LaunchpadView;

    closed spec fn view(&self) -> LaunchpadView {
        LaunchpadView {
            balances: self.storage@,
            total: self.total,
            stake_called: self.stake_called,
            purchases: self.purchases@,
        }
    }
}

impl Contract {
    /// Well-formedness: the storage is well formed, and the last stake was
    /// made at a block time, which fits in a `u64`.
    pub closed spec fn wf(&self) -> bool {
        &&& self.storage.wf()
        &&& self.purchases.wf()
        &&& self.stake_called <= u64::MAX
    }

    /// The storage of a well-formed contract holds finitely many accounts.
    pub proof fn lemma_finite(&self)
        requires
            self.wf(),
        ensures
            self@.balances.dom().finite(),
    {
        self.storage.lemma_finite();
    }

    /// A fresh contract: nothing stored, nothing deposited, never staked.
    pub fn init() -> (r: Self)
        ensures
            r.wf(),
            r@ == (LaunchpadView {
                balances: Map::empty(),
                total: 0,
                stake_called: 0,
                purchases: Set::empty(),
            }),
    {
        Contract { storage: AccountMap::new(), total: 0, stake_called: 0, purchases: PairSet::new() }
    }

    /// A contract that holds the given stored entries, total, time of the
    /// last stake and purchases.
    pub fn from_parts(
        entries: &Vec<(String, u128)>,
        total: u128,
        stake_called: u128,
        purchases: &Vec<(String, String)>,
    ) -> (r: Self)
        requires
            stake_called <= u64::MAX,
        ensures
            r.wf(),
            r@ == (LaunchpadView {
                balances: entries_map(entries@),
                total,
                stake_called,
                purchases: entries_set(purchases@),
            }),
    {
        Contract {
            storage: AccountMap::from_entries(entries),
            total,
            stake_called,
            purchases: PairSet::from_entries(purchases),
        }
    }

    /// The purchases made, as pairs of buyer and token.
    pub fn purchases(&self) -> (r: &Vec<(String, String)>)
        requires
            self.wf(),
        ensures
            entries_set(r@) == self@.purchases,
    {
        self.purchases.entries()
    }

    /// Whether `buyer` has bought tokens of `token`.
    pub fn has_purchased(&self, buyer: &String, token: &String) -> (r: bool)
        requires
            self.wf(),
        ensures
            r == self@.purchases.contains((buyer@, token@)),
    {
        self.purchases.contains(buyer, token)
    }

    /// The stored entries, each account once.
    pub fn entries(&self) -> (r: &Vec<(String, u128)>)
        requires
            self.wf(),
        ensures
            forall|i: int, j: int| 0 <= i < j < r@.len() ==> #[trigger] r@[i].0@ != #[trigger] r@[j].0@,
            entries_map(r@) == self@.balances,
    {
        self.storage.entries()
    }

    /// The block time of the last stake.
    pub fn get_stake_called(&self) -> (r: u128)
        ensures
            r == self@.stake_called,
    {
        self.stake_called
    }

    /// The balance of `user_account`.
    pub fn get_user_balance(&self, user_account: &String) -> (r: u128)
        requires
            self.wf(),
        ensures
            r == balance_of(self@.balances, user_account@),
    {
        match self.storage.get(user_account) {
            Some(value) => value,
            None => 0,
        }
    }

    /// The total deposited.
    pub fn get_total_balance(&self) -> (r: u128)
        ensures
            r == self@.total,
    {
        self.total
    }

    /// The amount of tokens on sale for `account`. It is read from the same
    /// stored value as the balance of `account`.
    pub fn get_tokens(&self, account: &String) -> (r: u128)
        requires
            self.wf(),
        ensures
            r == balance_of(self@.balances, account@),
    {
        match self.storage.get(account) {
            Some(value) => value,
            None => 0,
        }
    }

    /// What storing under `account` costs at `storage_byte_cost` per byte, or
    /// `None` where the cost exceeds every `u128`.
    pub fn storage_cost_of(&self, account: &String, storage_byte_cost: u128) -> (r: Option<u128>)
        requires
            self.wf(),
        ensures
            r == (if storage_cost(self@.balances, account@, storage_byte_cost) <= u128::MAX {
                Some(storage_cost(self@.balances, account@, storage_byte_cost) as u128)
            } else {
                None::<u128>
            }),
            self@.balances.contains_key(account@) ==> r == Some(0u128),
    {
        match self.storage.get(account) {
            Some(_) => Some(0),
            None => {
                let len = account.as_str().as_bytes().len() as u128;
                let bytes: u128 = STORAGE_RECORD_OVERHEAD + 1 + 4 + len + 16;
                bytes.checked_mul(storage_byte_cost)
            },
        }
    }

    /// `sender` deposits `attached_deposit` at block time `now`, with storage
    /// costing `storage_byte_cost` per byte: refused until a month after the
    /// last stake, and where the deposit does not cover the storage that a
    /// new entry takes. What the storage does not use is credited to the
    /// sender's balance and to the total.
    pub fn deposit_balance(
        &mut self,
        now: u64,
        sender: &String,
        attached_deposit: u128,
        storage_byte_cost: u128,
    ) -> (r: Result<(), LaunchpadError>)
        requires
            old(self).wf(),
            period_over(old(self)@.stake_called, now, MONTH) && attached_deposit >= storage_cost(
                old(self)@.balances,
                sender@,
                storage_byte_cost,
            ) ==> deposit_fits(
                old(self)@,
                sender@,
                (attached_deposit - storage_cost(old(self)@.balances, sender@, storage_byte_cost)) as u128,
            ),
        ensures
            final(self).wf(),
            !period_over(old(self)@.stake_called, now, MONTH) ==> r == Err::<(), LaunchpadError>(
                LaunchpadError::StakingPeriodNotOver,
            ) && final(self)@ == old(self)@,
            period_over(old(self)@.stake_called, now, MONTH) && attached_deposit < storage_cost(
                old(self)@.balances,
                sender@,
                storage_byte_cost,
            ) ==> r == Err::<(), LaunchpadError>(LaunchpadError::InsufficientStorageDeposit)
                && final(self)@ == old(self)@,
            period_over(old(self)@.stake_called, now, MONTH) && attached_deposit >= storage_cost(
                old(self)@.balances,
                sender@,
                storage_byte_cost,
            ) ==> r == Ok::<(), LaunchpadError>(()) && final(self)@ == deposited(
                old(self)@,
                sender@,
                (attached_deposit - storage_cost(old(self)@.balances, sender@, storage_byte_cost)) as u128,
            ),
    {
        if (now as u128) < self.stake_called + MONTH {
            return Err(LaunchpadError::StakingPeriodNotOver);
        }
        let cost = match self.storage_cost_of(sender, storage_byte_cost) {
            Some(c) => c,
            None => return Err(LaunchpadError::InsufficientStorageDeposit),
        };
        if attached_deposit < cost {
            return Err(LaunchpadError::InsufficientStorageDeposit);
        }
        let credited = attached_deposit - cost;
        let user_balance = self.get_user_balance(sender);
        let final_balance = credited + user_balance;
        self.total = self.total + credited;
        self.storage.insert(sender.clone(), final_balance);
        assert(self@ =~= deposited(old(self)@, sender@, credited));
        Ok(())
    }

    /// `sender` withdraws `amount` at block time `now`, attaching
    /// `attached_deposit`, with storage costing `storage_byte_cost` per byte:
    /// refused until a month after the last stake, beyond the sender's
    /// balance, and where the deposit does not cover the storage that a new
    /// entry takes. On success the amount is paid out to the sender, and
    /// what the storage does not use of the deposit is refunded.
    pub fn withdraw_balance(
        &mut self,
        now: u64,
        sender: &String,
        amount: u128,
        attached_deposit: u128,
        storage_byte_cost: u128,
    ) -> (r: Result<(Payout, u128), LaunchpadError>)
        requires
            old(self).wf(),
            period_over(old(self)@.stake_called, now, MONTH) && amount <= balance_of(
                old(self)@.balances,
                sender@,
            ) && attached_deposit >= storage_cost(old(self)@.balances, sender@, storage_byte_cost)
                ==> amount <= old(self)@.total,
        ensures
            final(self).wf(),
            r is Ok <==> period_over(old(self)@.stake_called, now, MONTH) && amount <= balance_of(
                old(self)@.balances,
                sender@,
            ) && attached_deposit >= storage_cost(old(self)@.balances, sender@, storage_byte_cost),
            r matches Ok((p, refund)) ==> p.receiver@ == sender@ && p.amount == amount && refund
                == attached_deposit - storage_cost(old(self)@.balances, sender@, storage_byte_cost)
                && final(self)@ == withdrawn(old(self)@, sender@, amount),
            r matches Err(e) ==> final(self)@ == old(self)@ && e == (if !period_over(
                old(self)@.stake_called,
                now,
                MONTH,
            ) {
                LaunchpadError::StakingPeriodNotOver
            } else if amount > balance_of(old(self)@.balances, sender@) {
                LaunchpadError::NotEnoughBalance
            } else {
                LaunchpadError::InsufficientStorageDeposit
            }),
    {
        if (now as u128) < self.stake_called + MONTH {
            return Err(LaunchpadError::StakingPeriodNotOver);
        }
        let user_balance = self.get_user_balance(sender);
        if user_balance < amount {
            return Err(LaunchpadError::NotEnoughBalance);
        }
        let cost = match self.storage_cost_of(sender, storage_byte_cost) {
            Some(c) => c,
            None => return Err(LaunchpadError::InsufficientStorageDeposit),
        };
        if attached_deposit < cost {
            return Err(LaunchpadError::InsufficientStorageDeposit);
        }
        let final_balance = user_balance - amount;
        self.storage.insert(sender.clone(), final_balance);
        self.total = self.total - amount;
        assert(self@ =~= withdrawn(old(self)@, sender@, amount));
        Ok((Payout { receiver: sender.clone(), amount }, attached_deposit - cost))
    }

    /// Stakes the total deposited with `pool` at block time `now`: refused
    /// until a month and a week after the last stake.
    pub fn stake(&mut self, now: u64, pool: String) -> (r: Result<PoolCall, LaunchpadError>)
        requires
            old(self).wf(),
        ensures
            final(self).wf(),
            r is Ok <==> period_over(old(self)@.stake_called, now, WEEKANDMONTH),
            r matches Ok(c) ==> c.pool@ == pool@ && c.method == PoolMethod::DepositAndStake
                && c.deposit == old(self)@.total && c.gas == POOL_CALL_GAS && final(self)@ == staked(
                old(self)@,
                now,
            ),
            r matches Err(e) ==> e == LaunchpadError::StakingOrWithdrawingPeriodNotOver
                && final(self)@ == old(self)@,
            final(self)@.balances == old(self)@.balances,
            final(self)@.total == old(self)@.total,
            final(self)@.purchases == old(self)@.purchases,
    {
        if (now as u128) < self.stake_called + WEEKANDMONTH {
            return Err(LaunchpadError::StakingOrWithdrawingPeriodNotOver);
        }
        let call = PoolCall {
            pool,
            method: PoolMethod::DepositAndStake,
            deposit: self.total,
            gas: POOL_CALL_GAS,
        };
        self.stake_called = now as u128;
        Ok(call)
    }

    /// Unstakes everything from `pool` and withdraws it at block time `now`:
    /// refused until a month after the last stake.
    pub fn unstake(&mut self, now: u64, pool: String) -> (r: Result<Vec<PoolCall>, LaunchpadError>)
        requires
            old(self).wf(),
        ensures
            final(self).wf(),
            final(self)@ == old(self)@,
            r is Ok <==> period_over(old(self)@.stake_called, now, MONTH),
            r matches Ok(calls) ==> {
                &&& calls@.len() == 2
                &&& calls@[0].pool@ == pool@ && calls@[0].method == PoolMethod::UnstakeAll
                &&& calls@[1].pool@ == pool@ && calls@[1].method == PoolMethod::WithdrawAll
                &&& forall|i: int|
                    0 <= i < 2 ==> #[trigger] calls@[i].deposit == 0 && calls@[i].gas
                        == POOL_CALL_GAS
            },
            r matches Err(e) ==> e == LaunchpadError::StakingPeriodNotOver,
    {
        if (now as u128) < self.stake_called + MONTH {
            return Err(LaunchpadError::StakingPeriodNotOver);
        }
        let mut calls: Vec<PoolCall> = Vec::new();
        calls.push(
            PoolCall { pool: pool.clone(), method: PoolMethod::UnstakeAll, deposit: 0, gas: POOL_CALL_GAS },
        );
        calls.push(PoolCall { pool, method: PoolMethod::WithdrawAll, deposit: 0, gas: POOL_CALL_GAS });
        Ok(calls)
    }

    /// Starts a launch that sells `amount_to_sell` tokens of `account_of_token`,
    /// attaching `attached_deposit`, with storage costing `storage_byte_cost`
    /// per byte: only the owner may do so, and only with a deposit that
    /// covers the storage that a new entry takes. On success the part of the
    /// deposit that the storage does not use is refunded.
    pub fn start_launch(
        &mut self,
        predecessor: &String,
        account_of_token: String,
        amount_to_sell: u128,
        attached_deposit: u128,
        storage_byte_cost: u128,
    ) -> (r: Result<u128, LaunchpadError>)
        requires
            old(self).wf(),
        ensures
            final(self).wf(),
            r is Ok <==> predecessor@ == OWNER_ACCOUNT@ && attached_deposit >= storage_cost(
                old(self)@.balances,
                account_of_token@,
                storage_byte_cost,
            ),
            r matches Ok(refund) ==> refund == attached_deposit - storage_cost(
                old(self)@.balances,
                account_of_token@,
                storage_byte_cost,
            ) && final(self)@ == launch_started(old(self)@, account_of_token@, amount_to_sell),
            final(self)@.purchases == old(self)@.purchases,
            final(self)@.total == old(self)@.total,
            final(self)@.stake_called == old(self)@.stake_called,
            r matches Err(e) ==> final(self)@ == old(self)@ && e == (if predecessor@ != OWNER_ACCOUNT@ {
                LaunchpadError::OwnerOnly
            } else {
                LaunchpadError::InsufficientStorageDeposit
            }),
    {
        let owner = String::from_str(OWNER_ACCOUNT);
        if *predecessor != owner {
            return Err(LaunchpadError::OwnerOnly);
        }
        let cost = match self.storage_cost_of(&account_of_token, storage_byte_cost) {
            Some(c) => c,
            None => return Err(LaunchpadError::InsufficientStorageDeposit),
        };
        if attached_deposit < cost {
            return Err(LaunchpadError::InsufficientStorageDeposit);
        }
        let ghost token = account_of_token@;
        self.storage.insert(account_of_token, amount_to_sell);
        assert(self@ =~= launch_started(old(self)@, token, amount_to_sell));
        Ok(attached_deposit - cost)
    }

    /// The storage cost of recording that `buyer` bought tokens of `token`,
    /// at `storage_byte_cost` per byte, or `None` where it exceeds every `u128`.
    pub fn purchase_record_cost(buyer: &String, token: &String, storage_byte_cost: u128) -> (r: Option<u128>)
        ensures
            r == (if purchase_record_bytes(buyer@, token@) * storage_byte_cost <= u128::MAX {
                Some((purchase_record_bytes(buyer@, token@) * storage_byte_cost) as u128)
            } else {
                None::<u128>
            }),
    {
        let buyer_len = buyer.as_str().as_bytes().len() as u128;
        let token_len = token.as_str().as_bytes().len() as u128;
        let bytes: u128 = STORAGE_RECORD_OVERHEAD + 1 + 4 + buyer_len + 4 + token_len;
        bytes.checked_mul(storage_byte_cost)
    }

    /// `predecessor` buys tokens of `token_account` with `attached_deposit`,
    /// with storage costing `storage_byte_cost` per byte: refused where the
    /// buyer already bought tokens of that account, where the deposit is
    /// below the purchasing power, and where what remains does not cover the
    /// storage of the purchase's record. On success the purchase is recorded,
    /// the token contract is asked to transfer that many tokens to the buyer,
    /// and the deposit beyond the purchasing power and the storage is
    /// refunded.
    pub fn purchase(
        &mut self,
        predecessor: &String,
        attached_deposit: u128,
        token_account: String,
        storage_byte_cost: u128,
    ) -> (r: Result<(FtTransfer, u128), LaunchpadError>)
        requires
            old(self).wf(),
            old(self)@.total > 0,
            balance_of(old(self)@.balances, predecessor@) * balance_of(
                old(self)@.balances,
                token_account@,
            ) <= u128::MAX,
        ensures
            final(self).wf(),
            r is Ok <==> {
                &&& !old(self)@.purchases.contains((predecessor@, token_account@))
                &&& attached_deposit >= purchasing_power(old(self)@, predecessor@, token_account@)
                &&& attached_deposit - purchasing_power(old(self)@, predecessor@, token_account@)
                    >= purchase_record_bytes(predecessor@, token_account@) * storage_byte_cost
            },
            r matches Ok((t, refund)) ==> {
                &&& t.token@ == token_account@
                &&& t.receiver@ == predecessor@
                &&& t.amount == purchasing_power(old(self)@, predecessor@, token_account@)
                &&& t.args@ == ft_transfer_json(predecessor@, t.amount as nat)
                &&& t.deposit == FT_TRANSFER_DEPOSIT
                &&& t.gas == XCC_GAS
                &&& refund == attached_deposit - t.amount - purchase_record_bytes(
                    predecessor@,
                    token_account@,
                ) * storage_byte_cost
                &&& final(self)@ == purchased(old(self)@, predecessor@, token_account@)
            },
            r matches Err(e) ==> final(self)@ == old(self)@ && e == (if old(self)@.purchases.contains(
                (predecessor@, token_account@),
            ) {
                LaunchpadError::AlreadyPurchased
            } else if attached_deposit < purchasing_power(old(self)@, predecessor@, token_account@) {
                LaunchpadError::InsufficientDeposit
            } else {
                LaunchpadError::InsufficientStorageDeposit
            }),
    {
        if self.purchases.contains(predecessor, &token_account) {
            return Err(LaunchpadError::AlreadyPurchased);
        }
        let user_balance = self.get_user_balance(predecessor);
        let tokens = self.get_tokens(&token_account);
        let purchasing_power = user_balance * tokens / self.get_total_balance();
        if attached_deposit < purchasing_power {
            return Err(LaunchpadError::InsufficientDeposit);
        }
        let cost = match Contract::purchase_record_cost(predecessor, &token_account, storage_byte_cost) {
            Some(c) => c,
            None => return Err(LaunchpadError::InsufficientStorageDeposit),
        };
        if attached_deposit - purchasing_power < cost {
            return Err(LaunchpadError::InsufficientStorageDeposit);
        }
        let args = ft_transfer_args(predecessor, purchasing_power);
        self.purchases.insert(predecessor.clone(), token_account.clone());
        let transfer = FtTransfer {
            token: token_account,
            receiver: predecessor.clone(),
            amount: purchasing_power,
            args,
            deposit: FT_TRANSFER_DEPOSIT,
            gas: XCC_GAS,
        };
        assert(self@ =~= purchased(old(self)@, predecessor@, transfer.token@));
        Ok((transfer, attached_deposit - purchasing_power - cost))
    }
}

impl Default for Contract {
    fn default() -> (r: Self)
        ensures
            r.wf(),
            r@ == (LaunchpadView {
                balances: Map::empty(),
                total: 0,
                stake_called: 0,
                purchases: Set::empty(),
            }),
    {
        Contract::init()
    }
}

} // verus!
