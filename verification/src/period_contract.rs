use vstd::prelude::*;

use crate::ledger::{entries_map, AccountMap};

verus! {

/// Block time is divided by this to number the deposit periods.
pub const PERIOD_LENGTH: u64 = 37;

/// A user's record: the period of its last deposit and the balance that
/// its own period map holds for that period.
#[derive(PartialEq, Eq, Structural, Debug, Clone, Copy)]
pub struct UserRecord {
    pub latest_period: u64,
    pub balance: u128,
}

/// What the period-based deposit contract holds: the block time at which it
/// was created, and the record of each user that deposited.
#[verifier::ext_equal]
pub struct PeriodView {
    pub start_period: u64,
    pub users: Map<Seq<char>, UserRecord>,
}

/// What `get_user_balance` reports for `account`: the balance of its record,
/// or zero where it has none.
pub open spec fn user_balance(s: PeriodView, account: Seq<char>) -> u128 {
    if s.users.contains_key(account) {
        s.users[account].balance
    } else {
        0
    }
}

/// The period that block time `now` falls in.
pub open spec fn current_period(s: PeriodView, now: u64) -> u64 {
    ((now - s.start_period) / (PERIOD_LENGTH as int)) as u64
}

/// The state after `signer` deposits `amount` at block time `now`: its
/// balance grows by the amount and is held for the current period.
pub open spec fn deposited_in_period(
    s: PeriodView,
    now: u64,
    signer: Seq<char>,
    amount: u128,
) -> PeriodView {
    PeriodView {
        start_period: s.start_period,
        users: s.users.insert(
            signer,
            UserRecord {
                latest_period: current_period(s, now),
                balance: (amount + user_balance(s, signer)) as u128,
            },
        ),
    }
}

/// The period-based deposit contract.
pub struct Contract {
    users: AccountMap<UserRecord>,
    start_period: u64,
}

impl View for Contract {
    type V = PeriodView;

    closed spec fn view(&self) -> PeriodView {
        PeriodView { start_period: self.start_period, users: self.users@ }
    }
}

impl Contract {
    /// Well-formedness of the user records.
    pub closed spec fn wf(&self) -> bool {
        self.users.wf()
    }

    /// A fresh contract created at block time `start_period`.
    pub fn new(start_period: u64) -> (r: Self)
        ensures
            r.wf(),
            r@ == (PeriodView { start_period, users: Map::empty() }),
    {
        Contract { users: AccountMap::new(), start_period }
    }

    /// A contract that holds the given user records.
    pub fn from_parts(start_period: u64, users: &Vec<(String, UserRecord)>) -> (r: Self)
        ensures
            r.wf(),
            r@ == (PeriodView { start_period, users: entries_map(users@) }),
    {
        Contract { users: AccountMap::from_entries(users), start_period }
    }

    /// The block time at which the contract was created.
    pub fn start_period(&self) -> (r: u64)
        ensures
            r == self@.start_period,
    {
        self.start_period
    }

    /// The user records, each account once.
    pub fn users(&self) -> (r: &Vec<(String, UserRecord)>)
        requires
            self.wf(),
        ensures
            forall|i: int, j: int| 0 <= i < j < r@.len() ==> #[trigger] r@[i].0@ != #[trigger] r@[j].0@,
            entries_map(r@) == self@.users,
    {
        self.users.entries()
    }

    /// The balance of `user_account`.
    pub fn get_user_balance(&mut self, user_account: &String) -> (r: u128)
        requires
            old(self).wf(),
        ensures
            final(self).wf(),
            final(self)@ == old(self)@,
            r == user_balance(old(self)@, user_account@),
    {
        match self.users.get(user_account) {
            Some(record) => record.balance,
            None => 0,
        }
    }

    /// `signer` deposits `attached_deposit` at block time `now`: its balance
    /// grows by the deposit, held for the current period; a signer without a
    /// record gets one.
    pub fn deposit_balance(&mut self, now: u64, signer: &String, attached_deposit: u128)
        requires
            old(self).wf(),
            now >= old(self)@.start_period,
            attached_deposit + user_balance(old(self)@, signer@) <= u128::MAX,
        ensures
            final(self).wf(),
            final(self)@ == deposited_in_period(old(self)@, now, signer@, attached_deposit),
    {
        let current: u64 = (now - self.start_period) / PERIOD_LENGTH;
        let user_balance = self.get_user_balance(signer);
        let final_balance = attached_deposit + user_balance;
        self.users.insert(signer.clone(), UserRecord { latest_period: current, balance: final_balance });
        assert(self@ =~= deposited_in_period(old(self)@, now, signer@, attached_deposit));
    }
}

} // verus!
