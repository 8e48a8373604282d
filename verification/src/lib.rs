//! A token launchpad: users deposit NEAR, the deposits are staked with a
//! pool, and users buy launched tokens in proportion to their deposits.
//!
//! `launchpad` holds the contract's state and the decisions of each of its
//! calls; `period_contract` the period-based deposit contract; `ledger` the
//! account-keyed storage both use; `ft_args` the arguments of token
//! transfers; `laws` what holds across calls.

pub mod ft_args;
pub mod launchpad;
pub mod laws;
pub mod ledger;
pub mod period_contract;
