# launchpad

A verified model of a NEAR token-launch contract. Users deposit NEAR, the
owner stakes the deposits with a pool and starts token launches, and users
buy launched tokens in proportion to their share of the deposits. A call
that adds a stored entry must attach enough deposit to pay for its storage;
what a call does not use of its attached deposit is refunded (on a deposit,
it is credited to the depositor's balance). Each buyer buys tokens of a
token account once.

- `src/` is the verified library: the contract state and what each call
  decides (`launchpad`, `period_contract`), the account-keyed storage they
  use (`ledger`), the JSON arguments of token transfers (`ft_args`), and the
  laws that relate calls to each other (`laws`).
- `app/` binds the library to the NEAR runtime: it reads the block time,
  caller and attached deposit, stores the state, and issues the transfers and
  cross-contract calls that the library returns.
- `tests/` runs the library on concrete values.
