//! A two-tier staking and reward-distribution ledger.
//!
//! Delegators stake capital into *pools*, which `ReviewerInfo` records. Each
//! pool allocates the capital that is staked into it into revenue-generating
//! units, the *VAPIs*. Revenue that is booked against a VAPI is split between
//! its coder, its stakers and a burn; the stakers' part flows back pro-rata
//! through the pools to the delegators, less a royalty that each pool keeps.
//! One accumulator-per-share algorithm serves both tiers, in integer
//! arithmetic only.
//!
//! Every operation is all-or-nothing: it either completes and returns `Ok`, or
//! returns the reason of the failure and leaves the ledger as it was. The
//! ledger performs no transfer itself: where tokens are to be transferred or
//! burned, the operation returns the amount, and is told of a transfer's outcome
//! by a call of its own.
//!
//! The modules:
//! - `reward`, `arith`: the accumulator-per-share algorithm and its arithmetic;
//! - `types`, `ledger`: the records and the ledger, with the queries;
//! - `allocation`, `delegation`, `settlement`, `ft_receiver`: the operations;
//! - `model`, `transitions`: the view of the ledger that the contracts speak of,
//!   which is made of maps from identifiers to records, and what each operation
//!   does to it;
//! - `keyed`: how the lists that the ledger keeps stand for these maps;
//! - `invariants`, `accounting`, `laws`: what is proved of the operations.

pub mod accounting;
pub mod allocation;
pub mod arith;
pub mod delegation;
pub mod error;
pub mod ft_receiver;
pub mod invariants;
pub mod keyed;
pub mod laws;
pub mod ledger;
pub mod model;
pub mod reward;
pub mod settlement;
pub mod transitions;
pub mod types;

pub use error::LedgerError;
pub use ft_receiver::TokenReceiverMessage;
pub use ledger::{TicleCore, DEFAULT_REFUND_LOCK_MS, MAX_DEPOSITABLE_VAPI_COUNT};
pub use reward::{pending_reward, reward_debt, PRECISION};
pub use types::{
    CoderInfo, DelegatorEntry, DelegatorInfo, DepositInfo, GetDepositInfoResponse, ReviewerInfo,
    VAPIInfo, VapiDeposit,
};
