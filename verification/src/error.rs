//! The reasons for which the ledger refuses an operation.

use vstd::prelude::*;

verus! {

/// Why an operation on the ledger was refused.
///
/// An operation that returns an error has changed nothing.
#[derive(Clone, Copy, Debug, PartialEq, Eq, Structural)]
pub enum LedgerError {
    /// No VAPI is registered under the identifier.
    VapiNotFound,
    /// A VAPI is already registered under the identifier.
    VapiAlreadyExists,
    /// No pool is registered under the account.
    ReviewerNotFound,
    /// The account holds no position in the pool.
    DelegatorNotFound,
    /// The pool holds no allocation in the VAPI.
    DepositNotFound,
    /// The caller is not the coder of the VAPI.
    NotCoder,
    /// The caller is not the owner of the ledger.
    NotOwner,
    /// The notification does not come from the token that the ledger accounts
    /// in.
    InvalidToken,
    /// The payload of a transfer notification could not be decoded.
    InvalidMessage,
    /// A settlement batch names a different number of VAPIs than of amounts.
    LengthMismatch,
    /// The amount is zero where a positive amount is needed.
    ZeroAmount,
    /// The pool's unallocated balance is smaller than the amount.
    InsufficientPending,
    /// The allocation holds less capital than the amount.
    InsufficientDeposit,
    /// The delegator's balance is smaller than the amount.
    InsufficientBalance,
    /// The pool would hold more allocations than the ledger permits.
    MaxVapiCountReached,
    /// The refund was requested too recently to be claimed.
    RefundLocked,
    /// A stake's debt marker exceeds what has accumulated for the stake.
    RewardUnderflow,
    /// An accumulator was to advance by a reward per unit of capital, and
    /// there is no capital.
    DivisionByZero,
    /// An amount left the range of the 128-bit unsigned integers, upwards or
    /// downwards.
    ArithmeticOverflow,
}

} // verus!
