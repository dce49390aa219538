//! The accumulator-per-share algorithm, which both tiers of the ledger use: a
//! pool's position in a VAPI is settled against the VAPI's accumulator, and a
//! delegator's position in a pool against the pool's.

use vstd::prelude::*;
use crate::arith::{lemma_mul_div_spec, mul_div, mul_div_spec};
use crate::error::LedgerError;

verus! {

/// Scale of the accumulators: an accumulator at `PRECISION` stands for one
/// unit of reward per unit of capital.
pub const PRECISION: u128 = 1_000_000_000_000;

/// The debt marker of a stake of `amount` that is settled against an
/// accumulator at `acc`: `amount * acc / PRECISION`, rounded down. `None`
/// where that does not fit in 128 bits.
pub open spec fn reward_debt_spec(amount: u128, acc: u128) -> Option<u128> {
    mul_div_spec(amount, acc, PRECISION)
}

/// The reward that a stake has earned since its debt marker was set: what has
/// accumulated for its capital, less the debt marker.
pub open spec fn pending_reward_spec(amount: u128, debt: u128, acc: u128) -> Result<
    u128,
    LedgerError,
> {
    match reward_debt_spec(amount, acc) {
        None => Err(LedgerError::ArithmeticOverflow),
        Some(earned) => if earned < debt {
            Err(LedgerError::RewardUnderflow)
        } else {
            Ok((earned - debt) as u128)
        },
    }
}

/// Computes the debt marker of a stake that is settled against an accumulator.
pub fn reward_debt(deposit_amount: u128, acc_reward_per_share: u128) -> (r: Option<u128>)
    ensures
        r == reward_debt_spec(deposit_amount, acc_reward_per_share),
{
    mul_div(deposit_amount, acc_reward_per_share, PRECISION)
}

/// Computes the reward that a stake has earned and not yet realised.
///
/// Fails with `RewardUnderflow` where the debt marker exceeds what has
/// accumulated for the stake, and with `ArithmeticOverflow` where what has
/// accumulated leaves the 128-bit range. The result is never negative.
pub fn pending_reward(deposit_amount: u128, reward_debt: u128, acc_reward_per_share: u128) -> (r:
    Result<u128, LedgerError>)
    ensures
        r == pending_reward_spec(deposit_amount, reward_debt, acc_reward_per_share),
        r matches Ok(reward) ==> reward + reward_debt == deposit_amount * acc_reward_per_share / (
        PRECISION as int),
{
    proof {
        lemma_mul_div_spec(deposit_amount, acc_reward_per_share, PRECISION);
    }
    match self::reward_debt(deposit_amount, acc_reward_per_share) {
        None => Err(LedgerError::ArithmeticOverflow),
        Some(earned) => {
            if earned < reward_debt {
                Err(LedgerError::RewardUnderflow)
            } else {
                Ok(earned - reward_debt)
            }
        },
    }
}

} // verus!
