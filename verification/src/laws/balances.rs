//! No reward is negative, and no capital is taken beyond what is there.

use vstd::prelude::*;
use crate::arith::lemma_mul_div_spec;
use crate::error::LedgerError;
use crate::model::{Ledger, Vapi};
use crate::reward::{pending_reward_spec, PRECISION};
use crate::transitions::{draw_from, draw_step, release_capital, sweep_from};
use crate::types::DepositInfo;

verus! {

/// A reward is never negative: where a stake's reward is computed, it is what
/// has accumulated for the stake less the debt marker, and that is not below
/// zero. It is refused where the debt marker exceeds what has accumulated, and
/// where what has accumulated leaves the 128-bit range.
pub proof fn lemma_reward_never_negative(amount: u128, debt: u128, acc: u128)
    ensures
        match pending_reward_spec(amount, debt, acc) {
            Ok(reward) => 0 <= reward == amount * acc / (PRECISION as int) - debt,
            Err(e) => if amount * acc / (PRECISION as int) > u128::MAX {
                e == LedgerError::ArithmeticOverflow
            } else {
                e == LedgerError::RewardUnderflow && amount * acc / (PRECISION as int) < debt
            },
        },
{
    lemma_mul_div_spec(amount, acc, PRECISION);
}

/// No allocation of `after` holds more capital, and no VAPI of `after` has more
/// allocated into it, than in `before`.
pub open spec fn capital_only_falls(
    before: (Map<Seq<char>, DepositInfo>, Map<Seq<char>, Vapi>),
    after: (Map<Seq<char>, DepositInfo>, Map<Seq<char>, Vapi>),
) -> bool {
    &&& forall|id: Seq<char>| (#[trigger] after.0[id]).deposit_amount <= before.0[id].deposit_amount
    &&& forall|id: Seq<char>| (#[trigger] after.1[id]).total_allocated <= before.1[id].total_allocated
}

/// Drawing allocations down takes from no allocation and from no VAPI more than
/// is there.
pub proof fn lemma_draw_from_bounded(
    order: Seq<Seq<char>>,
    allocations: Map<Seq<char>, DepositInfo>,
    vapis: Map<Seq<char>, Vapi>,
    shortfall: u128,
    base: u128,
    acc: u128,
    remain: u128,
    i: int,
)
    requires
        0 <= i,
    ensures
        draw_from(order, allocations, vapis, shortfall, base, acc, remain, i) matches Ok(
            (a, v, rest),
        ) ==> capital_only_falls((allocations, vapis), (a, v)),
    decreases order.len() - i,
{
    if i < order.len() {
        match draw_step(allocations, vapis, shortfall, base, acc, remain, order[i]) {
            Err(e) => {},
            Ok((a1, v1, rest1)) => {
                lemma_draw_from_bounded(order, a1, v1, shortfall, base, acc, rest1, i + 1);
            },
        }
    }
}

/// Sweeping a residual takes from no allocation and from no VAPI more than is
/// there.
pub proof fn lemma_sweep_from_bounded(
    order: Seq<Seq<char>>,
    allocations: Map<Seq<char>, DepositInfo>,
    vapis: Map<Seq<char>, Vapi>,
    residual: u128,
    acc: u128,
    i: int,
)
    requires
        0 <= i,
    ensures
        sweep_from(order, allocations, vapis, residual, acc, i) matches Ok((a, v, unresolved))
            ==> capital_only_falls((allocations, vapis), (a, v)),
    decreases order.len() - i,
{
    if i < order.len() {
        if allocations[order[i]].deposit_amount < residual {
            lemma_sweep_from_bounded(order, allocations, vapis, residual, acc, i + 1);
        }
    }
}

/// Capital never underflows where capital is released for a refund: nothing
/// is taken from the unallocated balance, from an allocation or from a VAPI
/// beyond what it holds.
pub proof fn lemma_release_capital_bounded(
    order: Seq<Seq<char>>,
    allocations: Map<Seq<char>, DepositInfo>,
    vapis: Map<Seq<char>, Vapi>,
    pending: u128,
    total_delegator_capital: u128,
    amount: u128,
    acc: u128,
)
    ensures
        release_capital(
            order,
            allocations,
            vapis,
            pending,
            total_delegator_capital,
            amount,
            acc,
        ) matches Ok((a, v, p, unresolved)) ==> capital_only_falls((allocations, vapis), (a, v))
            && p <= pending,
{
    if pending < amount && total_delegator_capital >= pending {
        let base = (total_delegator_capital - pending) as u128;
        let shortfall = (amount - pending) as u128;
        lemma_draw_from_bounded(order, allocations, vapis, shortfall, base, acc, shortfall, 0);
        match draw_from(order, allocations, vapis, shortfall, base, acc, shortfall, 0) {
            Err(e) => {},
            Ok((a, v, remain)) => {
                if remain != 0 {
                    lemma_sweep_from_bounded(order, a, v, remain, acc, 0);
                }
            },
        }
    }
}

/// Capital never underflows where it is withdrawn from a VAPI: the withdrawal
/// succeeds only for an amount that the allocation and the VAPI hold, and moves
/// exactly that amount into the unallocated balance of the pool.
pub proof fn lemma_withdraw_within_capital(
    s: Ledger,
    caller: Seq<char>,
    vapi_id: Seq<char>,
    amount: u128,
)
    requires
        s.wf(),
        s.withdraw_settled(caller, vapi_id, amount) is Ok,
    ensures
        ({
            let r = s.reviewers[caller];
            let after = s.withdraw_settled(caller, vapi_id, amount).unwrap();
            &&& amount <= r.allocations[vapi_id].deposit_amount
            &&& amount <= s.vapis[vapi_id].total_allocated
            &&& after.vapis[vapi_id].total_allocated == s.vapis[vapi_id].total_allocated - amount
            &&& after.reviewers[caller].pending == r.pending + amount
            &&& amount < r.allocations[vapi_id].deposit_amount
                ==> after.reviewers[caller].allocations[vapi_id].deposit_amount
                == r.allocations[vapi_id].deposit_amount - amount
            &&& amount == r.allocations[vapi_id].deposit_amount
                ==> !after.reviewers[caller].allocations.contains_key(vapi_id)
        }),
{
}

} // verus!
