//! What holds of refunds: they stay within the balance, wait for the lock, and
//! survive a transfer that fails.

use vstd::prelude::*;
use crate::arith::lemma_mul_div_spec;
use crate::error::LedgerError;
use crate::invariants::lemma_compound_wf;
use crate::laws::accumulators::lemma_accumulators_never_decrease;
use crate::laws::{apply, replaces_reviewer, Operation};
use crate::model::Ledger;
use crate::reward::PRECISION;
use crate::transitions::delegator_balance;
use crate::types::DelegatorInfo;

verus! {

/// A refund is never granted beyond the delegator's balance: where a request
/// succeeds, the amount is at most the delegator's capital and reward as they
/// stand once the pool's rewards are compounded. The delegator is left with
/// the rest as capital, and the amount is added to what it may claim.
pub proof fn lemma_refund_within_balance(
    s: Ledger,
    caller: Seq<char>,
    reviewer_id: Seq<char>,
    amount: u128,
    now: u64,
)
    requires
        s.wf(),
        s.request_refund(caller, reviewer_id, amount, now) is Ok,
    ensures
        ({
            let r = s.compound(reviewer_id).unwrap().reviewers[reviewer_id];
            let d = r.delegators[caller];
            let after = s.request_refund(caller, reviewer_id, amount, now).unwrap().0;
            let left = after.reviewers[reviewer_id].delegators[caller];
            &&& r.delegators.contains_key(caller)
            &&& delegator_balance(d, r.acc_reward_per_share) matches Ok(balance) && amount
                <= balance && left.deposit_info.deposit_amount == balance - amount
            &&& left.refunding_amount == d.refunding_amount + amount
            &&& left.refunding_start_timestamp == now
        }),
{
}

/// The balance of the delegator `delegator_id` in the pool `reviewer_id`: its
/// capital and its reward. `None` where the position is not there, and where
/// the balance cannot be computed.
pub open spec fn balance_in(s: Ledger, reviewer_id: Seq<char>, delegator_id: Seq<char>) -> Option<
    u128,
> {
    if !s.reviewers.contains_key(reviewer_id) || !s.reviewers[reviewer_id].delegators.contains_key(
        delegator_id,
    ) {
        None
    } else {
        match delegator_balance(
            s.reviewers[reviewer_id].delegators[delegator_id],
            s.reviewers[reviewer_id].acc_reward_per_share,
        ) {
            Ok(balance) => Some(balance),
            Err(e) => None,
        }
    }
}

/// `op` is a request of `delegator_id` for a refund from the pool
/// `reviewer_id`.
pub open spec fn asks_refund(op: Operation, reviewer_id: Seq<char>, delegator_id: Seq<char>)
    -> bool {
    op matches Operation::RequestRefund { caller, reviewer_id: pool, amount, now } && caller
        == delegator_id && pool == reviewer_id
}

/// What has accumulated for a stake does not fall where the accumulator does
/// not.
pub proof fn lemma_reward_debt_monotonic(amount: u128, lower: u128, higher: u128)
    requires
        lower <= higher,
    ensures
        amount * lower / (PRECISION as int) <= amount * higher / (PRECISION as int),
{
    let x = amount * lower;
    let y = amount * higher;
    assert(x <= y) by (nonlinear_arith)
        requires
            x == amount * lower,
            y == amount * higher,
            lower <= higher,
    ;
    assert(x / 1_000_000_000_000 <= y / 1_000_000_000_000);
}

/// A delegator's balance does not fall where its stake stays as it is and the
/// accumulator does not fall.
pub proof fn lemma_balance_monotonic(d: DelegatorInfo, e: DelegatorInfo, lower: u128, higher: u128)
    requires
        lower <= higher,
        d.deposit_info == e.deposit_info,
        delegator_balance(d, lower) is Ok,
        delegator_balance(e, higher) is Ok,
    ensures
        delegator_balance(d, lower).unwrap() <= delegator_balance(e, higher).unwrap(),
{
    lemma_reward_debt_monotonic(d.deposit_info.deposit_amount, lower, higher);
    lemma_mul_div_spec(d.deposit_info.deposit_amount, lower, PRECISION);
    lemma_mul_div_spec(d.deposit_info.deposit_amount, higher, PRECISION);
}

/// A delegator's balance falls only by its own request for a refund: over any
/// other operation, a position that is there before and after, with a balance
/// that can be computed, holds at least the balance that it held. The other
/// operation that is left out puts an empty pool in the place of one that is
/// there.
pub proof fn lemma_balance_falls_only_by_refund(
    s: Ledger,
    op: Operation,
    reviewer_id: Seq<char>,
    delegator_id: Seq<char>,
)
    requires
        s.wf(),
        apply(s, op) is Ok,
        !replaces_reviewer(s, op),
        !asks_refund(op, reviewer_id, delegator_id),
        balance_in(s, reviewer_id, delegator_id) is Some,
        balance_in(apply(s, op).unwrap(), reviewer_id, delegator_id) is Some,
    ensures
        balance_in(apply(s, op).unwrap(), reviewer_id, delegator_id).unwrap() >= balance_in(
            s,
            reviewer_id,
            delegator_id,
        ).unwrap(),
{
    let t = apply(s, op).unwrap();
    lemma_accumulators_never_decrease(s, op);
    let r = s.reviewers[reviewer_id];
    let r2 = t.reviewers[reviewer_id];
    let d = r.delegators[delegator_id];
    let d2 = r2.delegators[delegator_id];
    match op {
        Operation::DepositToReviewer { sender, reviewer_id: pool, amount } => {
            if pool == reviewer_id && sender == delegator_id {
                lemma_mul_div_spec(
                    d2.deposit_info.deposit_amount,
                    r.acc_reward_per_share,
                    PRECISION,
                );
            } else {
                lemma_balance_monotonic(d, d2, r.acc_reward_per_share, r2.acc_reward_per_share);
            }
        },
        Operation::WithdrawFromVapi { caller, vapi_id, amount } => {
            lemma_compound_wf(s, caller);
            lemma_balance_monotonic(d, d2, r.acc_reward_per_share, r2.acc_reward_per_share);
        },
        Operation::RequestRefund { caller, reviewer_id: pool, amount, now } => {
            lemma_compound_wf(s, pool);
            lemma_balance_monotonic(d, d2, r.acc_reward_per_share, r2.acc_reward_per_share);
        },
        _ => {
            lemma_balance_monotonic(d, d2, r.acc_reward_per_share, r2.acc_reward_per_share);
        },
    }
}

/// A refund cannot be claimed before the lock has run out, and can be claimed
/// once it has: with an amount standing to be refunded, the claim fails as long
/// as less than the lock's duration has passed since the request, and succeeds
/// from then on, with that amount to transfer and nothing left standing. Once
/// the transfer has succeeded, taking note of it succeeds too and leaves
/// nothing standing.
pub proof fn lemma_timelock(s: Ledger, caller: Seq<char>, reviewer_id: Seq<char>, now: u64)
    requires
        s.wf(),
        s.reviewers.contains_key(reviewer_id),
        s.reviewers[reviewer_id].delegators.contains_key(caller),
        s.reviewers[reviewer_id].delegators[caller].refunding_amount != 0,
    ensures
        ({
            let d = s.reviewers[reviewer_id].delegators[caller];
            let claim = s.claim_refund(caller, reviewer_id, now);
            &&& now - d.refunding_start_timestamp < s.refund_lock_ms ==> claim == Err::<
                (Ledger, Option<u128>),
                LedgerError,
            >(LedgerError::RefundLocked)
            &&& now - d.refunding_start_timestamp >= s.refund_lock_ms ==> {
                &&& claim matches Ok((t, transfer))
                &&& transfer == Some(d.refunding_amount)
                &&& t.reviewers[reviewer_id].delegators[caller].refunding_amount == 0
                &&& t.resolve_refund(caller, reviewer_id, d.refunding_amount, true) matches Ok(u)
                &&& u.reviewers[reviewer_id].delegators.contains_key(caller)
                    ==> u.reviewers[reviewer_id].delegators[caller].refunding_amount == 0
            }
        }),
{
}

/// A failed transfer loses nothing and credits nothing twice: taking note that
/// the transfer of a claimed refund has failed gives back the ledger as it was
/// before the claim, so that the claim can be made again at once.
pub proof fn lemma_failed_transfer_restores(
    s: Ledger,
    caller: Seq<char>,
    reviewer_id: Seq<char>,
    now: u64,
)
    requires
        s.wf(),
        s.claim_refund(caller, reviewer_id, now) matches Ok((t, transfer)) && transfer is Some,
    ensures
        ({
            let (t, transfer) = s.claim_refund(caller, reviewer_id, now).unwrap();
            t.resolve_refund(caller, reviewer_id, transfer.unwrap(), false) == Ok::<
                Ledger,
                LedgerError,
            >(s)
        }),
{
    let (t, transfer) = s.claim_refund(caller, reviewer_id, now).unwrap();
    let back = t.resolve_refund(caller, reviewer_id, transfer.unwrap(), false).unwrap();
    assert(back.reviewers[reviewer_id].delegators =~= s.reviewers[reviewer_id].delegators);
    assert(back.reviewers[reviewer_id] =~= s.reviewers[reviewer_id]);
    assert(back.reviewers =~= s.reviewers);
    assert(back =~= s);
}

/// A position that is paid out is closed: where the transfer of a claimed
/// refund has succeeded and no new claim stands, a position without capital is
/// no longer there, and one with capital is left as it was but for the time of
/// the request, which is cleared.
pub proof fn lemma_successful_transfer_closes(
    s: Ledger,
    delegator_id: Seq<char>,
    reviewer_id: Seq<char>,
    amount: u128,
)
    requires
        s.wf(),
        s.reviewers.contains_key(reviewer_id),
        s.reviewers[reviewer_id].delegators.contains_key(delegator_id),
        s.reviewers[reviewer_id].delegators[delegator_id].refunding_amount == 0,
    ensures
        ({
            let d = s.reviewers[reviewer_id].delegators[delegator_id];
            &&& s.resolve_refund(delegator_id, reviewer_id, amount, true) matches Ok(t)
            &&& d.deposit_info.deposit_amount == 0
                ==> !t.reviewers[reviewer_id].delegators.contains_key(delegator_id)
            &&& d.deposit_info.deposit_amount != 0
                ==> t.reviewers[reviewer_id].delegators.contains_key(delegator_id)
                && t.reviewers[reviewer_id].delegators[delegator_id] == (DelegatorInfo {
                refunding_start_timestamp: 0,
                ..d
            })
        }),
{
}

} // verus!
