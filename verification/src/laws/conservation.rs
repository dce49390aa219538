//! Value is conserved: what the ledger accounts for changes by exactly what
//! enters or leaves with each operation.

use vstd::prelude::*;
use crate::accounting::{
    allocated_from, burned_from, distributed_from, lemma_compound_from_realises,
    drawn_allocations, drawn_residual, lemma_compound_from_value, lemma_release_capital_allocated,
    lemma_release_capital_value, lemma_residual_bounded,
    lemma_reviewers_value_insert, lemma_reviewers_value_push, lemma_settle_from_value,
    lemma_vapis_value_insert, lemma_vapis_value_push, pooled_value, revenue_from, rewards_from,
};
use crate::invariants::lemma_compound_wf;
use crate::laws::{apply, lemma_run_wf, replaces_reviewer, run, without_replacement, Operation};
use crate::model::{Ledger, Reviewer};
use crate::transitions::{CompoundTotals, SettleTotals};

verus! {

/// The reward that compounding the pool `reviewer_id` realises: what its
/// allocations have earned against the accumulators of their VAPIs.
pub open spec fn realised_reward(s: Ledger, reviewer_id: Seq<char>) -> int {
    rewards_from(
        s.reviewers[reviewer_id].allocation_ids,
        s.reviewers[reviewer_id].allocations,
        s.vapis,
        0,
    )
}

/// By how much `op` changes the value that the ledger accounts for.
///
/// A stake adds its amount. Compounding adds the reward that it realises. A
/// request for a refund takes the amount out, less what stays unresolved. A
/// settlement adds the revenue, less what is to be burned and what is
/// distributed through the accumulators, which is not accounted for until it
/// is realised. Nothing else changes the value.
pub open spec fn value_gain(s: Ledger, op: Operation) -> int {
    match op {
        Operation::DepositToReviewer { sender, reviewer_id, amount } => amount as int,
        Operation::Compound { reviewer_id } => realised_reward(s, reviewer_id),
        Operation::WithdrawFromVapi { caller, vapi_id, amount } => realised_reward(s, caller),
        Operation::RequestRefund { caller, reviewer_id, amount, now } => realised_reward(
            s,
            reviewer_id,
        ) - amount + s.request_refund(caller, reviewer_id, amount, now).unwrap().1,
        Operation::Settle { sender, vapi_ids, amounts } => revenue_from(amounts, 0) - burned_from(
            amounts,
            0,
        ) - distributed_from(s.vapis, vapi_ids, amounts, 0),
        _ => 0,
    }
}

/// Compounding adds to the value of the ledger exactly the reward it realises.
pub proof fn lemma_compound_value(s: Ledger, reviewer_id: Seq<char>)
    requires
        s.wf(),
        s.compound(reviewer_id) is Ok,
    ensures
        pooled_value(s.compound(reviewer_id).unwrap()) == pooled_value(s) + realised_reward(
            s,
            reviewer_id,
        ),
{
    let r = s.reviewers[reviewer_id];
    let after = s.compound(reviewer_id).unwrap();
    let zero = CompoundTotals { royalty: 0, reward: 0 };
    assert(r.wf());
    lemma_compound_from_value(s.vapi_ids, r.allocation_ids, r.allocations, s.vapis, zero, 0);
    lemma_compound_from_realises(r.allocation_ids, r.allocations, s.vapis, zero, 0);
    lemma_reviewers_value_insert(s.reviewer_ids, s.reviewers, reviewer_id, after.reviewers[reviewer_id]);
    assert(after.reviewers =~= s.reviewers.insert(reviewer_id, after.reviewers[reviewer_id]));
}

/// Value is conserved: every operation changes the value that the ledger
/// accounts for by exactly what enters or leaves with it, as `value_gain` says.
/// The one operation that is left out puts an empty pool in the place of one
/// that is there, and so drops what that pool held.
pub proof fn lemma_value_accounting(s: Ledger, op: Operation)
    requires
        s.wf(),
        apply(s, op) is Ok,
        !replaces_reviewer(s, op),
    ensures
        pooled_value(apply(s, op).unwrap()) == pooled_value(s) + value_gain(s, op),
{
    let after = apply(s, op).unwrap();
    match op {
        Operation::CreateVapi { caller, vapi_id } => {
            lemma_vapis_value_push(s.vapi_ids, s.vapis, vapi_id, after.vapis[vapi_id]);
        },
        Operation::CreateReviewer { reviewer_id } => {
            lemma_reviewers_value_push(
                s.reviewer_ids,
                s.reviewers,
                reviewer_id,
                after.reviewers[reviewer_id],
            );
        },
        Operation::TransferOwnership { caller, vapi_id, new_coder } => {
            lemma_vapis_value_insert(s.vapi_ids, s.vapis, vapi_id, after.vapis[vapi_id]);
        },
        Operation::DepositToVapi { caller, vapi_id, amount } => {
            lemma_vapis_value_insert(s.vapi_ids, s.vapis, vapi_id, after.vapis[vapi_id]);
            lemma_reviewers_value_insert(s.reviewer_ids, s.reviewers, caller, after.reviewers[caller]);
        },
        Operation::Compound { reviewer_id } => {
            lemma_compound_value(s, reviewer_id);
        },
        Operation::WithdrawFromVapi { caller, vapi_id, amount } => {
            lemma_compound_value(s, caller);
            lemma_compound_wf(s, caller);
            let settled = s.compound(caller).unwrap();
            lemma_vapis_value_insert(
                settled.vapi_ids,
                settled.vapis,
                vapi_id,
                after.vapis[vapi_id],
            );
            lemma_reviewers_value_insert(
                settled.reviewer_ids,
                settled.reviewers,
                caller,
                after.reviewers[caller],
            );
        },
        Operation::DepositToReviewer { sender, reviewer_id, amount } => {
            lemma_reviewers_value_insert(
                s.reviewer_ids,
                s.reviewers,
                reviewer_id,
                after.reviewers[reviewer_id],
            );
        },
        Operation::RequestRefund { caller, reviewer_id, amount, now } => {
            lemma_compound_value(s, reviewer_id);
            lemma_compound_wf(s, reviewer_id);
            let settled = s.compound(reviewer_id).unwrap();
            let r = settled.reviewers[reviewer_id];
            lemma_release_capital_value(
                settled.vapi_ids,
                r.allocation_ids,
                r.allocations,
                settled.vapis,
                r.pending,
                r.total_delegator_capital,
                amount,
                r.acc_reward_per_share,
            );
            lemma_reviewers_value_insert(
                settled.reviewer_ids,
                settled.reviewers,
                reviewer_id,
                after.reviewers[reviewer_id],
            );
        },
        Operation::ClaimRefund { caller, reviewer_id, now } => {
            if s.reviewers[reviewer_id].delegators[caller].refunding_amount != 0 {
                lemma_reviewers_value_insert(
                    s.reviewer_ids,
                    s.reviewers,
                    reviewer_id,
                    after.reviewers[reviewer_id],
                );
            }
        },
        Operation::ResolveRefund { delegator_id, reviewer_id, amount, transferred } => {
            let d = s.reviewers[reviewer_id].delegators[delegator_id];
            if !transferred || d.refunding_amount == 0 {
                lemma_reviewers_value_insert(
                    s.reviewer_ids,
                    s.reviewers,
                    reviewer_id,
                    after.reviewers[reviewer_id],
                );
            }
        },
        Operation::Settle { sender, vapi_ids, amounts } => {
            lemma_settle_from_value(
                s.vapi_ids,
                s.vapis,
                vapi_ids,
                amounts,
                SettleTotals { treasury: 0, burn: 0 },
                0,
            );
        },
    }
}

/// A settlement asks to burn one per cent of each amount of its batch, rounded
/// down, and nothing else.
pub proof fn lemma_settle_burns_one_percent(
    s: Ledger,
    sender: Seq<char>,
    vapi_ids: Seq<Seq<char>>,
    amounts: Seq<u128>,
)
    requires
        s.wf(),
        s.settle(sender, vapi_ids, amounts) is Ok,
    ensures
        s.settle(sender, vapi_ids, amounts).unwrap().1 == burned_from(amounts, 0),
{
    lemma_settle_from_value(
        s.vapi_ids,
        s.vapis,
        vapi_ids,
        amounts,
        SettleTotals { treasury: 0, burn: 0 },
        0,
    );
}

/// By how much the operations of `ops`, run from `s`, change the value that the
/// ledger accounts for: the sum of what those that succeed add.
pub open spec fn run_gain(s: Ledger, ops: Seq<Operation>) -> int
    decreases ops.len(),
{
    if ops.len() == 0 {
        0
    } else {
        let before = run(s, ops.drop_last());
        run_gain(s, ops.drop_last()) + (if apply(before, ops.last()) is Ok {
            value_gain(before, ops.last())
        } else {
            0
        })
    }
}

/// Value is conserved over any operations: the value that the ledger accounts
/// for changes by exactly the sum of what each operation lets enter or leave.
pub proof fn lemma_run_value(s: Ledger, ops: Seq<Operation>)
    requires
        s.wf(),
        without_replacement(s, ops),
    ensures
        pooled_value(run(s, ops)) == pooled_value(s) + run_gain(s, ops),
    decreases ops.len(),
{
    if ops.len() > 0 {
        lemma_run_value(s, ops.drop_last());
        lemma_run_wf(s, ops.drop_last());
        let before = run(s, ops.drop_last());
        if apply(before, ops.last()) is Ok {
            lemma_value_accounting(before, ops.last());
        }
    }
}

/// The capital that a pool has released between `before` and `after`: by how
/// much its unallocated balance and the capital of its allocations have fallen
/// together.
pub open spec fn released_capital(before: Reviewer, after: Reviewer) -> int {
    (before.pending - after.pending) + (allocated_from(
        before.allocation_ids,
        before.allocations,
        0,
    ) - allocated_from(after.allocation_ids, after.allocations, 0))
}

/// A refund releases its amount, less what stays unresolved: once the pool's
/// rewards are compounded, its unallocated balance and the capital of its
/// allocations fall together by exactly that. Something stays unresolved only
/// where the unallocated balance falls short of the amount and no allocation
/// holds, once the shares are drawn, as much as rounding has left, and it is
/// then all that rounding has left; where an allocation holds that much, the
/// whole amount is released.
pub proof fn lemma_refund_releases(
    s: Ledger,
    caller: Seq<char>,
    reviewer_id: Seq<char>,
    amount: u128,
    now: u64,
)
    requires
        s.wf(),
        s.request_refund(caller, reviewer_id, amount, now) is Ok,
    ensures
        ({
            let settled = s.compound(reviewer_id).unwrap();
            let r = settled.reviewers[reviewer_id];
            let (after, unresolved) = s.request_refund(caller, reviewer_id, amount, now).unwrap();
            &&& released_capital(r, after.reviewers[reviewer_id]) == amount - unresolved
            &&& unresolved <= amount
            &&& unresolved != 0 ==> r.pending < amount && unresolved == drawn_residual(
                r.allocation_ids,
                r.allocations,
                settled.vapis,
                r.pending,
                r.total_delegator_capital,
                amount,
                r.acc_reward_per_share,
            ) && forall|j: int|
                0 <= j < r.allocation_ids.len() ==> drawn_allocations(
                    r.allocation_ids,
                    r.allocations,
                    settled.vapis,
                    r.pending,
                    r.total_delegator_capital,
                    amount,
                    r.acc_reward_per_share,
                )[#[trigger] r.allocation_ids[j]].deposit_amount < unresolved
        }),
{
    let settled = s.compound(reviewer_id).unwrap();
    let r = settled.reviewers[reviewer_id];
    lemma_compound_wf(s, reviewer_id);
    assert(r.wf());
    lemma_release_capital_allocated(
        r.allocation_ids,
        r.allocations,
        settled.vapis,
        r.pending,
        r.total_delegator_capital,
        amount,
        r.acc_reward_per_share,
    );
}

/// What a refund loses to rounding is bounded by the number of allocations:
/// where, once the pool's rewards are compounded, the unallocated balance
/// falls short of the amount and the allocations hold at least the delegators'
/// capital that is not in the unallocated balance, the capital that is released
/// falls short of the amount by less than the number of the pool's allocations.
pub proof fn lemma_refund_rounding_loss(
    s: Ledger,
    caller: Seq<char>,
    reviewer_id: Seq<char>,
    amount: u128,
    now: u64,
)
    requires
        s.wf(),
        s.request_refund(caller, reviewer_id, amount, now) is Ok,
        ({
            let r = s.compound(reviewer_id).unwrap().reviewers[reviewer_id];
            &&& r.pending < amount
            &&& r.allocation_ids.len() >= 1
            &&& allocated_from(r.allocation_ids, r.allocations, 0) >= r.total_delegator_capital
                - r.pending
        }),
    ensures
        ({
            let r = s.compound(reviewer_id).unwrap().reviewers[reviewer_id];
            let (after, unresolved) = s.request_refund(caller, reviewer_id, amount, now).unwrap();
            &&& unresolved < r.allocation_ids.len()
            &&& amount - r.allocation_ids.len() < released_capital(r, after.reviewers[reviewer_id])
                <= amount
        }),
{
    let settled = s.compound(reviewer_id).unwrap();
    let r = settled.reviewers[reviewer_id];
    lemma_compound_wf(s, reviewer_id);
    assert(r.wf());
    lemma_refund_releases(s, caller, reviewer_id, amount, now);
    assert(r.pending < r.total_delegator_capital);
    lemma_residual_bounded(
        settled.vapi_ids,
        r.allocation_ids,
        r.allocations,
        settled.vapis,
        r.pending,
        r.total_delegator_capital,
        amount,
        r.acc_reward_per_share,
    );
}

} // verus!
