//! Accumulators never decrease.

use vstd::prelude::*;
use crate::invariants::{
    lemma_compound_from_shape, lemma_compound_wf, lemma_release_capital_shape,
    lemma_settle_from_shape, lemma_wf_all_listed,
};
use crate::laws::{apply, lemma_run_wf, replaces_reviewer, run, without_replacement, Operation};
use crate::model::Ledger;
use crate::transitions::{CompoundTotals, SettleTotals};

verus! {

/// Every VAPI and every pool of `before` is there in `after`, with an
/// accumulator that is not lower.
pub open spec fn accumulators_advance(before: Ledger, after: Ledger) -> bool {
    &&& forall|id: Seq<char>| #[trigger]
        before.vapis.contains_key(id) ==> after.vapis.contains_key(id)
            && after.vapis[id].acc_reward_per_share >= before.vapis[id].acc_reward_per_share
    &&& forall|id: Seq<char>| #[trigger]
        before.reviewers.contains_key(id) ==> after.reviewers.contains_key(id)
            && after.reviewers[id].acc_reward_per_share
            >= before.reviewers[id].acc_reward_per_share
}

/// Compounding lowers no accumulator.
pub proof fn lemma_compound_advances(s: Ledger, reviewer_id: Seq<char>)
    requires
        s.wf(),
        s.compound(reviewer_id) is Ok,
    ensures
        accumulators_advance(s, s.compound(reviewer_id).unwrap()),
{
    let r = s.reviewers[reviewer_id];
    assert(r.wf());
    lemma_wf_all_listed(r);
    lemma_compound_from_shape(
        r.allocation_ids,
        r.allocations,
        s.vapis,
        CompoundTotals { royalty: 0, reward: 0 },
        0,
    );
}

/// Accumulators never decrease: after an operation every VAPI and every pool
/// is still there, with an accumulator that is at least what it was. The one
/// operation that is left out puts an empty pool in the place of one that is
/// there, and so sets that pool's accumulator back to zero.
pub proof fn lemma_accumulators_never_decrease(s: Ledger, op: Operation)
    requires
        s.wf(),
        apply(s, op) is Ok,
        !replaces_reviewer(s, op),
    ensures
        accumulators_advance(s, apply(s, op).unwrap()),
{
    match op {
        Operation::CreateVapi { caller, vapi_id } => {},
        Operation::CreateReviewer { reviewer_id } => {},
        Operation::TransferOwnership { caller, vapi_id, new_coder } => {},
        Operation::DepositToVapi { caller, vapi_id, amount } => {},
        Operation::Compound { reviewer_id } => {
            lemma_compound_advances(s, reviewer_id);
        },
        Operation::WithdrawFromVapi { caller, vapi_id, amount } => {
            lemma_compound_advances(s, caller);
        },
        Operation::DepositToReviewer { sender, reviewer_id, amount } => {},
        Operation::RequestRefund { caller, reviewer_id, amount, now } => {
            lemma_compound_advances(s, reviewer_id);
            lemma_compound_wf(s, reviewer_id);
            let settled = s.compound(reviewer_id).unwrap();
            let r = settled.reviewers[reviewer_id];
            assert(r.wf());
            lemma_wf_all_listed(r);
            lemma_release_capital_shape(
                r.allocation_ids,
                r.allocations,
                settled.vapis,
                r.pending,
                r.total_delegator_capital,
                amount,
                r.acc_reward_per_share,
            );
        },
        Operation::ClaimRefund { caller, reviewer_id, now } => {},
        Operation::ResolveRefund { delegator_id, reviewer_id, amount, transferred } => {},
        Operation::Settle { sender, vapi_ids, amounts } => {
            lemma_settle_from_shape(
                s.vapis,
                vapi_ids,
                amounts,
                SettleTotals { treasury: 0, burn: 0 },
                0,
            );
        },
    }
}

/// Accumulators never decrease over any operations.
pub proof fn lemma_run_accumulators(s: Ledger, ops: Seq<Operation>)
    requires
        s.wf(),
        without_replacement(s, ops),
    ensures
        accumulators_advance(s, run(s, ops)),
    decreases ops.len(),
{
    if ops.len() > 0 {
        lemma_run_accumulators(s, ops.drop_last());
        lemma_run_wf(s, ops.drop_last());
        let before = run(s, ops.drop_last());
        if apply(before, ops.last()) is Ok {
            lemma_accumulators_never_decrease(before, ops.last());
        }
    }
}

} // verus!
