//! Compounding again changes nothing.

use vstd::prelude::*;
use crate::error::LedgerError;
use crate::invariants::lemma_compound_wf;
use crate::model::{Ledger, Vapi};
use crate::reward::pending_reward_spec;
use crate::transitions::{compound_from, compound_step, credit_reviewer, CompoundTotals};
use crate::types::DepositInfo;

verus! {

/// The stake in the VAPI `id` has no reward pending against the accumulator of
/// the VAPI, which is there.
pub open spec fn is_settled(stake: DepositInfo, vapis: Map<Seq<char>, Vapi>, id: Seq<char>)
    -> bool {
    vapis.contains_key(id) && pending_reward_spec(
        stake.deposit_amount,
        stake.reward_debt,
        vapis[id].acc_reward_per_share,
    ) == Ok::<u128, LedgerError>(0)
}

/// Compounding leaves every allocation without pending reward.
pub proof fn lemma_compound_from_settles(
    order: Seq<Seq<char>>,
    allocations: Map<Seq<char>, DepositInfo>,
    vapis: Map<Seq<char>, Vapi>,
    totals: CompoundTotals,
    i: int,
)
    requires
        0 <= i <= order.len(),
        forall|j: int| 0 <= j < i ==> is_settled(allocations[#[trigger] order[j]], vapis, order[j]),
    ensures
        compound_from(order, allocations, vapis, totals, i) matches Ok((a, v, t)) ==> forall|
            j: int,
        |
            0 <= j < order.len() ==> is_settled(a[#[trigger] order[j]], v, order[j]),
    decreases order.len() - i,
{
    if i < order.len() {
        match compound_step(allocations, vapis, totals, order[i]) {
            Err(e) => {},
            Ok((a1, v1, t1)) => {
                assert forall|j: int| 0 <= j < i + 1 implies is_settled(
                    a1[#[trigger] order[j]],
                    v1,
                    order[j],
                ) by {
                    if j < i {
                        assert(is_settled(allocations[order[j]], vapis, order[j]));
                    }
                }
                lemma_compound_from_settles(order, a1, v1, t1, i + 1);
            },
        }
    }
}

/// Compounding allocations without pending reward changes nothing.
pub proof fn lemma_compound_from_settled(
    order: Seq<Seq<char>>,
    allocations: Map<Seq<char>, DepositInfo>,
    vapis: Map<Seq<char>, Vapi>,
    totals: CompoundTotals,
    i: int,
)
    requires
        0 <= i,
        forall|j: int|
            i <= j < order.len() ==> is_settled(allocations[#[trigger] order[j]], vapis, order[j]),
    ensures
        compound_from(order, allocations, vapis, totals, i) == Ok::<
            (Map<Seq<char>, DepositInfo>, Map<Seq<char>, Vapi>, CompoundTotals),
            LedgerError,
        >((allocations, vapis, totals)),
    decreases order.len() - i,
{
    if i < order.len() {
        assert(is_settled(allocations[order[i]], vapis, order[i]));
        lemma_compound_from_settled(order, allocations, vapis, totals, i + 1);
    }
}

/// Compounding is idempotent: compounding a pool again, with nothing booked in
/// between, succeeds and changes nothing.
pub proof fn lemma_compound_idempotent(s: Ledger, reviewer_id: Seq<char>)
    requires
        s.wf(),
        s.compound(reviewer_id) is Ok,
    ensures
        s.compound(reviewer_id).unwrap().compound(reviewer_id) == Ok::<Ledger, LedgerError>(
            s.compound(reviewer_id).unwrap(),
        ),
{
    let zero = CompoundTotals { royalty: 0, reward: 0 };
    let t = s.compound(reviewer_id).unwrap();
    lemma_compound_wf(s, reviewer_id);
    lemma_compound_from_settles(
        s.reviewers[reviewer_id].allocation_ids,
        s.reviewers[reviewer_id].allocations,
        s.vapis,
        zero,
        0,
    );
    let r = t.reviewers[reviewer_id];
    lemma_compound_from_settled(r.allocation_ids, r.allocations, t.vapis, zero, 0);
    assert(credit_reviewer(r, zero) == Ok::<(u128, u128), LedgerError>(
        (r.royalty_earned, r.acc_reward_per_share),
    ));
    assert(t.reviewers.insert(reviewer_id, r) =~= t.reviewers);
    assert(t.compound(reviewer_id).unwrap() =~= t);
}

/// A withdrawal leaves the pool's allocations without pending reward:
/// compounding the pool after it succeeds and changes nothing.
pub proof fn lemma_withdraw_leaves_settled(
    s: Ledger,
    caller: Seq<char>,
    vapi_id: Seq<char>,
    amount: u128,
)
    requires
        s.wf(),
        s.withdraw_from_vapi(caller, vapi_id, amount) is Ok,
    ensures
        s.withdraw_from_vapi(caller, vapi_id, amount).unwrap().compound(caller) == Ok::<
            Ledger,
            LedgerError,
        >(s.withdraw_from_vapi(caller, vapi_id, amount).unwrap()),
{
    let zero = CompoundTotals { royalty: 0, reward: 0 };
    let settled = s.compound(caller).unwrap();
    let t = s.withdraw_from_vapi(caller, vapi_id, amount).unwrap();
    lemma_compound_wf(s, caller);
    lemma_compound_from_settles(
        s.reviewers[caller].allocation_ids,
        s.reviewers[caller].allocations,
        s.vapis,
        zero,
        0,
    );
    let r = settled.reviewers[caller];
    let r2 = t.reviewers[caller];
    assert(r.wf());
    assert(r.allocation_ids.contains(vapi_id));
    let at = r.allocation_ids.index_of(vapi_id);
    let last = r.allocation_ids.len() - 1;
    assert forall|j: int| 0 <= j < r2.allocation_ids.len() implies is_settled(
        r2.allocations[#[trigger] r2.allocation_ids[j]],
        t.vapis,
        r2.allocation_ids[j],
    ) by {
        if r.allocations[vapi_id].deposit_amount == amount {
            let j0 = if j == at { last } else { j };
            assert(r2.allocation_ids[j] == r.allocation_ids[j0]);
            assert(r.allocation_ids[j0] != r.allocation_ids[at]);
            assert(is_settled(r.allocations[r.allocation_ids[j0]], settled.vapis, r.allocation_ids[j0]));
        } else {
            assert(is_settled(r.allocations[r.allocation_ids[j]], settled.vapis, r.allocation_ids[j]));
        }
    }
    lemma_compound_from_settled(r2.allocation_ids, r2.allocations, t.vapis, zero, 0);
    assert(credit_reviewer(r2, zero) == Ok::<(u128, u128), LedgerError>(
        (r2.royalty_earned, r2.acc_reward_per_share),
    ));
    assert(t.reviewers.insert(caller, r2) =~= t.reviewers);
    assert(t.compound(caller).unwrap() =~= t);
}

} // verus!
