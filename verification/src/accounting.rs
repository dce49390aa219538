//! The value that the ledger accounts for, and how the parts of an operation
//! change it.

use vstd::prelude::*;
use crate::arith::lemma_mul_div_spec;
use crate::invariants::{lemma_draw_from_shape_vapis, lemma_lists_insert, same_keys};
use crate::model::{lists, Ledger, Reviewer, Vapi, BURN_PERCENT, REVIEWER_FEE_PERCENT};
use crate::reward::pending_reward_spec;
use crate::transitions::{
    compound_from, compound_step, draw_from, draw_step, release_capital, settle_from, settle_step,
    sweep_from, sweep_step, CompoundTotals, SettleTotals,
};
use crate::types::DepositInfo;

verus! {

/// What a VAPI holds: what its coder has not claimed, and what is allocated
/// into it.
pub open spec fn vapi_value(v: Vapi) -> int {
    v.unclaimed_reward + v.total_allocated
}

/// What the VAPIs that `ids` names hold together.
pub open spec fn vapis_value(ids: Seq<Seq<char>>, vapis: Map<Seq<char>, Vapi>) -> int
    decreases ids.len(),
{
    if ids.len() == 0 {
        0
    } else {
        vapis_value(ids.drop_last(), vapis) + vapi_value(vapis[ids.last()])
    }
}

/// What a pool holds outside the VAPIs: its unallocated balance and the
/// royalty it has earned.
pub open spec fn reviewer_value(r: Reviewer) -> int {
    r.pending + r.royalty_earned
}

/// What the pools that `ids` names hold together outside the VAPIs.
pub open spec fn reviewers_value(ids: Seq<Seq<char>>, reviewers: Map<Seq<char>, Reviewer>) -> int
    decreases ids.len(),
{
    if ids.len() == 0 {
        0
    } else {
        reviewers_value(ids.drop_last(), reviewers) + reviewer_value(reviewers[ids.last()])
    }
}

/// The value that the ledger accounts for: unclaimed coder rewards, allocated
/// capital, unallocated balances, royalties, and the treasury.
pub open spec fn pooled_value(s: Ledger) -> int {
    vapis_value(s.vapi_ids, s.vapis) + reviewers_value(s.reviewer_ids, s.reviewers) + s.treasury
}

/// Replacing one VAPI changes what the VAPIs hold by the difference of the two,
/// where the VAPI is among them, and not at all where it is not.
pub proof fn lemma_vapis_value_insert(
    ids: Seq<Seq<char>>,
    vapis: Map<Seq<char>, Vapi>,
    id: Seq<char>,
    v: Vapi,
)
    requires
        ids.no_duplicates(),
    ensures
        ids.contains(id) ==> vapis_value(ids, vapis.insert(id, v)) == vapis_value(ids, vapis)
            - vapi_value(vapis[id]) + vapi_value(v),
        !ids.contains(id) ==> vapis_value(ids, vapis.insert(id, v)) == vapis_value(ids, vapis),
    decreases ids.len(),
{
    if ids.len() > 0 {
        let front = ids.drop_last();
        assert forall|i: int, j: int| 0 <= i < front.len() && 0 <= j < front.len() && i != j implies front[i]
            != front[j] by {
            assert(front[i] == ids[i] && front[j] == ids[j]);
        }
        lemma_vapis_value_insert(front, vapis, id, v);
        if ids.last() == id {
            if front.contains(id) {
                let i = front.index_of(id);
                assert(ids[i] == id);
            }
            assert(ids[ids.len() - 1] == id);
        } else {
            if ids.contains(id) {
                let i = ids.index_of(id);
                assert(front[i] == id);
            }
            if front.contains(id) {
                let i = front.index_of(id);
                assert(ids[i] == id);
            }
        }
    }
}

/// Adding one VAPI adds what it holds.
pub proof fn lemma_vapis_value_push(
    ids: Seq<Seq<char>>,
    vapis: Map<Seq<char>, Vapi>,
    id: Seq<char>,
    v: Vapi,
)
    requires
        ids.no_duplicates(),
        !ids.contains(id),
    ensures
        vapis_value(ids.push(id), vapis.insert(id, v)) == vapis_value(ids, vapis) + vapi_value(v),
{
    assert(ids.push(id).drop_last() =~= ids);
    lemma_vapis_value_insert(ids, vapis, id, v);
}

/// Replacing one pool changes what the pools hold by the difference of the
/// two, where the pool is among them, and not at all where it is not.
pub proof fn lemma_reviewers_value_insert(
    ids: Seq<Seq<char>>,
    reviewers: Map<Seq<char>, Reviewer>,
    id: Seq<char>,
    r: Reviewer,
)
    requires
        ids.no_duplicates(),
    ensures
        ids.contains(id) ==> reviewers_value(ids, reviewers.insert(id, r)) == reviewers_value(
            ids,
            reviewers,
        ) - reviewer_value(reviewers[id]) + reviewer_value(r),
        !ids.contains(id) ==> reviewers_value(ids, reviewers.insert(id, r)) == reviewers_value(
            ids,
            reviewers,
        ),
    decreases ids.len(),
{
    if ids.len() > 0 {
        let front = ids.drop_last();
        assert forall|i: int, j: int| 0 <= i < front.len() && 0 <= j < front.len() && i != j implies front[i]
            != front[j] by {
            assert(front[i] == ids[i] && front[j] == ids[j]);
        }
        lemma_reviewers_value_insert(front, reviewers, id, r);
        if ids.last() == id {
            if front.contains(id) {
                let i = front.index_of(id);
                assert(ids[i] == id);
            }
            assert(ids[ids.len() - 1] == id);
        } else {
            if ids.contains(id) {
                let i = ids.index_of(id);
                assert(front[i] == id);
            }
            if front.contains(id) {
                let i = front.index_of(id);
                assert(ids[i] == id);
            }
        }
    }
}

/// Adding one pool adds what it holds.
pub proof fn lemma_reviewers_value_push(
    ids: Seq<Seq<char>>,
    reviewers: Map<Seq<char>, Reviewer>,
    id: Seq<char>,
    r: Reviewer,
)
    requires
        ids.no_duplicates(),
        !ids.contains(id),
    ensures
        reviewers_value(ids.push(id), reviewers.insert(id, r)) == reviewers_value(ids, reviewers)
            + reviewer_value(r),
{
    assert(ids.push(id).drop_last() =~= ids);
    lemma_reviewers_value_insert(ids, reviewers, id, r);
}

/// Compounding adds to the VAPIs exactly the reward that it reinvests.
pub proof fn lemma_compound_from_value(
    listed: Seq<Seq<char>>,
    order: Seq<Seq<char>>,
    allocations: Map<Seq<char>, DepositInfo>,
    vapis: Map<Seq<char>, Vapi>,
    totals: CompoundTotals,
    i: int,
)
    requires
        0 <= i,
        lists(listed, vapis),
    ensures
        compound_from(order, allocations, vapis, totals, i) matches Ok((a, v, t)) ==> {
            &&& vapis_value(listed, v) == vapis_value(listed, vapis) + (t.reward - totals.reward)
            &&& t.reward >= totals.reward
            &&& t.royalty >= totals.royalty
        },
    decreases order.len() - i,
{
    if i < order.len() {
        match compound_step(allocations, vapis, totals, order[i]) {
            Err(e) => {},
            Ok((a1, v1, t1)) => {
                lemma_vapis_value_insert(listed, vapis, order[i], v1[order[i]]);
                assert(v1 =~= vapis.insert(order[i], v1[order[i]]));
                lemma_lists_insert(listed, vapis, order[i], v1[order[i]]);
                lemma_compound_from_value(listed, order, a1, v1, t1, i + 1);
            },
        }
    }
}

/// The reward that a stake in the VAPI `id` has earned against the VAPI's
/// accumulator, where that can be computed.
pub open spec fn allocation_reward(stake: DepositInfo, vapis: Map<Seq<char>, Vapi>, id: Seq<char>)
    -> int {
    if vapis.contains_key(id) {
        match pending_reward_spec(
            stake.deposit_amount,
            stake.reward_debt,
            vapis[id].acc_reward_per_share,
        ) {
            Ok(reward) => reward as int,
            Err(e) => 0,
        }
    } else {
        0
    }
}

/// The rewards that the allocations that `order` names from its place `i` on
/// have earned.
pub open spec fn rewards_from(
    order: Seq<Seq<char>>,
    allocations: Map<Seq<char>, DepositInfo>,
    vapis: Map<Seq<char>, Vapi>,
    i: int,
) -> int
    decreases order.len() - i,
{
    if i < 0 || i >= order.len() {
        0
    } else {
        allocation_reward(allocations[order[i]], vapis, order[i]) + rewards_from(
            order,
            allocations,
            vapis,
            i + 1,
        )
    }
}

/// What allocations have earned depends on their stakes and on the accumulators
/// of their VAPIs alone.
pub proof fn lemma_rewards_from_same(
    order: Seq<Seq<char>>,
    allocations: Map<Seq<char>, DepositInfo>,
    vapis: Map<Seq<char>, Vapi>,
    others: Map<Seq<char>, DepositInfo>,
    other_vapis: Map<Seq<char>, Vapi>,
    i: int,
)
    requires
        0 <= i,
        forall|j: int|
            i <= j < order.len() ==> {
                &&& others[#[trigger] order[j]] == allocations[order[j]]
                &&& other_vapis.contains_key(order[j]) == vapis.contains_key(order[j])
                &&& other_vapis[order[j]].acc_reward_per_share
                    == vapis[order[j]].acc_reward_per_share
            },
    ensures
        rewards_from(order, others, other_vapis, i) == rewards_from(order, allocations, vapis, i),
    decreases order.len() - i,
{
    if i < order.len() {
        assert(others[order[i]] == allocations[order[i]]);
        lemma_rewards_from_same(order, allocations, vapis, others, other_vapis, i + 1);
    }
}

/// Compounding realises exactly what the allocations have earned: the royalty
/// and the reward that is reinvested make up their rewards.
pub proof fn lemma_compound_from_realises(
    order: Seq<Seq<char>>,
    allocations: Map<Seq<char>, DepositInfo>,
    vapis: Map<Seq<char>, Vapi>,
    totals: CompoundTotals,
    i: int,
)
    requires
        0 <= i,
        order.no_duplicates(),
    ensures
        compound_from(order, allocations, vapis, totals, i) matches Ok((a, v, t)) ==> (t.royalty
            - totals.royalty) + (t.reward - totals.reward) == rewards_from(
            order,
            allocations,
            vapis,
            i,
        ),
    decreases order.len() - i,
{
    if i < order.len() {
        match compound_step(allocations, vapis, totals, order[i]) {
            Err(e) => {},
            Ok((a1, v1, t1)) => {
                lemma_compound_from_realises(order, a1, v1, t1, i + 1);
                assert forall|j: int| i + 1 <= j < order.len() implies {
                    &&& a1[#[trigger] order[j]] == allocations[order[j]]
                    &&& v1.contains_key(order[j]) == vapis.contains_key(order[j])
                    &&& v1[order[j]].acc_reward_per_share == vapis[order[j]].acc_reward_per_share
                } by {
                    assert(order[j] != order[i]);
                }
                lemma_rewards_from_same(order, allocations, vapis, a1, v1, i + 1);
            },
        }
    }
}

/// Drawing allocations down takes from the VAPIs exactly what it draws.
pub proof fn lemma_draw_from_value(
    listed: Seq<Seq<char>>,
    order: Seq<Seq<char>>,
    allocations: Map<Seq<char>, DepositInfo>,
    vapis: Map<Seq<char>, Vapi>,
    shortfall: u128,
    base: u128,
    acc: u128,
    remain: u128,
    i: int,
)
    requires
        0 <= i,
        lists(listed, vapis),
    ensures
        draw_from(order, allocations, vapis, shortfall, base, acc, remain, i) matches Ok(
            (a, v, rest),
        ) ==> vapis_value(listed, v) == vapis_value(listed, vapis) - (remain - rest) && rest
            <= remain,
    decreases order.len() - i,
{
    if i < order.len() {
        match draw_step(allocations, vapis, shortfall, base, acc, remain, order[i]) {
            Err(e) => {},
            Ok((a1, v1, rest1)) => {
                lemma_vapis_value_insert(listed, vapis, order[i], v1[order[i]]);
                assert(v1 =~= vapis.insert(order[i], v1[order[i]]));
                lemma_lists_insert(listed, vapis, order[i], v1[order[i]]);
                lemma_draw_from_value(listed, order, a1, v1, shortfall, base, acc, rest1, i + 1);
            },
        }
    }
}

/// Sweeping a residual takes from the VAPIs exactly what it resolves.
pub proof fn lemma_sweep_from_value(
    listed: Seq<Seq<char>>,
    order: Seq<Seq<char>>,
    allocations: Map<Seq<char>, DepositInfo>,
    vapis: Map<Seq<char>, Vapi>,
    residual: u128,
    acc: u128,
    i: int,
)
    requires
        0 <= i,
        lists(listed, vapis),
    ensures
        sweep_from(order, allocations, vapis, residual, acc, i) matches Ok((a, v, unresolved))
            ==> vapis_value(listed, v) == vapis_value(listed, vapis) - (residual - unresolved)
            && unresolved <= residual,
    decreases order.len() - i,
{
    if i < order.len() {
        if allocations[order[i]].deposit_amount >= residual {
            match sweep_step(allocations, vapis, residual, acc, order[i]) {
                Err(e) => {},
                Ok((a1, v1)) => {
                    lemma_vapis_value_insert(listed, vapis, order[i], v1[order[i]]);
                    assert(v1 =~= vapis.insert(order[i], v1[order[i]]));
                },
            }
        } else {
            lemma_sweep_from_value(listed, order, allocations, vapis, residual, acc, i + 1);
        }
    }
}

/// Releasing capital takes the amount from the unallocated balance and the
/// VAPIs together, less what stays unresolved.
pub proof fn lemma_release_capital_value(
    listed: Seq<Seq<char>>,
    order: Seq<Seq<char>>,
    allocations: Map<Seq<char>, DepositInfo>,
    vapis: Map<Seq<char>, Vapi>,
    pending: u128,
    total_delegator_capital: u128,
    amount: u128,
    acc: u128,
)
    requires
        lists(listed, vapis),
    ensures
        release_capital(
            order,
            allocations,
            vapis,
            pending,
            total_delegator_capital,
            amount,
            acc,
        ) matches Ok((a, v, p, unresolved)) ==> vapis_value(listed, v) + p == vapis_value(
            listed,
            vapis,
        ) + pending - amount + unresolved && unresolved <= amount,
{
    if pending < amount && total_delegator_capital >= pending {
        let base = (total_delegator_capital - pending) as u128;
        let shortfall = (amount - pending) as u128;
        lemma_draw_from_value(listed, order, allocations, vapis, shortfall, base, acc, shortfall, 0);
        match draw_from(order, allocations, vapis, shortfall, base, acc, shortfall, 0) {
            Err(e) => {},
            Ok((a, v, remain)) => {
                if remain != 0 {
                    lemma_draw_from_shape_vapis(
                        listed,
                        order,
                        allocations,
                        vapis,
                        shortfall,
                        base,
                        acc,
                        shortfall,
                        0,
                    );
                    lemma_sweep_from_value(listed, order, a, v, remain, acc, 0);
                }
            },
        }
    }
}

/// The revenue of the pairs from `k` on.
pub open spec fn revenue_from(amounts: Seq<u128>, k: int) -> int
    decreases amounts.len() - k,
{
    if k < 0 || k >= amounts.len() {
        0
    } else {
        amounts[k] + revenue_from(amounts, k + 1)
    }
}

/// What is to be burned of the revenue of the pairs from `k` on: one per cent
/// of each amount, rounded down.
pub open spec fn burned_from(amounts: Seq<u128>, k: int) -> int
    decreases amounts.len() - k,
{
    if k < 0 || k >= amounts.len() {
        0
    } else {
        amounts[k] * BURN_PERCENT / 100 + burned_from(amounts, k + 1)
    }
}

/// The part of the revenue of the pairs from `k` on that goes to stakers through
/// the accumulators of their VAPIs: the fee of each pair whose VAPI has capital
/// allocated into it.
pub open spec fn distributed_from(
    vapis: Map<Seq<char>, Vapi>,
    vapi_ids: Seq<Seq<char>>,
    amounts: Seq<u128>,
    k: int,
) -> int
    decreases vapi_ids.len() - k,
{
    if k < 0 || k >= vapi_ids.len() {
        0
    } else {
        let fee = amounts[k] * REVIEWER_FEE_PERCENT / 100;
        let staked = vapis.contains_key(vapi_ids[k]) && vapis[vapi_ids[k]].total_allocated != 0;
        (if staked { fee } else { 0 }) + distributed_from(vapis, vapi_ids, amounts, k + 1)
    }
}

/// What is distributed does not depend on what the coders hold or on where the
/// accumulators stand.
pub proof fn lemma_distributed_from_same(
    before: Map<Seq<char>, Vapi>,
    after: Map<Seq<char>, Vapi>,
    vapi_ids: Seq<Seq<char>>,
    amounts: Seq<u128>,
    k: int,
)
    requires
        0 <= k,
        same_keys(before, after),
        forall|id: Seq<char>|
            before.contains_key(id) ==> (#[trigger] after[id]).total_allocated
                == before[id].total_allocated,
    ensures
        distributed_from(after, vapi_ids, amounts, k) == distributed_from(
            before,
            vapi_ids,
            amounts,
            k,
        ),
    decreases vapi_ids.len() - k,
{
    if k < vapi_ids.len() {
        lemma_distributed_from_same(before, after, vapi_ids, amounts, k + 1);
    }
}

/// Booking revenue splits it without remainder: what the VAPIs' coders are
/// credited, what goes to the treasury, what is to be burned and what is
/// distributed through the accumulators make up the revenue.
pub proof fn lemma_settle_from_value(
    listed: Seq<Seq<char>>,
    vapis: Map<Seq<char>, Vapi>,
    vapi_ids: Seq<Seq<char>>,
    amounts: Seq<u128>,
    totals: SettleTotals,
    k: int,
)
    requires
        0 <= k,
        lists(listed, vapis),
        vapi_ids.len() == amounts.len(),
    ensures
        settle_from(vapis, vapi_ids, amounts, totals, k) matches Ok((v, t)) ==> {
            &&& vapis_value(listed, v) + t.treasury + t.burn + distributed_from(
                vapis,
                vapi_ids,
                amounts,
                k,
            ) == vapis_value(listed, vapis) + totals.treasury + totals.burn + revenue_from(
                amounts,
                k,
            )
            &&& t.burn == totals.burn + burned_from(amounts, k)
        },
    decreases vapi_ids.len() - k,
{
    if k < vapi_ids.len() {
        match settle_step(vapis, vapi_ids[k], amounts[k], totals) {
            Err(e) => {},
            Ok((v1, t1)) => {
                let id = vapi_ids[k];
                lemma_vapis_value_insert(listed, vapis, id, v1[id]);
                assert(v1 =~= vapis.insert(id, v1[id]));
                lemma_lists_insert(listed, vapis, id, v1[id]);
                lemma_distributed_from_same(vapis, v1, vapi_ids, amounts, k + 1);
                lemma_settle_from_value(listed, v1, vapi_ids, amounts, t1, k + 1);
            },
        }
    }
}

/// The capital of the allocations that `order` names from its place `i` on.
pub open spec fn allocated_from(
    order: Seq<Seq<char>>,
    allocations: Map<Seq<char>, DepositInfo>,
    i: int,
) -> int
    decreases order.len() - i,
{
    if i < 0 || i >= order.len() {
        0
    } else {
        allocations[order[i]].deposit_amount + allocated_from(order, allocations, i + 1)
    }
}

/// Replacing an allocation does not change the capital of those that are named
/// after it.
pub proof fn lemma_allocated_from_insert(
    order: Seq<Seq<char>>,
    allocations: Map<Seq<char>, DepositInfo>,
    i: int,
    stake: DepositInfo,
    k: int,
)
    requires
        order.no_duplicates(),
        0 <= i < k,
        i < order.len(),
    ensures
        allocated_from(order, allocations.insert(order[i], stake), k) == allocated_from(
            order,
            allocations,
            k,
        ),
    decreases order.len() - k,
{
    if k < order.len() {
        assert(order[k] != order[i]);
        lemma_allocated_from_insert(order, allocations, i, stake, k + 1);
    }
}

/// A quotient that is rounded down falls short of the exact one by less than
/// one.
pub proof fn lemma_floor_loss(x: int, d: int)
    by (nonlinear_arith)
    requires
        0 <= x,
        0 < d,
    ensures
        d * (x / d) >= x - (d - 1),
        d * (x / d) <= x,
{
}

/// Drawing allocations down loses less than one unit to rounding for each: of
/// the exact shares of the allocations from `i` on, what is drawn falls short
/// by less than their number.
pub proof fn lemma_draw_from_rounding(
    order: Seq<Seq<char>>,
    allocations: Map<Seq<char>, DepositInfo>,
    vapis: Map<Seq<char>, Vapi>,
    shortfall: u128,
    base: u128,
    acc: u128,
    remain: u128,
    i: int,
)
    requires
        0 <= i <= order.len(),
        order.no_duplicates(),
    ensures
        draw_from(order, allocations, vapis, shortfall, base, acc, remain, i) matches Ok(
            (a, v, rest),
        ) ==> base * (remain - rest) >= shortfall * allocated_from(order, allocations, i) - (
        order.len() - i) * (base - 1),
    decreases order.len() - i,
{
    if i < order.len() {
        match draw_step(allocations, vapis, shortfall, base, acc, remain, order[i]) {
            Err(e) => {},
            Ok((a1, v1, rest1)) => {
                lemma_draw_from_rounding(order, a1, v1, shortfall, base, acc, rest1, i + 1);
                lemma_allocated_from_insert(order, allocations, i, a1[order[i]], i + 1);
                assert(a1 =~= allocations.insert(order[i], a1[order[i]]));
                let c = allocations[order[i]].deposit_amount as int;
                let s = shortfall as int;
                let b = base as int;
                let tail = allocated_from(order, allocations, i + 1);
                let n = order.len() - i;
                lemma_mul_div_spec(shortfall, allocations[order[i]].deposit_amount, base);
                assert(s * c >= 0) by (nonlinear_arith)
                    requires
                        s >= 0,
                        c >= 0,
                ;
                lemma_floor_loss(s * c, b);
                let rest = if i + 1 >= order.len() {
                    rest1
                } else {
                    draw_from(order, a1, v1, shortfall, base, acc, rest1, i + 1).unwrap().2
                };
                if draw_from(order, allocations, vapis, shortfall, base, acc, remain, i) is Ok {
                    assert(draw_from(order, a1, v1, shortfall, base, acc, rest1, i + 1) is Ok);
                    assert(b * (remain - rest) == b * (remain - rest1) + b * (rest1 - rest))
                        by (nonlinear_arith);
                    assert(s * (c + tail) == s * c + s * tail) by (nonlinear_arith);
                    assert(n * (b - 1) == (b - 1) + (n - 1) * (b - 1)) by (nonlinear_arith);
                }
            },
        }
    } else {
        assert(base * (remain - remain) == 0) by (nonlinear_arith);
        assert((order.len() - i) * (base - 1) == 0) by (nonlinear_arith)
            requires
                order.len() - i == 0,
        ;
        assert(shortfall * allocated_from(order, allocations, i) == 0) by (nonlinear_arith)
            requires
                allocated_from(order, allocations, i) == 0,
        ;
    }
}

/// The loss of a refund to rounding is bounded by the number of allocations:
/// where the allocations hold at least the capital that the shares are taken
/// of, what stays unresolved of the amount is less than their number.
pub proof fn lemma_residual_bounded(
    listed: Seq<Seq<char>>,
    order: Seq<Seq<char>>,
    allocations: Map<Seq<char>, DepositInfo>,
    vapis: Map<Seq<char>, Vapi>,
    pending: u128,
    total_delegator_capital: u128,
    amount: u128,
    acc: u128,
)
    requires
        lists(listed, vapis),
        order.no_duplicates(),
        pending < total_delegator_capital,
        allocated_from(order, allocations, 0) >= total_delegator_capital - pending,
    ensures
        release_capital(
            order,
            allocations,
            vapis,
            pending,
            total_delegator_capital,
            amount,
            acc,
        ) matches Ok((a, v, p, unresolved)) ==> unresolved < order.len(),
{
    assert(order.len() > 0);
    if pending < amount {
        let base = (total_delegator_capital - pending) as u128;
        let shortfall = (amount - pending) as u128;
        lemma_draw_from_rounding(order, allocations, vapis, shortfall, base, acc, shortfall, 0);
        match draw_from(order, allocations, vapis, shortfall, base, acc, shortfall, 0) {
            Err(e) => {},
            Ok((a, v, remain)) => {
                let n = order.len() as int;
                let b = base as int;
                let s = shortfall as int;
                let c = allocated_from(order, allocations, 0);
                assert(s * c >= s * b) by (nonlinear_arith)
                    requires
                        c >= b,
                        s >= 0,
                ;
                assert(b * (s - remain) == s * b - b * remain) by (nonlinear_arith);
                assert(n * (b - 1) == n * b - n) by (nonlinear_arith);
                assert(remain < n) by (nonlinear_arith)
                    requires
                        b * remain <= n * b - n,
                        b > 0,
                        n > 0,
                ;
                if remain != 0 {
                    lemma_draw_from_shape_vapis(
                        listed,
                        order,
                        allocations,
                        vapis,
                        shortfall,
                        base,
                        acc,
                        shortfall,
                        0,
                    );
                    lemma_sweep_from_value(listed, order, a, v, remain, acc, 0);
                }
            },
        }
    }
}

/// No one of `order` from its place `i` on is `id`.
pub open spec fn not_named_from(order: Seq<Seq<char>>, i: int, id: Seq<char>) -> bool {
    forall|j: int| i <= j < order.len() ==> #[trigger] order[j] != id
}

/// Drawing allocations down takes from the allocations exactly what it draws,
/// and leaves alone those that it does not come to.
pub proof fn lemma_draw_from_allocated(
    order: Seq<Seq<char>>,
    allocations: Map<Seq<char>, DepositInfo>,
    vapis: Map<Seq<char>, Vapi>,
    shortfall: u128,
    base: u128,
    acc: u128,
    remain: u128,
    i: int,
)
    requires
        0 <= i,
        order.no_duplicates(),
    ensures
        draw_from(order, allocations, vapis, shortfall, base, acc, remain, i) matches Ok(
            (a, v, rest),
        ) ==> {
            &&& allocated_from(order, a, i) == allocated_from(order, allocations, i) - (remain
                - rest)
            &&& rest <= remain
            &&& forall|id: Seq<char>|
                not_named_from(order, i, id) ==> #[trigger] a[id] == allocations[id]
        },
    decreases order.len() - i,
{
    if i < order.len() {
        match draw_step(allocations, vapis, shortfall, base, acc, remain, order[i]) {
            Err(e) => {},
            Ok((a1, v1, rest1)) => {
                lemma_draw_from_allocated(order, a1, v1, shortfall, base, acc, rest1, i + 1);
                lemma_allocated_from_insert(order, allocations, i, a1[order[i]], i + 1);
                assert(a1 =~= allocations.insert(order[i], a1[order[i]]));
                assert(not_named_from(order, i + 1, order[i]));
                assert forall|id: Seq<char>| not_named_from(order, i, id) implies not_named_from(
                    order,
                    i + 1,
                    id,
                ) && id != order[i] by {}
            },
        }
    }
}

/// Sweeping a residual takes from the allocations exactly what it resolves, and
/// resolves the whole residual where an allocation holds that much.
pub proof fn lemma_sweep_from_allocated(
    order: Seq<Seq<char>>,
    allocations: Map<Seq<char>, DepositInfo>,
    vapis: Map<Seq<char>, Vapi>,
    residual: u128,
    acc: u128,
    i: int,
)
    requires
        0 <= i,
        order.no_duplicates(),
    ensures
        sweep_from(order, allocations, vapis, residual, acc, i) matches Ok((a, v, unresolved))
            ==> {
            &&& allocated_from(order, a, i) == allocated_from(order, allocations, i) - (residual
                - unresolved)
            &&& unresolved == 0 || unresolved == residual
            &&& unresolved != 0 ==> forall|j: int|
                i <= j < order.len() ==> allocations[#[trigger] order[j]].deposit_amount < residual
            &&& forall|id: Seq<char>|
                not_named_from(order, i, id) ==> #[trigger] a[id] == allocations[id]
        },
    decreases order.len() - i,
{
    if i < order.len() {
        if allocations[order[i]].deposit_amount >= residual {
            match sweep_step(allocations, vapis, residual, acc, order[i]) {
                Err(e) => {},
                Ok((a1, v1)) => {
                    lemma_allocated_from_insert(order, allocations, i, a1[order[i]], i + 1);
                    assert(a1 =~= allocations.insert(order[i], a1[order[i]]));
                },
            }
        } else {
            lemma_sweep_from_allocated(order, allocations, vapis, residual, acc, i + 1);
            assert(not_named_from(order, i + 1, order[i]));
            assert forall|id: Seq<char>| not_named_from(order, i, id) implies not_named_from(
                order,
                i + 1,
                id,
            ) by {}
        }
    }
}

/// What is drawn for a refund where the unallocated balance falls short: the
/// allocations as the drawing leaves them, before the residual is swept.
pub open spec fn drawn_allocations(
    order: Seq<Seq<char>>,
    allocations: Map<Seq<char>, DepositInfo>,
    vapis: Map<Seq<char>, Vapi>,
    pending: u128,
    total_delegator_capital: u128,
    amount: u128,
    acc: u128,
) -> Map<Seq<char>, DepositInfo> {
    match draw_from(
        order,
        allocations,
        vapis,
        (amount - pending) as u128,
        (total_delegator_capital - pending) as u128,
        acc,
        (amount - pending) as u128,
        0,
    ) {
        Ok((a, v, remain)) => a,
        Err(e) => allocations,
    }
}

/// What rounding leaves of the shortfall once the shares are drawn, where the
/// unallocated balance falls short.
pub open spec fn drawn_residual(
    order: Seq<Seq<char>>,
    allocations: Map<Seq<char>, DepositInfo>,
    vapis: Map<Seq<char>, Vapi>,
    pending: u128,
    total_delegator_capital: u128,
    amount: u128,
    acc: u128,
) -> u128 {
    match draw_from(
        order,
        allocations,
        vapis,
        (amount - pending) as u128,
        (total_delegator_capital - pending) as u128,
        acc,
        (amount - pending) as u128,
        0,
    ) {
        Ok((a, v, remain)) => remain,
        Err(e) => 0,
    }
}

/// Releasing capital takes the amount from the unallocated balance and the
/// allocations together, less what stays unresolved. Something stays
/// unresolved only where the unallocated balance falls short and no allocation
/// holds, once the shares are drawn, as much as rounding has left; it is then
/// all that rounding has left.
pub proof fn lemma_release_capital_allocated(
    order: Seq<Seq<char>>,
    allocations: Map<Seq<char>, DepositInfo>,
    vapis: Map<Seq<char>, Vapi>,
    pending: u128,
    total_delegator_capital: u128,
    amount: u128,
    acc: u128,
)
    requires
        order.no_duplicates(),
    ensures
        release_capital(
            order,
            allocations,
            vapis,
            pending,
            total_delegator_capital,
            amount,
            acc,
        ) matches Ok((a, v, p, unresolved)) ==> {
            &&& allocated_from(order, a, 0) + p == allocated_from(order, allocations, 0) + pending
                - amount + unresolved
            &&& unresolved <= amount
            &&& unresolved != 0 ==> pending < amount && unresolved == drawn_residual(
                order,
                allocations,
                vapis,
                pending,
                total_delegator_capital,
                amount,
                acc,
            ) && forall|j: int|
                0 <= j < order.len() ==> drawn_allocations(
                    order,
                    allocations,
                    vapis,
                    pending,
                    total_delegator_capital,
                    amount,
                    acc,
                )[#[trigger] order[j]].deposit_amount < unresolved
        },
{
    if pending < amount && total_delegator_capital >= pending {
        let base = (total_delegator_capital - pending) as u128;
        let shortfall = (amount - pending) as u128;
        lemma_draw_from_allocated(order, allocations, vapis, shortfall, base, acc, shortfall, 0);
        match draw_from(order, allocations, vapis, shortfall, base, acc, shortfall, 0) {
            Err(e) => {},
            Ok((a, v, remain)) => {
                let drawn = drawn_allocations(
                    order,
                    allocations,
                    vapis,
                    pending,
                    total_delegator_capital,
                    amount,
                    acc,
                );
                assert(drawn == a);
                if remain != 0 {
                    lemma_sweep_from_allocated(order, a, v, remain, acc, 0);
                }
            },
        }
    }
}

} // verus!
