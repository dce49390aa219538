//! Every operation keeps a well-formed ledger well formed, and changes neither
//! which records there are nor, behind an allocation, anything of a VAPI but
//! what is allocated into it.

use vstd::prelude::*;
use crate::keyed::swap_removed;
use crate::model::{lists, Ledger, Reviewer, Vapi};
use crate::transitions::{
    compound_from, compound_step, draw_from, draw_step, release_capital, settle_from, settle_step,
    sweep_from, CompoundTotals, SettleTotals,
};
use crate::types::{DelegatorInfo, DepositInfo};

verus! {

/// Both maps have the same keys.
pub open spec fn same_keys<V>(before: Map<Seq<char>, V>, after: Map<Seq<char>, V>) -> bool {
    forall|id: Seq<char>|
        #![trigger before.contains_key(id)]
        #![trigger after.contains_key(id)]
        before.contains_key(id) <==> after.contains_key(id)
}

/// `after` holds the VAPIs of `before`, each as it was but for what is
/// allocated into it.
pub open spec fn only_allocated_differs(
    before: Map<Seq<char>, Vapi>,
    after: Map<Seq<char>, Vapi>,
) -> bool {
    &&& same_keys(before, after)
    &&& forall|id: Seq<char>|
        before.contains_key(id) ==> #[trigger] after[id] == (Vapi {
            total_allocated: after[id].total_allocated,
            ..before[id]
        })
}

/// Every one of `order` is a key of `map`.
pub open spec fn all_listed<V>(order: Seq<Seq<char>>, map: Map<Seq<char>, V>) -> bool {
    forall|j: int| 0 <= j < order.len() ==> map.contains_key(#[trigger] order[j])
}

/// A list still names each key once where the value under a key is replaced.
pub proof fn lemma_lists_insert<V>(ids: Seq<Seq<char>>, map: Map<Seq<char>, V>, id: Seq<char>, v: V)
    requires
        lists(ids, map),
        map.contains_key(id),
    ensures
        lists(ids, map.insert(id, v)),
{
}

/// A list still names each key once where a value is added under a new key,
/// which is put at the end of the list.
pub proof fn lemma_lists_push<V>(ids: Seq<Seq<char>>, map: Map<Seq<char>, V>, id: Seq<char>, v: V)
    requires
        lists(ids, map),
        !map.contains_key(id),
    ensures
        lists(ids.push(id), map.insert(id, v)),
{
    let ids2 = ids.push(id);
    assert forall|i: int, j: int| 0 <= i < ids2.len() && 0 <= j < ids2.len() && i != j implies ids2[i]
        != ids2[j] by {
        if i < ids.len() {
            assert(ids.contains(ids[i]));
        }
        if j < ids.len() {
            assert(ids.contains(ids[j]));
        }
    }
    assert forall|x: Seq<char>| map.insert(id, v).contains_key(x) <==> ids2.contains(x) by {
        if ids2.contains(x) {
            let i = ids2.index_of(x);
            if i < ids.len() {
                assert(ids[i] == x);
                assert(ids.contains(x));
            }
        }
        if ids.contains(x) {
            let i = ids.index_of(x);
            assert(ids2[i] == x);
        }
        if x == id {
            assert(ids2[ids.len() as int] == id);
        }
    }
}

/// A list still names each key once where a key is removed, and its place in
/// the list is taken by the last of the list.
pub proof fn lemma_lists_swap_remove<V>(
    ids: Seq<Seq<char>>,
    map: Map<Seq<char>, V>,
    id: Seq<char>,
)
    requires
        lists(ids, map),
        map.contains_key(id),
    ensures
        lists(swap_removed(ids, ids.index_of(id)), map.remove(id)),
{
    assert(ids.contains(id));
    let i = ids.index_of(id);
    let ids2 = swap_removed(ids, i);
    let last = ids.len() - 1;
    assert forall|a: int, b: int| 0 <= a < ids2.len() && 0 <= b < ids2.len() && a != b implies ids2[a]
        != ids2[b] by {
        let a0 = if a == i { last } else { a };
        let b0 = if b == i { last } else { b };
        assert(ids2[a] == ids[a0]);
        assert(ids2[b] == ids[b0]);
    }
    assert forall|x: Seq<char>| map.remove(id).contains_key(x) <==> ids2.contains(x) by {
        if ids2.contains(x) {
            let a = ids2.index_of(x);
            let a0 = if a == i { last } else { a };
            assert(ids2[a] == ids[a0]);
            assert(ids.contains(x));
            assert(a0 != i);
        }
        if ids.contains(x) && x != id {
            let a0 = ids.index_of(x);
            let a = if a0 == last { i } else { a0 };
            assert(ids2[a] == ids[a0]);
            assert(ids2[a] == x);
        }
    }
}

/// Compounding changes neither which allocations nor which VAPIs there are,
/// nor any VAPI but in what is allocated into it.
pub proof fn lemma_compound_from_shape(
    order: Seq<Seq<char>>,
    allocations: Map<Seq<char>, DepositInfo>,
    vapis: Map<Seq<char>, Vapi>,
    totals: CompoundTotals,
    i: int,
)
    requires
        0 <= i,
        all_listed(order, allocations),
    ensures
        compound_from(order, allocations, vapis, totals, i) matches Ok((a, v, t)) ==> same_keys(
            allocations,
            a,
        ) && only_allocated_differs(vapis, v),
    decreases order.len() - i,
{
    if i < order.len() {
        match compound_step(allocations, vapis, totals, order[i]) {
            Err(e) => {},
            Ok((a1, v1, t1)) => {
                assert(allocations.contains_key(order[i]));
                assert(all_listed(order, a1)) by {
                    assert forall|j: int| 0 <= j < order.len() implies a1.contains_key(
                        #[trigger] order[j],
                    ) by {
                        assert(allocations.contains_key(order[j]));
                    }
                }
                lemma_compound_from_shape(order, a1, v1, t1, i + 1);
            },
        }
    }
}

/// Drawing allocations down changes neither which allocations nor which VAPIs
/// there are, nor any VAPI but in what is allocated into it.
pub proof fn lemma_draw_from_shape(
    order: Seq<Seq<char>>,
    allocations: Map<Seq<char>, DepositInfo>,
    vapis: Map<Seq<char>, Vapi>,
    shortfall: u128,
    base: u128,
    acc: u128,
    remain: u128,
    i: int,
)
    requires
        0 <= i,
        all_listed(order, allocations),
    ensures
        draw_from(order, allocations, vapis, shortfall, base, acc, remain, i) matches Ok(
            (a, v, rest),
        ) ==> same_keys(allocations, a) && only_allocated_differs(vapis, v),
    decreases order.len() - i,
{
    if i < order.len() {
        match draw_step(allocations, vapis, shortfall, base, acc, remain, order[i]) {
            Err(e) => {},
            Ok((a1, v1, rest1)) => {
                assert(allocations.contains_key(order[i]));
                assert(all_listed(order, a1)) by {
                    assert forall|j: int| 0 <= j < order.len() implies a1.contains_key(
                        #[trigger] order[j],
                    ) by {
                        assert(allocations.contains_key(order[j]));
                    }
                }
                lemma_draw_from_shape(order, a1, v1, shortfall, base, acc, rest1, i + 1);
            },
        }
    }
}

/// Drawing allocations down leaves a list of the VAPIs a list of them.
pub proof fn lemma_draw_from_shape_vapis(
    listed: Seq<Seq<char>>,
    order: Seq<Seq<char>>,
    allocations: Map<Seq<char>, DepositInfo>,
    vapis: Map<Seq<char>, Vapi>,
    shortfall: u128,
    base: u128,
    acc: u128,
    remain: u128,
    i: int,
)
    requires
        0 <= i,
        lists(listed, vapis),
    ensures
        draw_from(order, allocations, vapis, shortfall, base, acc, remain, i) matches Ok(
            (a, v, rest),
        ) ==> lists(listed, v),
    decreases order.len() - i,
{
    if i < order.len() {
        match draw_step(allocations, vapis, shortfall, base, acc, remain, order[i]) {
            Err(e) => {},
            Ok((a1, v1, rest1)) => {
                lemma_draw_from_shape_vapis(
                    listed,
                    order,
                    a1,
                    v1,
                    shortfall,
                    base,
                    acc,
                    rest1,
                    i + 1,
                );
            },
        }
    }
}

/// Sweeping a residual changes neither which allocations nor which VAPIs there
/// are, nor any VAPI but in what is allocated into it.
pub proof fn lemma_sweep_from_shape(
    order: Seq<Seq<char>>,
    allocations: Map<Seq<char>, DepositInfo>,
    vapis: Map<Seq<char>, Vapi>,
    residual: u128,
    acc: u128,
    i: int,
)
    requires
        0 <= i,
        all_listed(order, allocations),
    ensures
        sweep_from(order, allocations, vapis, residual, acc, i) matches Ok((a, v, unresolved))
            ==> same_keys(allocations, a) && only_allocated_differs(vapis, v),
    decreases order.len() - i,
{
    if i < order.len() {
        assert(allocations.contains_key(order[i]));
        if allocations[order[i]].deposit_amount < residual {
            lemma_sweep_from_shape(order, allocations, vapis, residual, acc, i + 1);
        }
    }
}

/// Releasing capital changes neither which allocations nor which VAPIs there
/// are, nor any VAPI but in what is allocated into it.
pub proof fn lemma_release_capital_shape(
    order: Seq<Seq<char>>,
    allocations: Map<Seq<char>, DepositInfo>,
    vapis: Map<Seq<char>, Vapi>,
    pending: u128,
    total_delegator_capital: u128,
    amount: u128,
    acc: u128,
)
    requires
        all_listed(order, allocations),
    ensures
        release_capital(
            order,
            allocations,
            vapis,
            pending,
            total_delegator_capital,
            amount,
            acc,
        ) matches Ok((a, v, p, unresolved)) ==> same_keys(allocations, a)
            && only_allocated_differs(vapis, v),
{
    if pending < amount && total_delegator_capital >= pending {
        let base = (total_delegator_capital - pending) as u128;
        let shortfall = (amount - pending) as u128;
        lemma_draw_from_shape(order, allocations, vapis, shortfall, base, acc, shortfall, 0);
        match draw_from(order, allocations, vapis, shortfall, base, acc, shortfall, 0) {
            Err(e) => {},
            Ok((a, v, remain)) => {
                if remain != 0 {
                    assert(all_listed(order, a)) by {
                        assert forall|j: int| 0 <= j < order.len() implies a.contains_key(
                            #[trigger] order[j],
                        ) by {
                            assert(allocations.contains_key(order[j]));
                        }
                    }
                    lemma_sweep_from_shape(order, a, v, remain, acc, 0);
                }
            },
        }
    }
}

/// Booking revenue changes neither which VAPIs there are, nor their coders,
/// nor what is allocated into them, and lowers neither an accumulator nor what
/// a coder has earned.
pub proof fn lemma_settle_from_shape(
    vapis: Map<Seq<char>, Vapi>,
    vapi_ids: Seq<Seq<char>>,
    amounts: Seq<u128>,
    totals: SettleTotals,
    k: int,
)
    requires
        0 <= k,
    ensures
        settle_from(vapis, vapi_ids, amounts, totals, k) matches Ok((v, t)) ==> {
            &&& same_keys(vapis, v)
            &&& forall|id: Seq<char>|
                vapis.contains_key(id) ==> {
                    &&& #[trigger] v[id] == (Vapi {
                        unclaimed_reward: v[id].unclaimed_reward,
                        acc_reward_per_share: v[id].acc_reward_per_share,
                        ..vapis[id]
                    })
                    &&& v[id].acc_reward_per_share >= vapis[id].acc_reward_per_share
                    &&& v[id].unclaimed_reward >= vapis[id].unclaimed_reward
                }
        },
    decreases vapi_ids.len() - k,
{
    if k < vapi_ids.len() {
        match settle_step(vapis, vapi_ids[k], amounts[k], totals) {
            Err(e) => {},
            Ok((v1, t1)) => {
                lemma_settle_from_shape(v1, vapi_ids, amounts, t1, k + 1);
            },
        }
    }
}

/// A pool that is well formed names each of its allocations in its order of
/// release.
pub proof fn lemma_wf_all_listed(r: Reviewer)
    requires
        r.wf(),
    ensures
        all_listed(r.allocation_ids, r.allocations),
{
    assert forall|j: int| 0 <= j < r.allocation_ids.len() implies r.allocations.contains_key(
        #[trigger] r.allocation_ids[j],
    ) by {
        assert(r.allocation_ids.contains(r.allocation_ids[j]));
    }
}

/// A well-formed ledger stays well formed where its VAPIs keep their keys and
/// one pool is replaced by a well-formed one.
pub proof fn lemma_replace_reviewer(
    s: Ledger,
    vapis: Map<Seq<char>, Vapi>,
    reviewer_id: Seq<char>,
    r: Reviewer,
)
    requires
        s.wf(),
        same_keys(s.vapis, vapis),
        s.reviewers.contains_key(reviewer_id),
        r.wf(),
    ensures
        (Ledger { vapis, reviewers: s.reviewers.insert(reviewer_id, r), ..s }).wf(),
{
    let after = Ledger { vapis, reviewers: s.reviewers.insert(reviewer_id, r), ..s };
    assert forall|id: Seq<char>| after.reviewers.contains_key(id) implies (
    #[trigger] after.reviewers[id]).wf() by {
        if id != reviewer_id {
            assert(s.reviewers[id].wf());
        }
    }
}

/// A pool stays well formed where the stakes of its allocations change and
/// nothing else of its allocations does.
pub proof fn lemma_same_allocations_wf(
    r: Reviewer,
    allocations: Map<Seq<char>, DepositInfo>,
    after: Reviewer,
)
    requires
        r.wf(),
        same_keys(r.allocations, allocations),
        after.allocation_ids == r.allocation_ids,
        after.allocations == allocations,
    ensures
        after.wf(),
{
}

/// Compounding keeps a well-formed ledger well formed, and the pool in it.
pub proof fn lemma_compound_wf(s: Ledger, reviewer_id: Seq<char>)
    requires
        s.wf(),
        s.compound(reviewer_id) is Ok,
    ensures
        s.compound(reviewer_id).unwrap().wf(),
        s.compound(reviewer_id).unwrap().reviewers.contains_key(reviewer_id),
        s.compound(reviewer_id).unwrap().vapi_ids == s.vapi_ids,
        s.compound(reviewer_id).unwrap().reviewer_ids == s.reviewer_ids,
{
    let r = s.reviewers[reviewer_id];
    let after = s.compound(reviewer_id).unwrap();
    assert(r.wf());
    lemma_wf_all_listed(r);
    lemma_compound_from_shape(
        r.allocation_ids,
        r.allocations,
        s.vapis,
        CompoundTotals { royalty: 0, reward: 0 },
        0,
    );
    lemma_same_allocations_wf(r, after.reviewers[reviewer_id].allocations, after.reviewers[reviewer_id]);
    lemma_replace_reviewer(s, after.vapis, reviewer_id, after.reviewers[reviewer_id]);
    assert(after =~= (Ledger {
        vapis: after.vapis,
        reviewers: s.reviewers.insert(reviewer_id, after.reviewers[reviewer_id]),
        ..s
    }));
}

/// Allocating into a VAPI keeps a well-formed ledger well formed.
pub proof fn lemma_deposit_to_vapi_wf(
    s: Ledger,
    caller: Seq<char>,
    vapi_id: Seq<char>,
    amount: u128,
)
    requires
        s.wf(),
        s.deposit_to_vapi(caller, vapi_id, amount) is Ok,
    ensures
        s.deposit_to_vapi(caller, vapi_id, amount).unwrap().wf(),
{
    let after = s.deposit_to_vapi(caller, vapi_id, amount).unwrap();
    let r = s.reviewers[caller];
    let r2 = after.reviewers[caller];
    assert(r.wf());
    if r.allocations.contains_key(vapi_id) {
        lemma_lists_insert(r.allocation_ids, r.allocations, vapi_id, r2.allocations[vapi_id]);
    } else {
        lemma_lists_push(r.allocation_ids, r.allocations, vapi_id, r2.allocations[vapi_id]);
    }
    lemma_replace_reviewer(s, after.vapis, caller, r2);
    assert(after =~= (Ledger {
        vapis: after.vapis,
        reviewers: s.reviewers.insert(caller, r2),
        ..s
    }));
}

/// Withdrawing from a VAPI keeps a well-formed ledger well formed.
pub proof fn lemma_withdraw_settled_wf(
    s: Ledger,
    caller: Seq<char>,
    vapi_id: Seq<char>,
    amount: u128,
)
    requires
        s.wf(),
        s.withdraw_settled(caller, vapi_id, amount) is Ok,
    ensures
        s.withdraw_settled(caller, vapi_id, amount).unwrap().wf(),
{
    let after = s.withdraw_settled(caller, vapi_id, amount).unwrap();
    let r = s.reviewers[caller];
    let r2 = after.reviewers[caller];
    assert(r.wf());
    if r.allocations[vapi_id].deposit_amount == amount {
        lemma_lists_swap_remove(r.allocation_ids, r.allocations, vapi_id);
    } else {
        lemma_lists_insert(r.allocation_ids, r.allocations, vapi_id, r2.allocations[vapi_id]);
    }
    lemma_replace_reviewer(s, after.vapis, caller, r2);
    assert(after =~= (Ledger {
        vapis: after.vapis,
        reviewers: s.reviewers.insert(caller, r2),
        ..s
    }));
}

/// A well-formed ledger stays well formed where the delegators of one pool
/// are replaced.
pub proof fn lemma_with_delegators_wf(
    s: Ledger,
    reviewer_id: Seq<char>,
    delegators: Map<Seq<char>, DelegatorInfo>,
)
    requires
        s.wf(),
        s.reviewers.contains_key(reviewer_id),
    ensures
        s.with_delegators(reviewer_id, delegators).wf(),
{
    assert(s.reviewers[reviewer_id].wf());
    lemma_replace_reviewer(
        s,
        s.vapis,
        reviewer_id,
        Reviewer { delegators, ..s.reviewers[reviewer_id] },
    );
    assert(s.with_delegators(reviewer_id, delegators) =~= (Ledger {
        vapis: s.vapis,
        reviewers: s.reviewers.insert(
            reviewer_id,
            Reviewer { delegators, ..s.reviewers[reviewer_id] },
        ),
        ..s
    }));
}

/// Staking into a pool keeps a well-formed ledger well formed.
pub proof fn lemma_deposit_to_reviewer_wf(
    s: Ledger,
    sender: Seq<char>,
    reviewer_id: Seq<char>,
    amount: u128,
)
    requires
        s.wf(),
        s.deposit_to_reviewer(sender, reviewer_id, amount) is Ok,
    ensures
        s.deposit_to_reviewer(sender, reviewer_id, amount).unwrap().wf(),
{
    let after = s.deposit_to_reviewer(sender, reviewer_id, amount).unwrap();
    assert(s.reviewers[reviewer_id].wf());
    lemma_replace_reviewer(s, s.vapis, reviewer_id, after.reviewers[reviewer_id]);
    assert(after =~= (Ledger {
        vapis: s.vapis,
        reviewers: s.reviewers.insert(reviewer_id, after.reviewers[reviewer_id]),
        ..s
    }));
}

/// Asking for a refund keeps a well-formed ledger well formed.
pub proof fn lemma_refund_settled_wf(
    s: Ledger,
    caller: Seq<char>,
    reviewer_id: Seq<char>,
    amount: u128,
    now: u64,
)
    requires
        s.wf(),
        s.refund_settled(caller, reviewer_id, amount, now) is Ok,
    ensures
        s.refund_settled(caller, reviewer_id, amount, now).unwrap().0.wf(),
{
    let after = s.refund_settled(caller, reviewer_id, amount, now).unwrap().0;
    let r = s.reviewers[reviewer_id];
    let r2 = after.reviewers[reviewer_id];
    assert(r.wf());
    lemma_wf_all_listed(r);
    lemma_release_capital_shape(
        r.allocation_ids,
        r.allocations,
        s.vapis,
        r.pending,
        r.total_delegator_capital,
        amount,
        r.acc_reward_per_share,
    );
    lemma_same_allocations_wf(r, r2.allocations, r2);
    lemma_replace_reviewer(s, after.vapis, reviewer_id, r2);
    assert(after =~= (Ledger {
        vapis: after.vapis,
        reviewers: s.reviewers.insert(reviewer_id, r2),
        ..s
    }));
}

/// Claiming a refund keeps a well-formed ledger well formed.
pub proof fn lemma_claim_refund_wf(s: Ledger, caller: Seq<char>, reviewer_id: Seq<char>, now: u64)
    requires
        s.wf(),
        s.claim_refund(caller, reviewer_id, now) is Ok,
    ensures
        s.claim_refund(caller, reviewer_id, now).unwrap().0.wf(),
{
    let after = s.claim_refund(caller, reviewer_id, now).unwrap().0;
    if s.reviewers[reviewer_id].delegators[caller].refunding_amount != 0 {
        lemma_with_delegators_wf(s, reviewer_id, after.reviewers[reviewer_id].delegators);
    }
}

/// Taking note of a transfer's outcome keeps a well-formed ledger well formed.
pub proof fn lemma_resolve_refund_wf(
    s: Ledger,
    delegator_id: Seq<char>,
    reviewer_id: Seq<char>,
    amount: u128,
    transferred: bool,
)
    requires
        s.wf(),
        s.resolve_refund(delegator_id, reviewer_id, amount, transferred) is Ok,
    ensures
        s.resolve_refund(delegator_id, reviewer_id, amount, transferred).unwrap().wf(),
{
    let after = s.resolve_refund(delegator_id, reviewer_id, amount, transferred).unwrap();
    let d = s.reviewers[reviewer_id].delegators[delegator_id];
    if !transferred || d.refunding_amount == 0 {
        lemma_with_delegators_wf(s, reviewer_id, after.reviewers[reviewer_id].delegators);
    }
}

/// Booking revenue keeps a well-formed ledger well formed.
pub proof fn lemma_settle_wf(
    s: Ledger,
    sender: Seq<char>,
    vapi_ids: Seq<Seq<char>>,
    amounts: Seq<u128>,
)
    requires
        s.wf(),
        s.settle(sender, vapi_ids, amounts) is Ok,
    ensures
        s.settle(sender, vapi_ids, amounts).unwrap().0.wf(),
{
    lemma_settle_from_shape(s.vapis, vapi_ids, amounts, SettleTotals { treasury: 0, burn: 0 }, 0);
}

/// Registering a VAPI keeps a well-formed ledger well formed.
pub proof fn lemma_create_vapi_wf(s: Ledger, caller: Seq<char>, vapi_id: Seq<char>)
    requires
        s.wf(),
        s.create_vapi(caller, vapi_id) is Ok,
    ensures
        s.create_vapi(caller, vapi_id).unwrap().wf(),
{
    let after = s.create_vapi(caller, vapi_id).unwrap();
    lemma_lists_push(s.vapi_ids, s.vapis, vapi_id, after.vapis[vapi_id]);
}

/// Putting an empty pool under an account keeps a well-formed ledger well
/// formed.
pub proof fn lemma_create_reviewer_wf(s: Ledger, reviewer_id: Seq<char>)
    requires
        s.wf(),
    ensures
        s.create_reviewer(reviewer_id).wf(),
{
    let after = s.create_reviewer(reviewer_id);
    assert(Reviewer::empty().allocation_ids.no_duplicates());
    assert(Reviewer::empty().wf());
    if s.reviewers.contains_key(reviewer_id) {
        lemma_lists_insert(s.reviewer_ids, s.reviewers, reviewer_id, Reviewer::empty());
    } else {
        lemma_lists_push(s.reviewer_ids, s.reviewers, reviewer_id, Reviewer::empty());
    }
    assert forall|id: Seq<char>| after.reviewers.contains_key(id) implies (
    #[trigger] after.reviewers[id]).wf() by {
        if id != reviewer_id {
            assert(s.reviewers[id].wf());
        }
    }
}

/// Handing a VAPI over keeps a well-formed ledger well formed.
pub proof fn lemma_transfer_ownership_wf(
    s: Ledger,
    caller: Seq<char>,
    vapi_id: Seq<char>,
    new_coder: Seq<char>,
)
    requires
        s.wf(),
        s.transfer_ownership(caller, vapi_id, new_coder) is Ok,
    ensures
        s.transfer_ownership(caller, vapi_id, new_coder).unwrap().wf(),
{
}

} // verus!
