//! The records that the ledger is made of, with their views.

use vstd::prelude::*;
use crate::error::LedgerError;
use crate::keyed::{lemma_to_map_at, to_map};
use crate::model::{Reviewer, Vapi};
use crate::reward::{pending_reward, reward_debt};
use crate::transitions::top_up;

verus! {

/// A stake: capital, and the debt marker that was set when the stake was last
/// settled against an accumulator. A pool's stake in a VAPI and a delegator's
/// stake in a pool are both of this kind.
#[derive(Clone, Copy, Debug, PartialEq, Eq, Structural)]
pub struct DepositInfo {
    pub deposit_amount: u128,
    pub reward_debt: u128,
}

/// A delegator's stake with the state of its refund.
#[derive(Clone, Copy, Debug, PartialEq, Eq, Structural)]
pub struct DelegatorInfo {
    pub deposit_info: DepositInfo,
    pub refunding_amount: u128,
    pub refunding_start_timestamp: u64,
}

/// What a query about a stake answers: its capital and its unrealised reward.
#[derive(Clone, Copy, Debug, PartialEq, Eq, Structural)]
pub struct GetDepositInfoResponse {
    pub deposit_amount: u128,
    pub reward: u128,
}

/// The nominal owner of a VAPI and what it has earned and not yet claimed.
pub struct CoderInfo {
    pub account_id: String,
    pub unclaimed_reward_amount: u128,
}

/// A revenue-generating unit, under its identifier.
pub struct VAPIInfo {
    pub id: String,
    pub coder_info: CoderInfo,
    pub total_deposit_amount: u128,
    pub acc_reward_per_share: u128,
}

/// A pool's allocation into one VAPI.
pub struct VapiDeposit {
    pub vapi_id: String,
    pub deposit_info: DepositInfo,
}

/// One delegator's entry in a pool.
pub struct DelegatorEntry {
    pub delegator_id: String,
    pub info: DelegatorInfo,
}

/// A pool, under its account: the allocations that it holds, in the order in
/// which capital is released for a refund, and the delegators that stake with
/// it.
pub struct ReviewerInfo {
    pub id: String,
    pub deposit_vapis: Vec<VapiDeposit>,
    pub pending_amount: u128,
    pub royalty_amount: u128,
    pub delegators: Vec<DelegatorEntry>,
    pub total_delegator_deposit_amount: u128,
    pub acc_reward_per_share: u128,
}

/// The views of the items of a sequence, in order.
pub open spec fn views_of<T: View>(s: Seq<T>) -> Seq<T::V> {
    Seq::new(s.len(), |i: int| s[i]@)
}

/// The identifiers of the VAPIs of a sequence, in order.
pub open spec fn vapi_keys(vapis: Seq<VAPIInfo>) -> Seq<Seq<char>> {
    Seq::new(vapis.len(), |i: int| vapis[i].id@)
}

/// The accounts of the pools of a sequence, in order.
pub open spec fn reviewer_keys(reviewers: Seq<ReviewerInfo>) -> Seq<Seq<char>> {
    Seq::new(reviewers.len(), |i: int| reviewers[i].id@)
}

/// The VAPIs that the allocations of a sequence are into, in order.
pub open spec fn allocation_keys(allocations: Seq<VapiDeposit>) -> Seq<Seq<char>> {
    Seq::new(allocations.len(), |i: int| allocations[i].vapi_id@)
}

/// The accounts of the delegators of a sequence, in order.
pub open spec fn delegator_keys(delegators: Seq<DelegatorEntry>) -> Seq<Seq<char>> {
    Seq::new(delegators.len(), |i: int| delegators[i].delegator_id@)
}

impl DepositInfo {
    /// A stake without capital.
    pub open spec fn zero() -> DepositInfo {
        DepositInfo { deposit_amount: 0, reward_debt: 0 }
    }

    /// Adds `amount` to the stake: what it has earned against the accumulator
    /// `acc_reward_per_share` is folded into the capital, and the debt marker is
    /// set anew. Gives the stake with the reward that was folded in.
    pub fn top_up(self, amount: u128, acc_reward_per_share: u128) -> (r: Result<
        (DepositInfo, u128),
        LedgerError,
    >)
        ensures
            r == top_up(self, amount, acc_reward_per_share),
    {
        let reward = match pending_reward(
            self.deposit_amount,
            self.reward_debt,
            acc_reward_per_share,
        ) {
            Ok(reward) => reward,
            Err(e) => {
                return Err(e);
            },
        };
        let added = match amount.checked_add(reward) {
            Some(added) => added,
            None => {
                return Err(LedgerError::ArithmeticOverflow);
            },
        };
        let capital = match self.deposit_amount.checked_add(added) {
            Some(capital) => capital,
            None => {
                return Err(LedgerError::ArithmeticOverflow);
            },
        };
        match reward_debt(capital, acc_reward_per_share) {
            Some(debt) => Ok((DepositInfo { deposit_amount: capital, reward_debt: debt }, reward)),
            None => Err(LedgerError::ArithmeticOverflow),
        }
    }
}

impl DelegatorInfo {
    /// A position without capital and without a refund under way.
    pub open spec fn zero() -> DelegatorInfo {
        DelegatorInfo {
            deposit_info: DepositInfo::zero(),
            refunding_amount: 0,
            refunding_start_timestamp: 0,
        }
    }
}

impl View for VAPIInfo {
    type V = Vapi;

    open spec fn view(&self) -> Vapi {
        Vapi {
            coder: self.coder_info.account_id@,
            unclaimed_reward: self.coder_info.unclaimed_reward_amount,
            total_allocated: self.total_deposit_amount,
            acc_reward_per_share: self.acc_reward_per_share,
        }
    }
}

impl View for VapiDeposit {
    type V = DepositInfo;

    open spec fn view(&self) -> DepositInfo {
        self.deposit_info
    }
}

impl View for DelegatorEntry {
    type V = DelegatorInfo;

    open spec fn view(&self) -> DelegatorInfo {
        self.info
    }
}

impl View for ReviewerInfo {
    type V = Reviewer;

    open spec fn view(&self) -> Reviewer {
        Reviewer {
            allocation_ids: allocation_keys(self.deposit_vapis@),
            allocations: to_map(allocation_keys(self.deposit_vapis@), views_of(self.deposit_vapis@)),
            pending: self.pending_amount,
            royalty_earned: self.royalty_amount,
            delegators: to_map(delegator_keys(self.delegators@), views_of(self.delegators@)),
            total_delegator_capital: self.total_delegator_deposit_amount,
            acc_reward_per_share: self.acc_reward_per_share,
        }
    }
}

impl ReviewerInfo {
    /// The pool is well formed: it lists no allocation and no delegator twice.
    pub open spec fn wf(&self) -> bool {
        &&& allocation_keys(self.deposit_vapis@).no_duplicates()
        &&& delegator_keys(self.delegators@).no_duplicates()
    }
}

impl Clone for CoderInfo {
    fn clone(&self) -> (r: Self)
        ensures
            r == *self,
    {
        CoderInfo {
            account_id: self.account_id.clone(),
            unclaimed_reward_amount: self.unclaimed_reward_amount,
        }
    }
}

impl Clone for VAPIInfo {
    fn clone(&self) -> (r: Self)
        ensures
            r == *self,
    {
        VAPIInfo {
            id: self.id.clone(),
            coder_info: self.coder_info.clone(),
            total_deposit_amount: self.total_deposit_amount,
            acc_reward_per_share: self.acc_reward_per_share,
        }
    }
}

impl Clone for VapiDeposit {
    fn clone(&self) -> (r: Self)
        ensures
            r == *self,
    {
        VapiDeposit { vapi_id: self.vapi_id.clone(), deposit_info: self.deposit_info }
    }
}

/// The place of the VAPI `id` in `vapis`.
pub(crate) fn find_vapi(vapis: &Vec<VAPIInfo>, id: &String) -> (r: Option<usize>)
    ensures
        r is Some <==> vapi_keys(vapis@).contains(id@),
        r is Some <==> to_map(vapi_keys(vapis@), views_of(vapis@)).contains_key(id@),
        r matches Some(i) ==> i < vapis.len() && vapis[i as int].id@ == id@ && forall|j: int|
            0 <= j < i ==> (#[trigger] vapis[j]).id@ != id@,
        vapi_keys(vapis@).no_duplicates() ==> (r matches Some(i) ==> to_map(
            vapi_keys(vapis@),
            views_of(vapis@),
        )[id@] == vapis[i as int]@),
{
    let mut i: usize = 0;
    while i < vapis.len()
        invariant
            i <= vapis.len(),
            forall|j: int| 0 <= j < i ==> (#[trigger] vapis[j]).id@ != id@,
        decreases vapis.len() - i,
    {
        if vapis[i].id == *id {
            proof {
                assert(vapi_keys(vapis@)[i as int] == id@);
                if vapi_keys(vapis@).no_duplicates() {
                    lemma_to_map_at(vapi_keys(vapis@), views_of(vapis@), i as int);
                }
            }
            return Some(i);
        }
        i += 1;
    }
    proof {
        if vapi_keys(vapis@).contains(id@) {
            let j = vapi_keys(vapis@).index_of(id@);
            assert(vapis[j].id@ == id@);
        }
    }
    None
}

/// The place of the pool `id` in the list of pools.
pub(crate) fn find_reviewer(reviewers: &Vec<ReviewerInfo>, id: &String) -> (r: Option<usize>)
    ensures
        r is Some <==> reviewer_keys(reviewers@).contains(id@),
        r is Some <==> to_map(reviewer_keys(reviewers@), views_of(reviewers@)).contains_key(id@),
        r matches Some(i) ==> i < reviewers.len() && reviewers[i as int].id@ == id@
            && forall|j: int| 0 <= j < i ==> (#[trigger] reviewers[j]).id@ != id@,
        reviewer_keys(reviewers@).no_duplicates() ==> (r matches Some(i) ==> to_map(
            reviewer_keys(reviewers@),
            views_of(reviewers@),
        )[id@] == reviewers[i as int]@),
{
    let mut i: usize = 0;
    while i < reviewers.len()
        invariant
            i <= reviewers.len(),
            forall|j: int| 0 <= j < i ==> (#[trigger] reviewers[j]).id@ != id@,
        decreases reviewers.len() - i,
    {
        if reviewers[i].id == *id {
            proof {
                assert(reviewer_keys(reviewers@)[i as int] == id@);
                if reviewer_keys(reviewers@).no_duplicates() {
                    lemma_to_map_at(reviewer_keys(reviewers@), views_of(reviewers@), i as int);
                }
            }
            return Some(i);
        }
        i += 1;
    }
    proof {
        if reviewer_keys(reviewers@).contains(id@) {
            let j = reviewer_keys(reviewers@).index_of(id@);
            assert(reviewers[j].id@ == id@);
        }
    }
    None
}

/// The place of the allocation into the VAPI `vapi_id` in `allocations`.
pub(crate) fn find_allocation(allocations: &Vec<VapiDeposit>, vapi_id: &String) -> (r: Option<
    usize,
>)
    ensures
        r is Some <==> allocation_keys(allocations@).contains(vapi_id@),
        r is Some <==> to_map(allocation_keys(allocations@), views_of(allocations@)).contains_key(
            vapi_id@,
        ),
        r matches Some(i) ==> i < allocations.len() && allocations[i as int].vapi_id@ == vapi_id@
            && forall|j: int| 0 <= j < i ==> (#[trigger] allocations[j]).vapi_id@ != vapi_id@,
        allocation_keys(allocations@).no_duplicates() ==> (r matches Some(i) ==> to_map(
            allocation_keys(allocations@),
            views_of(allocations@),
        )[vapi_id@] == allocations[i as int].deposit_info && allocation_keys(
            allocations@,
        ).index_of(vapi_id@) == i),
{
    let mut i: usize = 0;
    while i < allocations.len()
        invariant
            i <= allocations.len(),
            forall|j: int| 0 <= j < i ==> (#[trigger] allocations[j]).vapi_id@ != vapi_id@,
        decreases allocations.len() - i,
    {
        if allocations[i].vapi_id == *vapi_id {
            proof {
                assert(allocation_keys(allocations@)[i as int] == vapi_id@);
                if allocation_keys(allocations@).no_duplicates() {
                    lemma_to_map_at(
                        allocation_keys(allocations@),
                        views_of(allocations@),
                        i as int,
                    );
                }
            }
            return Some(i);
        }
        i += 1;
    }
    proof {
        if allocation_keys(allocations@).contains(vapi_id@) {
            let j = allocation_keys(allocations@).index_of(vapi_id@);
            assert(allocations[j].vapi_id@ == vapi_id@);
        }
    }
    None
}

/// The place of the delegator `id` in `delegators`.
pub(crate) fn find_delegator(delegators: &Vec<DelegatorEntry>, id: &String) -> (r: Option<usize>)
    ensures
        r is Some <==> delegator_keys(delegators@).contains(id@),
        r is Some <==> to_map(delegator_keys(delegators@), views_of(delegators@)).contains_key(id@),
        r matches Some(i) ==> i < delegators.len() && delegators[i as int].delegator_id@ == id@
            && forall|j: int| 0 <= j < i ==> (#[trigger] delegators[j]).delegator_id@ != id@,
        delegator_keys(delegators@).no_duplicates() ==> (r matches Some(i) ==> to_map(
            delegator_keys(delegators@),
            views_of(delegators@),
        )[id@] == delegators[i as int].info),
{
    let mut i: usize = 0;
    while i < delegators.len()
        invariant
            i <= delegators.len(),
            forall|j: int| 0 <= j < i ==> (#[trigger] delegators[j]).delegator_id@ != id@,
        decreases delegators.len() - i,
    {
        if delegators[i].delegator_id == *id {
            proof {
                assert(delegator_keys(delegators@)[i as int] == id@);
                if delegator_keys(delegators@).no_duplicates() {
                    lemma_to_map_at(delegator_keys(delegators@), views_of(delegators@), i as int);
                }
            }
            return Some(i);
        }
        i += 1;
    }
    proof {
        if delegator_keys(delegators@).contains(id@) {
            let j = delegator_keys(delegators@).index_of(id@);
            assert(delegators[j].delegator_id@ == id@);
        }
    }
    None
}

/// Whether no VAPI is listed twice.
pub(crate) fn vapis_are_distinct(vapis: &Vec<VAPIInfo>) -> (r: bool)
    ensures
        r == vapi_keys(vapis@).no_duplicates(),
{
    let mut i: usize = 0;
    while i < vapis.len()
        invariant
            i <= vapis.len(),
            forall|a: int, b: int| 0 <= a < b < i ==> (#[trigger] vapis[a]).id@ != (
            #[trigger] vapis[b]).id@,
        decreases vapis.len() - i,
    {
        match find_vapi(vapis, &vapis[i].id) {
            Some(j) => {
                if j != i {
                    assert(vapi_keys(vapis@)[j as int] == vapi_keys(vapis@)[i as int]);
                    return false;
                }
            },
            None => {
                assert(vapi_keys(vapis@)[i as int] == vapis[i as int].id@);
                return false;
            },
        }
        i += 1;
    }
    assert forall|a: int, b: int|
        0 <= a < vapi_keys(vapis@).len() && 0 <= b < vapi_keys(vapis@).len() && a != b implies vapi_keys(
        vapis@,
    )[a] != vapi_keys(vapis@)[b] by {
        if a < b {
            assert(vapis[a].id@ != vapis[b].id@);
        } else {
            assert(vapis[b].id@ != vapis[a].id@);
        }
    }
    true
}

/// Whether no allocation is listed twice.
pub(crate) fn allocations_are_distinct(allocations: &Vec<VapiDeposit>) -> (r: bool)
    ensures
        r == allocation_keys(allocations@).no_duplicates(),
{
    let mut i: usize = 0;
    while i < allocations.len()
        invariant
            i <= allocations.len(),
            forall|a: int, b: int| 0 <= a < b < i ==> (#[trigger] allocations[a]).vapi_id@ != (
            #[trigger] allocations[b]).vapi_id@,
        decreases allocations.len() - i,
    {
        match find_allocation(allocations, &allocations[i].vapi_id) {
            Some(j) => {
                if j != i {
                    assert(allocation_keys(allocations@)[j as int] == allocation_keys(
                        allocations@,
                    )[i as int]);
                    return false;
                }
            },
            None => {
                assert(allocation_keys(allocations@)[i as int] == allocations[i as int].vapi_id@);
                return false;
            },
        }
        i += 1;
    }
    assert forall|a: int, b: int|
        0 <= a < allocation_keys(allocations@).len() && 0 <= b < allocation_keys(allocations@).len()
            && a != b implies allocation_keys(allocations@)[a] != allocation_keys(
        allocations@,
    )[b] by {
        if a < b {
            assert(allocations[a].vapi_id@ != allocations[b].vapi_id@);
        } else {
            assert(allocations[b].vapi_id@ != allocations[a].vapi_id@);
        }
    }
    true
}

/// Whether no delegator is listed twice.
pub(crate) fn delegators_are_distinct(delegators: &Vec<DelegatorEntry>) -> (r: bool)
    ensures
        r == delegator_keys(delegators@).no_duplicates(),
{
    let mut i: usize = 0;
    while i < delegators.len()
        invariant
            i <= delegators.len(),
            forall|a: int, b: int| 0 <= a < b < i ==> (#[trigger] delegators[a]).delegator_id@ != (
            #[trigger] delegators[b]).delegator_id@,
        decreases delegators.len() - i,
    {
        match find_delegator(delegators, &delegators[i].delegator_id) {
            Some(j) => {
                if j != i {
                    assert(delegator_keys(delegators@)[j as int] == delegator_keys(
                        delegators@,
                    )[i as int]);
                    return false;
                }
            },
            None => {
                assert(delegator_keys(delegators@)[i as int] == delegators[i as int].delegator_id@);
                return false;
            },
        }
        i += 1;
    }
    assert forall|a: int, b: int|
        0 <= a < delegator_keys(delegators@).len() && 0 <= b < delegator_keys(delegators@).len() && a
            != b implies delegator_keys(delegators@)[a] != delegator_keys(delegators@)[b] by {
        if a < b {
            assert(delegators[a].delegator_id@ != delegators[b].delegator_id@);
        } else {
            assert(delegators[b].delegator_id@ != delegators[a].delegator_id@);
        }
    }
    true
}

/// Whether no pool is listed twice, and each pool lists no allocation and no
/// delegator twice.
pub(crate) fn reviewers_are_well_formed(reviewers: &Vec<ReviewerInfo>) -> (r: bool)
    ensures
        r == (reviewer_keys(reviewers@).no_duplicates() && forall|i: int|
            0 <= i < reviewers.len() ==> (#[trigger] reviewers[i]).wf()),
{
    let mut i: usize = 0;
    while i < reviewers.len()
        invariant
            i <= reviewers.len(),
            forall|a: int, b: int| 0 <= a < b < i ==> (#[trigger] reviewers[a]).id@ != (
            #[trigger] reviewers[b]).id@,
            forall|a: int| 0 <= a < i ==> (#[trigger] reviewers[a]).wf(),
        decreases reviewers.len() - i,
    {
        match find_reviewer(reviewers, &reviewers[i].id) {
            Some(j) => {
                if j != i {
                    assert(reviewer_keys(reviewers@)[j as int] == reviewer_keys(reviewers@)[i as int]);
                    return false;
                }
            },
            None => {
                assert(reviewer_keys(reviewers@)[i as int] == reviewers[i as int].id@);
                return false;
            },
        }
        if !allocations_are_distinct(&reviewers[i].deposit_vapis) || !delegators_are_distinct(
            &reviewers[i].delegators,
        ) {
            assert(!reviewers[i as int].wf());
            return false;
        }
        i += 1;
    }
    assert forall|a: int, b: int|
        0 <= a < reviewer_keys(reviewers@).len() && 0 <= b < reviewer_keys(reviewers@).len() && a
            != b implies reviewer_keys(reviewers@)[a] != reviewer_keys(reviewers@)[b] by {
        if a < b {
            assert(reviewers[a].id@ != reviewers[b].id@);
        } else {
            assert(reviewers[b].id@ != reviewers[a].id@);
        }
    }
    true
}

} // verus!
