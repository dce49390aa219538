//! How a pool allocates capital into VAPIs, takes it back, and realises what
//! its allocations have earned.

use vstd::prelude::*;
use crate::arith::mul_div;
use crate::error::LedgerError;
use crate::keyed::{
    lemma_to_map_at, lemma_to_map_push, lemma_to_map_swap_remove, lemma_to_map_update,
    swap_removed, to_map,
};
use crate::ledger::TicleCore;
use crate::model::{Ledger, Reviewer, ROYALTY_DIVISOR};
use crate::reward::{pending_reward, reward_debt, PRECISION};
use crate::transitions::{compound_from, credit_reviewer, CompoundTotals};
use crate::types::{
    allocation_keys, find_allocation, find_reviewer, find_vapi, reviewer_keys, vapi_keys, views_of,
    DepositInfo, ReviewerInfo, VAPIInfo, VapiDeposit,
};

verus! {

/// Compounds every allocation of `allocations`, in order, against `vapis`.
///
/// On success both are as the compounding leaves them and the sums of the pass
/// are returned. On failure they are left in an intermediate state, which the
/// caller discards.
pub(crate) fn compound_allocations(
    allocations: &mut Vec<VapiDeposit>,
    vapis: &mut Vec<VAPIInfo>,
) -> (r: Result<CompoundTotals, LedgerError>)
    requires
        vapi_keys(old(vapis)@).no_duplicates(),
        allocation_keys(old(allocations)@).no_duplicates(),
    ensures
        allocation_keys(final(allocations)@) == allocation_keys(old(allocations)@),
        vapi_keys(final(vapis)@) == vapi_keys(old(vapis)@),
        match compound_from(
            allocation_keys(old(allocations)@),
            to_map(allocation_keys(old(allocations)@), views_of(old(allocations)@)),
            to_map(vapi_keys(old(vapis)@), views_of(old(vapis)@)),
            CompoundTotals { royalty: 0, reward: 0 },
            0,
        ) {
            Ok((a, v, t)) => r == Ok::<CompoundTotals, LedgerError>(t) && to_map(
                allocation_keys(final(allocations)@),
                views_of(final(allocations)@),
            ) == a && to_map(vapi_keys(final(vapis)@), views_of(final(vapis)@)) == v,
            Err(e) => r == Err::<CompoundTotals, LedgerError>(e),
        },
{
    let ghost order = allocation_keys(allocations@);
    let ghost listed = vapi_keys(vapis@);
    let mut totals = CompoundTotals { royalty: 0, reward: 0 };
    let mut i: usize = 0;
    while i < allocations.len()
        invariant
            i <= allocations.len(),
            order.no_duplicates(),
            listed.no_duplicates(),
            allocation_keys(allocations@) == order,
            vapi_keys(vapis@) == listed,
            order == allocation_keys(old(allocations)@),
            listed == vapi_keys(old(vapis)@),
            compound_from(
                order,
                to_map(order, views_of(allocations@)),
                to_map(listed, views_of(vapis@)),
                totals,
                i as int,
            ) == compound_from(
                order,
                to_map(order, views_of(old(allocations)@)),
                to_map(listed, views_of(old(vapis)@)),
                CompoundTotals { royalty: 0, reward: 0 },
                0,
            ),
        decreases allocations.len() - i,
    {
        let ghost stakes = views_of(allocations@);
        let ghost records = views_of(vapis@);
        let ghost t0 = totals;
        proof {
            assert(order[i as int] == allocations[i as int].vapi_id@);
            lemma_to_map_at(order, stakes, i as int);
        }
        let vi = match find_vapi(vapis, &allocations[i].vapi_id) {
            Some(vi) => vi,
            None => {
                return Err(LedgerError::VapiNotFound);
            },
        };
        let stake = allocations[i].deposit_info;
        let acc = vapis[vi].acc_reward_per_share;
        let reward = match pending_reward(stake.deposit_amount, stake.reward_debt, acc) {
            Ok(reward) => reward,
            Err(e) => {
                return Err(e);
            },
        };
        if reward != 0 {
            let royalty = reward / ROYALTY_DIVISOR;
            let gain = reward - royalty;
            let sum_royalty = totals.royalty.checked_add(royalty);
            let sum_reward = totals.reward.checked_add(gain);
            let capital = stake.deposit_amount.checked_add(gain);
            let total = vapis[vi].total_deposit_amount.checked_add(gain);
            if sum_royalty.is_none() || sum_reward.is_none() || capital.is_none()
                || total.is_none() {
                return Err(LedgerError::ArithmeticOverflow);
            }
            let debt = match reward_debt(capital.unwrap(), acc) {
                Some(debt) => debt,
                None => {
                    return Err(LedgerError::ArithmeticOverflow);
                },
            };
            allocations[i].deposit_info = DepositInfo {
                deposit_amount: capital.unwrap(),
                reward_debt: debt,
            };
            vapis[vi].total_deposit_amount = total.unwrap();
            totals = CompoundTotals { royalty: sum_royalty.unwrap(), reward: sum_reward.unwrap() };
            proof {
                assert(allocation_keys(allocations@) =~= order);
                assert(vapi_keys(vapis@) =~= listed);
                assert(views_of(allocations@) =~= stakes.update(
                    i as int,
                    allocations[i as int].deposit_info,
                ));
                assert(views_of(vapis@) =~= records.update(vi as int, vapis[vi as int]@));
                assert(listed[vi as int] == order[i as int]);
                lemma_to_map_update(order, stakes, i as int, allocations[i as int].deposit_info);
                lemma_to_map_update(listed, records, vi as int, vapis[vi as int]@);
            }
        }
        i += 1;
    }
    Ok(totals)
}

/// Credits the sums of a compounding pass to its pool: gives the royalty that
/// the pool has earned then, and where its accumulator stands then.
pub(crate) fn credit(reviewer: &ReviewerInfo, totals: CompoundTotals) -> (r: Result<
    (u128, u128),
    LedgerError,
>)
    ensures
        r == credit_reviewer(reviewer@, totals),
{
    let royalty = match reviewer.royalty_amount.checked_add(totals.royalty) {
        Some(royalty) => royalty,
        None => {
            return Err(LedgerError::ArithmeticOverflow);
        },
    };
    if reviewer.total_delegator_deposit_amount == 0 {
        return Err(LedgerError::DivisionByZero);
    }
    let step = match mul_div(totals.reward, PRECISION, reviewer.total_delegator_deposit_amount) {
        Some(step) => step,
        None => {
            return Err(LedgerError::ArithmeticOverflow);
        },
    };
    match reviewer.acc_reward_per_share.checked_add(step) {
        Some(acc) => Ok((royalty, acc)),
        None => Err(LedgerError::ArithmeticOverflow),
    }
}

/// Where the VAPIs and one pool stand once the pool's rewards are compounded.
/// Nothing of it is part of the ledger until it is committed.
pub(crate) struct Compounded {
    pub(crate) vapis: Vec<VAPIInfo>,
    pub(crate) allocations: Vec<VapiDeposit>,
    pub(crate) royalty_amount: u128,
    pub(crate) acc_reward_per_share: u128,
}

impl Compounded {
    /// The ledger `s` with this put in the place of the VAPIs and of the pool
    /// `reviewer_id`.
    pub(crate) open spec fn applied(&self, s: Ledger, reviewer_id: Seq<char>) -> Ledger {
        Ledger {
            vapis: to_map(vapi_keys(self.vapis@), views_of(self.vapis@)),
            reviewers: s.reviewers.insert(
                reviewer_id,
                Reviewer {
                    allocation_ids: allocation_keys(self.allocations@),
                    allocations: to_map(allocation_keys(self.allocations@), views_of(self.allocations@)),
                    royalty_earned: self.royalty_amount,
                    acc_reward_per_share: self.acc_reward_per_share,
                    ..s.reviewers[reviewer_id]
                },
            ),
            ..s
        }
    }
}

impl TicleCore {
    /// Compounds the rewards of the pool at `ri` on copies of what that
    /// changes, and leaves the ledger as it is.
    pub(crate) fn compounded(&self, ri: usize) -> (r: Result<Compounded, LedgerError>)
        requires
            self.wf(),
            ri < self.reviewers.len(),
        ensures
            self@.reviewers.contains_key(self.reviewers[ri as int].id@),
            self@.reviewers[self.reviewers[ri as int].id@] == self.reviewers[ri as int]@,
            match self@.compound(self.reviewers[ri as int].id@) {
                Ok(s) => r matches Ok(c) && c.applied(self@, self.reviewers[ri as int].id@) == s
                    && vapi_keys(c.vapis@) == vapi_keys(self.vapis@) && allocation_keys(
                    c.allocations@,
                ) == allocation_keys(self.reviewers[ri as int].deposit_vapis@),
                Err(e) => r matches Err(f) && f == e,
            },
    {
        proof {
            assert(reviewer_keys(self.reviewers@)[ri as int] == self.reviewers[ri as int].id@);
            lemma_to_map_at(reviewer_keys(self.reviewers@), views_of(self.reviewers@), ri as int);
            assert(self.reviewers[ri as int].wf());
        }
        let mut vapis = self.vapis.clone();
        let mut allocations = self.reviewers[ri].deposit_vapis.clone();
        assert(vapis@ =~= self.vapis@);
        assert(allocations@ =~= self.reviewers[ri as int].deposit_vapis@);
        let totals = match compound_allocations(&mut allocations, &mut vapis) {
            Ok(totals) => totals,
            Err(e) => {
                return Err(e);
            },
        };
        let (royalty_amount, acc_reward_per_share) = match credit(&self.reviewers[ri], totals) {
            Ok(credited) => credited,
            Err(e) => {
                return Err(e);
            },
        };
        let c = Compounded { vapis, allocations, royalty_amount, acc_reward_per_share };
        proof {
            let id = self.reviewers[ri as int].id@;
            assert(c.applied(self@, id).reviewers[id] =~= self@.compound(id).unwrap().reviewers[id]);
            assert(c.applied(self@, id) =~= self@.compound(id).unwrap());
        }
        Ok(c)
    }

    /// Puts what `c` holds in the place of the VAPIs and of the pool at `ri`,
    /// with `pending_amount` as the pool's unallocated balance.
    pub(crate) fn commit(&mut self, ri: usize, c: Compounded, pending_amount: u128)
        requires
            old(self).wf(),
            ri < old(self).reviewers.len(),
            vapi_keys(c.vapis@) == vapi_keys(old(self).vapis@),
            allocation_keys(c.allocations@).no_duplicates(),
        ensures
            final(self).wf(),
            final(self).reviewers.len() == old(self).reviewers.len(),
            final(self).reviewers[ri as int].id == old(self).reviewers[ri as int].id,
            final(self).reviewers[ri as int].delegators == old(self).reviewers[ri as int].delegators,
            final(self).reviewers[ri as int].total_delegator_deposit_amount == old(
                self,
            ).reviewers[ri as int].total_delegator_deposit_amount,
            final(self)@ == (Ledger {
                reviewers: c.applied(old(self)@, old(self).reviewers[ri as int].id@).reviewers.insert(
                    old(self).reviewers[ri as int].id@,
                    Reviewer {
                        pending: pending_amount,
                        ..c.applied(
                            old(self)@,
                            old(self).reviewers[ri as int].id@,
                        ).reviewers[old(self).reviewers[ri as int].id@]
                    },
                ),
                ..c.applied(old(self)@, old(self).reviewers[ri as int].id@)
            }),
    {
        let ghost ids = reviewer_keys(self.reviewers@);
        let ghost views = views_of(self.reviewers@);
        proof {
            assert(ids[ri as int] == self.reviewers[ri as int].id@);
            lemma_to_map_at(ids, views, ri as int);
        }
        self.vapis = c.vapis;
        self.reviewers[ri].deposit_vapis = c.allocations;
        self.reviewers[ri].royalty_amount = c.royalty_amount;
        self.reviewers[ri].acc_reward_per_share = c.acc_reward_per_share;
        self.reviewers[ri].pending_amount = pending_amount;
        proof {
            assert(reviewer_keys(self.reviewers@) =~= ids);
            assert(views_of(self.reviewers@) =~= views.update(ri as int, self.reviewers[ri as int]@));
            lemma_to_map_update(ids, views, ri as int, self.reviewers[ri as int]@);
            let id = ids[ri as int];
            let after = Ledger {
                reviewers: c.applied(old(self)@, id).reviewers.insert(
                    id,
                    Reviewer { pending: pending_amount, ..c.applied(old(self)@, id).reviewers[id] },
                ),
                ..c.applied(old(self)@, id)
            };
            assert(self@.reviewers[id] =~= after.reviewers[id]);
            assert(self@.reviewers =~= after.reviewers);
            assert(self@ =~= after);
            assert forall|i: int| 0 <= i < self.reviewers.len() implies (
            #[trigger] self.reviewers[i]).wf() by {
                if i != ri {
                    assert(self.reviewers[i] == old(self).reviewers[i]);
                } else {
                    assert(old(self).reviewers[i].wf());
                }
            }
        }
    }

    /// Realises what the allocations of the pool `reviewer_id` have earned since
    /// they were last compounded.
    ///
    /// Each allocation's reward against its VAPI's accumulator is split: one
    /// hundredth is the pool's royalty, the rest is added to the allocation's
    /// capital and to the VAPI's allocated total. An allocation without reward
    /// is passed over. The pool's accumulator then advances by the reinvested
    /// reward per unit of delegator capital.
    ///
    /// Fails with `ReviewerNotFound` where the pool is not there, with
    /// `VapiNotFound` where the VAPI of an allocation is not there, as
    /// `pending_reward` does for an allocation, with `DivisionByZero` where
    /// the delegators hold no capital, and with `ArithmeticOverflow` where an
    /// amount leaves the 128-bit range.
    pub fn compound(&mut self, reviewer_id: &String) -> (r: Result<(), LedgerError>)
        requires
            old(self).wf(),
        ensures
            final(self).wf(),
            match old(self)@.compound(reviewer_id@) {
                Ok(s) => r is Ok && final(self)@ == s,
                Err(e) => r == Err::<(), LedgerError>(e) && final(self)@ == old(self)@,
            },
    {
        let ri = match find_reviewer(&self.reviewers, reviewer_id) {
            Some(ri) => ri,
            None => {
                return Err(LedgerError::ReviewerNotFound);
            },
        };
        let c = match self.compounded(ri) {
            Ok(c) => c,
            Err(e) => {
                return Err(e);
            },
        };
        let pending = self.reviewers[ri].pending_amount;
        assert(old(self).reviewers[ri as int].wf());
        self.commit(ri, c, pending);
        proof {
            let after = old(self)@.compound(reviewer_id@).unwrap();
            assert(self@.reviewers[reviewer_id@] =~= after.reviewers[reviewer_id@]);
            assert(self@.reviewers =~= after.reviewers);
            assert(self@ =~= after);
        }
        Ok(())
    }

    /// Moves `amount` of the unallocated balance of the pool `caller` into the
    /// VAPI `vapi_id`.
    ///
    /// What the allocation has earned against the VAPI's accumulator is folded
    /// into its capital with the amount; the VAPI's allocated total grows by the
    /// amount alone.
    ///
    /// Fails with `VapiNotFound` or `ReviewerNotFound` where the VAPI or the
    /// pool is not there, with `InsufficientPending` where the amount exceeds
    /// the unallocated balance, as `pending_reward` does for the allocation,
    /// with `MaxVapiCountReached` where the pool would then hold more
    /// allocations than the ledger permits, and with `ArithmeticOverflow` where
    /// an amount leaves the 128-bit range.
    pub fn deposit_to_vapi(&mut self, caller: &String, vapi_id: String, amount: u128) -> (r: Result<
        (),
        LedgerError,
    >)
        requires
            old(self).wf(),
        ensures
            final(self).wf(),
            match old(self)@.deposit_to_vapi(caller@, vapi_id@, amount) {
                Ok(s) => r is Ok && final(self)@ == s,
                Err(e) => r == Err::<(), LedgerError>(e) && final(self)@ == old(self)@,
            },
    {
        let vi = match find_vapi(&self.vapis, &vapi_id) {
            Some(vi) => vi,
            None => {
                return Err(LedgerError::VapiNotFound);
            },
        };
        let ri = match find_reviewer(&self.reviewers, caller) {
            Some(ri) => ri,
            None => {
                return Err(LedgerError::ReviewerNotFound);
            },
        };
        if self.reviewers[ri].pending_amount < amount {
            return Err(LedgerError::InsufficientPending);
        }
        assert(self.reviewers[ri as int].wf());
        let held = find_allocation(&self.reviewers[ri].deposit_vapis, &vapi_id);
        let count = self.reviewers[ri].deposit_vapis.len();
        let limit = self.max_depositable_vapi_count as usize;
        let (stake, full) = match held {
            Some(ai) => (self.reviewers[ri].deposit_vapis[ai].deposit_info, count > limit),
            None => (DepositInfo { deposit_amount: 0, reward_debt: 0 }, count >= limit),
        };
        let stake = match stake.top_up(amount, self.vapis[vi].acc_reward_per_share) {
            Ok((stake, _)) => stake,
            Err(e) => {
                return Err(e);
            },
        };
        if full {
            return Err(LedgerError::MaxVapiCountReached);
        }
        let total = match self.vapis[vi].total_deposit_amount.checked_add(amount) {
            Some(total) => total,
            None => {
                return Err(LedgerError::ArithmeticOverflow);
            },
        };
        let ghost listed = vapi_keys(self.vapis@);
        let ghost records = views_of(self.vapis@);
        let ghost pools = reviewer_keys(self.reviewers@);
        let ghost pool_views = views_of(self.reviewers@);
        let ghost order = allocation_keys(self.reviewers[ri as int].deposit_vapis@);
        let ghost stakes = views_of(self.reviewers[ri as int].deposit_vapis@);
        match held {
            Some(ai) => {
                proof {
                    lemma_to_map_update(order, stakes, ai as int, stake);
                }
                self.reviewers[ri].deposit_vapis[ai].deposit_info = stake;
                proof {
                    assert(allocation_keys(self.reviewers[ri as int].deposit_vapis@) =~= order);
                    assert(views_of(self.reviewers[ri as int].deposit_vapis@) =~= stakes.update(
                        ai as int,
                        stake,
                    ));
                }
            },
            None => {
                proof {
                    lemma_to_map_push(order, stakes, vapi_id@, stake);
                }
                self.reviewers[ri].deposit_vapis.push(VapiDeposit { vapi_id, deposit_info: stake });
                proof {
                    assert(allocation_keys(self.reviewers[ri as int].deposit_vapis@) =~= order.push(
                        vapi_id@,
                    ));
                    assert(views_of(self.reviewers[ri as int].deposit_vapis@) =~= stakes.push(
                        stake,
                    ));
                }
            },
        }
        self.reviewers[ri].pending_amount = self.reviewers[ri].pending_amount - amount;
        self.vapis[vi].total_deposit_amount = total;
        proof {
            let after = old(self)@.deposit_to_vapi(caller@, vapi_id@, amount).unwrap();
            assert(vapi_keys(self.vapis@) =~= listed);
            assert(views_of(self.vapis@) =~= records.update(vi as int, self.vapis[vi as int]@));
            lemma_to_map_update(listed, records, vi as int, self.vapis[vi as int]@);
            assert(reviewer_keys(self.reviewers@) =~= pools);
            assert(views_of(self.reviewers@) =~= pool_views.update(
                ri as int,
                self.reviewers[ri as int]@,
            ));
            lemma_to_map_update(pools, pool_views, ri as int, self.reviewers[ri as int]@);
            assert(self@.reviewers[caller@] =~= after.reviewers[caller@]);
            assert(self@.reviewers =~= after.reviewers);
            assert(self@.vapis =~= after.vapis);
            assert(self@ =~= after);
            assert forall|i: int| 0 <= i < self.reviewers.len() implies (
            #[trigger] self.reviewers[i]).wf() by {
                if i != ri {
                    assert(self.reviewers[i] == old(self).reviewers[i]);
                } else {
                    assert(old(self).reviewers[i].wf());
                }
            }
        }
        Ok(())
    }

    /// Takes `amount` of capital of the pool `caller` back out of the VAPI
    /// `vapi_id`, into the pool's unallocated balance.
    ///
    /// The pool's rewards are compounded first, so that the amount is held
    /// against capital that is up to date. What is left of the allocation gets
    /// its debt marker set against the VAPI's accumulator, so that it has no
    /// reward pending; an allocation that is emptied is removed, and the last
    /// one takes its place.
    ///
    /// Fails with `ZeroAmount` for an amount of zero, as `compound` does, with
    /// `VapiNotFound` or `DepositNotFound` where the VAPI or the allocation is
    /// not there, with `InsufficientDeposit` where the amount exceeds the
    /// allocation's capital, and with `ArithmeticOverflow` where an amount
    /// leaves the 128-bit range.
    pub fn withdraw_from_vapi(&mut self, caller: &String, vapi_id: &String, amount: u128) -> (r:
        Result<(), LedgerError>)
        requires
            old(self).wf(),
        ensures
            final(self).wf(),
            match old(self)@.withdraw_from_vapi(caller@, vapi_id@, amount) {
                Ok(s) => r is Ok && final(self)@ == s,
                Err(e) => r == Err::<(), LedgerError>(e) && final(self)@ == old(self)@,
            },
    {
        if amount == 0 {
            return Err(LedgerError::ZeroAmount);
        }
        let ri = match find_reviewer(&self.reviewers, caller) {
            Some(ri) => ri,
            None => {
                return Err(LedgerError::ReviewerNotFound);
            },
        };
        let mut c = match self.compounded(ri) {
            Ok(c) => c,
            Err(e) => {
                return Err(e);
            },
        };
        let ghost settled = c.applied(self@, caller@);
        assert(self.reviewers[ri as int].wf());
        let vi = match find_vapi(&c.vapis, vapi_id) {
            Some(vi) => vi,
            None => {
                return Err(LedgerError::VapiNotFound);
            },
        };
        let ai = match find_allocation(&c.allocations, vapi_id) {
            Some(ai) => ai,
            None => {
                return Err(LedgerError::DepositNotFound);
            },
        };
        let stake = c.allocations[ai].deposit_info;
        if stake.deposit_amount < amount {
            return Err(LedgerError::InsufficientDeposit);
        }
        let capital = stake.deposit_amount - amount;
        let debt = reward_debt(capital, c.vapis[vi].acc_reward_per_share);
        let pending = self.reviewers[ri].pending_amount.checked_add(amount);
        let total = c.vapis[vi].total_deposit_amount.checked_sub(amount);
        if (capital != 0 && debt.is_none()) || pending.is_none() || total.is_none() {
            return Err(LedgerError::ArithmeticOverflow);
        }
        let ghost listed = vapi_keys(c.vapis@);
        let ghost records = views_of(c.vapis@);
        let ghost order = allocation_keys(c.allocations@);
        let ghost stakes = views_of(c.allocations@);
        if capital == 0 {
            proof {
                lemma_to_map_swap_remove(order, stakes, ai as int);
            }
            c.allocations.swap_remove(ai);
            proof {
                assert(allocation_keys(c.allocations@) =~= swap_removed(order, ai as int));
                assert(views_of(c.allocations@) =~= swap_removed(stakes, ai as int));
            }
        } else {
            let left = DepositInfo { deposit_amount: capital, reward_debt: debt.unwrap() };
            proof {
                lemma_to_map_update(order, stakes, ai as int, left);
            }
            c.allocations[ai].deposit_info = left;
            proof {
                assert(allocation_keys(c.allocations@) =~= order);
                assert(views_of(c.allocations@) =~= stakes.update(ai as int, left));
            }
        }
        c.vapis[vi].total_deposit_amount = total.unwrap();
        proof {
            assert(vapi_keys(c.vapis@) =~= listed);
            assert(views_of(c.vapis@) =~= records.update(vi as int, c.vapis[vi as int]@));
            lemma_to_map_update(listed, records, vi as int, c.vapis[vi as int]@);
        }
        self.commit(ri, c, pending.unwrap());
        proof {
            let after = settled.withdraw_settled(caller@, vapi_id@, amount).unwrap();
            assert(self@.reviewers[caller@] =~= after.reviewers[caller@]);
            assert(self@.reviewers =~= after.reviewers);
            assert(self@.vapis =~= after.vapis);
            assert(self@ =~= after);
        }
        Ok(())
    }
}

} // verus!
