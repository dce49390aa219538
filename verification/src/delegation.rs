//! How delegators stake into a pool, ask capital back, and claim what they
//! have asked back.

use vstd::prelude::*;
use crate::allocation::Compounded;
use crate::arith::mul_div;
use crate::error::LedgerError;
use crate::keyed::{
    lemma_to_map_at, lemma_to_map_push, lemma_to_map_swap_remove, lemma_to_map_update,
    swap_removed, to_map,
};
use crate::ledger::TicleCore;
use crate::reward::{pending_reward, reward_debt};
use crate::transitions::{delegator_balance, draw_from, release_capital, sweep_from};
use crate::types::{
    allocation_keys, delegator_keys, find_delegator, find_reviewer, find_vapi, reviewer_keys,
    vapi_keys, views_of, DelegatorEntry, DelegatorInfo, DepositInfo, VAPIInfo, VapiDeposit,
};

verus! {

/// Draws every allocation down by its share of `shortfall`, in order, and gives
/// what rounding has left of the shortfall.
///
/// On failure the allocations and the VAPIs are left in an intermediate state,
/// which the caller discards.
pub(crate) fn draw_allocations(
    allocations: &mut Vec<VapiDeposit>,
    vapis: &mut Vec<VAPIInfo>,
    shortfall: u128,
    base: u128,
    acc: u128,
) -> (r: Result<u128, LedgerError>)
    requires
        vapi_keys(old(vapis)@).no_duplicates(),
        allocation_keys(old(allocations)@).no_duplicates(),
    ensures
        allocation_keys(final(allocations)@) == allocation_keys(old(allocations)@),
        vapi_keys(final(vapis)@) == vapi_keys(old(vapis)@),
        match draw_from(
            allocation_keys(old(allocations)@),
            to_map(allocation_keys(old(allocations)@), views_of(old(allocations)@)),
            to_map(vapi_keys(old(vapis)@), views_of(old(vapis)@)),
            shortfall,
            base,
            acc,
            shortfall,
            0,
        ) {
            Ok((a, v, remain)) => r == Ok::<u128, LedgerError>(remain) && to_map(
                allocation_keys(final(allocations)@),
                views_of(final(allocations)@),
            ) == a && to_map(vapi_keys(final(vapis)@), views_of(final(vapis)@)) == v,
            Err(e) => r == Err::<u128, LedgerError>(e),
        },
{
    let ghost order = allocation_keys(allocations@);
    let ghost listed = vapi_keys(vapis@);
    let mut remain: u128 = shortfall;
    let mut i: usize = 0;
    while i < allocations.len()
        invariant
            i <= allocations.len(),
            order.no_duplicates(),
            listed.no_duplicates(),
            allocation_keys(allocations@) == order,
            vapi_keys(vapis@) == listed,
            order == allocation_keys(old(allocations)@),
            listed == vapi_keys(old(vapis)@),
            draw_from(
                order,
                to_map(order, views_of(allocations@)),
                to_map(listed, views_of(vapis@)),
                shortfall,
                base,
                acc,
                remain,
                i as int,
            ) == draw_from(
                order,
                to_map(order, views_of(old(allocations)@)),
                to_map(listed, views_of(old(vapis)@)),
                shortfall,
                base,
                acc,
                shortfall,
                0,
            ),
        decreases allocations.len() - i,
    {
        let ghost stakes = views_of(allocations@);
        let ghost records = views_of(vapis@);
        proof {
            assert(order[i as int] == allocations[i as int].vapi_id@);
            lemma_to_map_at(order, stakes, i as int);
        }
        let stake = allocations[i].deposit_info;
        if base == 0 {
            return Err(LedgerError::DivisionByZero);
        }
        let decrease = match mul_div(shortfall, stake.deposit_amount, base) {
            Some(decrease) => decrease,
            None => {
                return Err(LedgerError::ArithmeticOverflow);
            },
        };
        if decrease > stake.deposit_amount {
            return Err(LedgerError::ArithmeticOverflow);
        }
        let capital = stake.deposit_amount - decrease;
        let debt = match reward_debt(capital, acc) {
            Some(debt) => debt,
            None => {
                return Err(LedgerError::ArithmeticOverflow);
            },
        };
        let vi = match find_vapi(vapis, &allocations[i].vapi_id) {
            Some(vi) => vi,
            None => {
                return Err(LedgerError::VapiNotFound);
            },
        };
        if vapis[vi].total_deposit_amount < decrease || remain < decrease {
            return Err(LedgerError::ArithmeticOverflow);
        }
        allocations[i].deposit_info = DepositInfo { deposit_amount: capital, reward_debt: debt };
        vapis[vi].total_deposit_amount = vapis[vi].total_deposit_amount - decrease;
        remain = remain - decrease;
        proof {
            assert(allocation_keys(allocations@) =~= order);
            assert(vapi_keys(vapis@) =~= listed);
            assert(views_of(allocations@) =~= stakes.update(
                i as int,
                allocations[i as int].deposit_info,
            ));
            assert(views_of(vapis@) =~= records.update(vi as int, vapis[vi as int]@));
            assert(listed[vi as int] == order[i as int]);
            lemma_to_map_update(order, stakes, i as int, allocations[i as int].deposit_info);
            lemma_to_map_update(listed, records, vi as int, vapis[vi as int]@);
        }
        i += 1;
    }
    Ok(remain)
}

/// Takes `residual` from the first allocation that holds at least that much,
/// and gives what is left unresolved: nothing where one was found, the whole
/// residual where none holds enough.
pub(crate) fn sweep_allocations(
    allocations: &mut Vec<VapiDeposit>,
    vapis: &mut Vec<VAPIInfo>,
    residual: u128,
    acc: u128,
) -> (r: Result<u128, LedgerError>)
    requires
        vapi_keys(old(vapis)@).no_duplicates(),
        allocation_keys(old(allocations)@).no_duplicates(),
    ensures
        allocation_keys(final(allocations)@) == allocation_keys(old(allocations)@),
        vapi_keys(final(vapis)@) == vapi_keys(old(vapis)@),
        match sweep_from(
            allocation_keys(old(allocations)@),
            to_map(allocation_keys(old(allocations)@), views_of(old(allocations)@)),
            to_map(vapi_keys(old(vapis)@), views_of(old(vapis)@)),
            residual,
            acc,
            0,
        ) {
            Ok((a, v, unresolved)) => r == Ok::<u128, LedgerError>(unresolved) && to_map(
                allocation_keys(final(allocations)@),
                views_of(final(allocations)@),
            ) == a && to_map(vapi_keys(final(vapis)@), views_of(final(vapis)@)) == v,
            Err(e) => r == Err::<u128, LedgerError>(e),
        },
{
    let ghost order = allocation_keys(allocations@);
    let ghost listed = vapi_keys(vapis@);
    let mut i: usize = 0;
    while i < allocations.len()
        invariant
            i <= allocations.len(),
            allocations@ == old(allocations)@,
            vapis@ == old(vapis)@,
            order.no_duplicates(),
            listed.no_duplicates(),
            order == allocation_keys(allocations@),
            listed == vapi_keys(vapis@),
            sweep_from(
                order,
                to_map(order, views_of(allocations@)),
                to_map(listed, views_of(vapis@)),
                residual,
                acc,
                i as int,
            ) == sweep_from(
                order,
                to_map(order, views_of(old(allocations)@)),
                to_map(listed, views_of(old(vapis)@)),
                residual,
                acc,
                0,
            ),
        decreases allocations.len() - i,
    {
        let ghost stakes = views_of(allocations@);
        let ghost records = views_of(vapis@);
        proof {
            assert(order[i as int] == allocations[i as int].vapi_id@);
            lemma_to_map_at(order, stakes, i as int);
        }
        let stake = allocations[i].deposit_info;
        if stake.deposit_amount >= residual {
            let capital = stake.deposit_amount - residual;
            let debt = match reward_debt(capital, acc) {
                Some(debt) => debt,
                None => {
                    return Err(LedgerError::ArithmeticOverflow);
                },
            };
            let vi = match find_vapi(vapis, &allocations[i].vapi_id) {
                Some(vi) => vi,
                None => {
                    return Err(LedgerError::VapiNotFound);
                },
            };
            if vapis[vi].total_deposit_amount < residual {
                return Err(LedgerError::ArithmeticOverflow);
            }
            allocations[i].deposit_info = DepositInfo { deposit_amount: capital, reward_debt: debt };
            vapis[vi].total_deposit_amount = vapis[vi].total_deposit_amount - residual;
            proof {
                assert(allocation_keys(allocations@) =~= order);
                assert(vapi_keys(vapis@) =~= listed);
                assert(views_of(allocations@) =~= stakes.update(
                    i as int,
                    allocations[i as int].deposit_info,
                ));
                assert(views_of(vapis@) =~= records.update(vi as int, vapis[vi as int]@));
                assert(listed[vi as int] == order[i as int]);
                lemma_to_map_update(order, stakes, i as int, allocations[i as int].deposit_info);
                lemma_to_map_update(listed, records, vi as int, vapis[vi as int]@);
            }
            return Ok(0);
        }
        i += 1;
    }
    Ok(residual)
}

/// Releases `amount` of a pool's capital for a refund, on the copies in `c`:
/// from the unallocated balance `pending` first, any shortfall from the
/// allocations. Gives the unallocated balance that is left and the residual
/// that could not be resolved.
pub(crate) fn release(
    c: &mut Compounded,
    pending: u128,
    total_delegator_deposit_amount: u128,
    amount: u128,
) -> (r: Result<(u128, u128), LedgerError>)
    requires
        vapi_keys(old(c).vapis@).no_duplicates(),
        allocation_keys(old(c).allocations@).no_duplicates(),
    ensures
        final(c).royalty_amount == old(c).royalty_amount,
        final(c).acc_reward_per_share == old(c).acc_reward_per_share,
        allocation_keys(final(c).allocations@) == allocation_keys(old(c).allocations@),
        vapi_keys(final(c).vapis@) == vapi_keys(old(c).vapis@),
        match release_capital(
            allocation_keys(old(c).allocations@),
            to_map(allocation_keys(old(c).allocations@), views_of(old(c).allocations@)),
            to_map(vapi_keys(old(c).vapis@), views_of(old(c).vapis@)),
            pending,
            total_delegator_deposit_amount,
            amount,
            old(c).acc_reward_per_share,
        ) {
            Ok((a, v, p, unresolved)) => r == Ok::<(u128, u128), LedgerError>((p, unresolved))
                && to_map(allocation_keys(final(c).allocations@), views_of(final(c).allocations@))
                == a && to_map(vapi_keys(final(c).vapis@), views_of(final(c).vapis@)) == v,
            Err(e) => r == Err::<(u128, u128), LedgerError>(e),
        },
{
    if pending >= amount {
        return Ok((pending - amount, 0));
    }
    if total_delegator_deposit_amount < pending {
        return Err(LedgerError::ArithmeticOverflow);
    }
    let base = total_delegator_deposit_amount - pending;
    let shortfall = amount - pending;
    let acc = c.acc_reward_per_share;
    let remain = match draw_allocations(&mut c.allocations, &mut c.vapis, shortfall, base, acc) {
        Ok(remain) => remain,
        Err(e) => {
            return Err(e);
        },
    };
    if remain == 0 {
        return Ok((0, 0));
    }
    match sweep_allocations(&mut c.allocations, &mut c.vapis, remain, acc) {
        Ok(unresolved) => Ok((0, unresolved)),
        Err(e) => Err(e),
    }
}

/// A delegator's balance: its capital and what it has earned against its pool's
/// accumulator.
pub(crate) fn balance_of(info: &DelegatorInfo, acc_reward_per_share: u128) -> (r: Result<
    u128,
    LedgerError,
>)
    ensures
        r == delegator_balance(*info, acc_reward_per_share),
{
    let reward = match pending_reward(
        info.deposit_info.deposit_amount,
        info.deposit_info.reward_debt,
        acc_reward_per_share,
    ) {
        Ok(reward) => reward,
        Err(e) => {
            return Err(e);
        },
    };
    match info.deposit_info.deposit_amount.checked_add(reward) {
        Some(balance) => Ok(balance),
        None => Err(LedgerError::ArithmeticOverflow),
    }
}

impl TicleCore {
    /// Stakes `amount` of `sender_id` into the pool `reviewer_id`.
    ///
    /// A sender without a position gets one. What the position has earned
    /// against the pool's accumulator is folded into its capital with the
    /// amount. The amount becomes unallocated balance of the pool.
    ///
    /// Fails with `ReviewerNotFound` where the pool is not there, as
    /// `pending_reward` does for the position, and with `ArithmeticOverflow`
    /// where an amount leaves the 128-bit range.
    pub fn internal_deposit_to_reviewer(
        &mut self,
        sender_id: &String,
        reviewer_id: &String,
        amount: u128,
    ) -> (r: Result<(), LedgerError>)
        requires
            old(self).wf(),
        ensures
            final(self).wf(),
            match old(self)@.deposit_to_reviewer(sender_id@, reviewer_id@, amount) {
                Ok(s) => r is Ok && final(self)@ == s,
                Err(e) => r == Err::<(), LedgerError>(e) && final(self)@ == old(self)@,
            },
    {
        let ri = match find_reviewer(&self.reviewers, reviewer_id) {
            Some(ri) => ri,
            None => {
                return Err(LedgerError::ReviewerNotFound);
            },
        };
        assert(self.reviewers[ri as int].wf());
        let known = find_delegator(&self.reviewers[ri].delegators, sender_id);
        let info = match known {
            Some(di) => self.reviewers[ri].delegators[di].info,
            None => DelegatorInfo {
                deposit_info: DepositInfo { deposit_amount: 0, reward_debt: 0 },
                refunding_amount: 0,
                refunding_start_timestamp: 0,
            },
        };
        let (stake, reward) = match info.deposit_info.top_up(
            amount,
            self.reviewers[ri].acc_reward_per_share,
        ) {
            Ok(topped) => topped,
            Err(e) => {
                return Err(e);
            },
        };
        let pending = self.reviewers[ri].pending_amount.checked_add(amount);
        let total = self.reviewers[ri].total_delegator_deposit_amount.checked_add(amount + reward);
        if pending.is_none() || total.is_none() {
            return Err(LedgerError::ArithmeticOverflow);
        }
        let info = DelegatorInfo {
            deposit_info: stake,
            refunding_amount: info.refunding_amount,
            refunding_start_timestamp: info.refunding_start_timestamp,
        };
        let ghost pools = reviewer_keys(self.reviewers@);
        let ghost pool_views = views_of(self.reviewers@);
        let ghost names = delegator_keys(self.reviewers[ri as int].delegators@);
        let ghost positions = views_of(self.reviewers[ri as int].delegators@);
        match known {
            Some(di) => {
                proof {
                    lemma_to_map_update(names, positions, di as int, info);
                }
                self.reviewers[ri].delegators[di].info = info;
                proof {
                    assert(delegator_keys(self.reviewers[ri as int].delegators@) =~= names);
                    assert(views_of(self.reviewers[ri as int].delegators@) =~= positions.update(
                        di as int,
                        info,
                    ));
                }
            },
            None => {
                proof {
                    lemma_to_map_push(names, positions, sender_id@, info);
                }
                self.reviewers[ri].delegators.push(
                    DelegatorEntry { delegator_id: sender_id.clone(), info },
                );
                proof {
                    assert(delegator_keys(self.reviewers[ri as int].delegators@) =~= names.push(
                        sender_id@,
                    ));
                    assert(views_of(self.reviewers[ri as int].delegators@) =~= positions.push(
                        info,
                    ));
                }
            },
        }
        self.reviewers[ri].pending_amount = pending.unwrap();
        self.reviewers[ri].total_delegator_deposit_amount = total.unwrap();
        proof {
            let after = old(self)@.deposit_to_reviewer(sender_id@, reviewer_id@, amount).unwrap();
            self.lemma_pool_replaced(*old(self), ri as int);
            assert(self@.reviewers[reviewer_id@] =~= after.reviewers[reviewer_id@]);
            assert(self@.reviewers =~= after.reviewers);
            assert(self@ =~= after);
        }
        Ok(())
    }

    /// Registers that the delegator `caller` asks `amount` back from the pool
    /// `reviewer_id` at the time `now_ms`.
    ///
    /// The pool's rewards are compounded first. The amount may not exceed the
    /// delegator's balance, which is its capital and what it has earned. Capital
    /// is released from the pool's unallocated balance first; a shortfall is
    /// drawn from the allocations, each by its share rounded down, and what
    /// rounding leaves is taken from the first allocation that can bear it. Each
    /// allocation that is drawn from gets its debt marker set against the pool's
    /// accumulator. The delegator is left with its balance less the amount as
    /// capital, and the amount is added to what it may claim once the lock has
    /// run out, which starts anew.
    ///
    /// The result is the part of the amount for which no capital was released:
    /// it is zero unless no single allocation could bear the residual.
    ///
    /// Fails as `compound` does, with `DelegatorNotFound` where the caller has
    /// no position in the pool, as `pending_reward` does for the position,
    /// with `InsufficientBalance` where the amount exceeds the balance, with
    /// `DivisionByZero` where a shortfall is to be shared over no capital, and
    /// with `ArithmeticOverflow` where an amount leaves the 128-bit range,
    /// which it does where the shares exceed the shortfall.
    pub fn delegator_request_refund(
        &mut self,
        caller: &String,
        reviewer_id: &String,
        amount: u128,
        now_ms: u64,
    ) -> (r: Result<u128, LedgerError>)
        requires
            old(self).wf(),
        ensures
            final(self).wf(),
            match old(self)@.request_refund(caller@, reviewer_id@, amount, now_ms) {
                Ok((s, unresolved)) => r == Ok::<u128, LedgerError>(unresolved) && final(self)@
                    == s,
                Err(e) => r == Err::<u128, LedgerError>(e) && final(self)@ == old(self)@,
            },
    {
        let ri = match find_reviewer(&self.reviewers, reviewer_id) {
            Some(ri) => ri,
            None => {
                return Err(LedgerError::ReviewerNotFound);
            },
        };
        let mut c = match self.compounded(ri) {
            Ok(c) => c,
            Err(e) => {
                return Err(e);
            },
        };
        let ghost settled = c.applied(self@, reviewer_id@);
        assert(self.reviewers[ri as int].wf());
        let di = match find_delegator(&self.reviewers[ri].delegators, caller) {
            Some(di) => di,
            None => {
                return Err(LedgerError::DelegatorNotFound);
            },
        };
        let info = self.reviewers[ri].delegators[di].info;
        let balance = match balance_of(&info, c.acc_reward_per_share) {
            Ok(balance) => balance,
            Err(e) => {
                return Err(e);
            },
        };
        if balance < amount {
            return Err(LedgerError::InsufficientBalance);
        }
        let total_before = self.reviewers[ri].total_delegator_deposit_amount;
        let (pending, unresolved) = match release(
            &mut c,
            self.reviewers[ri].pending_amount,
            total_before,
            amount,
        ) {
            Ok(released) => released,
            Err(e) => {
                return Err(e);
            },
        };
        let capital = balance - amount;
        let debt = reward_debt(capital, c.acc_reward_per_share);
        let refunding = info.refunding_amount.checked_add(amount);
        if debt.is_none() || refunding.is_none() || total_before < amount {
            return Err(LedgerError::ArithmeticOverflow);
        }
        let left = DelegatorInfo {
            deposit_info: DepositInfo { deposit_amount: capital, reward_debt: debt.unwrap() },
            refunding_amount: refunding.unwrap(),
            refunding_start_timestamp: now_ms,
        };
        self.commit(ri, c, pending);
        let ghost committed = *self;
        let ghost names = delegator_keys(self.reviewers[ri as int].delegators@);
        let ghost positions = views_of(self.reviewers[ri as int].delegators@);
        proof {
            lemma_to_map_update(names, positions, di as int, left);
        }
        self.reviewers[ri].total_delegator_deposit_amount = total_before - amount;
        self.reviewers[ri].delegators[di].info = left;
        proof {
            let after = settled.refund_settled(caller@, reviewer_id@, amount, now_ms).unwrap().0;
            assert(delegator_keys(self.reviewers[ri as int].delegators@) =~= names);
            assert(views_of(self.reviewers[ri as int].delegators@) =~= positions.update(
                di as int,
                left,
            ));
            self.lemma_pool_replaced(committed, ri as int);
            assert(self@.reviewers[reviewer_id@] =~= after.reviewers[reviewer_id@]);
            assert(self@.reviewers =~= after.reviewers);
            assert(self@.vapis =~= after.vapis);
            assert(self@ =~= after);
        }
        Ok(unresolved)
    }

    /// Claims what the delegator `caller` has asked back from the pool
    /// `reviewer_id`, at the time `now_ms`.
    ///
    /// With nothing asked back, nothing happens. Otherwise the claim is cleared
    /// and the amount to transfer to the delegator is returned; how the transfer
    /// ended is then to be told to `callback_delegator_claim_refund`.
    ///
    /// Fails with `ReviewerNotFound` or `DelegatorNotFound` where the pool or
    /// the position is not there, and with `RefundLocked` where the lock has not
    /// run out since the request.
    pub fn delegator_claim_refund(&mut self, caller: &String, reviewer_id: &String, now_ms: u64)
        -> (r: Result<Option<u128>, LedgerError>)
        requires
            old(self).wf(),
        ensures
            final(self).wf(),
            match old(self)@.claim_refund(caller@, reviewer_id@, now_ms) {
                Ok((s, transfer)) => r == Ok::<Option<u128>, LedgerError>(transfer)
                    && final(self)@ == s,
                Err(e) => r == Err::<Option<u128>, LedgerError>(e) && final(self)@ == old(self)@,
            },
    {
        let ri = match find_reviewer(&self.reviewers, reviewer_id) {
            Some(ri) => ri,
            None => {
                return Err(LedgerError::ReviewerNotFound);
            },
        };
        assert(self.reviewers[ri as int].wf());
        let di = match find_delegator(&self.reviewers[ri].delegators, caller) {
            Some(di) => di,
            None => {
                return Err(LedgerError::DelegatorNotFound);
            },
        };
        let info = self.reviewers[ri].delegators[di].info;
        if info.refunding_amount == 0 {
            return Ok(None);
        }
        let ghost names = delegator_keys(self.reviewers[ri as int].delegators@);
        let ghost positions = views_of(self.reviewers[ri as int].delegators@);
        if now_ms < info.refunding_start_timestamp || now_ms - info.refunding_start_timestamp
            < self.refund_lock_ms {
            return Err(LedgerError::RefundLocked);
        }
        self.reviewers[ri].delegators[di].info.refunding_amount = 0;
        proof {
            let after = old(self)@.claim_refund(caller@, reviewer_id@, now_ms).unwrap().0;
            let cleared = self.reviewers[ri as int].delegators[di as int].info;
            assert(delegator_keys(self.reviewers[ri as int].delegators@) =~= names);
            assert(views_of(self.reviewers[ri as int].delegators@) =~= positions.update(
                di as int,
                cleared,
            ));
            lemma_to_map_update(names, positions, di as int, cleared);
            self.lemma_pool_replaced(*old(self), ri as int);
            assert(self@.reviewers[reviewer_id@] =~= after.reviewers[reviewer_id@]);
            assert(self@.reviewers =~= after.reviewers);
            assert(self@ =~= after);
        }
        Ok(Some(info.refunding_amount))
    }

    /// Takes note of how the transfer of a claimed refund of `refunding_amount`
    /// to `delegator_id` ended.
    ///
    /// Where the transfer failed, the claim is restored, with the time of the
    /// request, so that it can be made again at once. Where it succeeded and no
    /// new claim stands, the time of the request is cleared, and a position
    /// without capital is removed, the last one taking its place.
    ///
    /// Fails with `ReviewerNotFound` or `DelegatorNotFound` where the pool or
    /// the position is not there, and with `ArithmeticOverflow` where the claim
    /// that is restored leaves the 128-bit range.
    pub fn callback_delegator_claim_refund(
        &mut self,
        delegator_id: &String,
        reviewer_id: &String,
        refunding_amount: u128,
        transfer_succeeded: bool,
    ) -> (r: Result<(), LedgerError>)
        requires
            old(self).wf(),
        ensures
            final(self).wf(),
            match old(self)@.resolve_refund(
                delegator_id@,
                reviewer_id@,
                refunding_amount,
                transfer_succeeded,
            ) {
                Ok(s) => r is Ok && final(self)@ == s,
                Err(e) => r == Err::<(), LedgerError>(e) && final(self)@ == old(self)@,
            },
    {
        let ri = match find_reviewer(&self.reviewers, reviewer_id) {
            Some(ri) => ri,
            None => {
                return Err(LedgerError::ReviewerNotFound);
            },
        };
        assert(self.reviewers[ri as int].wf());
        let di = match find_delegator(&self.reviewers[ri].delegators, delegator_id) {
            Some(di) => di,
            None => {
                return Err(LedgerError::DelegatorNotFound);
            },
        };
        let info = self.reviewers[ri].delegators[di].info;
        let ghost names = delegator_keys(self.reviewers[ri as int].delegators@);
        let ghost positions = views_of(self.reviewers[ri as int].delegators@);
        if !transfer_succeeded {
            let restored = match info.refunding_amount.checked_add(refunding_amount) {
                Some(restored) => restored,
                None => {
                    return Err(LedgerError::ArithmeticOverflow);
                },
            };
            self.reviewers[ri].delegators[di].info.refunding_amount = restored;
            proof {
                let put = self.reviewers[ri as int].delegators[di as int].info;
                assert(delegator_keys(self.reviewers[ri as int].delegators@) =~= names);
                assert(views_of(self.reviewers[ri as int].delegators@) =~= positions.update(
                    di as int,
                    put,
                ));
                lemma_to_map_update(names, positions, di as int, put);
            }
        } else if info.refunding_amount == 0 {
            if info.deposit_info.deposit_amount == 0 {
                proof {
                    lemma_to_map_swap_remove(names, positions, di as int);
                }
                self.reviewers[ri].delegators.swap_remove(di);
                proof {
                    assert(delegator_keys(self.reviewers[ri as int].delegators@) =~= swap_removed(
                        names,
                        di as int,
                    ));
                    assert(views_of(self.reviewers[ri as int].delegators@) =~= swap_removed(
                        positions,
                        di as int,
                    ));
                }
            } else {
                self.reviewers[ri].delegators[di].info.refunding_start_timestamp = 0;
                proof {
                    let put = self.reviewers[ri as int].delegators[di as int].info;
                    assert(delegator_keys(self.reviewers[ri as int].delegators@) =~= names);
                    assert(views_of(self.reviewers[ri as int].delegators@) =~= positions.update(
                        di as int,
                        put,
                    ));
                    lemma_to_map_update(names, positions, di as int, put);
                }
            }
        }
        proof {
            let after = old(self)@.resolve_refund(
                delegator_id@,
                reviewer_id@,
                refunding_amount,
                transfer_succeeded,
            ).unwrap();
            self.lemma_pool_replaced(*old(self), ri as int);
            assert(self@.reviewers[reviewer_id@] =~= after.reviewers[reviewer_id@]);
            assert(self@.reviewers =~= after.reviewers);
            assert(self@ =~= after);
        }
        Ok(())
    }
}

} // verus!
