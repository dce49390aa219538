//! What each operation does to the ledger: a function from the ledger before
//! the operation, and the operation's arguments, to the ledger after it or to
//! the reason for which the operation fails.

use vstd::prelude::*;
use crate::arith::mul_div_spec;
use crate::error::LedgerError;
use crate::keyed::swap_removed;
use crate::model::{Ledger, Reviewer, Vapi, BURN_PERCENT, REVIEWER_FEE_PERCENT, ROYALTY_DIVISOR};
use crate::reward::{pending_reward_spec, reward_debt_spec, PRECISION};
use crate::types::{DelegatorInfo, DepositInfo, GetDepositInfoResponse};

verus! {

/// Running sums of one compounding pass over a pool's allocations.
#[derive(Clone, Copy)]
pub struct CompoundTotals {
    /// Royalty split off so far.
    pub royalty: u128,
    /// Reward reinvested so far, which is what the delegators earn.
    pub reward: u128,
}

/// Running sums of one settlement batch.
#[derive(Clone, Copy)]
pub struct SettleTotals {
    /// Fees of VAPIs without stakers, which go to the treasury.
    pub treasury: u128,
    /// What is to be burned.
    pub burn: u128,
}

/// A stake after `amount` is added to it: what it has earned against the
/// accumulator `acc` is folded into the capital, and the debt marker is set
/// anew. The second component is the reward that was folded in.
pub open spec fn top_up(stake: DepositInfo, amount: u128, acc: u128) -> Result<
    (DepositInfo, u128),
    LedgerError,
> {
    match pending_reward_spec(stake.deposit_amount, stake.reward_debt, acc) {
        Err(e) => Err(e),
        Ok(reward) => {
            if stake.deposit_amount + amount + reward > u128::MAX {
                Err(LedgerError::ArithmeticOverflow)
            } else {
                let capital = (stake.deposit_amount + amount + reward) as u128;
                match reward_debt_spec(capital, acc) {
                    None => Err(LedgerError::ArithmeticOverflow),
                    Some(debt) => Ok(
                        (DepositInfo { deposit_amount: capital, reward_debt: debt }, reward),
                    ),
                }
            }
        },
    }
}

/// Compounding the allocation into the VAPI `id`: its reward against the
/// VAPI's accumulator, less the royalty, is added to its capital and to the
/// VAPI's allocated total. An allocation without reward is left as it is.
pub open spec fn compound_step(
    allocations: Map<Seq<char>, DepositInfo>,
    vapis: Map<Seq<char>, Vapi>,
    totals: CompoundTotals,
    id: Seq<char>,
) -> Result<(Map<Seq<char>, DepositInfo>, Map<Seq<char>, Vapi>, CompoundTotals), LedgerError> {
    let stake = allocations[id];
    if !vapis.contains_key(id) {
        Err(LedgerError::VapiNotFound)
    } else {
        let v = vapis[id];
        match pending_reward_spec(stake.deposit_amount, stake.reward_debt, v.acc_reward_per_share) {
            Err(e) => Err(e),
            Ok(reward) => {
                if reward == 0 {
                    Ok((allocations, vapis, totals))
                } else {
                    let royalty = reward / ROYALTY_DIVISOR;
                    let gain = (reward - royalty) as u128;
                    let capital = stake.deposit_amount + gain;
                    if totals.royalty + royalty > u128::MAX || totals.reward + gain > u128::MAX
                        || capital > u128::MAX || v.total_allocated + gain > u128::MAX {
                        Err(LedgerError::ArithmeticOverflow)
                    } else {
                        match reward_debt_spec(capital as u128, v.acc_reward_per_share) {
                            None => Err(LedgerError::ArithmeticOverflow),
                            Some(debt) => Ok(
                                (
                                    allocations.insert(
                                        id,
                                        DepositInfo {
                                            deposit_amount: capital as u128,
                                            reward_debt: debt,
                                        },
                                    ),
                                    vapis.insert(
                                        id,
                                        Vapi {
                                            total_allocated: (v.total_allocated + gain) as u128,
                                            ..v
                                        },
                                    ),
                                    CompoundTotals {
                                        royalty: (totals.royalty + royalty) as u128,
                                        reward: (totals.reward + gain) as u128,
                                    },
                                ),
                            ),
                        }
                    }
                }
            },
        }
    }
}

/// Compounding the allocations that `order` names from its place `i` on, in
/// order. The end is told after the last step already, so that what a short
/// order gives can be read off without following the recursion.
pub open spec fn compound_from(
    order: Seq<Seq<char>>,
    allocations: Map<Seq<char>, DepositInfo>,
    vapis: Map<Seq<char>, Vapi>,
    totals: CompoundTotals,
    i: int,
) -> Result<(Map<Seq<char>, DepositInfo>, Map<Seq<char>, Vapi>, CompoundTotals), LedgerError>
    decreases order.len() - i,
{
    if i < 0 || i >= order.len() {
        Ok((allocations, vapis, totals))
    } else {
        match compound_step(allocations, vapis, totals, order[i]) {
            Err(e) => Err(e),
            Ok((a, v, t)) => if i + 1 >= order.len() {
                Ok((a, v, t))
            } else {
                compound_from(order, a, v, t, i + 1)
            },
        }
    }
}

/// What a compounding pass credits to its pool: the royalty it has earned
/// then, and where its accumulator stands then.
pub open spec fn credit_reviewer(r: Reviewer, totals: CompoundTotals) -> Result<
    (u128, u128),
    LedgerError,
> {
    if r.royalty_earned + totals.royalty > u128::MAX {
        Err(LedgerError::ArithmeticOverflow)
    } else if r.total_delegator_capital == 0 {
        Err(LedgerError::DivisionByZero)
    } else {
        match mul_div_spec(totals.reward, PRECISION, r.total_delegator_capital) {
            None => Err(LedgerError::ArithmeticOverflow),
            Some(step) => if r.acc_reward_per_share + step > u128::MAX {
                Err(LedgerError::ArithmeticOverflow)
            } else {
                Ok(
                    (
                        (r.royalty_earned + totals.royalty) as u128,
                        (r.acc_reward_per_share + step) as u128,
                    ),
                )
            },
        }
    }
}

/// Drawing the allocation into the VAPI `id` down by its share of a shortfall:
/// the share is `shortfall * capital / base`, rounded down. The allocation's
/// debt marker is set anew against the pool's accumulator `acc`, and the
/// VAPI's allocated total falls in step. `remain` is what is still to be drawn.
pub open spec fn draw_step(
    allocations: Map<Seq<char>, DepositInfo>,
    vapis: Map<Seq<char>, Vapi>,
    shortfall: u128,
    base: u128,
    acc: u128,
    remain: u128,
    id: Seq<char>,
) -> Result<(Map<Seq<char>, DepositInfo>, Map<Seq<char>, Vapi>, u128), LedgerError> {
    let stake = allocations[id];
    if base == 0 {
        Err(LedgerError::DivisionByZero)
    } else {
        let share = mul_div_spec(shortfall, stake.deposit_amount, base);
        if share is None || share.unwrap() > stake.deposit_amount {
            Err(LedgerError::ArithmeticOverflow)
        } else {
            let decrease = share.unwrap();
            let capital = (stake.deposit_amount - decrease) as u128;
            match reward_debt_spec(capital, acc) {
                None => Err(LedgerError::ArithmeticOverflow),
                Some(debt) => {
                    if !vapis.contains_key(id) {
                        Err(LedgerError::VapiNotFound)
                    } else {
                        let v = vapis[id];
                        if v.total_allocated < decrease || remain < decrease {
                            Err(LedgerError::ArithmeticOverflow)
                        } else {
                            Ok(
                                (
                                    allocations.insert(
                                        id,
                                        DepositInfo { deposit_amount: capital, reward_debt: debt },
                                    ),
                                    vapis.insert(
                                        id,
                                        Vapi {
                                            total_allocated: (v.total_allocated - decrease) as u128,
                                            ..v
                                        },
                                    ),
                                    (remain - decrease) as u128,
                                ),
                            )
                        }
                    }
                },
            }
        }
    }
}

/// Drawing the allocations that `order` names from its place `i` on, in order.
pub open spec fn draw_from(
    order: Seq<Seq<char>>,
    allocations: Map<Seq<char>, DepositInfo>,
    vapis: Map<Seq<char>, Vapi>,
    shortfall: u128,
    base: u128,
    acc: u128,
    remain: u128,
    i: int,
) -> Result<(Map<Seq<char>, DepositInfo>, Map<Seq<char>, Vapi>, u128), LedgerError>
    decreases order.len() - i,
{
    if i < 0 || i >= order.len() {
        Ok((allocations, vapis, remain))
    } else {
        match draw_step(allocations, vapis, shortfall, base, acc, remain, order[i]) {
            Err(e) => Err(e),
            Ok((a, v, rest)) => if i + 1 >= order.len() {
                Ok((a, v, rest))
            } else {
                draw_from(order, a, v, shortfall, base, acc, rest, i + 1)
            },
        }
    }
}

/// Taking the whole `residual` from the allocation into the VAPI `id`.
pub open spec fn sweep_step(
    allocations: Map<Seq<char>, DepositInfo>,
    vapis: Map<Seq<char>, Vapi>,
    residual: u128,
    acc: u128,
    id: Seq<char>,
) -> Result<(Map<Seq<char>, DepositInfo>, Map<Seq<char>, Vapi>), LedgerError> {
    let stake = allocations[id];
    let capital = (stake.deposit_amount - residual) as u128;
    match reward_debt_spec(capital, acc) {
        None => Err(LedgerError::ArithmeticOverflow),
        Some(debt) => {
            if !vapis.contains_key(id) {
                Err(LedgerError::VapiNotFound)
            } else {
                let v = vapis[id];
                if v.total_allocated < residual {
                    Err(LedgerError::ArithmeticOverflow)
                } else {
                    Ok(
                        (
                            allocations.insert(
                                id,
                                DepositInfo { deposit_amount: capital, reward_debt: debt },
                            ),
                            vapis.insert(
                                id,
                                Vapi {
                                    total_allocated: (v.total_allocated - residual) as u128,
                                    ..v
                                },
                            ),
                        ),
                    )
                }
            }
        },
    }
}

/// Sweeping the `residual` that rounding left: it is taken from the first
/// allocation, of those that `order` names from its place `i` on, that holds
/// at least that much. Where none does, nothing changes and the residual stays
/// unresolved, which the third component says.
pub open spec fn sweep_from(
    order: Seq<Seq<char>>,
    allocations: Map<Seq<char>, DepositInfo>,
    vapis: Map<Seq<char>, Vapi>,
    residual: u128,
    acc: u128,
    i: int,
) -> Result<(Map<Seq<char>, DepositInfo>, Map<Seq<char>, Vapi>, u128), LedgerError>
    decreases order.len() - i,
{
    if i < 0 || i >= order.len() {
        Ok((allocations, vapis, residual))
    } else if allocations[order[i]].deposit_amount >= residual {
        match sweep_step(allocations, vapis, residual, acc, order[i]) {
            Err(e) => Err(e),
            Ok((a, v)) => Ok((a, v, 0)),
        }
    } else if i + 1 >= order.len() {
        Ok((allocations, vapis, residual))
    } else {
        sweep_from(order, allocations, vapis, residual, acc, i + 1)
    }
}

/// Releasing `amount` of a pool's capital for a refund: from the unallocated
/// balance `pending` first, and any shortfall from the allocations, each by its
/// share of `total_delegator_capital - pending`, with the rounding residual
/// swept afterwards. Gives the allocations, the VAPIs, the unallocated balance
/// that is left, and the residual that could not be resolved.
pub open spec fn release_capital(
    order: Seq<Seq<char>>,
    allocations: Map<Seq<char>, DepositInfo>,
    vapis: Map<Seq<char>, Vapi>,
    pending: u128,
    total_delegator_capital: u128,
    amount: u128,
    acc: u128,
) -> Result<(Map<Seq<char>, DepositInfo>, Map<Seq<char>, Vapi>, u128, u128), LedgerError> {
    if pending >= amount {
        Ok((allocations, vapis, (pending - amount) as u128, 0))
    } else if total_delegator_capital < pending {
        Err(LedgerError::ArithmeticOverflow)
    } else {
        let base = (total_delegator_capital - pending) as u128;
        let shortfall = (amount - pending) as u128;
        match draw_from(order, allocations, vapis, shortfall, base, acc, shortfall, 0) {
            Err(e) => Err(e),
            Ok((a, v, remain)) => {
                if remain == 0 {
                    Ok((a, v, 0, 0))
                } else {
                    match sweep_from(order, a, v, remain, acc, 0) {
                        Err(e) => Err(e),
                        Ok((a2, v2, unresolved)) => Ok((a2, v2, 0, unresolved)),
                    }
                }
            },
        }
    }
}

/// Booking `amount` of revenue against the VAPI `id`: 39% goes to its stakers
/// through its accumulator, or to the treasury where it has none; 1% is to be
/// burned; the rest is credited to its coder.
pub open spec fn settle_step(
    vapis: Map<Seq<char>, Vapi>,
    id: Seq<char>,
    amount: u128,
    totals: SettleTotals,
) -> Result<(Map<Seq<char>, Vapi>, SettleTotals), LedgerError> {
    let fee = (amount * REVIEWER_FEE_PERCENT / 100) as u128;
    let burn = (amount * BURN_PERCENT / 100) as u128;
    if !vapis.contains_key(id) {
        Err(LedgerError::VapiNotFound)
    } else {
        let v = vapis[id];
        let unclaimed = v.unclaimed_reward + (amount - fee - burn);
        if unclaimed > u128::MAX || totals.burn + burn > u128::MAX {
            Err(LedgerError::ArithmeticOverflow)
        } else if v.total_allocated == 0 {
            if totals.treasury + fee > u128::MAX {
                Err(LedgerError::ArithmeticOverflow)
            } else {
                Ok(
                    (
                        vapis.insert(id, Vapi { unclaimed_reward: unclaimed as u128, ..v }),
                        SettleTotals {
                            treasury: (totals.treasury + fee) as u128,
                            burn: (totals.burn + burn) as u128,
                        },
                    ),
                )
            }
        } else {
            let step = mul_div_spec(fee, PRECISION, v.total_allocated);
            if step is None || v.acc_reward_per_share + step.unwrap() > u128::MAX {
                Err(LedgerError::ArithmeticOverflow)
            } else {
                Ok(
                    (
                        vapis.insert(
                            id,
                            Vapi {
                                unclaimed_reward: unclaimed as u128,
                                acc_reward_per_share: (v.acc_reward_per_share
                                    + step.unwrap()) as u128,
                                ..v
                            },
                        ),
                        SettleTotals {
                            treasury: totals.treasury,
                            burn: (totals.burn + burn) as u128,
                        },
                    ),
                )
            }
        }
    }
}

/// Booking the pairs from `k` on, in order.
pub open spec fn settle_from(
    vapis: Map<Seq<char>, Vapi>,
    vapi_ids: Seq<Seq<char>>,
    amounts: Seq<u128>,
    totals: SettleTotals,
    k: int,
) -> Result<(Map<Seq<char>, Vapi>, SettleTotals), LedgerError>
    decreases vapi_ids.len() - k,
{
    if k < 0 || k >= vapi_ids.len() {
        Ok((vapis, totals))
    } else {
        match settle_step(vapis, vapi_ids[k], amounts[k], totals) {
            Err(e) => Err(e),
            Ok((v, t)) => if k + 1 >= vapi_ids.len() {
                Ok((v, t))
            } else {
                settle_from(v, vapi_ids, amounts, t, k + 1)
            },
        }
    }
}

/// A delegator's balance: its capital and what it has earned against its
/// pool's accumulator `acc`.
pub open spec fn delegator_balance(d: DelegatorInfo, acc: u128) -> Result<u128, LedgerError> {
    match pending_reward_spec(d.deposit_info.deposit_amount, d.deposit_info.reward_debt, acc) {
        Err(e) => Err(e),
        Ok(reward) => if d.deposit_info.deposit_amount + reward > u128::MAX {
            Err(LedgerError::ArithmeticOverflow)
        } else {
            Ok((d.deposit_info.deposit_amount + reward) as u128)
        },
    }
}

/// A stake's capital with its reward against the accumulator `acc`.
pub open spec fn stake_info(stake: DepositInfo, acc: u128) -> Result<
    GetDepositInfoResponse,
    LedgerError,
> {
    match pending_reward_spec(stake.deposit_amount, stake.reward_debt, acc) {
        Err(e) => Err(e),
        Ok(reward) => Ok(GetDepositInfoResponse { deposit_amount: stake.deposit_amount, reward }),
    }
}

/// What the payload of a transfer notification asks for.
pub enum Message {
    /// Booking revenue, `amounts[k]` against `vapi_ids[k]`.
    Settlement { vapi_ids: Seq<Seq<char>>, amounts: Seq<u128> },
    /// Staking the transferred amount into a pool.
    DepositToReviewer { reviewer_id: Seq<char> },
}

impl Ledger {
    /// Registering the VAPI `vapi_id` for the caller, with nothing allocated.
    pub open spec fn create_vapi(self, caller: Seq<char>, vapi_id: Seq<char>) -> Result<
        Ledger,
        LedgerError,
    > {
        if self.vapis.contains_key(vapi_id) {
            Err(LedgerError::VapiAlreadyExists)
        } else {
            Ok(
                Ledger {
                    vapi_ids: self.vapi_ids.push(vapi_id),
                    vapis: self.vapis.insert(
                        vapi_id,
                        Vapi {
                            coder: caller,
                            unclaimed_reward: 0,
                            total_allocated: 0,
                            acc_reward_per_share: 0,
                        },
                    ),
                    ..self
                },
            )
        }
    }

    /// Putting an empty pool under `reviewer_id`, in the place of the one
    /// that may stand there.
    pub open spec fn create_reviewer(self, reviewer_id: Seq<char>) -> Ledger {
        Ledger {
            reviewer_ids: if self.reviewers.contains_key(reviewer_id) {
                self.reviewer_ids
            } else {
                self.reviewer_ids.push(reviewer_id)
            },
            reviewers: self.reviewers.insert(reviewer_id, Reviewer::empty()),
            ..self
        }
    }

    /// Handing the VAPI over to `new_coder`, which only its coder may do.
    pub open spec fn transfer_ownership(
        self,
        caller: Seq<char>,
        vapi_id: Seq<char>,
        new_coder: Seq<char>,
    ) -> Result<Ledger, LedgerError> {
        if !self.vapis.contains_key(vapi_id) {
            Err(LedgerError::VapiNotFound)
        } else if self.vapis[vapi_id].coder != caller {
            Err(LedgerError::NotCoder)
        } else {
            Ok(
                Ledger {
                    vapis: self.vapis.insert(
                        vapi_id,
                        Vapi { coder: new_coder, ..self.vapis[vapi_id] },
                    ),
                    ..self
                },
            )
        }
    }

    /// The pool `caller` moving `amount` of its unallocated balance into the
    /// VAPI `vapi_id`.
    pub open spec fn deposit_to_vapi(self, caller: Seq<char>, vapi_id: Seq<char>, amount: u128)
        -> Result<Ledger, LedgerError> {
        if !self.vapis.contains_key(vapi_id) {
            Err(LedgerError::VapiNotFound)
        } else if !self.reviewers.contains_key(caller) {
            Err(LedgerError::ReviewerNotFound)
        } else {
            let v = self.vapis[vapi_id];
            let r = self.reviewers[caller];
            if r.pending < amount {
                Err(LedgerError::InsufficientPending)
            } else {
                let held = r.allocations.contains_key(vapi_id);
                let stake = if held {
                    r.allocations[vapi_id]
                } else {
                    DepositInfo::zero()
                };
                match top_up(stake, amount, v.acc_reward_per_share) {
                    Err(e) => Err(e),
                    Ok((stake, reward)) => {
                        let allocation_ids = if held {
                            r.allocation_ids
                        } else {
                            r.allocation_ids.push(vapi_id)
                        };
                        if allocation_ids.len() > self.max_depositable_vapi_count {
                            Err(LedgerError::MaxVapiCountReached)
                        } else if v.total_allocated + amount > u128::MAX {
                            Err(LedgerError::ArithmeticOverflow)
                        } else {
                            Ok(
                                Ledger {
                                    vapis: self.vapis.insert(
                                        vapi_id,
                                        Vapi {
                                            total_allocated: (v.total_allocated + amount) as u128,
                                            ..v
                                        },
                                    ),
                                    reviewers: self.reviewers.insert(
                                        caller,
                                        Reviewer {
                                            allocation_ids,
                                            allocations: r.allocations.insert(vapi_id, stake),
                                            pending: (r.pending - amount) as u128,
                                            ..r
                                        },
                                    ),
                                    ..self
                                },
                            )
                        }
                    },
                }
            }
        }
    }

    /// Realising what the allocations of `reviewer_id` have earned: each is
    /// compounded in order, the royalty is credited to the pool, and the
    /// pool's accumulator advances by the reinvested reward per unit of
    /// delegator capital.
    pub open spec fn compound(self, reviewer_id: Seq<char>) -> Result<Ledger, LedgerError> {
        if !self.reviewers.contains_key(reviewer_id) {
            Err(LedgerError::ReviewerNotFound)
        } else {
            let r = self.reviewers[reviewer_id];
            match compound_from(
                r.allocation_ids,
                r.allocations,
                self.vapis,
                CompoundTotals { royalty: 0, reward: 0 },
                0,
            ) {
                Err(e) => Err(e),
                Ok((allocations, vapis, totals)) => {
                    match credit_reviewer(r, totals) {
                        Err(e) => Err(e),
                        Ok((royalty, acc)) => Ok(
                            Ledger {
                                vapis,
                                reviewers: self.reviewers.insert(
                                    reviewer_id,
                                    Reviewer {
                                        allocations,
                                        royalty_earned: royalty,
                                        acc_reward_per_share: acc,
                                        ..r
                                    },
                                ),
                                ..self
                            },
                        ),
                    }
                },
            }
        }
    }

    /// The pool `caller` taking `amount` of capital back out of the VAPI
    /// `vapi_id`, after its rewards are compounded.
    pub open spec fn withdraw_from_vapi(self, caller: Seq<char>, vapi_id: Seq<char>, amount: u128)
        -> Result<Ledger, LedgerError> {
        if amount == 0 {
            Err(LedgerError::ZeroAmount)
        } else {
            match self.compound(caller) {
                Err(e) => Err(e),
                Ok(settled) => settled.withdraw_settled(caller, vapi_id, amount),
            }
        }
    }

    /// The withdrawal itself, on a ledger whose rewards are compounded. What is
    /// left of the allocation gets its debt marker set against the accumulator
    /// of the VAPI. An allocation that is emptied is removed, and the last one
    /// takes its place in the order of release.
    pub open spec fn withdraw_settled(self, caller: Seq<char>, vapi_id: Seq<char>, amount: u128)
        -> Result<Ledger, LedgerError> {
        if !self.vapis.contains_key(vapi_id) {
            Err(LedgerError::VapiNotFound)
        } else if !self.reviewers.contains_key(caller) {
            Err(LedgerError::ReviewerNotFound)
        } else {
            let v = self.vapis[vapi_id];
            let r = self.reviewers[caller];
            if !r.allocations.contains_key(vapi_id) {
                Err(LedgerError::DepositNotFound)
            } else {
                let stake = r.allocations[vapi_id];
                if stake.deposit_amount < amount {
                    Err(LedgerError::InsufficientDeposit)
                } else {
                    let capital = (stake.deposit_amount - amount) as u128;
                    let debt = reward_debt_spec(capital, v.acc_reward_per_share);
                    if (capital != 0 && debt is None) || r.pending + amount > u128::MAX
                        || v.total_allocated < amount {
                        Err(LedgerError::ArithmeticOverflow)
                    } else {
                        let left = if capital == 0 {
                            Reviewer {
                                allocation_ids: swap_removed(
                                    r.allocation_ids,
                                    r.allocation_ids.index_of(vapi_id),
                                ),
                                allocations: r.allocations.remove(vapi_id),
                                pending: (r.pending + amount) as u128,
                                ..r
                            }
                        } else {
                            Reviewer {
                                allocations: r.allocations.insert(
                                    vapi_id,
                                    DepositInfo {
                                        deposit_amount: capital,
                                        reward_debt: debt.unwrap(),
                                    },
                                ),
                                pending: (r.pending + amount) as u128,
                                ..r
                            }
                        };
                        Ok(
                            Ledger {
                                vapis: self.vapis.insert(
                                    vapi_id,
                                    Vapi {
                                        total_allocated: (v.total_allocated - amount) as u128,
                                        ..v
                                    },
                                ),
                                reviewers: self.reviewers.insert(caller, left),
                                ..self
                            },
                        )
                    }
                }
            }
        }
    }

    /// `sender` staking `amount` into the pool of `reviewer_id`. What the
    /// position has earned is folded into its capital; the amount becomes
    /// unallocated balance of the pool.
    pub open spec fn deposit_to_reviewer(
        self,
        sender: Seq<char>,
        reviewer_id: Seq<char>,
        amount: u128,
    ) -> Result<Ledger, LedgerError> {
        if !self.reviewers.contains_key(reviewer_id) {
            Err(LedgerError::ReviewerNotFound)
        } else {
            let r = self.reviewers[reviewer_id];
            let info = if r.delegators.contains_key(sender) {
                r.delegators[sender]
            } else {
                DelegatorInfo::zero()
            };
            match top_up(info.deposit_info, amount, r.acc_reward_per_share) {
                Err(e) => Err(e),
                Ok((stake, reward)) => {
                    if r.pending + amount > u128::MAX || r.total_delegator_capital + amount
                        + reward > u128::MAX {
                        Err(LedgerError::ArithmeticOverflow)
                    } else {
                        Ok(
                            Ledger {
                                reviewers: self.reviewers.insert(
                                    reviewer_id,
                                    Reviewer {
                                        delegators: r.delegators.insert(
                                            sender,
                                            DelegatorInfo { deposit_info: stake, ..info },
                                        ),
                                        pending: (r.pending + amount) as u128,
                                        total_delegator_capital: (r.total_delegator_capital
                                            + amount + reward) as u128,
                                        ..r
                                    },
                                ),
                                ..self
                            },
                        )
                    }
                },
            }
        }
    }

    /// The delegator `caller` asking `amount` back from the pool of
    /// `reviewer_id` at the time `now`, after the pool's rewards are compounded.
    /// The second component is the part of the amount that no capital was
    /// released for.
    pub open spec fn request_refund(
        self,
        caller: Seq<char>,
        reviewer_id: Seq<char>,
        amount: u128,
        now: u64,
    ) -> Result<(Ledger, u128), LedgerError> {
        match self.compound(reviewer_id) {
            Err(e) => Err(e),
            Ok(settled) => settled.refund_settled(caller, reviewer_id, amount, now),
        }
    }

    /// The request itself, on a ledger whose rewards are compounded.
    pub open spec fn refund_settled(
        self,
        caller: Seq<char>,
        reviewer_id: Seq<char>,
        amount: u128,
        now: u64,
    ) -> Result<(Ledger, u128), LedgerError> {
        if !self.reviewers.contains_key(reviewer_id) {
            Err(LedgerError::ReviewerNotFound)
        } else {
            let r = self.reviewers[reviewer_id];
            if !r.delegators.contains_key(caller) {
                Err(LedgerError::DelegatorNotFound)
            } else {
                let d = r.delegators[caller];
                match delegator_balance(d, r.acc_reward_per_share) {
                    Err(e) => Err(e),
                    Ok(balance) => {
                        if balance < amount {
                            Err(LedgerError::InsufficientBalance)
                        } else {
                            match release_capital(
                                r.allocation_ids,
                                r.allocations,
                                self.vapis,
                                r.pending,
                                r.total_delegator_capital,
                                amount,
                                r.acc_reward_per_share,
                            ) {
                                Err(e) => Err(e),
                                Ok((allocations, vapis, pending, unresolved)) => {
                                    let capital = (balance - amount) as u128;
                                    let debt = reward_debt_spec(capital, r.acc_reward_per_share);
                                    if debt is None || d.refunding_amount + amount > u128::MAX
                                        || r.total_delegator_capital < amount {
                                        Err(LedgerError::ArithmeticOverflow)
                                    } else {
                                        let left = DelegatorInfo {
                                            deposit_info: DepositInfo {
                                                deposit_amount: capital,
                                                reward_debt: debt.unwrap(),
                                            },
                                            refunding_amount: (d.refunding_amount + amount) as u128,
                                            refunding_start_timestamp: now,
                                        };
                                        Ok(
                                            (
                                                Ledger {
                                                    vapis,
                                                    reviewers: self.reviewers.insert(
                                                        reviewer_id,
                                                        Reviewer {
                                                            allocations,
                                                            pending,
                                                            delegators: r.delegators.insert(
                                                                caller,
                                                                left,
                                                            ),
                                                            total_delegator_capital: (
                                                            r.total_delegator_capital
                                                                - amount) as u128,
                                                            ..r
                                                        },
                                                    ),
                                                    ..self
                                                },
                                                unresolved,
                                            ),
                                        )
                                    }
                                },
                            }
                        }
                    },
                }
            }
        }
    }

    /// The ledger with the delegators of the pool `reviewer_id` replaced.
    pub open spec fn with_delegators(
        self,
        reviewer_id: Seq<char>,
        delegators: Map<Seq<char>, DelegatorInfo>,
    ) -> Ledger {
        Ledger {
            reviewers: self.reviewers.insert(
                reviewer_id,
                Reviewer { delegators, ..self.reviewers[reviewer_id] },
            ),
            ..self
        }
    }

    /// The delegator `caller` claiming what it asked back from `reviewer_id`, at
    /// the time `now`. The second component is the amount to transfer, if any.
    pub open spec fn claim_refund(self, caller: Seq<char>, reviewer_id: Seq<char>, now: u64)
        -> Result<(Ledger, Option<u128>), LedgerError> {
        if !self.reviewers.contains_key(reviewer_id) {
            Err(LedgerError::ReviewerNotFound)
        } else {
            let r = self.reviewers[reviewer_id];
            if !r.delegators.contains_key(caller) {
                Err(LedgerError::DelegatorNotFound)
            } else {
                let d = r.delegators[caller];
                if d.refunding_amount == 0 {
                    Ok((self, None))
                } else if now - d.refunding_start_timestamp < self.refund_lock_ms {
                    Err(LedgerError::RefundLocked)
                } else {
                    Ok(
                        (
                            self.with_delegators(
                                reviewer_id,
                                r.delegators.insert(
                                    caller,
                                    DelegatorInfo { refunding_amount: 0, ..d },
                                ),
                            ),
                            Some(d.refunding_amount),
                        ),
                    )
                }
            }
        }
    }

    /// Taking note of how the transfer of a claimed refund ended. A failed
    /// transfer restores the claim. A successful one, with no new claim standing,
    /// closes the refund, and removes the position if it holds no capital.
    pub open spec fn resolve_refund(
        self,
        delegator_id: Seq<char>,
        reviewer_id: Seq<char>,
        amount: u128,
        transferred: bool,
    ) -> Result<Ledger, LedgerError> {
        if !self.reviewers.contains_key(reviewer_id) {
            Err(LedgerError::ReviewerNotFound)
        } else {
            let r = self.reviewers[reviewer_id];
            if !r.delegators.contains_key(delegator_id) {
                Err(LedgerError::DelegatorNotFound)
            } else {
                let d = r.delegators[delegator_id];
                if !transferred {
                    if d.refunding_amount + amount > u128::MAX {
                        Err(LedgerError::ArithmeticOverflow)
                    } else {
                        Ok(
                            self.with_delegators(
                                reviewer_id,
                                r.delegators.insert(
                                    delegator_id,
                                    DelegatorInfo {
                                        refunding_amount: (d.refunding_amount + amount) as u128,
                                        ..d
                                    },
                                ),
                            ),
                        )
                    }
                } else if d.refunding_amount != 0 {
                    Ok(self)
                } else if d.deposit_info.deposit_amount == 0 {
                    Ok(self.with_delegators(reviewer_id, r.delegators.remove(delegator_id)))
                } else {
                    Ok(
                        self.with_delegators(
                            reviewer_id,
                            r.delegators.insert(
                                delegator_id,
                                DelegatorInfo { refunding_start_timestamp: 0, ..d },
                            ),
                        ),
                    )
                }
            }
        }
    }

    /// The owner booking a batch of revenue, `amounts[k]` against `vapi_ids[k]`.
    /// The second component is the total to burn.
    pub open spec fn settle(self, sender: Seq<char>, vapi_ids: Seq<Seq<char>>, amounts: Seq<u128>)
        -> Result<(Ledger, u128), LedgerError> {
        if sender != self.owner_id {
            Err(LedgerError::NotOwner)
        } else if vapi_ids.len() != amounts.len() {
            Err(LedgerError::LengthMismatch)
        } else {
            match settle_from(
                self.vapis,
                vapi_ids,
                amounts,
                SettleTotals { treasury: 0, burn: 0 },
                0,
            ) {
                Err(e) => Err(e),
                Ok((vapis, totals)) => {
                    if self.treasury + totals.treasury > u128::MAX {
                        Err(LedgerError::ArithmeticOverflow)
                    } else {
                        Ok(
                            (
                                Ledger {
                                    vapis,
                                    treasury: (self.treasury + totals.treasury) as u128,
                                    ..self
                                },
                                totals.burn,
                            ),
                        )
                    }
                },
            }
        }
    }

    /// Acting on the notification that `sender` has transferred `amount` to the
    /// ledger. `msg` is the payload as it came and `decoded` what it was decoded
    /// to, if it could be. The second component is the total to burn, where a
    /// settlement was booked.
    pub open spec fn receive_transfer(
        self,
        predecessor: Seq<char>,
        sender: Seq<char>,
        amount: u128,
        msg: Seq<char>,
        decoded: Option<Message>,
    ) -> Result<(Ledger, Option<u128>), LedgerError> {
        if predecessor != self.token_id {
            Err(LedgerError::InvalidToken)
        } else if msg.len() == 0 {
            Ok((self, None))
        } else {
            match decoded {
                None => Err(LedgerError::InvalidMessage),
                Some(Message::DepositToReviewer { reviewer_id }) => {
                    match self.deposit_to_reviewer(sender, reviewer_id, amount) {
                        Err(e) => Err(e),
                        Ok(s) => Ok((s, None)),
                    }
                },
                Some(Message::Settlement { vapi_ids, amounts }) => {
                    match self.settle(sender, vapi_ids, amounts) {
                        Err(e) => Err(e),
                        Ok((s, burn)) => Ok((s, Some(burn))),
                    }
                },
            }
        }
    }

    /// The capital of the allocation of `reviewer_id` into `vapi_id`, with its
    /// reward against the accumulator of the VAPI. Both are zero where the
    /// pool or the allocation is not there. Where the allocation is there and
    /// the VAPI is not, there is no accumulator to hold it against.
    pub open spec fn reviewer_deposit_info(self, reviewer_id: Seq<char>, vapi_id: Seq<char>)
        -> Result<GetDepositInfoResponse, LedgerError> {
        if !self.reviewers.contains_key(reviewer_id) {
            Ok(GetDepositInfoResponse { deposit_amount: 0, reward: 0 })
        } else {
            let r = self.reviewers[reviewer_id];
            if !r.allocations.contains_key(vapi_id) {
                Ok(GetDepositInfoResponse { deposit_amount: 0, reward: 0 })
            } else if !self.vapis.contains_key(vapi_id) {
                Err(LedgerError::VapiNotFound)
            } else {
                stake_info(r.allocations[vapi_id], self.vapis[vapi_id].acc_reward_per_share)
            }
        }
    }

    /// The capital of the position of `delegator_id` in the pool `reviewer_id`,
    /// with its reward against the accumulator of the pool. Both are zero
    /// where the pool or the position is not there.
    pub open spec fn delegator_deposit_info(self, delegator_id: Seq<char>, reviewer_id: Seq<char>)
        -> Result<GetDepositInfoResponse, LedgerError> {
        if !self.reviewers.contains_key(reviewer_id) {
            Ok(GetDepositInfoResponse { deposit_amount: 0, reward: 0 })
        } else {
            let r = self.reviewers[reviewer_id];
            if !r.delegators.contains_key(delegator_id) {
                Ok(GetDepositInfoResponse { deposit_amount: 0, reward: 0 })
            } else {
                stake_info(r.delegators[delegator_id].deposit_info, r.acc_reward_per_share)
            }
        }
    }
}

} // verus!
