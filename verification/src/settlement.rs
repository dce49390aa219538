//! How revenue is booked against VAPIs.

use vstd::prelude::*;
use crate::arith::{lemma_mul_div_spec, mul_div};
use crate::error::LedgerError;
use crate::keyed::{lemma_to_map_update, to_map};
use crate::ledger::TicleCore;
use crate::model::{BURN_PERCENT, REVIEWER_FEE_PERCENT};
use crate::reward::PRECISION;
use crate::transitions::{settle_from, settle_step, SettleTotals};
use crate::types::{find_vapi, vapi_keys, views_of, VAPIInfo};

verus! {

/// `percent` per cent of `amount`, rounded down.
pub(crate) fn percent_of(amount: u128, percent: u128) -> (r: u128)
    requires
        percent <= 100,
    ensures
        r == amount * percent / 100,
        r <= amount,
{
    proof {
        assert(amount * percent / 100 <= amount) by (nonlinear_arith)
            requires
                0 <= percent <= 100,
                amount >= 0,
        ;
        lemma_mul_div_spec(amount, percent, 100);
    }
    match mul_div(amount, percent, 100) {
        Some(part) => part,
        None => 0,
    }
}

/// Books `amount` of revenue against the VAPI `vapi_id`, in `vapis`, and gives
/// the sums of the batch with this booking added.
pub(crate) fn settle_one(
    vapis: &mut Vec<VAPIInfo>,
    vapi_id: &String,
    amount: u128,
    totals: SettleTotals,
) -> (r: Result<SettleTotals, LedgerError>)
    requires
        vapi_keys(old(vapis)@).no_duplicates(),
    ensures
        vapi_keys(final(vapis)@) == vapi_keys(old(vapis)@),
        match settle_step(
            to_map(vapi_keys(old(vapis)@), views_of(old(vapis)@)),
            vapi_id@,
            amount,
            totals,
        ) {
            Ok((v, t)) => r == Ok::<SettleTotals, LedgerError>(t) && to_map(
                vapi_keys(final(vapis)@),
                views_of(final(vapis)@),
            ) == v,
            Err(e) => r == Err::<SettleTotals, LedgerError>(e) && final(vapis)@ == old(vapis)@,
        },
{
    let fee = percent_of(amount, REVIEWER_FEE_PERCENT);
    let burn = percent_of(amount, BURN_PERCENT);
    let vi = match find_vapi(vapis, vapi_id) {
        Some(vi) => vi,
        None => {
            return Err(LedgerError::VapiNotFound);
        },
    };
    let share = amount - fee - burn;
    let unclaimed = vapis[vi].coder_info.unclaimed_reward_amount.checked_add(share);
    let sum_burn = totals.burn.checked_add(burn);
    if unclaimed.is_none() || sum_burn.is_none() {
        return Err(LedgerError::ArithmeticOverflow);
    }
    let ghost listed = vapi_keys(vapis@);
    let ghost records = views_of(vapis@);
    let total = vapis[vi].total_deposit_amount;
    if total == 0 {
        let sum_treasury = match totals.treasury.checked_add(fee) {
            Some(sum_treasury) => sum_treasury,
            None => {
                return Err(LedgerError::ArithmeticOverflow);
            },
        };
        vapis[vi].coder_info.unclaimed_reward_amount = unclaimed.unwrap();
        proof {
            assert(vapi_keys(vapis@) =~= listed);
            assert(views_of(vapis@) =~= records.update(vi as int, vapis[vi as int]@));
            lemma_to_map_update(listed, records, vi as int, vapis[vi as int]@);
        }
        Ok(SettleTotals { treasury: sum_treasury, burn: sum_burn.unwrap() })
    } else {
        let step = match mul_div(fee, PRECISION, total) {
            Some(step) => step,
            None => {
                return Err(LedgerError::ArithmeticOverflow);
            },
        };
        let acc = match vapis[vi].acc_reward_per_share.checked_add(step) {
            Some(acc) => acc,
            None => {
                return Err(LedgerError::ArithmeticOverflow);
            },
        };
        vapis[vi].coder_info.unclaimed_reward_amount = unclaimed.unwrap();
        vapis[vi].acc_reward_per_share = acc;
        proof {
            assert(vapi_keys(vapis@) =~= listed);
            assert(views_of(vapis@) =~= records.update(vi as int, vapis[vi as int]@));
            lemma_to_map_update(listed, records, vi as int, vapis[vi as int]@);
        }
        Ok(SettleTotals { treasury: totals.treasury, burn: sum_burn.unwrap() })
    }
}

impl TicleCore {
    /// Books a batch of revenue, `amounts[k]` against `vapi_ids[k]`, which only
    /// the owner of the ledger may do.
    ///
    /// Of each amount, 39% is the fee of the VAPI's stakers: it advances the
    /// VAPI's accumulator by the fee per unit of allocated capital, or goes to
    /// the treasury where nothing is allocated. 1% is to be burned. The rest is
    /// credited to the VAPI's coder. The result is the total to burn for the
    /// whole batch, which is to be burned in one call.
    ///
    /// Fails with `NotOwner` where the sender is not the owner, with
    /// `LengthMismatch` where the batch names a different number of VAPIs than
    /// of amounts, with `VapiNotFound` where a VAPI is not there, and with
    /// `ArithmeticOverflow` where an amount leaves the 128-bit range.
    pub fn internal_settlement(
        &mut self,
        sender_id: &String,
        vapi_ids: Vec<String>,
        amounts: Vec<u128>,
    ) -> (r: Result<u128, LedgerError>)
        requires
            old(self).wf(),
        ensures
            final(self).wf(),
            match old(self)@.settle(sender_id@, views_of(vapi_ids@), amounts@) {
                Ok((s, burn)) => r == Ok::<u128, LedgerError>(burn) && final(self)@ == s,
                Err(e) => r == Err::<u128, LedgerError>(e) && final(self)@ == old(self)@,
            },
    {
        if *sender_id != self.owner_id {
            return Err(LedgerError::NotOwner);
        }
        if vapi_ids.len() != amounts.len() {
            return Err(LedgerError::LengthMismatch);
        }
        let mut vapis = self.vapis.clone();
        assert(vapis@ =~= self.vapis@);
        let mut totals = SettleTotals { treasury: 0, burn: 0 };
        let mut k: usize = 0;
        while k < vapi_ids.len()
            invariant
                k <= vapi_ids.len(),
                vapi_ids.len() == amounts.len(),
                *self == *old(self),
                self.wf(),
                sender_id@ == self@.owner_id,
                vapi_keys(vapis@) == vapi_keys(self.vapis@),
                settle_from(
                    to_map(vapi_keys(vapis@), views_of(vapis@)),
                    views_of(vapi_ids@),
                    amounts@,
                    totals,
                    k as int,
                ) == settle_from(
                    self@.vapis,
                    views_of(vapi_ids@),
                    amounts@,
                    SettleTotals { treasury: 0, burn: 0 },
                    0,
                ),
            decreases vapi_ids.len() - k,
        {
            totals = match settle_one(&mut vapis, &vapi_ids[k], amounts[k], totals) {
                Ok(totals) => totals,
                Err(e) => {
                    return Err(e);
                },
            };
            k += 1;
        }
        let treasury = match self.treasury.checked_add(totals.treasury) {
            Some(treasury) => treasury,
            None => {
                return Err(LedgerError::ArithmeticOverflow);
            },
        };
        self.vapis = vapis;
        self.treasury = treasury;
        proof {
            let after = old(self)@.settle(sender_id@, views_of(vapi_ids@), amounts@).unwrap().0;
            assert(self@ =~= after);
        }
        Ok(totals.burn)
    }
}

} // verus!
