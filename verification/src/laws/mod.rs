//! What holds of the ledger over all operations and all sequences of
//! operations.

use vstd::prelude::*;
use crate::error::LedgerError;
use crate::invariants::{
    lemma_claim_refund_wf, lemma_compound_wf, lemma_create_reviewer_wf, lemma_create_vapi_wf,
    lemma_deposit_to_reviewer_wf, lemma_deposit_to_vapi_wf, lemma_refund_settled_wf,
    lemma_resolve_refund_wf, lemma_settle_wf, lemma_transfer_ownership_wf,
    lemma_withdraw_settled_wf,
};
use crate::model::Ledger;

pub mod accumulators;
pub mod balances;
pub mod compounding;
pub mod conservation;
pub mod refunds;

verus! {

/// One operation on the ledger with its arguments.
pub enum Operation {
    /// `caller` registers the VAPI `vapi_id`.
    CreateVapi { caller: Seq<char>, vapi_id: Seq<char> },
    /// An empty pool is put under `reviewer_id`.
    CreateReviewer { reviewer_id: Seq<char> },
    /// `caller` hands the VAPI `vapi_id` over to `new_coder`.
    TransferOwnership { caller: Seq<char>, vapi_id: Seq<char>, new_coder: Seq<char> },
    /// The pool `caller` allocates `amount` into the VAPI `vapi_id`.
    DepositToVapi { caller: Seq<char>, vapi_id: Seq<char>, amount: u128 },
    /// The rewards of the pool `reviewer_id` are compounded.
    Compound { reviewer_id: Seq<char> },
    /// The pool `caller` takes `amount` back out of the VAPI `vapi_id`.
    WithdrawFromVapi { caller: Seq<char>, vapi_id: Seq<char>, amount: u128 },
    /// `sender` stakes `amount` into the pool `reviewer_id`.
    DepositToReviewer { sender: Seq<char>, reviewer_id: Seq<char>, amount: u128 },
    /// `caller` asks `amount` back from the pool `reviewer_id` at the time `now`.
    RequestRefund { caller: Seq<char>, reviewer_id: Seq<char>, amount: u128, now: u64 },
    /// `caller` claims what it has asked back from the pool `reviewer_id`, at
    /// the time `now`.
    ClaimRefund { caller: Seq<char>, reviewer_id: Seq<char>, now: u64 },
    /// The ledger is told how the transfer of `amount` to `delegator_id`, for
    /// a claim on the pool `reviewer_id`, has ended.
    ResolveRefund {
        delegator_id: Seq<char>,
        reviewer_id: Seq<char>,
        amount: u128,
        transferred: bool,
    },
    /// `sender` books the batch of `amounts` against `vapi_ids`.
    Settle { sender: Seq<char>, vapi_ids: Seq<Seq<char>>, amounts: Seq<u128> },
}

/// The ledger after `op`, where `op` succeeds.
pub open spec fn apply(s: Ledger, op: Operation) -> Result<Ledger, LedgerError> {
    match op {
        Operation::CreateVapi { caller, vapi_id } => s.create_vapi(caller, vapi_id),
        Operation::CreateReviewer { reviewer_id } => Ok(s.create_reviewer(reviewer_id)),
        Operation::TransferOwnership { caller, vapi_id, new_coder } => s.transfer_ownership(
            caller,
            vapi_id,
            new_coder,
        ),
        Operation::DepositToVapi { caller, vapi_id, amount } => s.deposit_to_vapi(
            caller,
            vapi_id,
            amount,
        ),
        Operation::Compound { reviewer_id } => s.compound(reviewer_id),
        Operation::WithdrawFromVapi { caller, vapi_id, amount } => s.withdraw_from_vapi(
            caller,
            vapi_id,
            amount,
        ),
        Operation::DepositToReviewer { sender, reviewer_id, amount } => s.deposit_to_reviewer(
            sender,
            reviewer_id,
            amount,
        ),
        Operation::RequestRefund { caller, reviewer_id, amount, now } => match s.request_refund(
            caller,
            reviewer_id,
            amount,
            now,
        ) {
            Ok((t, unresolved)) => Ok(t),
            Err(e) => Err(e),
        },
        Operation::ClaimRefund { caller, reviewer_id, now } => match s.claim_refund(
            caller,
            reviewer_id,
            now,
        ) {
            Ok((t, transfer)) => Ok(t),
            Err(e) => Err(e),
        },
        Operation::ResolveRefund { delegator_id, reviewer_id, amount, transferred } => {
            s.resolve_refund(delegator_id, reviewer_id, amount, transferred)
        },
        Operation::Settle { sender, vapi_ids, amounts } => match s.settle(
            sender,
            vapi_ids,
            amounts,
        ) {
            Ok((t, burn)) => Ok(t),
            Err(e) => Err(e),
        },
    }
}

/// The ledger after the operations of `ops` in order, of which one that fails
/// changes nothing.
pub open spec fn run(s: Ledger, ops: Seq<Operation>) -> Ledger
    decreases ops.len(),
{
    if ops.len() == 0 {
        s
    } else {
        let before = run(s, ops.drop_last());
        match apply(before, ops.last()) {
            Ok(after) => after,
            Err(e) => before,
        }
    }
}

/// `op` puts an empty pool in the place of one that is there.
pub open spec fn replaces_reviewer(s: Ledger, op: Operation) -> bool {
    op matches Operation::CreateReviewer { reviewer_id } && s.reviewers.contains_key(reviewer_id)
}

/// No operation of `ops`, run from `s`, puts an empty pool in the place of one
/// that is there.
pub open spec fn without_replacement(s: Ledger, ops: Seq<Operation>) -> bool
    decreases ops.len(),
{
    ops.len() == 0 || (without_replacement(s, ops.drop_last()) && !replaces_reviewer(
        run(s, ops.drop_last()),
        ops.last(),
    ))
}

/// No operation makes a well-formed ledger ill formed.
pub proof fn lemma_apply_wf(s: Ledger, op: Operation)
    requires
        s.wf(),
        apply(s, op) is Ok,
    ensures
        apply(s, op).unwrap().wf(),
{
    match op {
        Operation::CreateVapi { caller, vapi_id } => {
            lemma_create_vapi_wf(s, caller, vapi_id);
        },
        Operation::CreateReviewer { reviewer_id } => {
            lemma_create_reviewer_wf(s, reviewer_id);
        },
        Operation::TransferOwnership { caller, vapi_id, new_coder } => {
            lemma_transfer_ownership_wf(s, caller, vapi_id, new_coder);
        },
        Operation::DepositToVapi { caller, vapi_id, amount } => {
            lemma_deposit_to_vapi_wf(s, caller, vapi_id, amount);
        },
        Operation::Compound { reviewer_id } => {
            lemma_compound_wf(s, reviewer_id);
        },
        Operation::WithdrawFromVapi { caller, vapi_id, amount } => {
            lemma_compound_wf(s, caller);
            lemma_withdraw_settled_wf(s.compound(caller).unwrap(), caller, vapi_id, amount);
        },
        Operation::DepositToReviewer { sender, reviewer_id, amount } => {
            lemma_deposit_to_reviewer_wf(s, sender, reviewer_id, amount);
        },
        Operation::RequestRefund { caller, reviewer_id, amount, now } => {
            lemma_compound_wf(s, reviewer_id);
            lemma_refund_settled_wf(
                s.compound(reviewer_id).unwrap(),
                caller,
                reviewer_id,
                amount,
                now,
            );
        },
        Operation::ClaimRefund { caller, reviewer_id, now } => {
            lemma_claim_refund_wf(s, caller, reviewer_id, now);
        },
        Operation::ResolveRefund { delegator_id, reviewer_id, amount, transferred } => {
            lemma_resolve_refund_wf(s, delegator_id, reviewer_id, amount, transferred);
        },
        Operation::Settle { sender, vapi_ids, amounts } => {
            lemma_settle_wf(s, sender, vapi_ids, amounts);
        },
    }
}

/// A ledger that was well formed is well formed after any operations.
pub proof fn lemma_run_wf(s: Ledger, ops: Seq<Operation>)
    requires
        s.wf(),
    ensures
        run(s, ops).wf(),
    decreases ops.len(),
{
    if ops.len() > 0 {
        lemma_run_wf(s, ops.drop_last());
        let before = run(s, ops.drop_last());
        if apply(before, ops.last()) is Ok {
            lemma_apply_wf(before, ops.last());
        }
    }
}

} // verus!
