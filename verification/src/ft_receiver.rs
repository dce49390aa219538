//! How the ledger acts on the notification of a transfer to it.

use vstd::prelude::*;
use crate::error::LedgerError;
use crate::ledger::TicleCore;
use crate::transitions::Message;
use crate::types::views_of;

verus! {

/// What the payload of a transfer notification asks for.
pub enum TokenReceiverMessage {
    /// Book revenue, `amounts[k]` against `vapi_ids[k]`.
    Settlement { vapi_ids: Vec<String>, amounts: Vec<u128> },
    /// Stake the transferred amount into the pool `reviewer_id`.
    DepositToReviewer { reviewer_id: String },
}

impl View for TokenReceiverMessage {
    type V = Message;

    open spec fn view(&self) -> Message {
        match self {
            TokenReceiverMessage::Settlement { vapi_ids, amounts } => Message::Settlement {
                vapi_ids: views_of(vapi_ids@),
                amounts: amounts@,
            },
            TokenReceiverMessage::DepositToReviewer { reviewer_id } => Message::DepositToReviewer {
                reviewer_id: reviewer_id@,
            },
        }
    }
}

/// The view of a payload that was decoded, if it was.
pub open spec fn decoded_view(decoded: Option<TokenReceiverMessage>) -> Option<Message> {
    match decoded {
        Some(message) => Some(message@),
        None => None,
    }
}

impl TicleCore {
    /// Acts on the notification, sent by `predecessor_id`, that `sender_id` has
    /// transferred `amount` to the ledger with the payload `msg`, which was
    /// decoded to `decoded`, or could not be decoded.
    ///
    /// Only the token that the ledger accounts in is listened to. An empty
    /// payload asks for nothing: the amount is kept. Otherwise the payload has to
    /// be decoded, and the amount is staked or the batch is booked as it says.
    /// Of the amount nothing is ever handed back. The result is the total to
    /// burn, where a batch was booked.
    ///
    /// Fails with `InvalidToken` where the notification comes from another
    /// token, with `InvalidMessage` where the payload is not empty and was not
    /// decoded, and as `internal_deposit_to_reviewer` and `internal_settlement`
    /// do.
    pub fn ft_on_transfer(
        &mut self,
        predecessor_id: &String,
        sender_id: &String,
        amount: u128,
        msg: &str,
        decoded: Option<TokenReceiverMessage>,
    ) -> (r: Result<Option<u128>, LedgerError>)
        requires
            old(self).wf(),
        ensures
            final(self).wf(),
            match old(self)@.receive_transfer(
                predecessor_id@,
                sender_id@,
                amount,
                msg@,
                decoded_view(decoded),
            ) {
                Ok((s, burn)) => r == Ok::<Option<u128>, LedgerError>(burn) && final(self)@ == s,
                Err(e) => r == Err::<Option<u128>, LedgerError>(e) && final(self)@ == old(self)@,
            },
    {
        if *predecessor_id != self.token_id {
            return Err(LedgerError::InvalidToken);
        }
        if msg.is_empty() {
            return Ok(None);
        }
        match decoded {
            None => Err(LedgerError::InvalidMessage),
            Some(TokenReceiverMessage::DepositToReviewer { reviewer_id }) => {
                match self.internal_deposit_to_reviewer(sender_id, &reviewer_id, amount) {
                    Ok(()) => Ok(None),
                    Err(e) => Err(e),
                }
            },
            Some(TokenReceiverMessage::Settlement { vapi_ids, amounts }) => {
                match self.internal_settlement(sender_id, vapi_ids, amounts) {
                    Ok(burn) => Ok(Some(burn)),
                    Err(e) => Err(e),
                }
            },
        }
    }
}

} // verus!
