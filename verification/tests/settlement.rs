use ticle_core::{LedgerError, TicleCore, TokenReceiverMessage};

fn id(s: &str) -> String {
    s.to_string()
}

/// A ledger with the VAPIs `a` and `b` and the pool `pool`, which has 1000 of
/// `alice` allocated into `a`.
fn ledger() -> TicleCore {
    let mut core = TicleCore::new(id("token"), id("owner"), vec![9, 1, 2]);
    assert_eq!(core.create_vapi(&id("coder-a"), id("a")), Ok(()));
    assert_eq!(core.create_vapi(&id("coder-b"), id("b")), Ok(()));
    core.create_reviewer(&id("pool"));
    assert_eq!(core.internal_deposit_to_reviewer(&id("alice"), &id("pool"), 1000), Ok(()));
    assert_eq!(core.deposit_to_vapi(&id("pool"), id("a"), 1000), Ok(()));
    core
}

#[test]
fn settlement_splits_the_revenue_three_ways() {
    let mut core = ledger();
    assert_eq!(core.internal_settlement(&id("owner"), vec![id("a")], vec![1000]), Ok(10));
    assert_eq!(core.vapis[0].coder_info.unclaimed_reward_amount, 600);
    assert_eq!(core.vapis[0].acc_reward_per_share, 390_000_000_000);
    assert_eq!(core.vapis[0].total_deposit_amount, 1000);
    assert_eq!(core.treasury, 0);
}

#[test]
fn settlement_rounds_fee_and_burn_down() {
    let mut core = ledger();
    assert_eq!(core.internal_settlement(&id("owner"), vec![id("a")], vec![99]), Ok(0));
    assert_eq!(core.vapis[0].coder_info.unclaimed_reward_amount, 61);
    assert_eq!(core.vapis[0].acc_reward_per_share, 38_000_000_000);
    assert_eq!(core.internal_settlement(&id("owner"), vec![id("a")], vec![0]), Ok(0));
    assert_eq!(core.vapis[0].coder_info.unclaimed_reward_amount, 61);
    assert_eq!(core.vapis[0].acc_reward_per_share, 38_000_000_000);
}

#[test]
fn settlement_without_stakers_feeds_the_treasury() {
    let mut core = ledger();
    assert_eq!(core.internal_settlement(&id("owner"), vec![id("b")], vec![1000]), Ok(10));
    assert_eq!(core.vapis[1].coder_info.unclaimed_reward_amount, 600);
    assert_eq!(core.vapis[1].acc_reward_per_share, 0);
    assert_eq!(core.treasury, 390);
}

#[test]
fn settlement_burns_once_for_the_whole_batch() {
    let mut core = ledger();
    let got = core.internal_settlement(
        &id("owner"),
        vec![id("a"), id("b"), id("a")],
        vec![1000, 250, 99],
    );
    assert_eq!(got, Ok(12));
    assert_eq!(core.vapis[0].coder_info.unclaimed_reward_amount, 661);
    assert_eq!(core.vapis[0].acc_reward_per_share, 428_000_000_000);
    assert_eq!(core.vapis[1].coder_info.unclaimed_reward_amount, 151);
    assert_eq!(core.treasury, 97);
}

#[test]
fn settlement_of_an_empty_batch_burns_nothing() {
    let mut core = ledger();
    assert_eq!(core.internal_settlement(&id("owner"), vec![], vec![]), Ok(0));
    assert_eq!(core.treasury, 0);
}

#[test]
fn settlement_is_for_the_owner_alone() {
    let mut core = ledger();
    assert_eq!(
        core.internal_settlement(&id("alice"), vec![id("a")], vec![1000]),
        Err(LedgerError::NotOwner)
    );
    assert_eq!(
        core.internal_settlement(&id("alice"), vec![id("a")], vec![]),
        Err(LedgerError::NotOwner)
    );
    assert_eq!(core.vapis[0].coder_info.unclaimed_reward_amount, 0);
}

#[test]
fn settlement_needs_as_many_amounts_as_vapis() {
    let mut core = ledger();
    assert_eq!(
        core.internal_settlement(&id("owner"), vec![id("a"), id("b")], vec![1000]),
        Err(LedgerError::LengthMismatch)
    );
    assert_eq!(
        core.internal_settlement(&id("owner"), vec![], vec![1]),
        Err(LedgerError::LengthMismatch)
    );
    assert_eq!(core.vapis[0].coder_info.unclaimed_reward_amount, 0);
}

#[test]
fn a_batch_that_fails_books_nothing() {
    let mut core = ledger();
    assert_eq!(
        core.internal_settlement(&id("owner"), vec![id("a"), id("b"), id("zz")], vec![1000, 1000, 5]),
        Err(LedgerError::VapiNotFound)
    );
    assert_eq!(core.vapis[0].coder_info.unclaimed_reward_amount, 0);
    assert_eq!(core.vapis[0].acc_reward_per_share, 0);
    assert_eq!(core.vapis[1].coder_info.unclaimed_reward_amount, 0);
    assert_eq!(core.treasury, 0);
}

#[test]
fn settlement_fails_beyond_128_bits() {
    let mut core = ledger();
    assert_eq!(
        core.internal_settlement(&id("owner"), vec![id("b"), id("b")], vec![u128::MAX, u128::MAX]),
        Err(LedgerError::ArithmeticOverflow)
    );
    assert_eq!(core.treasury, 0);
    assert_eq!(
        core.internal_settlement(&id("owner"), vec![id("b")], vec![u128::MAX]),
        Ok(u128::MAX / 100)
    );
    assert_eq!(core.treasury, 132710123099166000750716096898389602467);
}

#[test]
fn a_notification_from_another_token_is_refused() {
    let mut core = ledger();
    let message = TokenReceiverMessage::DepositToReviewer { reviewer_id: id("pool") };
    assert_eq!(
        core.ft_on_transfer(&id("other-token"), &id("bob"), 5, "{}", Some(message)),
        Err(LedgerError::InvalidToken)
    );
    assert_eq!(core.ft_on_transfer(&id("other-token"), &id("bob"), 5, "", None), Err(LedgerError::InvalidToken));
    assert_eq!(core.get_reviewer_pending_amount(&id("pool")), Ok(0));
}

#[test]
fn an_empty_payload_asks_for_nothing() {
    let mut core = ledger();
    let message = TokenReceiverMessage::DepositToReviewer { reviewer_id: id("pool") };
    assert_eq!(core.ft_on_transfer(&id("token"), &id("bob"), 5, "", Some(message)), Ok(None));
    assert_eq!(core.ft_on_transfer(&id("token"), &id("bob"), 5, "", None), Ok(None));
    assert_eq!(core.get_reviewer_pending_amount(&id("pool")), Ok(0));
    assert_eq!(core.reviewers[0].delegators.len(), 1);
}

#[test]
fn a_payload_that_was_not_decoded_is_refused() {
    let mut core = ledger();
    assert_eq!(
        core.ft_on_transfer(&id("token"), &id("bob"), 5, "not json", None),
        Err(LedgerError::InvalidMessage)
    );
}

#[test]
fn a_deposit_payload_stakes_for_the_sender() {
    let mut core = ledger();
    let message = TokenReceiverMessage::DepositToReviewer { reviewer_id: id("pool") };
    assert_eq!(core.ft_on_transfer(&id("token"), &id("bob"), 5, "{..}", Some(message)), Ok(None));
    assert_eq!(core.get_reviewer_pending_amount(&id("pool")), Ok(5));
    let unknown = TokenReceiverMessage::DepositToReviewer { reviewer_id: id("nobody") };
    assert_eq!(
        core.ft_on_transfer(&id("token"), &id("bob"), 5, "{..}", Some(unknown)),
        Err(LedgerError::ReviewerNotFound)
    );
}

#[test]
fn a_settlement_payload_books_the_batch_for_the_owner() {
    let mut core = ledger();
    let batch = || TokenReceiverMessage::Settlement { vapi_ids: vec![id("a")], amounts: vec![1000] };
    assert_eq!(
        core.ft_on_transfer(&id("token"), &id("bob"), 1000, "{..}", Some(batch())),
        Err(LedgerError::NotOwner)
    );
    assert_eq!(
        core.ft_on_transfer(&id("token"), &id("owner"), 1000, "{..}", Some(batch())),
        Ok(Some(10))
    );
    assert_eq!(core.vapis[0].coder_info.unclaimed_reward_amount, 600);
}
