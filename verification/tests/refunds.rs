use ticle_core::{
    DelegatorInfo, DepositInfo, GetDepositInfoResponse, LedgerError, TicleCore,
    DEFAULT_REFUND_LOCK_MS,
};

fn id(s: &str) -> String {
    s.to_string()
}

/// A ledger with the VAPIs `a`, `b` and `c` and the pool `pool`.
fn ledger() -> TicleCore {
    let mut core = TicleCore::new(id("token"), id("owner"), vec![9, 1, 2]);
    for vapi in ["a", "b", "c"] {
        assert_eq!(core.create_vapi(&id("coder"), id(vapi)), Ok(()));
    }
    core.create_reviewer(&id("pool"));
    core
}

fn stake(core: &mut TicleCore, who: &str, amount: u128) {
    assert_eq!(core.internal_deposit_to_reviewer(&id(who), &id("pool"), amount), Ok(()));
}

fn allocate(core: &mut TicleCore, vapi: &str, amount: u128) {
    assert_eq!(core.deposit_to_vapi(&id("pool"), id(vapi), amount), Ok(()));
}

fn capital_in(core: &TicleCore, vapi: &str) -> u128 {
    core.get_reviewer_deposit_info(&id("pool"), &id(vapi)).unwrap().deposit_amount
}

fn total_allocated(core: &TicleCore, vapi: &str) -> u128 {
    core.vapis.iter().find(|v| v.id == vapi).unwrap().total_deposit_amount
}

fn position(core: &TicleCore, who: &str) -> Option<DelegatorInfo> {
    core.reviewers[0].delegators.iter().find(|d| d.delegator_id == who).map(|d| d.info)
}

#[test]
fn deposit_to_a_pool_opens_a_position() {
    let mut core = ledger();
    stake(&mut core, "alice", 100);
    assert_eq!(
        position(&core, "alice"),
        Some(DelegatorInfo {
            deposit_info: DepositInfo { deposit_amount: 100, reward_debt: 0 },
            refunding_amount: 0,
            refunding_start_timestamp: 0,
        })
    );
    assert_eq!(core.get_reviewer_pending_amount(&id("pool")), Ok(100));
    assert_eq!(core.reviewers[0].total_delegator_deposit_amount, 100);
    stake(&mut core, "bob", 50);
    stake(&mut core, "alice", 1);
    assert_eq!(core.reviewers[0].delegators.len(), 2);
    assert_eq!(core.reviewers[0].total_delegator_deposit_amount, 151);
    assert_eq!(core.get_reviewer_pending_amount(&id("pool")), Ok(151));
}

#[test]
fn deposit_to_an_unknown_pool_fails() {
    let mut core = ledger();
    assert_eq!(
        core.internal_deposit_to_reviewer(&id("alice"), &id("nobody"), 1),
        Err(LedgerError::ReviewerNotFound)
    );
    assert!(core.reviewers[0].delegators.is_empty());
}

#[test]
fn deposit_folds_the_realised_reward_into_the_capital() {
    let mut core = ledger();
    stake(&mut core, "alice", 1000);
    allocate(&mut core, "a", 1000);
    assert_eq!(core.internal_settlement(&id("owner"), vec![id("a")], vec![1000]), Ok(10));
    assert_eq!(core.compound(&id("pool")), Ok(()));
    stake(&mut core, "alice", 13);
    assert_eq!(
        position(&core, "alice").unwrap().deposit_info,
        DepositInfo { deposit_amount: 1400, reward_debt: 541 }
    );
    assert_eq!(core.get_reviewer_pending_amount(&id("pool")), Ok(13));
    assert_eq!(core.reviewers[0].total_delegator_deposit_amount, 1400);
}

#[test]
fn refund_is_taken_from_the_unallocated_balance_first() {
    let mut core = ledger();
    stake(&mut core, "alice", 100);
    allocate(&mut core, "a", 30);
    assert_eq!(core.delegator_request_refund(&id("alice"), &id("pool"), 40, 5_000), Ok(0));
    assert_eq!(core.get_reviewer_pending_amount(&id("pool")), Ok(30));
    assert_eq!(capital_in(&core, "a"), 30);
    assert_eq!(total_allocated(&core, "a"), 30);
    assert_eq!(
        position(&core, "alice"),
        Some(DelegatorInfo {
            deposit_info: DepositInfo { deposit_amount: 60, reward_debt: 0 },
            refunding_amount: 40,
            refunding_start_timestamp: 5_000,
        })
    );
    assert_eq!(core.reviewers[0].total_delegator_deposit_amount, 60);
}

#[test]
fn refund_draws_a_shortfall_by_shares_and_sweeps_the_residual() {
    let mut core = ledger();
    stake(&mut core, "alice", 10);
    allocate(&mut core, "a", 3);
    allocate(&mut core, "b", 4);
    assert_eq!(core.delegator_request_refund(&id("alice"), &id("pool"), 5, 1), Ok(0));
    assert_eq!(core.get_reviewer_pending_amount(&id("pool")), Ok(0));
    assert_eq!(capital_in(&core, "a"), 2);
    assert_eq!(capital_in(&core, "b"), 3);
    assert_eq!(total_allocated(&core, "a"), 2);
    assert_eq!(total_allocated(&core, "b"), 3);
    assert_eq!(position(&core, "alice").unwrap().deposit_info.deposit_amount, 5);
    assert_eq!(position(&core, "alice").unwrap().refunding_amount, 5);
    assert_eq!(core.reviewers[0].total_delegator_deposit_amount, 5);
}

#[test]
fn refund_reports_a_residual_that_no_allocation_can_bear() {
    let mut core = ledger();
    stake(&mut core, "alice", 3);
    allocate(&mut core, "a", 1);
    allocate(&mut core, "b", 1);
    allocate(&mut core, "c", 1);
    assert_eq!(core.delegator_request_refund(&id("alice"), &id("pool"), 2, 1), Ok(2));
    assert_eq!(capital_in(&core, "a"), 1);
    assert_eq!(capital_in(&core, "b"), 1);
    assert_eq!(capital_in(&core, "c"), 1);
    assert_eq!(total_allocated(&core, "a"), 1);
    assert_eq!(core.get_reviewer_pending_amount(&id("pool")), Ok(0));
    assert_eq!(position(&core, "alice").unwrap().deposit_info.deposit_amount, 1);
    assert_eq!(position(&core, "alice").unwrap().refunding_amount, 2);
}

#[test]
fn refund_never_exceeds_the_balance() {
    let mut core = ledger();
    stake(&mut core, "alice", 1000);
    stake(&mut core, "bob", 1000);
    stake(&mut core, "carol", 500);
    allocate(&mut core, "a", 1000);
    assert_eq!(core.internal_settlement(&id("owner"), vec![id("a")], vec![1000]), Ok(10));
    // Once compounded, alice holds 1000 and has earned 154.
    assert_eq!(
        core.delegator_request_refund(&id("alice"), &id("pool"), 1155, 1),
        Err(LedgerError::InsufficientBalance)
    );
    assert_eq!(core.get_reviewer_royalty_amount(&id("pool")), Ok(0));
    assert_eq!(core.reviewers[0].acc_reward_per_share, 0);
    assert_eq!(position(&core, "alice").unwrap().refunding_amount, 0);
    assert_eq!(total_allocated(&core, "a"), 1000);
    assert_eq!(core.delegator_request_refund(&id("alice"), &id("pool"), 1154, 1), Ok(0));
    assert_eq!(core.get_reviewer_royalty_amount(&id("pool")), Ok(3));
    assert_eq!(core.reviewers[0].acc_reward_per_share, 154_800_000_000);
    assert_eq!(total_allocated(&core, "a"), 1387);
    assert_eq!(core.get_reviewer_pending_amount(&id("pool")), Ok(346));
    assert_eq!(core.reviewers[0].total_delegator_deposit_amount, 1346);
    assert_eq!(
        position(&core, "alice"),
        Some(DelegatorInfo {
            deposit_info: DepositInfo { deposit_amount: 0, reward_debt: 0 },
            refunding_amount: 1154,
            refunding_start_timestamp: 1,
        })
    );
}

#[test]
fn refund_fails_where_the_shares_exceed_the_shortfall() {
    let mut core = ledger();
    stake(&mut core, "alice", 1000);
    allocate(&mut core, "a", 1000);
    assert_eq!(core.internal_settlement(&id("owner"), vec![id("a")], vec![1000]), Ok(10));
    // Once compounded, 1387 are allocated against 1000 of delegator capital.
    assert_eq!(
        core.delegator_request_refund(&id("alice"), &id("pool"), 1000, 1),
        Err(LedgerError::ArithmeticOverflow)
    );
    assert_eq!(total_allocated(&core, "a"), 1000);
    assert_eq!(position(&core, "alice").unwrap().deposit_info.deposit_amount, 1000);
    assert_eq!(core.get_reviewer_royalty_amount(&id("pool")), Ok(0));
}

#[test]
fn refund_names_what_is_missing() {
    let mut core = ledger();
    stake(&mut core, "alice", 10);
    assert_eq!(
        core.delegator_request_refund(&id("alice"), &id("nobody"), 1, 1),
        Err(LedgerError::ReviewerNotFound)
    );
    assert_eq!(
        core.delegator_request_refund(&id("bob"), &id("pool"), 1, 1),
        Err(LedgerError::DelegatorNotFound)
    );
    core.create_reviewer(&id("idle"));
    assert_eq!(
        core.delegator_request_refund(&id("alice"), &id("idle"), 1, 1),
        Err(LedgerError::DivisionByZero)
    );
}

#[test]
fn claim_waits_for_the_lock() {
    let mut core = ledger();
    stake(&mut core, "alice", 10);
    let asked: u64 = 1_000_000;
    assert_eq!(core.delegator_request_refund(&id("alice"), &id("pool"), 4, asked), Ok(0));
    assert_eq!(DEFAULT_REFUND_LOCK_MS, 60_000);
    assert_eq!(
        core.delegator_claim_refund(&id("alice"), &id("pool"), asked),
        Err(LedgerError::RefundLocked)
    );
    assert_eq!(
        core.delegator_claim_refund(&id("alice"), &id("pool"), asked + 59_999),
        Err(LedgerError::RefundLocked)
    );
    assert_eq!(
        core.delegator_claim_refund(&id("alice"), &id("pool"), asked - 1),
        Err(LedgerError::RefundLocked)
    );
    assert_eq!(position(&core, "alice").unwrap().refunding_amount, 4);
    assert_eq!(core.delegator_claim_refund(&id("alice"), &id("pool"), asked + 60_000), Ok(Some(4)));
    assert_eq!(position(&core, "alice").unwrap().refunding_amount, 0);
    assert_eq!(position(&core, "alice").unwrap().refunding_start_timestamp, asked);
}

#[test]
fn claim_follows_the_configured_lock() {
    let mut core = ledger().with_refund_lock_ms(2_419_200_000);
    stake(&mut core, "alice", 10);
    assert_eq!(core.delegator_request_refund(&id("alice"), &id("pool"), 4, 7), Ok(0));
    assert_eq!(
        core.delegator_claim_refund(&id("alice"), &id("pool"), 2_419_200_006),
        Err(LedgerError::RefundLocked)
    );
    assert_eq!(core.delegator_claim_refund(&id("alice"), &id("pool"), 2_419_200_007), Ok(Some(4)));
    let mut open = ledger().with_refund_lock_ms(0);
    stake(&mut open, "alice", 10);
    assert_eq!(open.delegator_request_refund(&id("alice"), &id("pool"), 4, 7), Ok(0));
    assert_eq!(open.delegator_claim_refund(&id("alice"), &id("pool"), 7), Ok(Some(4)));
}

#[test]
fn claim_with_nothing_asked_back_does_nothing() {
    let mut core = ledger();
    stake(&mut core, "alice", 10);
    assert_eq!(core.delegator_claim_refund(&id("alice"), &id("pool"), 0), Ok(None));
    assert_eq!(
        core.delegator_claim_refund(&id("bob"), &id("pool"), 0),
        Err(LedgerError::DelegatorNotFound)
    );
    assert_eq!(
        core.delegator_claim_refund(&id("alice"), &id("nobody"), 0),
        Err(LedgerError::ReviewerNotFound)
    );
}

#[test]
fn requests_add_up_and_the_lock_starts_anew() {
    let mut core = ledger();
    stake(&mut core, "alice", 10);
    assert_eq!(core.delegator_request_refund(&id("alice"), &id("pool"), 4, 100), Ok(0));
    assert_eq!(core.delegator_request_refund(&id("alice"), &id("pool"), 3, 50_000), Ok(0));
    assert_eq!(position(&core, "alice").unwrap().refunding_amount, 7);
    assert_eq!(
        core.delegator_claim_refund(&id("alice"), &id("pool"), 60_100),
        Err(LedgerError::RefundLocked)
    );
    assert_eq!(core.delegator_claim_refund(&id("alice"), &id("pool"), 110_000), Ok(Some(7)));
}

#[test]
fn a_failed_transfer_restores_the_claim_without_a_new_lock() {
    let mut core = ledger();
    stake(&mut core, "alice", 10);
    assert_eq!(core.delegator_request_refund(&id("alice"), &id("pool"), 4, 100), Ok(0));
    assert_eq!(core.delegator_claim_refund(&id("alice"), &id("pool"), 60_100), Ok(Some(4)));
    assert_eq!(core.callback_delegator_claim_refund(&id("alice"), &id("pool"), 4, false), Ok(()));
    assert_eq!(position(&core, "alice").unwrap().refunding_amount, 4);
    assert_eq!(position(&core, "alice").unwrap().refunding_start_timestamp, 100);
    assert_eq!(core.delegator_claim_refund(&id("alice"), &id("pool"), 60_100), Ok(Some(4)));
    assert_eq!(core.callback_delegator_claim_refund(&id("alice"), &id("pool"), 4, true), Ok(()));
    assert_eq!(
        position(&core, "alice"),
        Some(DelegatorInfo {
            deposit_info: DepositInfo { deposit_amount: 6, reward_debt: 0 },
            refunding_amount: 0,
            refunding_start_timestamp: 0,
        })
    );
}

#[test]
fn a_position_that_is_paid_out_in_full_is_removed() {
    let mut core = ledger();
    stake(&mut core, "alice", 10);
    stake(&mut core, "bob", 20);
    stake(&mut core, "carol", 30);
    assert_eq!(core.delegator_request_refund(&id("alice"), &id("pool"), 10, 0), Ok(0));
    assert_eq!(core.delegator_claim_refund(&id("alice"), &id("pool"), 60_000), Ok(Some(10)));
    assert_eq!(core.callback_delegator_claim_refund(&id("alice"), &id("pool"), 10, true), Ok(()));
    assert_eq!(position(&core, "alice"), None);
    let order: Vec<&str> =
        core.reviewers[0].delegators.iter().map(|d| d.delegator_id.as_str()).collect();
    assert_eq!(order, vec!["carol", "bob"]);
    assert_eq!(
        core.get_delegator_deposit_info(&id("alice"), &id("pool")),
        Ok(GetDepositInfoResponse { deposit_amount: 0, reward: 0 })
    );
    assert!(core.is_well_formed());
}

#[test]
fn a_success_with_a_new_claim_standing_changes_nothing() {
    let mut core = ledger();
    stake(&mut core, "alice", 10);
    assert_eq!(core.delegator_request_refund(&id("alice"), &id("pool"), 4, 0), Ok(0));
    assert_eq!(core.delegator_claim_refund(&id("alice"), &id("pool"), 60_000), Ok(Some(4)));
    assert_eq!(core.delegator_request_refund(&id("alice"), &id("pool"), 6, 70_000), Ok(0));
    assert_eq!(core.callback_delegator_claim_refund(&id("alice"), &id("pool"), 4, true), Ok(()));
    assert_eq!(
        position(&core, "alice"),
        Some(DelegatorInfo {
            deposit_info: DepositInfo { deposit_amount: 0, reward_debt: 0 },
            refunding_amount: 6,
            refunding_start_timestamp: 70_000,
        })
    );
}

#[test]
fn the_outcome_of_a_transfer_needs_the_position() {
    let mut core = ledger();
    stake(&mut core, "alice", 10);
    assert_eq!(
        core.callback_delegator_claim_refund(&id("alice"), &id("nobody"), 1, true),
        Err(LedgerError::ReviewerNotFound)
    );
    assert_eq!(
        core.callback_delegator_claim_refund(&id("bob"), &id("pool"), 1, false),
        Err(LedgerError::DelegatorNotFound)
    );
    assert_eq!(
        core.callback_delegator_claim_refund(&id("alice"), &id("pool"), u128::MAX, false),
        Ok(())
    );
    assert_eq!(
        core.callback_delegator_claim_refund(&id("alice"), &id("pool"), 1, false),
        Err(LedgerError::ArithmeticOverflow)
    );
    assert_eq!(position(&core, "alice").unwrap().refunding_amount, u128::MAX);
}

#[test]
fn refund_fails_where_a_shortfall_is_shared_over_no_capital() {
    let mut core = ledger();
    stake(&mut core, "alice", 1000);
    allocate(&mut core, "a", 1000);
    assert_eq!(core.internal_settlement(&id("owner"), vec![id("a")], vec![1000]), Ok(10));
    assert_eq!(core.withdraw_from_vapi(&id("pool"), &id("a"), 1000), Ok(()));
    // The unallocated balance now equals the delegators' capital, while 387
    // are still allocated.
    assert_eq!(core.get_reviewer_pending_amount(&id("pool")), Ok(1000));
    assert_eq!(core.reviewers[0].total_delegator_deposit_amount, 1000);
    assert_eq!(total_allocated(&core, "a"), 387);
    assert_eq!(
        core.delegator_request_refund(&id("alice"), &id("pool"), 1387, 1),
        Err(LedgerError::DivisionByZero)
    );
    assert_eq!(
        core.delegator_request_refund(&id("alice"), &id("pool"), 1389, 1),
        Err(LedgerError::InsufficientBalance)
    );
    assert_eq!(total_allocated(&core, "a"), 387);
    assert_eq!(core.delegator_request_refund(&id("alice"), &id("pool"), 1000, 1), Ok(0));
    assert_eq!(total_allocated(&core, "a"), 387);
    assert_eq!(core.get_reviewer_pending_amount(&id("pool")), Ok(0));
    assert_eq!(position(&core, "alice").unwrap().deposit_info.deposit_amount, 387);
}

#[test]
fn refund_fails_where_the_unallocated_balance_exceeds_the_delegators_capital() {
    let mut core = ledger();
    stake(&mut core, "alice", 1000);
    allocate(&mut core, "a", 1000);
    assert_eq!(core.internal_settlement(&id("owner"), vec![id("a")], vec![1000]), Ok(10));
    assert_eq!(core.withdraw_from_vapi(&id("pool"), &id("a"), 1200), Ok(()));
    assert_eq!(core.get_reviewer_pending_amount(&id("pool")), Ok(1200));
    assert_eq!(
        core.delegator_request_refund(&id("alice"), &id("pool"), 1300, 1),
        Err(LedgerError::ArithmeticOverflow)
    );
    assert_eq!(core.get_reviewer_pending_amount(&id("pool")), Ok(1200));
    assert_eq!(position(&core, "alice").unwrap().refunding_amount, 0);
}

#[test]
fn refund_sets_the_debt_markers_of_the_allocations_against_the_accumulator_of_the_pool() {
    let mut core = ledger();
    stake(&mut core, "alice", 2000);
    allocate(&mut core, "a", 1000);
    allocate(&mut core, "b", 1000);
    assert_eq!(core.internal_settlement(&id("owner"), vec![id("a")], vec![1000]), Ok(10));
    // Both shares of 1 round down to nothing; the first allocation bears it.
    assert_eq!(core.delegator_request_refund(&id("alice"), &id("pool"), 1, 1), Ok(0));
    assert_eq!(core.reviewers[0].acc_reward_per_share, 193_500_000_000);
    let held: Vec<DepositInfo> =
        core.reviewers[0].deposit_vapis.iter().map(|a| a.deposit_info).collect();
    assert_eq!(
        held,
        vec![
            DepositInfo { deposit_amount: 1386, reward_debt: 268 },
            DepositInfo { deposit_amount: 1000, reward_debt: 193 },
        ]
    );
    assert_eq!(total_allocated(&core, "a"), 1386);
    assert_eq!(total_allocated(&core, "b"), 1000);
    assert_eq!(
        position(&core, "alice").unwrap().deposit_info,
        DepositInfo { deposit_amount: 2386, reward_debt: 461 }
    );
}
