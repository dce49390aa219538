use ticle_core::{DepositInfo, GetDepositInfoResponse, LedgerError, TicleCore};

fn id(s: &str) -> String {
    s.to_string()
}

/// A ledger with the VAPIs `v1` and `v2` and the pool `pool`, into which `alice`
/// has staked `staked`.
fn staked(staked: u128) -> TicleCore {
    let mut core = TicleCore::new(id("token"), id("owner"), vec![9, 1, 2]);
    assert_eq!(core.create_vapi(&id("coder"), id("v1")), Ok(()));
    assert_eq!(core.create_vapi(&id("coder"), id("v2")), Ok(()));
    core.create_reviewer(&id("pool"));
    assert_eq!(core.internal_deposit_to_reviewer(&id("alice"), &id("pool"), staked), Ok(()));
    core
}

fn settle(core: &mut TicleCore, vapi: &str, amount: u128) -> Result<u128, LedgerError> {
    core.internal_settlement(&id("owner"), vec![id(vapi)], vec![amount])
}

fn allocation(core: &TicleCore, vapi: &str) -> Option<DepositInfo> {
    let pool = core.reviewers.iter().find(|r| r.id == "pool").unwrap();
    pool.deposit_vapis.iter().find(|a| a.vapi_id == vapi).map(|a| a.deposit_info)
}

fn total_allocated(core: &TicleCore, vapi: &str) -> u128 {
    core.vapis.iter().find(|v| v.id == vapi).unwrap().total_deposit_amount
}

#[test]
fn new_ledger_is_empty_and_drops_the_first_key_byte() {
    let core = TicleCore::new(id("token"), id("owner"), vec![0, 11, 22, 33]);
    assert_eq!(core.get_signer_public_key(), vec![11, 22, 33]);
    assert!(core.vapis.is_empty());
    assert!(core.reviewers.is_empty());
    assert_eq!(core.treasury, 0);
    assert_eq!(core.max_depositable_vapi_count, 10);
    assert_eq!(core.refund_lock_ms, 60_000);
    assert_eq!(core.token_id, "token");
    assert_eq!(core.owner_id, "owner");
    assert!(core.is_well_formed());
}

#[test]
fn create_vapi_registers_a_zeroed_vapi_for_the_caller() {
    let mut core = TicleCore::new(id("token"), id("owner"), vec![0]);
    assert_eq!(core.create_vapi(&id("carol"), id("v")), Ok(()));
    assert_eq!(core.vapis.len(), 1);
    assert_eq!(core.vapis[0].id, "v");
    assert_eq!(core.vapis[0].coder_info.account_id, "carol");
    assert_eq!(core.vapis[0].coder_info.unclaimed_reward_amount, 0);
    assert_eq!(core.vapis[0].total_deposit_amount, 0);
    assert_eq!(core.vapis[0].acc_reward_per_share, 0);
}

#[test]
fn create_vapi_fails_for_an_identifier_in_use() {
    let mut core = staked(0);
    assert_eq!(core.create_vapi(&id("mallory"), id("v1")), Err(LedgerError::VapiAlreadyExists));
    assert_eq!(core.vapis.len(), 2);
    assert_eq!(core.vapis[0].coder_info.account_id, "coder");
}

#[test]
fn create_reviewer_replaces_the_pool_that_is_there() {
    let mut core = staked(100);
    assert_eq!(core.get_reviewer_pending_amount(&id("pool")), Ok(100));
    core.create_reviewer(&id("pool"));
    assert_eq!(core.reviewers.len(), 1);
    assert_eq!(core.get_reviewer_pending_amount(&id("pool")), Ok(0));
    assert!(core.reviewers[0].delegators.is_empty());
    core.create_reviewer(&id("other"));
    assert_eq!(core.reviewers.len(), 2);
    assert!(core.is_well_formed());
}

#[test]
fn transfer_ownership_is_for_the_coder_alone() {
    let mut core = staked(0);
    assert_eq!(
        core.transfer_ownership(&id("mallory"), &id("v1"), id("mallory")),
        Err(LedgerError::NotCoder)
    );
    assert_eq!(core.vapis[0].coder_info.account_id, "coder");
    assert_eq!(
        core.transfer_ownership(&id("coder"), &id("nowhere"), id("dave")),
        Err(LedgerError::VapiNotFound)
    );
    assert_eq!(core.transfer_ownership(&id("coder"), &id("v1"), id("dave")), Ok(()));
    assert_eq!(core.vapis[0].coder_info.account_id, "dave");
    assert_eq!(core.vapis[1].coder_info.account_id, "coder");
    assert_eq!(
        core.transfer_ownership(&id("coder"), &id("v1"), id("coder")),
        Err(LedgerError::NotCoder)
    );
    assert_eq!(core.transfer_ownership(&id("dave"), &id("v1"), id("erin")), Ok(()));
}

#[test]
fn deposit_to_vapi_moves_pending_into_the_allocation() {
    let mut core = staked(1000);
    assert_eq!(core.deposit_to_vapi(&id("pool"), id("v1"), 600), Ok(()));
    assert_eq!(core.get_reviewer_pending_amount(&id("pool")), Ok(400));
    assert_eq!(allocation(&core, "v1"), Some(DepositInfo { deposit_amount: 600, reward_debt: 0 }));
    assert_eq!(total_allocated(&core, "v1"), 600);
    assert_eq!(total_allocated(&core, "v2"), 0);
}

#[test]
fn deposit_to_vapi_folds_the_pending_reward_in_but_not_into_the_total() {
    let mut core = staked(2000);
    assert_eq!(core.deposit_to_vapi(&id("pool"), id("v1"), 1000), Ok(()));
    assert_eq!(settle(&mut core, "v1", 1000), Ok(10));
    assert_eq!(core.vapis[0].acc_reward_per_share, 390_000_000_000);
    assert_eq!(core.deposit_to_vapi(&id("pool"), id("v1"), 500), Ok(()));
    assert_eq!(
        allocation(&core, "v1"),
        Some(DepositInfo { deposit_amount: 1890, reward_debt: 737 })
    );
    assert_eq!(total_allocated(&core, "v1"), 1500);
    assert_eq!(core.get_reviewer_pending_amount(&id("pool")), Ok(500));
}

#[test]
fn deposit_to_vapi_names_what_is_missing() {
    let mut core = staked(1000);
    assert_eq!(core.deposit_to_vapi(&id("pool"), id("v9"), 1), Err(LedgerError::VapiNotFound));
    assert_eq!(core.deposit_to_vapi(&id("nobody"), id("v1"), 1), Err(LedgerError::ReviewerNotFound));
    assert_eq!(
        core.deposit_to_vapi(&id("pool"), id("v1"), 1001),
        Err(LedgerError::InsufficientPending)
    );
    assert_eq!(core.get_reviewer_pending_amount(&id("pool")), Ok(1000));
    assert_eq!(allocation(&core, "v1"), None);
    assert_eq!(core.deposit_to_vapi(&id("pool"), id("v1"), 1000), Ok(()));
}

#[test]
fn deposit_to_vapi_stops_at_the_eleventh_allocation() {
    let mut core = TicleCore::new(id("token"), id("owner"), vec![0]);
    core.create_reviewer(&id("pool"));
    assert_eq!(core.internal_deposit_to_reviewer(&id("alice"), &id("pool"), 100), Ok(()));
    for k in 0..11 {
        assert_eq!(core.create_vapi(&id("coder"), format!("v{}", k)), Ok(()));
    }
    for k in 0..10 {
        assert_eq!(core.deposit_to_vapi(&id("pool"), format!("v{}", k), 1), Ok(()));
    }
    assert_eq!(core.reviewers[0].deposit_vapis.len(), 10);
    assert_eq!(
        core.deposit_to_vapi(&id("pool"), id("v10"), 1),
        Err(LedgerError::MaxVapiCountReached)
    );
    assert_eq!(core.reviewers[0].deposit_vapis.len(), 10);
    assert_eq!(core.get_reviewer_pending_amount(&id("pool")), Ok(90));
    assert_eq!(core.vapis[10].total_deposit_amount, 0);
    assert_eq!(core.deposit_to_vapi(&id("pool"), id("v3"), 5), Ok(()));
    assert_eq!(core.get_reviewer_pending_amount(&id("pool")), Ok(85));
}

#[test]
fn compound_splits_the_reward_between_royalty_and_capital() {
    let mut core = staked(1000);
    assert_eq!(core.deposit_to_vapi(&id("pool"), id("v1"), 1000), Ok(()));
    assert_eq!(settle(&mut core, "v1", 1000), Ok(10));
    assert_eq!(core.compound(&id("pool")), Ok(()));
    assert_eq!(core.get_reviewer_royalty_amount(&id("pool")), Ok(3));
    assert_eq!(
        allocation(&core, "v1"),
        Some(DepositInfo { deposit_amount: 1387, reward_debt: 540 })
    );
    assert_eq!(total_allocated(&core, "v1"), 1387);
    assert_eq!(core.reviewers[0].acc_reward_per_share, 387_000_000_000);
    assert_eq!(
        core.get_delegator_deposit_info(&id("alice"), &id("pool")),
        Ok(GetDepositInfoResponse { deposit_amount: 1000, reward: 387 })
    );
}

#[test]
fn compound_skips_an_allocation_without_reward() {
    let mut core = staked(1000);
    assert_eq!(core.deposit_to_vapi(&id("pool"), id("v1"), 400), Ok(()));
    assert_eq!(core.deposit_to_vapi(&id("pool"), id("v2"), 600), Ok(()));
    assert_eq!(settle(&mut core, "v2", 100), Ok(1));
    assert_eq!(core.compound(&id("pool")), Ok(()));
    assert_eq!(allocation(&core, "v1"), Some(DepositInfo { deposit_amount: 400, reward_debt: 0 }));
    assert_eq!(
        allocation(&core, "v2"),
        Some(DepositInfo { deposit_amount: 639, reward_debt: 41 })
    );
    assert_eq!(core.get_reviewer_royalty_amount(&id("pool")), Ok(0));
    assert_eq!(core.reviewers[0].acc_reward_per_share, 39_000_000_000);
}

#[test]
fn compound_twice_changes_nothing_the_second_time() {
    let mut core = staked(1000);
    assert_eq!(core.deposit_to_vapi(&id("pool"), id("v1"), 1000), Ok(()));
    assert_eq!(settle(&mut core, "v1", 1000), Ok(10));
    assert_eq!(core.compound(&id("pool")), Ok(()));
    let royalty = core.get_reviewer_royalty_amount(&id("pool"));
    let acc = core.reviewers[0].acc_reward_per_share;
    let held = allocation(&core, "v1");
    let total = total_allocated(&core, "v1");
    assert_eq!(core.compound(&id("pool")), Ok(()));
    assert_eq!(core.get_reviewer_royalty_amount(&id("pool")), royalty);
    assert_eq!(core.reviewers[0].acc_reward_per_share, acc);
    assert_eq!(allocation(&core, "v1"), held);
    assert_eq!(total_allocated(&core, "v1"), total);
}

#[test]
fn compound_fails_for_an_unknown_pool_and_for_one_without_delegators() {
    let mut core = staked(1000);
    assert_eq!(core.compound(&id("nobody")), Err(LedgerError::ReviewerNotFound));
    core.create_reviewer(&id("idle"));
    assert_eq!(core.compound(&id("idle")), Err(LedgerError::DivisionByZero));
}

#[test]
fn compound_fails_loudly_on_a_debt_beyond_what_is_accumulated() {
    let mut core = staked(1000);
    assert_eq!(core.deposit_to_vapi(&id("pool"), id("v1"), 1000), Ok(()));
    core.reviewers[0].deposit_vapis[0].deposit_info.reward_debt = 1;
    assert_eq!(core.compound(&id("pool")), Err(LedgerError::RewardUnderflow));
    assert_eq!(
        core.get_reviewer_deposit_info(&id("pool"), &id("v1")),
        Err(LedgerError::RewardUnderflow)
    );
    assert_eq!(
        core.withdraw_from_vapi(&id("pool"), &id("v1"), 1),
        Err(LedgerError::RewardUnderflow)
    );
    assert_eq!(
        allocation(&core, "v1"),
        Some(DepositInfo { deposit_amount: 1000, reward_debt: 1 })
    );
}

#[test]
fn withdraw_sets_the_debt_marker_against_the_accumulator_of_the_vapi() {
    let mut core = staked(10);
    assert_eq!(core.deposit_to_vapi(&id("pool"), id("v1"), 10), Ok(()));
    assert_eq!(settle(&mut core, "v1", 1000), Ok(10));
    assert_eq!(core.vapis[0].acc_reward_per_share, 39_000_000_000_000);
    assert_eq!(core.withdraw_from_vapi(&id("pool"), &id("v1"), 5), Ok(()));
    assert_eq!(core.reviewers[0].acc_reward_per_share, 38_700_000_000_000);
    assert_eq!(
        allocation(&core, "v1"),
        Some(DepositInfo { deposit_amount: 392, reward_debt: 15288 })
    );
    assert_eq!(core.get_reviewer_pending_amount(&id("pool")), Ok(5));
    assert_eq!(core.get_reviewer_royalty_amount(&id("pool")), Ok(3));
    assert_eq!(total_allocated(&core, "v1"), 392);
    assert_eq!(
        core.get_reviewer_deposit_info(&id("pool"), &id("v1")),
        Ok(GetDepositInfoResponse { deposit_amount: 392, reward: 0 })
    );
    // Compounding now finds nothing to realise.
    assert_eq!(core.compound(&id("pool")), Ok(()));
    assert_eq!(
        allocation(&core, "v1"),
        Some(DepositInfo { deposit_amount: 392, reward_debt: 15288 })
    );
    assert_eq!(core.get_reviewer_royalty_amount(&id("pool")), Ok(3));
    assert_eq!(core.reviewers[0].acc_reward_per_share, 38_700_000_000_000);
    assert_eq!(total_allocated(&core, "v1"), 392);
}

#[test]
fn the_query_holds_an_allocation_against_the_accumulator_of_its_vapi() {
    let mut core = staked(10);
    assert_eq!(core.deposit_to_vapi(&id("pool"), id("v1"), 10), Ok(()));
    assert_eq!(settle(&mut core, "v1", 1000), Ok(10));
    assert_eq!(
        core.get_reviewer_deposit_info(&id("pool"), &id("v1")),
        Ok(GetDepositInfoResponse { deposit_amount: 10, reward: 390 })
    );
    assert_eq!(core.compound(&id("pool")), Ok(()));
    assert_eq!(
        core.get_reviewer_deposit_info(&id("pool"), &id("v1")),
        Ok(GetDepositInfoResponse { deposit_amount: 397, reward: 0 })
    );
    assert_eq!(settle(&mut core, "v1", 1000), Ok(10));
    assert_eq!(core.vapis[0].acc_reward_per_share, 39_982_367_758_186);
    assert_eq!(
        core.get_reviewer_deposit_info(&id("pool"), &id("v1")),
        Ok(GetDepositInfoResponse { deposit_amount: 397, reward: 389 })
    );
}

#[test]
fn the_query_names_a_vapi_that_is_gone() {
    let mut core = staked(10);
    assert_eq!(core.deposit_to_vapi(&id("pool"), id("v2"), 10), Ok(()));
    core.vapis.pop();
    assert_eq!(
        core.get_reviewer_deposit_info(&id("pool"), &id("v2")),
        Err(LedgerError::VapiNotFound)
    );
    assert_eq!(
        core.get_reviewer_deposit_info(&id("pool"), &id("v1")),
        Ok(GetDepositInfoResponse { deposit_amount: 0, reward: 0 })
    );
}

#[test]
fn withdraw_half_leaves_half() {
    let mut core = staked(10);
    assert_eq!(core.deposit_to_vapi(&id("pool"), id("v1"), 10), Ok(()));
    assert_eq!(core.withdraw_from_vapi(&id("pool"), &id("v1"), 5), Ok(()));
    assert_eq!(allocation(&core, "v1"), Some(DepositInfo { deposit_amount: 5, reward_debt: 0 }));
    assert_eq!(core.get_reviewer_pending_amount(&id("pool")), Ok(5));
    assert_eq!(total_allocated(&core, "v1"), 5);
}

#[test]
fn withdraw_compounds_first() {
    let mut core = staked(1000);
    assert_eq!(core.deposit_to_vapi(&id("pool"), id("v1"), 1000), Ok(()));
    assert_eq!(settle(&mut core, "v1", 1000), Ok(10));
    assert_eq!(core.withdraw_from_vapi(&id("pool"), &id("v1"), 1200), Ok(()));
    assert_eq!(core.get_reviewer_royalty_amount(&id("pool")), Ok(3));
    assert_eq!(
        allocation(&core, "v1"),
        Some(DepositInfo { deposit_amount: 187, reward_debt: 72 })
    );
    assert_eq!(core.get_reviewer_pending_amount(&id("pool")), Ok(1200));
    assert_eq!(total_allocated(&core, "v1"), 187);
}

#[test]
fn withdraw_of_all_removes_the_allocation_and_the_last_takes_its_place() {
    let mut core = staked(30);
    assert_eq!(core.create_vapi(&id("coder"), id("v3")), Ok(()));
    assert_eq!(core.deposit_to_vapi(&id("pool"), id("v1"), 10), Ok(()));
    assert_eq!(core.deposit_to_vapi(&id("pool"), id("v2"), 10), Ok(()));
    assert_eq!(core.deposit_to_vapi(&id("pool"), id("v3"), 10), Ok(()));
    assert_eq!(core.withdraw_from_vapi(&id("pool"), &id("v1"), 10), Ok(()));
    assert_eq!(allocation(&core, "v1"), None);
    let order: Vec<&str> =
        core.reviewers[0].deposit_vapis.iter().map(|a| a.vapi_id.as_str()).collect();
    assert_eq!(order, vec!["v3", "v2"]);
    assert_eq!(total_allocated(&core, "v1"), 0);
    assert_eq!(core.get_reviewer_pending_amount(&id("pool")), Ok(10));
    assert_eq!(
        core.get_reviewer_deposit_info(&id("pool"), &id("v1")),
        Ok(GetDepositInfoResponse { deposit_amount: 0, reward: 0 })
    );
}

#[test]
fn withdraw_names_what_is_wrong() {
    let mut core = staked(10);
    assert_eq!(core.deposit_to_vapi(&id("pool"), id("v1"), 10), Ok(()));
    assert_eq!(core.withdraw_from_vapi(&id("pool"), &id("v1"), 0), Err(LedgerError::ZeroAmount));
    assert_eq!(core.withdraw_from_vapi(&id("nobody"), &id("v1"), 0), Err(LedgerError::ZeroAmount));
    assert_eq!(
        core.withdraw_from_vapi(&id("nobody"), &id("v1"), 1),
        Err(LedgerError::ReviewerNotFound)
    );
    assert_eq!(core.withdraw_from_vapi(&id("pool"), &id("v9"), 1), Err(LedgerError::VapiNotFound));
    assert_eq!(core.withdraw_from_vapi(&id("pool"), &id("v2"), 1), Err(LedgerError::DepositNotFound));
    assert_eq!(
        core.withdraw_from_vapi(&id("pool"), &id("v1"), 11),
        Err(LedgerError::InsufficientDeposit)
    );
    assert_eq!(allocation(&core, "v1"), Some(DepositInfo { deposit_amount: 10, reward_debt: 0 }));
    assert_eq!(core.get_reviewer_pending_amount(&id("pool")), Ok(0));
}

#[test]
fn a_failed_withdrawal_keeps_the_rewards_uncompounded() {
    let mut core = staked(1000);
    assert_eq!(core.deposit_to_vapi(&id("pool"), id("v1"), 1000), Ok(()));
    assert_eq!(settle(&mut core, "v1", 1000), Ok(10));
    assert_eq!(
        core.withdraw_from_vapi(&id("pool"), &id("v1"), 5000),
        Err(LedgerError::InsufficientDeposit)
    );
    assert_eq!(core.get_reviewer_royalty_amount(&id("pool")), Ok(0));
    assert_eq!(allocation(&core, "v1"), Some(DepositInfo { deposit_amount: 1000, reward_debt: 0 }));
    assert_eq!(total_allocated(&core, "v1"), 1000);
    assert_eq!(core.reviewers[0].acc_reward_per_share, 0);
}

#[test]
fn queries_answer_zero_for_what_is_not_there() {
    let core = staked(10);
    let zero = GetDepositInfoResponse { deposit_amount: 0, reward: 0 };
    assert_eq!(core.get_reviewer_deposit_info(&id("nobody"), &id("v1")), Ok(zero));
    assert_eq!(core.get_reviewer_deposit_info(&id("pool"), &id("v1")), Ok(zero));
    assert_eq!(core.get_delegator_deposit_info(&id("bob"), &id("pool")), Ok(zero));
    assert_eq!(core.get_delegator_deposit_info(&id("alice"), &id("nobody")), Ok(zero));
    assert_eq!(
        core.get_delegator_deposit_info(&id("alice"), &id("pool")),
        Ok(GetDepositInfoResponse { deposit_amount: 10, reward: 0 })
    );
    assert_eq!(core.get_reviewer_pending_amount(&id("nobody")), Err(LedgerError::ReviewerNotFound));
    assert_eq!(core.get_reviewer_royalty_amount(&id("nobody")), Err(LedgerError::ReviewerNotFound));
}

#[test]
fn a_ledger_with_an_identifier_twice_is_not_well_formed() {
    let mut core = staked(10);
    assert!(core.is_well_formed());
    let copy = core.vapis[0].clone();
    core.vapis.push(copy);
    assert!(!core.is_well_formed());
    core.vapis.pop();
    assert!(core.is_well_formed());
    let entry = core.reviewers[0].delegators.swap_remove(0);
    let twin = ticle_core::DelegatorEntry {
        delegator_id: entry.delegator_id.clone(),
        info: entry.info,
    };
    core.reviewers[0].delegators.push(entry);
    core.reviewers[0].delegators.push(twin);
    assert!(!core.is_well_formed());
}

#[test]
fn compound_names_a_vapi_that_is_gone() {
    let mut core = staked(10);
    assert_eq!(core.deposit_to_vapi(&id("pool"), id("v2"), 10), Ok(()));
    core.vapis.pop();
    assert!(core.is_well_formed());
    assert_eq!(core.compound(&id("pool")), Err(LedgerError::VapiNotFound));
    assert_eq!(
        core.delegator_request_refund(&id("alice"), &id("pool"), 1, 0),
        Err(LedgerError::VapiNotFound)
    );
}

#[test]
fn amounts_beyond_128_bits_are_refused() {
    let mut core = staked(u128::MAX);
    assert_eq!(
        core.internal_deposit_to_reviewer(&id("bob"), &id("pool"), 1),
        Err(LedgerError::ArithmeticOverflow)
    );
    assert_eq!(core.reviewers[0].delegators.len(), 1);
    assert_eq!(core.deposit_to_vapi(&id("pool"), id("v1"), u128::MAX), Ok(()));
    core.reviewers[0].pending_amount = 1;
    assert_eq!(
        core.deposit_to_vapi(&id("pool"), id("v1"), 1),
        Err(LedgerError::ArithmeticOverflow)
    );
    core.reviewers[0].pending_amount = u128::MAX;
    assert_eq!(
        core.withdraw_from_vapi(&id("pool"), &id("v1"), 1),
        Err(LedgerError::ArithmeticOverflow)
    );
    assert_eq!(total_allocated(&core, "v1"), u128::MAX);
    assert_eq!(core.get_reviewer_pending_amount(&id("pool")), Ok(u128::MAX));
    core.reviewers[0].pending_amount = 0;
    assert_eq!(core.withdraw_from_vapi(&id("pool"), &id("v1"), 1), Ok(()));
    assert_eq!(total_allocated(&core, "v1"), u128::MAX - 1);
}
