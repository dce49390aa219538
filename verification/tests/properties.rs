use ticle_core::{LedgerError, TicleCore};

fn id(s: &str) -> String {
    s.to_string()
}

fn ledger() -> TicleCore {
    let mut core = TicleCore::new(id("token"), id("owner"), vec![9, 1, 2]);
    assert_eq!(core.create_vapi(&id("coder"), id("a")), Ok(()));
    assert_eq!(core.create_vapi(&id("coder"), id("b")), Ok(()));
    core.create_reviewer(&id("pool"));
    core
}

/// Unclaimed coder rewards, allocated capital, unallocated balances, royalties
/// and the treasury.
fn pooled_value(core: &TicleCore) -> u128 {
    let vapis: u128 = core
        .vapis
        .iter()
        .map(|v| v.coder_info.unclaimed_reward_amount + v.total_deposit_amount)
        .sum();
    let pools: u128 = core.reviewers.iter().map(|r| r.pending_amount + r.royalty_amount).sum();
    vapis + pools + core.treasury
}

fn accumulators(core: &TicleCore) -> (Vec<u128>, Vec<u128>) {
    (
        core.vapis.iter().map(|v| v.acc_reward_per_share).collect(),
        core.reviewers.iter().map(|r| r.acc_reward_per_share).collect(),
    )
}

fn no_lower(before: &[u128], after: &[u128]) -> bool {
    before.len() <= after.len() && before.iter().zip(after.iter()).all(|(was, is)| was <= is)
}

#[test]
fn value_moves_as_the_operations_say() {
    let mut core = ledger();
    assert_eq!(pooled_value(&core), 0);
    assert_eq!(core.internal_deposit_to_reviewer(&id("alice"), &id("pool"), 1000), Ok(()));
    assert_eq!(pooled_value(&core), 1000);
    assert_eq!(core.deposit_to_vapi(&id("pool"), id("a"), 1000), Ok(()));
    assert_eq!(pooled_value(&core), 1000);
    // Of 1000 of revenue, 10 are burned and 390 wait in the accumulator.
    assert_eq!(core.internal_settlement(&id("owner"), vec![id("a")], vec![1000]), Ok(10));
    assert_eq!(pooled_value(&core), 1600);
    // Of 1000 of revenue without stakers, 10 are burned.
    assert_eq!(core.internal_settlement(&id("owner"), vec![id("b")], vec![1000]), Ok(10));
    assert_eq!(pooled_value(&core), 2590);
    // Compounding realises the 390.
    assert_eq!(core.compound(&id("pool")), Ok(()));
    assert_eq!(pooled_value(&core), 2980);
    assert_eq!(core.withdraw_from_vapi(&id("pool"), &id("a"), 387), Ok(()));
    assert_eq!(pooled_value(&core), 2980);
    // The request compounds first, which finds nothing to realise, and then
    // takes 300 out.
    assert_eq!(core.delegator_request_refund(&id("alice"), &id("pool"), 300, 0), Ok(0));
    assert_eq!(pooled_value(&core), 2680);
    assert_eq!(core.delegator_claim_refund(&id("alice"), &id("pool"), 60_000), Ok(Some(300)));
    assert_eq!(core.callback_delegator_claim_refund(&id("alice"), &id("pool"), 300, true), Ok(()));
    assert_eq!(pooled_value(&core), 2680);
}

#[test]
fn an_unresolved_residual_stays_in_the_ledger() {
    let mut core = ledger();
    assert_eq!(core.create_vapi(&id("coder"), id("c")), Ok(()));
    assert_eq!(core.internal_deposit_to_reviewer(&id("alice"), &id("pool"), 3), Ok(()));
    for vapi in ["a", "b", "c"] {
        assert_eq!(core.deposit_to_vapi(&id("pool"), id(vapi), 1), Ok(()));
    }
    assert_eq!(pooled_value(&core), 3);
    assert_eq!(core.delegator_request_refund(&id("alice"), &id("pool"), 2, 0), Ok(2));
    assert_eq!(pooled_value(&core), 3);
}

#[test]
fn accumulators_only_grow() {
    let mut core = ledger();
    let mut before = accumulators(&core);
    let mut step = |core: &mut TicleCore, outcome: Result<(), LedgerError>| {
        assert_eq!(outcome, Ok(()));
        let after = accumulators(core);
        assert!(no_lower(&before.0, &after.0));
        assert!(no_lower(&before.1, &after.1));
        before = after;
    };
    let r = core.internal_deposit_to_reviewer(&id("alice"), &id("pool"), 1000);
    step(&mut core, r);
    let r = core.deposit_to_vapi(&id("pool"), id("a"), 700);
    step(&mut core, r);
    let r = core.internal_settlement(&id("owner"), vec![id("a")], vec![500]).map(|_| ());
    step(&mut core, r);
    let r = core.compound(&id("pool"));
    step(&mut core, r);
    let r = core.internal_settlement(&id("owner"), vec![id("a"), id("b")], vec![9, 9]).map(|_| ());
    step(&mut core, r);
    let r = core.withdraw_from_vapi(&id("pool"), &id("a"), 100);
    step(&mut core, r);
    let r = core.delegator_request_refund(&id("alice"), &id("pool"), 300, 0).map(|_| ());
    step(&mut core, r);
    let r = core.create_vapi(&id("coder"), id("c"));
    step(&mut core, r);
    assert_eq!(core.vapis[0].acc_reward_per_share, 281_930_891_057);
}

#[test]
fn every_operation_keeps_the_ledger_well_formed() {
    let mut core = ledger();
    assert_eq!(core.internal_deposit_to_reviewer(&id("alice"), &id("pool"), 1000), Ok(()));
    assert_eq!(core.internal_deposit_to_reviewer(&id("bob"), &id("pool"), 1000), Ok(()));
    assert_eq!(core.deposit_to_vapi(&id("pool"), id("a"), 700), Ok(()));
    assert_eq!(core.deposit_to_vapi(&id("pool"), id("b"), 700), Ok(()));
    assert_eq!(core.withdraw_from_vapi(&id("pool"), &id("a"), 700), Ok(()));
    assert_eq!(core.delegator_request_refund(&id("alice"), &id("pool"), 1000, 0), Ok(0));
    assert_eq!(core.delegator_claim_refund(&id("alice"), &id("pool"), 60_000), Ok(Some(1000)));
    assert_eq!(core.callback_delegator_claim_refund(&id("alice"), &id("pool"), 1000, true), Ok(()));
    assert!(core.is_well_formed());
    assert_eq!(core.reviewers[0].delegators.len(), 1);
    assert_eq!(core.reviewers[0].deposit_vapis.len(), 1);
}
