use ticle_core::arith::mul_div;
use ticle_core::{pending_reward, reward_debt, DepositInfo, LedgerError, PRECISION};

#[test]
fn precision_is_ten_to_the_twelfth() {
    assert_eq!(PRECISION, 1_000_000_000_000);
}

#[test]
fn mul_div_rounds_down() {
    assert_eq!(mul_div(7, 5, 3), Some(11));
    assert_eq!(mul_div(6, 5, 3), Some(10));
    assert_eq!(mul_div(0, 5, 3), Some(0));
    assert_eq!(mul_div(5, 0, 3), Some(0));
    assert_eq!(mul_div(1, 1, 2), Some(0));
    assert_eq!(mul_div(1, 1, 0), None);
    assert_eq!(mul_div(0, 0, 0), None);
}

#[test]
fn mul_div_keeps_the_high_bits_of_the_product() {
    let yocto: u128 = 1_000_000_000_000_000_000_000_000;
    assert_eq!(mul_div(2 * yocto, 3 * yocto, 7 * yocto), Some(857142857142857142857142));
    assert_eq!(mul_div(2 * yocto, 4 * yocto, 7 * yocto), Some(1142857142857142857142857));
    assert_eq!(mul_div(u128::MAX, u128::MAX, u128::MAX), Some(u128::MAX));
    assert_eq!(mul_div(1u128 << 127, 3, 2), Some(255211775190703847597530955573826158592));
    assert_eq!(mul_div(u128::MAX, 1_000_000, 1_000_000), Some(u128::MAX));
    assert_eq!(mul_div(u128::MAX - 1, u128::MAX, u128::MAX), Some(u128::MAX - 1));
}

#[test]
fn mul_div_refuses_a_quotient_beyond_128_bits() {
    assert_eq!(mul_div(u128::MAX, 2, 1), None);
    assert_eq!(mul_div(u128::MAX, u128::MAX, 1), None);
    assert_eq!(mul_div(u128::MAX, u128::MAX, u128::MAX - 1), None);
    assert_eq!(mul_div(1u128 << 127, 4, 2), None);
    assert_eq!(mul_div(1u128 << 127, 4, 3), Some(226854911280625642308916404954512140970));
}

#[test]
fn reward_debt_is_the_scaled_product() {
    assert_eq!(reward_debt(10, 390_000_000_000), Some(3));
    assert_eq!(reward_debt(1387, 390_000_000_000), Some(540));
    assert_eq!(reward_debt(0, u128::MAX), Some(0));
    assert_eq!(reward_debt(u128::MAX, 0), Some(0));
    assert_eq!(reward_debt(u128::MAX, PRECISION), Some(u128::MAX));
    assert_eq!(reward_debt(u128::MAX, PRECISION + 1), None);
    let thousand_tokens: u128 = 1_000_000_000_000_000_000_000_000_000;
    assert_eq!(reward_debt(thousand_tokens, 2 * PRECISION), Some(2 * thousand_tokens));
}

#[test]
fn pending_reward_is_what_is_accumulated_less_the_debt() {
    assert_eq!(pending_reward(1000, 100, 500_000_000_000), Ok(400));
    assert_eq!(pending_reward(10, 0, 390_000_000_000), Ok(3));
    assert_eq!(pending_reward(10, 3, 390_000_000_000), Ok(0));
    assert_eq!(pending_reward(0, 0, 0), Ok(0));
    assert_eq!(
        pending_reward(10_000_000_000_000_000_000_000_000, 0, 193_050_000_000),
        Ok(1930500000000000000000000)
    );
}

#[test]
fn pending_reward_fails_where_the_debt_exceeds_what_is_accumulated() {
    assert_eq!(pending_reward(10, 5, 0), Err(LedgerError::RewardUnderflow));
    assert_eq!(pending_reward(10, 4, 390_000_000_000), Err(LedgerError::RewardUnderflow));
    assert_eq!(pending_reward(0, 1, u128::MAX), Err(LedgerError::RewardUnderflow));
}

#[test]
fn pending_reward_fails_beyond_128_bits() {
    assert_eq!(pending_reward(u128::MAX, 0, 2 * PRECISION), Err(LedgerError::ArithmeticOverflow));
    assert_eq!(pending_reward(u128::MAX, 7, PRECISION), Ok(u128::MAX - 7));
}

#[test]
fn top_up_folds_the_reward_into_the_capital() {
    let stake = DepositInfo { deposit_amount: 1000, reward_debt: 100 };
    let (topped, reward) = stake.top_up(50, 500_000_000_000).unwrap();
    assert_eq!(reward, 400);
    assert_eq!(topped, DepositInfo { deposit_amount: 1450, reward_debt: 725 });
    assert_eq!(pending_reward(topped.deposit_amount, topped.reward_debt, 500_000_000_000), Ok(0));
}

#[test]
fn top_up_of_an_empty_stake_is_the_amount() {
    let empty = DepositInfo { deposit_amount: 0, reward_debt: 0 };
    assert_eq!(
        empty.top_up(77, 3 * PRECISION),
        Ok((DepositInfo { deposit_amount: 77, reward_debt: 231 }, 0))
    );
}

#[test]
fn top_up_fails_as_the_reward_does() {
    let stake = DepositInfo { deposit_amount: 10, reward_debt: 11 };
    assert_eq!(stake.top_up(1, PRECISION), Err(LedgerError::RewardUnderflow));
    let full = DepositInfo { deposit_amount: u128::MAX, reward_debt: 0 };
    assert_eq!(full.top_up(1, 0), Err(LedgerError::ArithmeticOverflow));
    let large = DepositInfo { deposit_amount: u128::MAX - 1, reward_debt: 0 };
    assert_eq!(large.top_up(1, PRECISION + 1), Err(LedgerError::ArithmeticOverflow));
}
