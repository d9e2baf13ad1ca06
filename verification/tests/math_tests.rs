//! The arithmetic helpers on concrete values, including the overflow and
//! division-by-zero failure modes.

use farms::errors::FarmError;
use farms::state::{Crop, Plot};
use farms::utils::{
    calculate_additional_rewards, calculate_fee, calculate_plot_rewards, calculate_reward_debt,
    MAX_FEE, ONE_REWARD,
};

fn crop_with(rewards_per_share: u64) -> Crop {
    Crop {
        manager: 1,
        reward_treasury: 2,
        reward_mint: 3,
        deposit_treasury: 4,
        deposit_mint: 5,
        end_timestamp: 1_000,
        deposit_fee: 0,
        withdraw_fee: 0,
        total_deposited: 0,
        fees: 0,
        rewards_per_share,
        reward_rate: 0,
        previous_reward_timestamp: 0,
        paused: false,
        bump: 0,
        id: 0,
    }
}

#[test]
fn fee_five_percent_of_200_is_10() {
    // 50_000_000 parts per billion is 5%.
    assert_eq!(calculate_fee(50_000_000, 200), Ok(10));
}

#[test]
fn fee_rounds_down() {
    // 5% of 199 is 9.95, which floors to 9.
    assert_eq!(calculate_fee(50_000_000, 199), Ok(9));
}

#[test]
fn fee_zero_rate_is_zero() {
    assert_eq!(calculate_fee(0, u64::MAX), Ok(0));
}

#[test]
fn fee_full_rate_is_whole_amount() {
    assert_eq!(calculate_fee(MAX_FEE, 123_456), Ok(123_456));
}

#[test]
fn fee_narrowing_overflow_fails() {
    // The 128-bit product of two 64-bit operands always fits, but the
    // quotient here is far beyond 64 bits and must not be truncated.
    assert_eq!(
        calculate_fee(u64::MAX, u64::MAX),
        Err(FarmError::NumericalOverflowError)
    );
}

#[test]
fn reward_debt_basic() {
    // 1e9 principal at an accumulator of 10_000 owes 1e9 * 10_000 / 1e9.
    assert_eq!(calculate_reward_debt(10_000, 1_000_000_000), Ok(10_000));
}

#[test]
fn reward_debt_rounds_down() {
    assert_eq!(calculate_reward_debt(3, 500_000_000), Ok(1));
}

#[test]
fn reward_debt_narrowing_overflow_fails() {
    assert_eq!(
        calculate_reward_debt(u64::MAX, u64::MAX),
        Err(FarmError::NumericalOverflowError)
    );
}

#[test]
fn additional_rewards_basic() {
    // 10 seconds at rate 1000 over 1e9 deposited: 10 * 1000 * 1e9 / 1e9.
    assert_eq!(calculate_additional_rewards(10, 1000, 1_000_000_000), Ok(10_000));
}

#[test]
fn additional_rewards_intermediate_overflow_fails() {
    // seconds * rate already fills 128 bits; scaling by 1e9 cannot be
    // represented and must fail rather than wrap.
    assert_eq!(
        calculate_additional_rewards(u64::MAX, u64::MAX, 1),
        Err(FarmError::NumericalOverflowError)
    );
}

#[test]
fn additional_rewards_empty_pool_fails() {
    // Division by zero is an error, never a panic.
    assert_eq!(
        calculate_additional_rewards(10, 1000, 0),
        Err(FarmError::NumericalOverflowError)
    );
}

#[test]
fn additional_rewards_narrowing_overflow_fails() {
    // u64::MAX seconds at rate 2 over 1 deposited fits in 128 bits but not
    // in 64.
    assert_eq!(
        calculate_additional_rewards(u64::MAX, 2, 1),
        Err(FarmError::NumericalOverflowError)
    );
}

#[test]
fn plot_rewards_share_minus_debt() {
    let crop = crop_with(10_000);
    let plot = Plot { amount: 1_000_000_000, debt: 4_000, bump: 0 };
    // 1e9 * 10_000 / 1e9 - 4_000.
    assert_eq!(calculate_plot_rewards(&crop, &plot), Ok(6_000));
}

#[test]
fn plot_rewards_negative_is_inconsistent() {
    let crop = crop_with(0);
    let plot = Plot { amount: 10, debt: 1, bump: 0 };
    assert_eq!(
        calculate_plot_rewards(&crop, &plot),
        Err(FarmError::NumericalOverflowError)
    );
}

#[test]
fn scale_constants() {
    assert_eq!(MAX_FEE, 1_000_000_000);
    assert_eq!(ONE_REWARD, 1_000_000_000);
}

#[test]
fn record_space() {
    assert_eq!(farms::state::Manager::space(), 41);
    assert_eq!(Crop::space(), 234);
    assert_eq!(Plot::space(), 17);
}
