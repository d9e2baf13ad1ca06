//! The operations on concrete scenarios: the accumulator's behaviour over
//! time, deposit and withdrawal accounting, the error paths, and the
//! round-trip and idempotence properties on concrete values.

use farms::errors::FarmError;
use farms::ops::{appoint, collect, cultivate, entrust, recultivate, sow, till, uproot};
use farms::state::{Crop, Manager, Plot};
use farms::utils::update_crop;

/// A pool with no fees, reward rate 1000 per second (scaled), emission
/// until t = 1000, accumulator clock started at t = 0.
fn plain_crop() -> Crop {
    Crop {
        manager: 1,
        reward_treasury: 2,
        reward_mint: 3,
        deposit_treasury: 4,
        deposit_mint: 5,
        end_timestamp: 1_000,
        deposit_fee: 0,
        withdraw_fee: 0,
        total_deposited: 0,
        fees: 0,
        rewards_per_share: 0,
        reward_rate: 1_000,
        previous_reward_timestamp: 0,
        paused: false,
        bump: 0,
        id: 0,
    }
}

#[test]
fn manager_lifecycle() {
    let mut manager = appoint(77, 3);
    assert_eq!(manager, Manager { owner: 77, crops: 0, rewarder_bump: 3 });
    entrust(&mut manager, 88);
    assert_eq!(manager.owner, 88);
    assert_eq!(manager.crops, 0);
}

#[test]
fn cultivate_assigns_sequential_ids() {
    let mut manager = appoint(77, 3);
    let first = cultivate(&mut manager, 9, 0, 0, 500, 10, 100, 4, 5, 2, 3, 1).unwrap();
    let second = cultivate(&mut manager, 9, 0, 0, 500, 10, 100, 4, 5, 2, 3, 1).unwrap();
    assert_eq!(first.id, 0);
    assert_eq!(second.id, 1);
    assert_eq!(manager.crops, 2);
    assert_eq!(first.total_deposited, 0);
    assert_eq!(first.rewards_per_share, 0);
    assert_eq!(first.fees, 0);
    assert_eq!(first.previous_reward_timestamp, 100);
    assert_eq!(first.end_timestamp, 500);
    assert!(!first.paused);
}

#[test]
fn cultivate_rejects_invalid_fee() {
    let mut manager = appoint(77, 3);
    let r = cultivate(&mut manager, 9, 1_000_000_001, 0, 500, 10, 100, 4, 5, 2, 3, 1);
    assert_eq!(r, Err(FarmError::InvalidFee));
    assert_eq!(manager.crops, 0);
}

#[test]
fn recultivate_overwrites_rates_only() {
    let mut crop = plain_crop();
    crop.rewards_per_share = 42;
    crop.previous_reward_timestamp = 7;
    assert_eq!(recultivate(&mut crop, 10, 20, 2_000, 5_000), Ok(()));
    assert_eq!(crop.deposit_fee, 10);
    assert_eq!(crop.withdraw_fee, 20);
    assert_eq!(crop.end_timestamp, 2_000);
    assert_eq!(crop.reward_rate, 5_000);
    // The accumulator and its clock are deliberately untouched.
    assert_eq!(crop.rewards_per_share, 42);
    assert_eq!(crop.previous_reward_timestamp, 7);
}

#[test]
fn recultivate_rejects_invalid_fee() {
    let mut crop = plain_crop();
    let before = crop;
    assert_eq!(
        recultivate(&mut crop, 0, 1_000_000_001, 2_000, 5_000),
        Err(FarmError::InvalidFee)
    );
    assert_eq!(crop, before);
}

#[test]
fn till_starts_empty() {
    let plot = till(5);
    assert_eq!(plot, Plot { amount: 0, debt: 0, bump: 5 });
}

#[test]
fn accumulator_ten_seconds() {
    // reward_rate = 1000, total_deposited = 1e9, elapsed = 10:
    // additional rewards per share = 10 * 1000 * 1e9 / 1e9 = 10000.
    let mut crop = plain_crop();
    crop.total_deposited = 1_000_000_000;
    assert_eq!(update_crop(&mut crop, 10), Ok(()));
    assert_eq!(crop.rewards_per_share, 10_000);
    assert_eq!(crop.previous_reward_timestamp, 10);
}

#[test]
fn accumulator_update_is_idempotent() {
    let mut crop = plain_crop();
    crop.total_deposited = 1_000_000_000;
    assert_eq!(update_crop(&mut crop, 10), Ok(()));
    let after_first = crop;
    // The second call with the same timestamp changes nothing.
    assert_eq!(update_crop(&mut crop, 10), Ok(()));
    assert_eq!(crop, after_first);
}

#[test]
fn accumulator_ignores_clock_going_backwards() {
    let mut crop = plain_crop();
    crop.total_deposited = 1_000_000_000;
    assert_eq!(update_crop(&mut crop, 10), Ok(()));
    let after_first = crop;
    assert_eq!(update_crop(&mut crop, 3), Ok(()));
    assert_eq!(crop, after_first);
}

#[test]
fn accumulator_clamps_to_end_timestamp() {
    let mut crop = plain_crop();
    crop.total_deposited = 1_000_000_000;
    // Far past the end of emission: only 1000 seconds ever accrue.
    assert_eq!(update_crop(&mut crop, 5_000), Ok(()));
    assert_eq!(crop.rewards_per_share, 1_000_000);
    assert_eq!(crop.previous_reward_timestamp, 1_000);
    // Frozen from now on.
    let frozen = crop;
    assert_eq!(update_crop(&mut crop, 6_000), Ok(()));
    assert_eq!(crop, frozen);
}

#[test]
fn accumulator_empty_pool_advances_clock_only() {
    let mut crop = plain_crop();
    assert_eq!(update_crop(&mut crop, 10), Ok(()));
    // Nobody was staked: nothing accrues, but the window is consumed so a
    // later deposit cannot reach back for it.
    assert_eq!(crop.rewards_per_share, 0);
    assert_eq!(crop.previous_reward_timestamp, 10);
}

#[test]
fn sow_rejects_zero_amount() {
    let mut crop = plain_crop();
    let mut plot = till(0);
    assert_eq!(sow(&mut crop, &mut plot, 0, 100, 0), Err(FarmError::AmountIsZero));
}

#[test]
fn sow_rejects_insufficient_balance() {
    let mut crop = plain_crop();
    let mut plot = till(0);
    assert_eq!(
        sow(&mut crop, &mut plot, 100, 99, 0),
        Err(FarmError::InsufficientFunds)
    );
    assert_eq!(plot.amount, 0);
    assert_eq!(crop.total_deposited, 0);
}

#[test]
fn sow_credits_net_of_fee() {
    let mut crop = plain_crop();
    crop.deposit_fee = 50_000_000; // 5%
    let mut plot = till(0);
    assert_eq!(sow(&mut crop, &mut plot, 200, 200, 0), Ok(()));
    assert_eq!(plot.amount, 190);
    assert_eq!(crop.total_deposited, 190);
    assert_eq!(crop.fees, 10);
}

#[test]
fn sow_after_accrual_starts_with_nothing_claimable() {
    let mut crop = plain_crop();
    crop.total_deposited = 1_000_000_000;
    assert_eq!(update_crop(&mut crop, 10), Ok(()));
    // A newcomer deposits at t = 10 under an accumulator of 10000: the debt
    // snapshot covers the whole share, so a claim-only withdrawal at the
    // same instant pays nothing.
    let mut plot = till(0);
    assert_eq!(sow(&mut crop, &mut plot, 500, 500, 10), Ok(()));
    assert_eq!(plot.amount, 500);
    // 500 * 10000 / 1e9 floors to 0: too small a stake to owe anything yet.
    assert_eq!(plot.debt, 0);
    let payout = uproot(&mut crop, &mut plot, 0, 10).unwrap();
    assert_eq!(payout.rewards, 0);
    assert_eq!(payout.withdrawal, 0);
}

#[test]
fn full_cycle_pays_exact_rewards() {
    // One depositor stakes 1e9 at t = 0 and withdraws everything at t = 10:
    // rewards_per_share grows to 10000 and the claim is
    // 1e9 * 10000 / 1e9 = 10000, alongside the full principal.
    let mut crop = plain_crop();
    let mut plot = till(0);
    assert_eq!(sow(&mut crop, &mut plot, 1_000_000_000, 1_000_000_000, 0), Ok(()));
    assert_eq!(plot.amount, 1_000_000_000);
    assert_eq!(plot.debt, 0);
    assert_eq!(crop.total_deposited, 1_000_000_000);

    let payout = uproot(&mut crop, &mut plot, 1_000_000_000, 10).unwrap();
    assert_eq!(payout.rewards, 10_000);
    assert_eq!(payout.withdrawal, 1_000_000_000);
    assert_eq!(plot.amount, 0);
    assert_eq!(plot.debt, 0);
    assert_eq!(crop.total_deposited, 0);
    assert_eq!(crop.rewards_per_share, 10_000);
}

#[test]
fn immediate_roundtrip_nets_amount_minus_both_fees() {
    // Deposit 200 and withdraw the resulting 190 with no time passing and
    // both fees at 5%: proceeds are 200 - 10 - 9 and no reward is paid.
    let mut crop = plain_crop();
    crop.reward_rate = 0;
    crop.deposit_fee = 50_000_000;
    crop.withdraw_fee = 50_000_000;
    let mut plot = till(0);
    assert_eq!(sow(&mut crop, &mut plot, 200, 200, 0), Ok(()));
    assert_eq!(plot.amount, 190);
    let payout = uproot(&mut crop, &mut plot, 190, 0).unwrap();
    assert_eq!(payout.rewards, 0);
    assert_eq!(payout.withdrawal, 181);
    assert_eq!(plot.amount, 0);
    assert_eq!(plot.debt, 0);
    assert_eq!(crop.total_deposited, 0);
    assert_eq!(crop.fees, 19);
}

#[test]
fn uproot_rejects_more_than_deposited() {
    let mut crop = plain_crop();
    let mut plot = till(0);
    assert_eq!(sow(&mut crop, &mut plot, 100, 100, 0), Ok(()));
    assert_eq!(
        uproot(&mut crop, &mut plot, 101, 0),
        Err(FarmError::AmountIsTooLarge)
    );
    assert_eq!(plot.amount, 100);
    assert_eq!(crop.total_deposited, 100);
}

#[test]
fn claim_only_uproot_resets_debt() {
    let mut crop = plain_crop();
    let mut plot = till(0);
    assert_eq!(sow(&mut crop, &mut plot, 1_000_000_000, 1_000_000_000, 0), Ok(()));
    // Claim at t = 10 without withdrawing principal.
    let payout = uproot(&mut crop, &mut plot, 0, 10).unwrap();
    assert_eq!(payout.rewards, 10_000);
    assert_eq!(payout.withdrawal, 0);
    assert_eq!(plot.amount, 1_000_000_000);
    assert_eq!(plot.debt, 10_000);
    // Claiming again at the same instant pays nothing more.
    let again = uproot(&mut crop, &mut plot, 0, 10).unwrap();
    assert_eq!(again.rewards, 0);
}

#[test]
fn two_positions_sum_to_total_deposited() {
    let mut crop = plain_crop();
    let mut first = till(0);
    let mut second = till(0);
    assert_eq!(sow(&mut crop, &mut first, 600, 600, 0), Ok(()));
    assert_eq!(sow(&mut crop, &mut second, 400, 400, 5), Ok(()));
    assert_eq!(crop.total_deposited, first.amount + second.amount);
    let payout = uproot(&mut crop, &mut first, 250, 7).unwrap();
    assert_eq!(payout.withdrawal, 250);
    assert_eq!(crop.total_deposited, first.amount + second.amount);
}

#[test]
fn rewards_per_share_never_decreases() {
    let mut crop = plain_crop();
    let mut plot = till(0);
    let mut last = crop.rewards_per_share;
    assert_eq!(sow(&mut crop, &mut plot, 1_000, 1_000, 0), Ok(()));
    assert!(crop.rewards_per_share >= last);
    last = crop.rewards_per_share;
    assert_eq!(update_crop(&mut crop, 3), Ok(()));
    assert!(crop.rewards_per_share >= last);
    last = crop.rewards_per_share;
    let _ = uproot(&mut crop, &mut plot, 500, 6).unwrap();
    assert!(crop.rewards_per_share >= last);
    last = crop.rewards_per_share;
    assert_eq!(update_crop(&mut crop, 2_000), Ok(()));
    assert!(crop.rewards_per_share >= last);
}

#[test]
fn claimable_never_negative_across_operations() {
    let mut crop = plain_crop();
    let mut plot = till(0);
    assert_eq!(sow(&mut crop, &mut plot, 777, 777, 0), Ok(()));
    assert_eq!(update_crop(&mut crop, 4), Ok(()));
    // rewards_per_share: 4e12/777 = 5_148_005_148, then 2e12/777 more.
    assert_eq!(sow(&mut crop, &mut plot, 123, 123, 6), Ok(()));
    assert_eq!(crop.rewards_per_share, 7_722_007_722);
    assert_eq!(plot.debt, 949);
    // At t = 9: rps grows by 3e12/900; the claim settles to a round 9000.
    let payout = uproot(&mut crop, &mut plot, 400, 9).unwrap();
    assert_eq!(payout.rewards, 9_000);
    // And a claim-only call three seconds later nets another 3000.
    let payout = uproot(&mut crop, &mut plot, 0, 12).unwrap();
    assert_eq!(payout.rewards, 3_000);
}

#[test]
fn collect_sweeps_fees() {
    let mut crop = plain_crop();
    crop.deposit_fee = 50_000_000;
    let mut plot = till(0);
    assert_eq!(sow(&mut crop, &mut plot, 200, 200, 0), Ok(()));
    assert_eq!(crop.fees, 10);
    let swept = collect(&mut crop);
    assert_eq!(swept, 10);
    assert_eq!(crop.fees, 0);
    // Nothing else moved.
    assert_eq!(crop.total_deposited, 190);
}

#[test]
fn sow_overflow_leaves_records_untouched() {
    // A second deposit that would push the position's principal past the
    // 64-bit range must fail atomically.
    let mut crop = plain_crop();
    crop.reward_rate = 0;
    let mut plot = till(0);
    assert_eq!(sow(&mut crop, &mut plot, u64::MAX, u64::MAX, 0), Ok(()));
    let crop_before = crop;
    let plot_before = plot;
    assert_eq!(
        sow(&mut crop, &mut plot, 1, 1, 0),
        Err(FarmError::NumericalOverflowError)
    );
    assert_eq!(crop, crop_before);
    assert_eq!(plot, plot_before);
}
