//! The state-changing operations of the engine.
//!
//! Each operation takes the records it touches as `&mut` arguments together
//! with the current clock reading and any externally-read balances, and
//! either commits all of its effects or returns an error with every record
//! exactly as it was. The actual movement of tokens is the caller's duty:
//! a successful deposit obliges the caller to move the gross amount into
//! the deposit treasury, and a successful withdrawal reports how much to
//! pay out of each treasury.

use vstd::prelude::*;

use vstd::arithmetic::div_mod::{lemma_div_pos_is_pos, lemma_fundamental_div_mod};
use vstd::arithmetic::mul::{
    lemma_mul_inequality, lemma_mul_is_distributive_add_other_way, lemma_mul_nonnegative,
};

use crate::errors::FarmError;
use crate::state::{Crop, Manager, Plot};
use crate::utils::{
    assert_enough_to_uproot, assert_non_zero, assert_sufficient_funds, assert_valid_fee,
    calculate_fee, calculate_plot_rewards, calculate_reward_debt, crop_after_update,
    spec_fee, spec_plot_rewards, spec_reward_debt, update_crop, update_fits, MAX_FEE,
    ONE_REWARD,
};

verus! {

/// Create a deployment authority record with no pools yet.
pub fn appoint(owner: u64, rewarder_bump: u8) -> (m: Manager)
    ensures
        m == (Manager { owner, crops: 0, rewarder_bump }),
{
    Manager { owner, crops: 0, rewarder_bump }
}

/// Hand the deployment over to a new owner; nothing else changes.
pub fn entrust(manager: &mut Manager, trustee: u64)
    ensures
        *final(manager) == (Manager { owner: trustee, ..*old(manager) }),
{
    manager.owner = trustee;
}

/// The pool record `cultivate` creates: zeroed accounting, the next
/// sequential identifier, and the accumulator clock started at `now`.
pub open spec fn fresh_crop(
    manager: Manager,
    manager_id: u64,
    deposit_fee: u64,
    withdraw_fee: u64,
    end_timestamp: u64,
    reward_rate: u64,
    now: u64,
    deposit_treasury: u64,
    deposit_mint: u64,
    reward_treasury: u64,
    reward_mint: u64,
    bump: u8,
) -> Crop {
    Crop {
        manager: manager_id,
        reward_treasury,
        reward_mint,
        deposit_treasury,
        deposit_mint,
        end_timestamp,
        deposit_fee,
        withdraw_fee,
        total_deposited: 0,
        fees: 0,
        rewards_per_share: 0,
        reward_rate,
        previous_reward_timestamp: now,
        paused: false,
        bump,
        id: manager.crops,
    }
}

/// Create a pool under `manager`. Both fee rates must be at most 100%
/// (`InvalidFee` otherwise); on success the pool takes the manager's next
/// sequential identifier and the counter advances by one.
pub fn cultivate(
    manager: &mut Manager,
    manager_id: u64,
    deposit_fee: u64,
    withdraw_fee: u64,
    end_timestamp: u64,
    reward_rate: u64,
    current_timestamp: u64,
    deposit_treasury: u64,
    deposit_mint: u64,
    reward_treasury: u64,
    reward_mint: u64,
    bump: u8,
) -> (r: Result<Crop, FarmError>)
    requires
        old(manager).crops < u64::MAX,
    ensures
        deposit_fee > MAX_FEE || withdraw_fee > MAX_FEE ==> r == Err::<Crop, FarmError>(
            FarmError::InvalidFee,
        ) && *final(manager) == *old(manager),
        deposit_fee <= MAX_FEE && withdraw_fee <= MAX_FEE ==> {
            &&& r == Ok::<Crop, FarmError>(
                fresh_crop(
                    *old(manager),
                    manager_id,
                    deposit_fee,
                    withdraw_fee,
                    end_timestamp,
                    reward_rate,
                    current_timestamp,
                    deposit_treasury,
                    deposit_mint,
                    reward_treasury,
                    reward_mint,
                    bump,
                ),
            )
            &&& *final(manager) == (Manager { crops: (old(manager).crops + 1) as u64, ..*old(manager) })
            &&& r matches Ok(c) && c.fees_valid()
        },
{
    match assert_valid_fee(deposit_fee) {
        Ok(()) => {},
        Err(e) => {
            return Err(e);
        },
    }
    match assert_valid_fee(withdraw_fee) {
        Ok(()) => {},
        Err(e) => {
            return Err(e);
        },
    }
    let crop = Crop {
        manager: manager_id,
        reward_treasury,
        reward_mint,
        deposit_treasury,
        deposit_mint,
        end_timestamp,
        deposit_fee,
        withdraw_fee,
        total_deposited: 0,
        fees: 0,
        rewards_per_share: 0,
        reward_rate,
        previous_reward_timestamp: current_timestamp,
        paused: false,
        bump,
        id: manager.crops,
    };
    manager.crops = manager.crops + 1;
    Ok(crop)
}

/// Overwrite a pool's fee rates, reward rate and end time. Validates the
/// new fee rates and touches nothing else -- in particular it does not
/// advance the accumulator, so the new rate applies only from the next
/// deposit, withdrawal or explicit update onwards.
pub fn recultivate(
    crop: &mut Crop,
    deposit_fee: u64,
    withdraw_fee: u64,
    end_timestamp: u64,
    reward_rate: u64,
) -> (r: Result<(), FarmError>)
    ensures
        deposit_fee > MAX_FEE || withdraw_fee > MAX_FEE ==> r == Err::<(), FarmError>(
            FarmError::InvalidFee,
        ) && *final(crop) == *old(crop),
        deposit_fee <= MAX_FEE && withdraw_fee <= MAX_FEE ==> r == Ok::<(), FarmError>(())
            && *final(crop) == (Crop {
            deposit_fee,
            withdraw_fee,
            end_timestamp,
            reward_rate,
            ..*old(crop)
        }),
        final(crop).rewards_per_share == old(crop).rewards_per_share,
        r is Ok ==> final(crop).fees_valid(),
{
    match assert_valid_fee(deposit_fee) {
        Ok(()) => {},
        Err(e) => {
            return Err(e);
        },
    }
    match assert_valid_fee(withdraw_fee) {
        Ok(()) => {},
        Err(e) => {
            return Err(e);
        },
    }
    crop.end_timestamp = end_timestamp;
    crop.deposit_fee = deposit_fee;
    crop.withdraw_fee = withdraw_fee;
    crop.reward_rate = reward_rate;
    Ok(())
}

/// Create a participant's empty position in a pool. A fresh position owes
/// nothing and is settled against every accumulator value.
pub fn till(bump: u8) -> (p: Plot)
    ensures
        p == (Plot { amount: 0, debt: 0, bump }),
        forall|rewards_per_share: u64| #[trigger] p.settled_against(rewards_per_share),
{
    Plot { amount: 0, debt: 0, bump }
}

/// The net principal a deposit of `amount` credits: the gross amount less
/// the deposit fee.
pub open spec fn sow_net(crop: Crop, amount: u64) -> int {
    amount - spec_fee(crop.deposit_fee as int, amount as int)
}

/// Exactly when a deposit of `amount` at `now` succeeds, once the zero-
/// amount and balance guards have passed: the accumulator update and every
/// balance and debt increment stay within 64 bits.
pub open spec fn sow_fits(crop: Crop, plot: Plot, amount: u64, now: u64) -> bool {
    let c1 = crop_after_update(crop, now);
    let net = sow_net(crop, amount);
    &&& update_fits(crop, now)
    &&& spec_reward_debt(c1.rewards_per_share as int, net) <= u64::MAX
    &&& plot.debt + spec_reward_debt(c1.rewards_per_share as int, net) <= u64::MAX
    &&& plot.amount + net <= u64::MAX
    &&& c1.total_deposited + net <= u64::MAX
    &&& c1.fees + spec_fee(crop.deposit_fee as int, amount as int) <= u64::MAX
}

/// The pool record after a successful deposit: accumulator brought up to
/// `now`, principal grown by the net amount, the fee added to the pending
/// fees.
pub open spec fn crop_after_sow(crop: Crop, amount: u64, now: u64) -> Crop {
    let c1 = crop_after_update(crop, now);
    let net = sow_net(crop, amount);
    Crop {
        total_deposited: (c1.total_deposited + net) as u64,
        fees: (c1.fees + spec_fee(crop.deposit_fee as int, amount as int)) as u64,
        ..c1
    }
}

/// The position record after a successful deposit: principal grown by the
/// net amount, debt grown by that amount's share of the updated
/// accumulator, so that reward accrued before this deposit stays claimable
/// and reward for the time before it never becomes so.
pub open spec fn plot_after_sow(crop: Crop, plot: Plot, amount: u64, now: u64) -> Plot {
    let c1 = crop_after_update(crop, now);
    let net = sow_net(crop, amount);
    Plot {
        amount: (plot.amount + net) as u64,
        debt: (plot.debt + spec_reward_debt(c1.rewards_per_share as int, net)) as u64,
        ..plot
    }
}

/// Deposit: stake `amount` into the pool. `source_balance` is the
/// participant's externally-read balance. On success the caller must move
/// the gross `amount` into the deposit treasury; the position is credited
/// the amount net of the deposit fee.
pub fn sow(
    crop: &mut Crop,
    plot: &mut Plot,
    amount: u64,
    source_balance: u64,
    current_timestamp: u64,
) -> (r: Result<(), FarmError>)
    requires
        old(crop).fees_valid(),
    ensures
        amount == 0 ==> r == Err::<(), FarmError>(FarmError::AmountIsZero),
        amount != 0 && source_balance < amount ==> r == Err::<(), FarmError>(
            FarmError::InsufficientFunds,
        ),
        amount != 0 && source_balance >= amount ==> {
            if sow_fits(*old(crop), *old(plot), amount, current_timestamp) {
                &&& r == Ok::<(), FarmError>(())
                &&& *final(crop) == crop_after_sow(*old(crop), amount, current_timestamp)
                &&& *final(plot) == plot_after_sow(*old(crop), *old(plot), amount, current_timestamp)
            } else {
                r == Err::<(), FarmError>(FarmError::NumericalOverflowError)
            }
        },
        r is Err ==> *final(crop) == *old(crop) && *final(plot) == *old(plot),
        final(crop).rewards_per_share >= old(crop).rewards_per_share,
        final(crop).fees_valid(),
        old(plot).settled_against(old(crop).rewards_per_share) ==> final(plot).settled_against(
            final(crop).rewards_per_share,
        ),
{
    match assert_non_zero(amount) {
        Ok(()) => {},
        Err(e) => {
            return Err(e);
        },
    }
    match assert_sufficient_funds(source_balance, amount) {
        Ok(()) => {},
        Err(e) => {
            return Err(e);
        },
    }
    proof {
        crate::utils::lemma_fee_le_amount(crop.deposit_fee, amount);
    }
    let fee_amount: u64 = match calculate_fee(crop.deposit_fee, amount) {
        Ok(f) => f,
        Err(e) => {
            return Err(e);
        },
    };
    let deposit_amount: u64 = amount - fee_amount;
    // Work on a copy of the pool so that a failure after the accumulator
    // update still leaves the stored record untouched.
    let mut updated: Crop = *crop;
    match update_crop(&mut updated, current_timestamp) {
        Ok(()) => {},
        Err(e) => {
            return Err(e);
        },
    }
    let debt_grown: u64 = match calculate_reward_debt(updated.rewards_per_share, deposit_amount) {
        Ok(d) => d,
        Err(e) => {
            return Err(e);
        },
    };
    let new_debt: u64 = match plot.debt.checked_add(debt_grown) {
        Some(x) => x,
        None => {
            return Err(FarmError::NumericalOverflowError);
        },
    };
    let new_amount: u64 = match plot.amount.checked_add(deposit_amount) {
        Some(x) => x,
        None => {
            return Err(FarmError::NumericalOverflowError);
        },
    };
    let new_total: u64 = match updated.total_deposited.checked_add(deposit_amount) {
        Some(x) => x,
        None => {
            return Err(FarmError::NumericalOverflowError);
        },
    };
    let new_fees: u64 = match updated.fees.checked_add(fee_amount) {
        Some(x) => x,
        None => {
            return Err(FarmError::NumericalOverflowError);
        },
    };
    proof {
        if old(plot).settled_against(old(crop).rewards_per_share) {
            lemma_sow_settles(*old(crop), *old(plot), amount, current_timestamp);
        }
    }
    updated.total_deposited = new_total;
    updated.fees = new_fees;
    *crop = updated;
    plot.debt = new_debt;
    plot.amount = new_amount;
    Ok(())
}

/// A deposit keeps the position settled: if the old debt was covered by
/// the old accumulator, the grown debt is covered by the updated one.
proof fn lemma_sow_settles(crop: Crop, plot: Plot, amount: u64, now: u64)
    requires
        crop.fees_valid(),
        sow_fits(crop, plot, amount, now),
        plot.settled_against(crop.rewards_per_share),
    ensures
        plot_after_sow(crop, plot, amount, now).settled_against(
            crop_after_sow(crop, amount, now).rewards_per_share,
        ),
{
    let c1 = crop_after_update(crop, now);
    let net = sow_net(crop, amount);
    let grown = spec_reward_debt(c1.rewards_per_share as int, net);
    crate::utils::lemma_fee_le_amount(crop.deposit_fee, amount);
    lemma_rps_monotone_after_update(crop, now);
    // Old debt is covered by the old accumulator, a fortiori by the new one.
    lemma_mul_inequality(
        crop.rewards_per_share as int,
        c1.rewards_per_share as int,
        plot.amount as int,
    );
    assert(plot.amount * crop.rewards_per_share == crop.rewards_per_share * plot.amount)
        by (nonlinear_arith);
    assert(plot.amount * c1.rewards_per_share == c1.rewards_per_share * plot.amount)
        by (nonlinear_arith);
    // The grown part of the debt is covered by the net principal's share.
    lemma_fundamental_div_mod(net * c1.rewards_per_share as int, ONE_REWARD as int);
    vstd::arithmetic::div_mod::lemma_mod_bound(net * c1.rewards_per_share as int, ONE_REWARD as int);
    lemma_div_pos_is_pos(net * c1.rewards_per_share as int, ONE_REWARD as int);
    lemma_mul_nonnegative(net, c1.rewards_per_share as int);
    // (amount_old + net) * rps covers both parts together.
    lemma_mul_is_distributive_add_other_way(
        c1.rewards_per_share as int,
        plot.amount as int,
        net,
    );
}

/// The accumulator never moves backwards under an update that commits.
pub proof fn lemma_rps_monotone_after_update(crop: Crop, now: u64)
    requires
        update_fits(crop, now),
    ensures
        crop_after_update(crop, now).rewards_per_share >= crop.rewards_per_share,
        crop_after_update(crop, now).previous_reward_timestamp >= crop.previous_reward_timestamp,
{
    if now > crop.previous_reward_timestamp && crop.total_deposited > 0 {
        let numerator = crate::utils::elapsed_seconds(crop, now) as int * crop.reward_rate as int
            * ONE_REWARD as int;
        lemma_mul_nonnegative(
            crate::utils::elapsed_seconds(crop, now) as int,
            crop.reward_rate as int,
        );
        lemma_mul_nonnegative(
            crate::utils::elapsed_seconds(crop, now) as int * crop.reward_rate as int,
            ONE_REWARD as int,
        );
        lemma_div_pos_is_pos(numerator, crop.total_deposited as int);
    }
}

/// What the caller must transfer out after a successful withdrawal:
/// `rewards` from the reward treasury, and `withdrawal` -- the requested
/// amount net of the withdraw fee -- from the deposit treasury.
#[derive(Clone, Copy, Debug, PartialEq, Eq, Structural)]
pub struct UprootPayout {
    /// Settled claimable reward, paid from the reward treasury.
    pub rewards: u64,
    /// Principal paid back from the deposit treasury, net of the fee.
    pub withdrawal: u64,
}

/// Exactly when a withdrawal of `amount` at `now` succeeds, once the
/// principal guard has passed: the accumulator update fits, the claimable
/// reward is non-negative and representable, and so are the recomputed debt
/// and the grown fees.
pub open spec fn uproot_fits(crop: Crop, plot: Plot, amount: u64, now: u64) -> bool {
    let c1 = crop_after_update(crop, now);
    let claim = spec_plot_rewards(c1.rewards_per_share as int, plot.amount as int, plot.debt as int);
    &&& update_fits(crop, now)
    &&& 0 <= claim <= u64::MAX
    &&& spec_reward_debt(c1.rewards_per_share as int, plot.amount - amount) <= u64::MAX
    &&& c1.fees + spec_fee(crop.withdraw_fee as int, amount as int) <= u64::MAX
}

/// The reward a withdrawal at `now` settles and pays out.
pub open spec fn uproot_rewards(crop: Crop, plot: Plot, now: u64) -> int {
    spec_plot_rewards(
        crop_after_update(crop, now).rewards_per_share as int,
        plot.amount as int,
        plot.debt as int,
    )
}

/// The pool record after a successful withdrawal: accumulator brought up
/// to `now`, principal shrunk by the requested gross amount, the withdraw
/// fee added to the pending fees.
pub open spec fn crop_after_uproot(crop: Crop, amount: u64, now: u64) -> Crop {
    let c1 = crop_after_update(crop, now);
    Crop {
        total_deposited: (c1.total_deposited - amount) as u64,
        fees: (c1.fees + spec_fee(crop.withdraw_fee as int, amount as int)) as u64,
        ..c1
    }
}

/// The position record after a successful withdrawal: principal shrunk by
/// the requested amount and debt recomputed from scratch against the
/// updated accumulator, so nothing of the reward just paid remains
/// claimable.
pub open spec fn plot_after_uproot(crop: Crop, plot: Plot, amount: u64, now: u64) -> Plot {
    let c1 = crop_after_update(crop, now);
    Plot {
        amount: (plot.amount - amount) as u64,
        debt: spec_reward_debt(c1.rewards_per_share as int, plot.amount - amount) as u64,
        ..plot
    }
}

/// Withdraw: take `amount` of principal back out of the pool and
/// settle the position's pending reward -- a zero `amount` is a valid
/// claim-only call that still pays the reward out. On success the caller
/// must transfer `rewards` from the reward treasury and `withdrawal` from
/// the deposit treasury to the participant.
pub fn uproot(
    crop: &mut Crop,
    plot: &mut Plot,
    amount: u64,
    current_timestamp: u64,
) -> (r: Result<UprootPayout, FarmError>)
    requires
        old(crop).fees_valid(),
        old(plot).amount <= old(crop).total_deposited,
    ensures
        amount > old(plot).amount ==> r == Err::<UprootPayout, FarmError>(
            FarmError::AmountIsTooLarge,
        ),
        amount <= old(plot).amount ==> {
            if uproot_fits(*old(crop), *old(plot), amount, current_timestamp) {
                &&& r == Ok::<UprootPayout, FarmError>(
                    UprootPayout {
                        rewards: uproot_rewards(*old(crop), *old(plot), current_timestamp) as u64,
                        withdrawal: (amount - spec_fee(
                            old(crop).withdraw_fee as int,
                            amount as int,
                        )) as u64,
                    },
                )
                &&& *final(crop) == crop_after_uproot(*old(crop), amount, current_timestamp)
                &&& *final(plot) == plot_after_uproot(
                    *old(crop),
                    *old(plot),
                    amount,
                    current_timestamp,
                )
            } else {
                r == Err::<UprootPayout, FarmError>(FarmError::NumericalOverflowError)
            }
        },
        r is Err ==> *final(crop) == *old(crop) && *final(plot) == *old(plot),
        final(crop).rewards_per_share >= old(crop).rewards_per_share,
        final(crop).fees_valid(),
        final(plot).amount <= final(crop).total_deposited,
        old(plot).settled_against(old(crop).rewards_per_share) ==> final(plot).settled_against(
            final(crop).rewards_per_share,
        ),
{
    match assert_enough_to_uproot(plot, amount) {
        Ok(()) => {},
        Err(e) => {
            return Err(e);
        },
    }
    let mut updated: Crop = *crop;
    match update_crop(&mut updated, current_timestamp) {
        Ok(()) => {},
        Err(e) => {
            return Err(e);
        },
    }
    let rewards: u64 = match calculate_plot_rewards(&updated, plot) {
        Ok(x) => x,
        Err(e) => {
            return Err(e);
        },
    };
    let new_amount: u64 = plot.amount - amount;
    let new_debt: u64 = match calculate_reward_debt(updated.rewards_per_share, new_amount) {
        Ok(d) => d,
        Err(e) => {
            return Err(e);
        },
    };
    proof {
        crate::utils::lemma_fee_le_amount(crop.withdraw_fee, amount);
    }
    let fee_amount: u64 = match calculate_fee(updated.withdraw_fee, amount) {
        Ok(f) => f,
        Err(e) => {
            return Err(e);
        },
    };
    let withdraw_amount: u64 = amount - fee_amount;
    let new_fees: u64 = match updated.fees.checked_add(fee_amount) {
        Some(x) => x,
        None => {
            return Err(FarmError::NumericalOverflowError);
        },
    };
    proof {
        lemma_uproot_settles(*old(crop), *old(plot), amount, current_timestamp);
    }
    updated.total_deposited = updated.total_deposited - amount;
    updated.fees = new_fees;
    *crop = updated;
    plot.amount = new_amount;
    plot.debt = new_debt;
    Ok(UprootPayout { rewards, withdrawal: withdraw_amount })
}

/// A withdrawal leaves the position settled: the recomputed debt is by
/// construction covered by the remaining principal's share.
proof fn lemma_uproot_settles(crop: Crop, plot: Plot, amount: u64, now: u64)
    requires
        amount <= plot.amount,
        uproot_fits(crop, plot, amount, now),
    ensures
        plot_after_uproot(crop, plot, amount, now).settled_against(
            crop_after_uproot(crop, amount, now).rewards_per_share,
        ),
{
    let c1 = crop_after_update(crop, now);
    let remaining = plot.amount - amount;
    lemma_mul_nonnegative(remaining, c1.rewards_per_share as int);
    lemma_fundamental_div_mod(remaining * c1.rewards_per_share as int, ONE_REWARD as int);
    vstd::arithmetic::div_mod::lemma_mod_bound(
        remaining * c1.rewards_per_share as int,
        ONE_REWARD as int,
    );
    lemma_div_pos_is_pos(remaining * c1.rewards_per_share as int, ONE_REWARD as int);
}

/// Sweep the pool's pending fees (authority-only; the caller checks the
/// authority). Returns how much the caller must transfer out of the
/// deposit treasury; the accumulator is not touched.
pub fn collect(crop: &mut Crop) -> (fees: u64)
    ensures
        fees == old(crop).fees,
        *final(crop) == (Crop { fees: 0, ..*old(crop) }),
{
    let fees = crop.fees;
    crop.fees = 0;
    fees
}

} // verus!
