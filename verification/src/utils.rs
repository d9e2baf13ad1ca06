//! Fixed-point arithmetic of the engine: the fee, debt and emission
//! formulas, the accumulator update, and the guard checks.
//!
//! Every quantity is a 64-bit unsigned integer; each formula multiplies two
//! of them through a 128-bit intermediate, divides, and narrows back. A step
//! that cannot be represented exactly in the working width -- including a
//! division by zero and a narrowing that would truncate -- fails with
//! `NumericalOverflowError` and never wraps or saturates.

use vstd::prelude::*;

use vstd::arithmetic::div_mod::{
    lemma_div_is_ordered, lemma_div_multiples_vanish, lemma_div_pos_is_pos,
};
use vstd::arithmetic::mul::{lemma_mul_inequality, lemma_mul_upper_bound};

use crate::errors::FarmError;
use crate::state::Crop;
use crate::state::Plot;

verus! {

/// Denominator of fee rates: a rate of `MAX_FEE` parts per billion is 100%.
pub const MAX_FEE: u64 = 1_000_000_000;

/// Fixed-point scale of `rewards_per_share`: one whole reward per deposited
/// unit is `ONE_REWARD` accumulator units.
pub const ONE_REWARD: u64 = 1_000_000_000;

/// `floor(amount * fee / MAX_FEE)`: the fee withheld from `amount` at the
/// rate `fee` (parts per billion).
pub open spec fn spec_fee(fee: int, amount: int) -> int {
    amount * fee / (MAX_FEE as int)
}

/// `floor(amount * rewards_per_share / ONE_REWARD)`: the reward a principal
/// of `amount` has earned under an accumulator of `rewards_per_share`.
pub open spec fn spec_reward_debt(rewards_per_share: int, amount: int) -> int {
    amount * rewards_per_share / (ONE_REWARD as int)
}

/// `floor(seconds * rate * ONE_REWARD / total_deposited)`: how much the
/// accumulator grows over `seconds` of emission at `rate` shared by
/// `total_deposited` units of principal.
pub open spec fn spec_additional_rewards(seconds: int, rewards_per_second: int, total_deposited: int) -> int
    recommends
        total_deposited > 0,
{
    seconds * rewards_per_second * (ONE_REWARD as int) / total_deposited
}

/// The reward a position may claim right now: its earned share of the
/// accumulator minus the part already accounted for as `debt`. Negative
/// only if the records are inconsistent.
pub open spec fn spec_plot_rewards(rewards_per_share: int, amount: int, debt: int) -> int {
    spec_reward_debt(rewards_per_share, amount) - debt
}

/// Exactly when `calculate_additional_rewards` succeeds: the pool holds
/// principal, the triple product fits the 128-bit intermediate, and the
/// quotient narrows back to 64 bits.
pub open spec fn additional_rewards_fits(seconds: u64, rewards_per_second: u64, total_deposited: u64) -> bool {
    &&& total_deposited > 0
    &&& seconds * rewards_per_second * ONE_REWARD <= u128::MAX
    &&& spec_additional_rewards(seconds as int, rewards_per_second as int, total_deposited as int) <= u64::MAX
}

/// A fee at a rate of at most 100% never exceeds the amount it is taken
/// from (and is never negative).
pub proof fn lemma_fee_le_amount(fee: u64, amount: u64)
    requires
        fee <= MAX_FEE,
    ensures
        0 <= spec_fee(fee as int, amount as int) <= amount,
{
    lemma_mul_inequality(fee as int, MAX_FEE as int, amount as int);
    assert(amount * fee == fee * amount) by (nonlinear_arith);
    assert(amount * MAX_FEE == MAX_FEE * amount) by (nonlinear_arith);
    lemma_div_is_ordered(amount as int * fee as int, amount as int * MAX_FEE as int, MAX_FEE as int);
    lemma_div_multiples_vanish(amount as int, MAX_FEE as int);
    lemma_div_pos_is_pos(amount as int * fee as int, MAX_FEE as int);
}

/// The fee calculator: `fee(rate, amount) = floor(amount * fee / MAX_FEE)`, computed
/// through a 128-bit intermediate. Fails only when the quotient does not
/// fit in 64 bits (the 128-bit product of two 64-bit operands always fits).
pub fn calculate_fee(fee: u64, amount: u64) -> (r: Result<u64, FarmError>)
    ensures
        spec_fee(fee as int, amount as int) <= u64::MAX
            ==> r == Ok::<u64, FarmError>(spec_fee(fee as int, amount as int) as u64),
        spec_fee(fee as int, amount as int) > u64::MAX
            ==> r == Err::<u64, FarmError>(FarmError::NumericalOverflowError),
{
    proof {
        lemma_mul_upper_bound(amount as int, u64::MAX as int, fee as int, u64::MAX as int);
    }
    let product: u128 = (amount as u128) * (fee as u128);
    let quotient: u128 = product / (MAX_FEE as u128);
    if quotient > u64::MAX as u128 {
        Err(FarmError::NumericalOverflowError)
    } else {
        Ok(quotient as u64)
    }
}

/// The debt snapshot: `debt = floor(amount * rewards_per_share / ONE_REWARD)`, the
/// snapshot a position records against the accumulator. Fails only when
/// the quotient does not fit in 64 bits.
pub fn calculate_reward_debt(rewards_per_share: u64, amount: u64) -> (r: Result<u64, FarmError>)
    ensures
        spec_reward_debt(rewards_per_share as int, amount as int) <= u64::MAX
            ==> r == Ok::<u64, FarmError>(spec_reward_debt(rewards_per_share as int, amount as int) as u64),
        spec_reward_debt(rewards_per_share as int, amount as int) > u64::MAX
            ==> r == Err::<u64, FarmError>(FarmError::NumericalOverflowError),
{
    proof {
        lemma_mul_upper_bound(amount as int, u64::MAX as int, rewards_per_share as int, u64::MAX as int);
    }
    let product: u128 = (amount as u128) * (rewards_per_share as u128);
    let quotient: u128 = product / (ONE_REWARD as u128);
    if quotient > u64::MAX as u128 {
        Err(FarmError::NumericalOverflowError)
    } else {
        Ok(quotient as u64)
    }
}

/// The accumulator growth `elapsed * rate * ONE_REWARD /
/// total_deposited`, chained through the 128-bit intermediate. Fails when
/// the triple product overflows 128 bits, when `total_deposited` is zero
/// (division by zero is an error, never a panic), or when the quotient does
/// not fit in 64 bits.
pub fn calculate_additional_rewards(seconds: u64, rewards_per_second: u64, total_deposited: u64) -> (r: Result<u64, FarmError>)
    ensures
        additional_rewards_fits(seconds, rewards_per_second, total_deposited)
            ==> r == Ok::<u64, FarmError>(
                spec_additional_rewards(seconds as int, rewards_per_second as int, total_deposited as int) as u64,
            ),
        !additional_rewards_fits(seconds, rewards_per_second, total_deposited)
            ==> r == Err::<u64, FarmError>(FarmError::NumericalOverflowError),
{
    proof {
        lemma_mul_upper_bound(seconds as int, u64::MAX as int, rewards_per_second as int, u64::MAX as int);
    }
    let emitted: u128 = (seconds as u128) * (rewards_per_second as u128);
    let scaled: u128 = match emitted.checked_mul(ONE_REWARD as u128) {
        Some(x) => x,
        None => {
            return Err(FarmError::NumericalOverflowError);
        },
    };
    if total_deposited == 0 {
        return Err(FarmError::NumericalOverflowError);
    }
    let quotient: u128 = scaled / (total_deposited as u128);
    if quotient > u64::MAX as u128 {
        Err(FarmError::NumericalOverflowError)
    } else {
        Ok(quotient as u64)
    }
}

/// The reward a position may claim, `floor(amount * rewards_per_share
/// / ONE_REWARD) - debt`, with the pool's current accumulator and the
/// position's pre-update `amount` and `debt`. A negative result marks an
/// inconsistent state and fails, as does a result beyond 64 bits.
pub fn calculate_plot_rewards(crop: &Crop, plot: &Plot) -> (r: Result<u64, FarmError>)
    ensures
        ({
            let claim = spec_plot_rewards(
                crop.rewards_per_share as int,
                plot.amount as int,
                plot.debt as int,
            );
            &&& (0 <= claim <= u64::MAX) ==> r == Ok::<u64, FarmError>(claim as u64)
            &&& !(0 <= claim <= u64::MAX) ==> r == Err::<u64, FarmError>(
                FarmError::NumericalOverflowError,
            )
        }),
{
    proof {
        lemma_mul_upper_bound(
            plot.amount as int,
            u64::MAX as int,
            crop.rewards_per_share as int,
            u64::MAX as int,
        );
    }
    let product: u128 = (plot.amount as u128) * (crop.rewards_per_share as u128);
    let earned: u128 = product / (ONE_REWARD as u128);
    if earned < plot.debt as u128 {
        return Err(FarmError::NumericalOverflowError);
    }
    let claimable: u128 = earned - (plot.debt as u128);
    if claimable > u64::MAX as u128 {
        Err(FarmError::NumericalOverflowError)
    } else {
        Ok(claimable as u64)
    }
}

/// The time up to which reward can accrue when the clock reads `now`:
/// `now` clamped to the pool's end time.
pub open spec fn effective_timestamp(crop: Crop, now: u64) -> u64 {
    if now <= crop.end_timestamp {
        now
    } else {
        crop.end_timestamp
    }
}

/// The seconds of emission an accumulator update at `now` covers. Zero when
/// the emission window was already exhausted at the previous update.
pub open spec fn elapsed_seconds(crop: Crop, now: u64) -> u64 {
    if effective_timestamp(crop, now) > crop.previous_reward_timestamp {
        (effective_timestamp(crop, now) - crop.previous_reward_timestamp) as u64
    } else {
        0u64
    }
}

/// The pool record after an accumulator update at `now`: a no-op if
/// the clock has not advanced past the previous update; otherwise the
/// accumulator grows by the elapsed emission shared over the deposited
/// principal -- or by nothing when the pool is empty -- and the update time
/// moves forward to the clamped clock, never backwards.
pub open spec fn crop_after_update(crop: Crop, now: u64) -> Crop {
    if now <= crop.previous_reward_timestamp {
        crop
    } else {
        let grown = if crop.total_deposited > 0 {
            crop.rewards_per_share + spec_additional_rewards(
                elapsed_seconds(crop, now) as int,
                crop.reward_rate as int,
                crop.total_deposited as int,
            )
        } else {
            crop.rewards_per_share as int
        };
        let advanced = if effective_timestamp(crop, now) > crop.previous_reward_timestamp {
            effective_timestamp(crop, now)
        } else {
            crop.previous_reward_timestamp
        };
        Crop { rewards_per_share: grown as u64, previous_reward_timestamp: advanced, ..crop }
    }
}

/// Exactly when `update_crop` at `now` succeeds: nothing to do, an empty
/// pool, or the accumulator growth representable at every step.
pub open spec fn update_fits(crop: Crop, now: u64) -> bool {
    ||| now <= crop.previous_reward_timestamp
    ||| crop.total_deposited == 0
    ||| {
        &&& additional_rewards_fits(elapsed_seconds(crop, now), crop.reward_rate, crop.total_deposited)
        &&& crop.rewards_per_share + spec_additional_rewards(
            elapsed_seconds(crop, now) as int,
            crop.reward_rate as int,
            crop.total_deposited as int,
        ) <= u64::MAX
    }
}

/// Advance the pool's accumulator to the clock reading `now`. On any
/// failure the record is left exactly as it was; on success it becomes
/// `crop_after_update`. The accumulator and the update time never decrease.
pub fn update_crop(crop: &mut Crop, current_timestamp: u64) -> (r: Result<(), FarmError>)
    ensures
        r is Ok <==> update_fits(*old(crop), current_timestamp),
        r is Ok ==> *final(crop) == crop_after_update(*old(crop), current_timestamp),
        r is Err ==> *final(crop) == *old(crop) && r == Err::<(), FarmError>(
            FarmError::NumericalOverflowError,
        ),
        final(crop).rewards_per_share >= old(crop).rewards_per_share,
        final(crop).previous_reward_timestamp >= old(crop).previous_reward_timestamp,
{
    if current_timestamp > crop.previous_reward_timestamp {
        // How many seconds have passed since the last reward update, but
        // never past the configured end timestamp.
        let current_reward_timestamp: u64 = if current_timestamp < crop.end_timestamp {
            current_timestamp
        } else {
            crop.end_timestamp
        };
        if current_reward_timestamp > crop.previous_reward_timestamp {
            let time_elapsed: u64 = current_reward_timestamp - crop.previous_reward_timestamp;
            // Only distribute rewards while some principal is deposited.
            if crop.total_deposited > 0 {
                let additional: u64 = match calculate_additional_rewards(
                    time_elapsed,
                    crop.reward_rate,
                    crop.total_deposited,
                ) {
                    Ok(x) => x,
                    Err(e) => {
                        return Err(e);
                    },
                };
                let grown: u64 = match crop.rewards_per_share.checked_add(additional) {
                    Some(x) => x,
                    None => {
                        return Err(FarmError::NumericalOverflowError);
                    },
                };
                crop.rewards_per_share = grown;
            }
            crop.previous_reward_timestamp = current_reward_timestamp;
        } else {
            // The emission window was exhausted before this call: nothing
            // accrues and the update time stays where it froze.
            proof {
                if crop.total_deposited > 0 {
                    vstd::arithmetic::div_mod::lemma_div_of0(crop.total_deposited as int);
                }
            }
        }
    }
    Ok(())
}

/// A positive amount was required (deposits refuse zero).
pub fn assert_non_zero(amount: u64) -> (r: Result<(), FarmError>)
    ensures
        amount != 0 ==> r == Ok::<(), FarmError>(()),
        amount == 0 ==> r == Err::<(), FarmError>(FarmError::AmountIsZero),
{
    if amount == 0 {
        return Err(FarmError::AmountIsZero);
    }
    Ok(())
}

/// The externally-read source balance covers the requested amount. The
/// ledger itself is outside the engine; the caller reads the balance and
/// hands it in as a plain value.
pub fn assert_sufficient_funds(source_balance: u64, amount: u64) -> (r: Result<(), FarmError>)
    ensures
        source_balance >= amount ==> r == Ok::<(), FarmError>(()),
        source_balance < amount ==> r == Err::<(), FarmError>(FarmError::InsufficientFunds),
{
    if source_balance < amount {
        return Err(FarmError::InsufficientFunds);
    }
    Ok(())
}

/// A withdrawal may not exceed the position's principal.
pub fn assert_enough_to_uproot(plot: &Plot, amount: u64) -> (r: Result<(), FarmError>)
    ensures
        plot.amount >= amount ==> r == Ok::<(), FarmError>(()),
        plot.amount < amount ==> r == Err::<(), FarmError>(FarmError::AmountIsTooLarge),
{
    if plot.amount < amount {
        return Err(FarmError::AmountIsTooLarge);
    }
    Ok(())
}

/// A fee rate is representable: at most `MAX_FEE`, i.e. 100%.
pub fn assert_valid_fee(proposed_fee: u64) -> (r: Result<(), FarmError>)
    ensures
        proposed_fee <= MAX_FEE ==> r == Ok::<(), FarmError>(()),
        proposed_fee > MAX_FEE ==> r == Err::<(), FarmError>(FarmError::InvalidFee),
{
    if proposed_fee > MAX_FEE {
        return Err(FarmError::InvalidFee);
    }
    Ok(())
}

} // verus!
