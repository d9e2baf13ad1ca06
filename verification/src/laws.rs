//! The global guarantees of the engine, stated and proved over the spec
//! functions the operations' contracts use.

use vstd::prelude::*;

use vstd::arithmetic::div_mod::{
    lemma_div_is_ordered, lemma_div_multiples_vanish, lemma_div_of0, lemma_div_pos_is_pos,
};
use vstd::arithmetic::mul::{lemma_mul_inequality, lemma_mul_nonnegative};

use crate::ops::{
    crop_after_sow, crop_after_uproot, plot_after_sow, plot_after_uproot, sow_fits, sow_net,
    uproot_fits, uproot_rewards,
};
use crate::state::{Crop, Plot};
use crate::utils::{
    crop_after_update, effective_timestamp, lemma_fee_le_amount, spec_fee, spec_plot_rewards,
    ONE_REWARD,
};

verus! {

/// A settled position can always claim a non-negative reward: whenever its
/// debt is covered by its share of the accumulator, its claimable reward
/// is at least zero.
pub proof fn lemma_claimable_nonneg(plot: Plot, rewards_per_share: u64)
    requires
        plot.settled_against(rewards_per_share),
    ensures
        crate::utils::spec_plot_rewards(
            rewards_per_share as int,
            plot.amount as int,
            plot.debt as int,
        ) >= 0,
{
    let scale = crate::utils::ONE_REWARD as int;
    lemma_div_multiples_vanish(plot.debt as int, scale);
    assert(plot.debt as int * scale == scale * plot.debt as int) by (nonlinear_arith);
    lemma_div_is_ordered(
        plot.debt as int * scale,
        plot.amount as int * rewards_per_share as int,
        scale,
    );
}

/// Being settled survives any growth of the accumulator: a debt covered at
/// one accumulator value is covered at every later one.
pub proof fn lemma_settled_monotone(plot: Plot, rps_before: u64, rps_after: u64)
    requires
        plot.settled_against(rps_before),
        rps_before <= rps_after,
    ensures
        plot.settled_against(rps_after),
{
    lemma_mul_inequality(rps_before as int, rps_after as int, plot.amount as int);
    assert(plot.amount as int * rps_before as int == rps_before as int * plot.amount as int)
        by (nonlinear_arith);
    assert(plot.amount as int * rps_after as int == rps_after as int * plot.amount as int)
        by (nonlinear_arith);
}

/// The combined principal of a set of positions.
pub open spec fn sum_amounts(plots: Seq<Plot>) -> int
    decreases plots.len(),
{
    if plots.len() == 0 {
        0
    } else {
        sum_amounts(plots.drop_last()) + plots.last().amount
    }
}

/// Replacing one position changes the summed principal by exactly the
/// difference between the new and the old position.
pub proof fn lemma_sum_amounts_update(plots: Seq<Plot>, i: int, p: Plot)
    requires
        0 <= i < plots.len(),
    ensures
        sum_amounts(plots.update(i, p)) == sum_amounts(plots) - plots[i].amount + p.amount,
    decreases plots.len(),
{
    let updated = plots.update(i, p);
    if i == plots.len() - 1 {
        assert(updated.drop_last() =~= plots.drop_last());
    } else {
        assert(updated.drop_last() =~= plots.drop_last().update(i, p));
        lemma_sum_amounts_update(plots.drop_last(), i, p);
    }
}

/// The pool invariant survives a deposit: when `total_deposited`
/// equals the summed principal of the pool's positions, it still does
/// after position `i` takes a deposit of `amount`.
pub proof fn lemma_sow_preserves_total(crop: Crop, plots: Seq<Plot>, i: int, amount: u64, now: u64)
    requires
        crop.fees_valid(),
        0 <= i < plots.len(),
        sow_fits(crop, plots[i], amount, now),
        crop.total_deposited == sum_amounts(plots),
    ensures
        crop_after_sow(crop, amount, now).total_deposited == sum_amounts(
            plots.update(i, plot_after_sow(crop, plots[i], amount, now)),
        ),
{
    lemma_fee_le_amount(crop.deposit_fee, amount);
    lemma_sum_amounts_update(plots, i, plot_after_sow(crop, plots[i], amount, now));
}

/// The pool invariant survives a withdrawal: when `total_deposited`
/// equals the summed principal of the pool's positions, it still does
/// after position `i` withdraws `amount`.
pub proof fn lemma_uproot_preserves_total(
    crop: Crop,
    plots: Seq<Plot>,
    i: int,
    amount: u64,
    now: u64,
)
    requires
        0 <= i < plots.len(),
        amount <= plots[i].amount,
        plots[i].amount <= crop.total_deposited,
        uproot_fits(crop, plots[i], amount, now),
        crop.total_deposited == sum_amounts(plots),
    ensures
        crop_after_uproot(crop, amount, now).total_deposited == sum_amounts(
            plots.update(i, plot_after_uproot(crop, plots[i], amount, now)),
        ),
{
    lemma_sum_amounts_update(plots, i, plot_after_uproot(crop, plots[i], amount, now));
}

/// Updating the accumulator is idempotent in the clock reading: a second
/// update with the same timestamp changes nothing, whatever the first one
/// did.
pub proof fn lemma_update_crop_idempotent(crop: Crop, now: u64)
    ensures
        crop_after_update(crop_after_update(crop, now), now) == crop_after_update(crop, now),
{
    let c1 = crop_after_update(crop, now);
    if now > crop.previous_reward_timestamp && now > c1.previous_reward_timestamp {
        // The second pass can only see an exhausted emission window, so it
        // accrues nothing and moves no timestamp.
        if c1.total_deposited > 0 {
            lemma_div_of0(c1.total_deposited as int);
        }
    }
}

/// A deposit into an empty pool accrues nothing for the time before it:
/// the accumulator is unchanged, the update time still advances to the
/// clamped clock, and the depositor can claim exactly nothing at the
/// moment of the deposit.
pub proof fn lemma_sow_into_empty_pool(crop: Crop, plot: Plot, amount: u64, now: u64)
    requires
        crop.fees_valid(),
        crop.total_deposited == 0,
        plot.amount == 0,
        plot.debt == 0,
        sow_fits(crop, plot, amount, now),
    ensures
        crop_after_sow(crop, amount, now).rewards_per_share == crop.rewards_per_share,
        crop_after_sow(crop, amount, now).previous_reward_timestamp == (
        if effective_timestamp(crop, now) > crop.previous_reward_timestamp {
            effective_timestamp(crop, now)
        } else {
            crop.previous_reward_timestamp
        }),
        spec_plot_rewards(
            crop_after_sow(crop, amount, now).rewards_per_share as int,
            plot_after_sow(crop, plot, amount, now).amount as int,
            plot_after_sow(crop, plot, amount, now).debt as int,
        ) == 0,
{
    let c1 = crop_after_update(crop, now);
    let net = sow_net(crop, amount);
    lemma_fee_le_amount(crop.deposit_fee, amount);
    lemma_mul_nonnegative(net, c1.rewards_per_share as int);
    lemma_div_pos_is_pos(net * c1.rewards_per_share as int, ONE_REWARD as int);
}

/// Depositing and immediately withdrawing everything again -- with no time
/// passing and a zero reward rate -- pays no reward, empties the position,
/// and returns the pool's principal to where it started; the participant's
/// proceeds are the deposit net of both fees, each computed on its own leg.
pub proof fn lemma_immediate_roundtrip(crop: Crop, plot: Plot, amount: u64, now: u64)
    requires
        crop.fees_valid(),
        plot.amount == 0,
        plot.debt == 0,
        amount != 0,
        crop.reward_rate == 0,
        now <= crop.previous_reward_timestamp,
        sow_fits(crop, plot, amount, now),
        crop.fees + spec_fee(crop.deposit_fee as int, amount as int) + spec_fee(
            crop.withdraw_fee as int,
            sow_net(crop, amount),
        ) <= u64::MAX,
    ensures
        ({
            let leg1_crop = crop_after_sow(crop, amount, now);
            let leg1_plot = plot_after_sow(crop, plot, amount, now);
            let net = leg1_plot.amount;
            &&& net == amount - spec_fee(crop.deposit_fee as int, amount as int)
            &&& uproot_fits(leg1_crop, leg1_plot, net, now)
            &&& uproot_rewards(leg1_crop, leg1_plot, now) == 0
            &&& plot_after_uproot(leg1_crop, leg1_plot, net, now) == (Plot {
                amount: 0,
                debt: 0,
                bump: plot.bump,
            })
            &&& crop_after_uproot(leg1_crop, net, now).total_deposited == crop.total_deposited
            &&& crop_after_uproot(leg1_crop, net, now).rewards_per_share
                == crop.rewards_per_share
        }),
{
    let net = sow_net(crop, amount);
    lemma_fee_le_amount(crop.deposit_fee, amount);
    lemma_fee_le_amount(crop.withdraw_fee, net as u64);
    lemma_mul_nonnegative(net, crop.rewards_per_share as int);
    lemma_div_pos_is_pos(net * crop.rewards_per_share as int, ONE_REWARD as int);
    lemma_div_of0(ONE_REWARD as int);
}

} // verus!
