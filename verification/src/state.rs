//! The three record types of the engine and their validity conditions.

use vstd::prelude::*;

use crate::utils::{MAX_FEE, ONE_REWARD};

verus! {

/// One per farming deployment authority. Owns the sequence of pool
/// identifiers and the derivation tag for the reward-treasury authority.
#[derive(Clone, Copy, Debug, PartialEq, Eq, Structural)]
pub struct Manager {
    /// Identity of the controlling authority.
    pub owner: u64,
    /// Monotonically increasing counter of pools created so far; each new
    /// pool takes the current value as its `id`.
    pub crops: u64,
    /// Opaque derivation tag for the reward-treasury signing authority.
    pub rewarder_bump: u8,
}

impl Manager {
    /// Bytes of storage a serialized `Manager` record occupies.
    pub fn space() -> (r: usize)
        ensures
            r == 41,
    {
        1 * 8 + 1 * 32 + 1
    }
}

/// One per reward-bearing pool. Holds the pool's configuration and its
/// accounting state; the asset and treasury fields are opaque identifiers
/// the engine never interprets.
#[derive(Clone, Copy, Debug, PartialEq, Eq, Structural)]
pub struct Crop {
    /// The owning `Manager`'s identity.
    pub manager: u64,
    /// Treasury location holding the reward asset.
    pub reward_treasury: u64,
    /// Identifier of the reward asset.
    pub reward_mint: u64,
    /// Treasury location holding the deposited asset.
    pub deposit_treasury: u64,
    /// Identifier of the deposited asset.
    pub deposit_mint: u64,
    /// Emission stops after this time (seconds).
    pub end_timestamp: u64,
    /// Fee taken from each deposit, in parts per billion.
    pub deposit_fee: u64,
    /// Fee taken from each withdrawal, in parts per billion.
    pub withdraw_fee: u64,
    /// Sum of all live positions' principal in this pool.
    pub total_deposited: u64,
    /// Fees withheld so far and not yet collected by the authority.
    pub fees: u64,
    /// Cumulative reward per deposited unit, scaled by `ONE_REWARD`.
    /// Never decreases.
    pub rewards_per_share: u64,
    /// Reward units emitted per second, scaled.
    pub reward_rate: u64,
    /// Last time the accumulator was advanced, clamped to `end_timestamp`.
    pub previous_reward_timestamp: u64,
    /// Administrative halt flag; stored but not consulted by any operation
    /// in scope.
    pub paused: bool,
    /// Opaque derivation tag for the pool's own address.
    pub bump: u8,
    /// Sequential index assigned from the manager's `crops` counter.
    pub id: u64,
}

impl Crop {
    /// Bytes of storage a serialized `Crop` record occupies.
    pub fn space() -> (r: usize)
        ensures
            r == 234,
    {
        5 * 32 + 9 * 8 + 2 * 1
    }

    /// Both fee rates are at most 100%. Established at creation and kept by
    /// reconfiguration; deposits and withdrawals rely on it so that a fee
    /// never exceeds the amount it is taken from.
    pub open spec fn fees_valid(self) -> bool {
        &&& self.deposit_fee <= MAX_FEE
        &&& self.withdraw_fee <= MAX_FEE
    }
}

/// One per (pool, participant) pair: a participant's stake in one pool.
#[derive(Clone, Copy, Debug, PartialEq, Eq, Structural)]
pub struct Plot {
    /// Principal currently deposited by this participant in this pool.
    pub amount: u64,
    /// Reward already accounted for, in the same scale as
    /// `amount * rewards_per_share / ONE_REWARD`. Subtracting it from that
    /// product gives the reward still claimable.
    pub debt: u64,
    /// Opaque derivation tag for the position's address.
    pub bump: u8,
}

impl Plot {
    /// Bytes of storage a serialized `Plot` record occupies.
    pub fn space() -> (r: usize)
        ensures
            r == 17,
    {
        2 * 8 + 1
    }

    /// The position's debt does not exceed its share of the accumulator:
    /// exactly the condition under which its claimable reward is
    /// non-negative. Positions start this way and every operation keeps it,
    /// provided the accumulator it is measured against never decreases.
    pub open spec fn settled_against(self, rewards_per_share: u64) -> bool {
        self.debt * ONE_REWARD <= self.amount * rewards_per_share
    }
}

} // verus!
