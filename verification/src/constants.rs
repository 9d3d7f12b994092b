use vstd::prelude::*;

verus! {

/// Number of reward slots that a farm holds.
pub const MAX_REWARDS_TOKENS: usize = 5;

/// Fixed-point scale of `rewards_per_share_scaled`.
pub const REWARD_PRECISION: u128 = 1_000_000_000_000;

} // verus!
