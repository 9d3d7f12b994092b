use vstd::prelude::*;

verus! {

/// Errors raised by the farm's own rules.
#[derive(Clone, Copy, Debug, PartialEq, Eq, Structural)]
pub enum FarmError {
    MaxRewardsReached,
    InvalidEndTs,
    IntegerOverflow,
    InvalidAmount,
    RewardNotFound,
    NothingToClaim,
    InsufficientStake,
}

impl FarmError {
    /// The custom error code under which the runtime reports this error.
    pub open spec fn spec_code(self) -> u32 {
        match self {
            FarmError::MaxRewardsReached => 0,
            FarmError::InvalidEndTs => 1,
            FarmError::IntegerOverflow => 2,
            FarmError::InvalidAmount => 3,
            FarmError::RewardNotFound => 4,
            FarmError::NothingToClaim => 5,
            FarmError::InsufficientStake => 6,
        }
    }

    pub fn code(&self) -> (r: u32)
        ensures
            r == self.spec_code(),
    {
        match self {
            FarmError::MaxRewardsReached => 0,
            FarmError::InvalidEndTs => 1,
            FarmError::IntegerOverflow => 2,
            FarmError::InvalidAmount => 3,
            FarmError::RewardNotFound => 4,
            FarmError::NothingToClaim => 5,
            FarmError::InsufficientStake => 6,
        }
    }

    /// The human-readable description of the error.
    pub fn message(&self) -> (r: &'static str)
        ensures
            r@ == match self {
                FarmError::MaxRewardsReached => "Maximum number of reward tokens reached."@,
                FarmError::InvalidEndTs => "Invalid end timestamp."@,
                FarmError::IntegerOverflow => "Integer overflow"@,
                FarmError::InvalidAmount => "Amount must be greater than zero."@,
                FarmError::RewardNotFound => "Reward mint not found in farm."@,
                FarmError::NothingToClaim => "No rewards available to claim for this token."@,
                FarmError::InsufficientStake => "Insufficient staked amount to unstake."@,
            },
    {
        match self {
            FarmError::MaxRewardsReached => "Maximum number of reward tokens reached.",
            FarmError::InvalidEndTs => "Invalid end timestamp.",
            FarmError::IntegerOverflow => "Integer overflow",
            FarmError::InvalidAmount => "Amount must be greater than zero.",
            FarmError::RewardNotFound => "Reward mint not found in farm.",
            FarmError::NothingToClaim => "No rewards available to claim for this token.",
            FarmError::InsufficientStake => "Insufficient staked amount to unstake.",
        }
    }
}

/// The ways in which an instruction is refused: the runtime's generic account
/// and data errors, and the farm's own errors under their custom codes.
#[derive(Clone, Copy, Debug, PartialEq, Eq, Structural)]
pub enum InstructionError {
    NotEnoughAccountKeys,
    MissingRequiredSignature,
    IllegalOwner,
    InvalidArgument,
    InvalidAccountData,
    InvalidInstructionData,
    InvalidSeeds,
    Custom(u32),
}

impl From<FarmError> for InstructionError {
    fn from(e: FarmError) -> (r: InstructionError) {
        InstructionError::Custom(e.code())
    }
}

impl vstd::std_specs::convert::FromSpecImpl<FarmError> for InstructionError {
    open spec fn obeys_from_spec() -> bool {
        true
    }

    open spec fn from_spec(e: FarmError) -> InstructionError {
        InstructionError::Custom(e.spec_code())
    }
}

} // verus!
