use farm_rewards::error::{FarmError, InstructionError};
use farm_rewards::processor::{decode_instruction, InstructionKind};

#[test]
fn instruction_tags() {
    assert_eq!(decode_instruction(&[0]), Ok(InstructionKind::InitFarm));
    assert_eq!(decode_instruction(&[1, 9]), Ok(InstructionKind::InitStaker));
    assert_eq!(decode_instruction(&[2]), Ok(InstructionKind::Stake));
    assert_eq!(decode_instruction(&[3, 1, 2]), Ok(InstructionKind::Unstake));
    assert_eq!(decode_instruction(&[4]), Ok(InstructionKind::ClaimReward));
    assert_eq!(decode_instruction(&[5]), Ok(InstructionKind::AddReward));
    assert_eq!(decode_instruction(&[6]), Err(InstructionError::InvalidInstructionData));
    assert_eq!(decode_instruction(&[]), Err(InstructionError::InvalidInstructionData));
}

#[test]
fn farm_error_codes() {
    let all = [
        FarmError::MaxRewardsReached,
        FarmError::InvalidEndTs,
        FarmError::IntegerOverflow,
        FarmError::InvalidAmount,
        FarmError::RewardNotFound,
        FarmError::NothingToClaim,
        FarmError::InsufficientStake,
    ];
    for (i, e) in all.iter().enumerate() {
        assert_eq!(e.code(), i as u32);
        assert_eq!(InstructionError::from(*e), InstructionError::Custom(i as u32));
        for (j, f) in all.iter().enumerate() {
            assert_eq!(e.code() == f.code(), i == j);
        }
    }
}

#[test]
fn farm_error_messages() {
    assert_eq!(FarmError::MaxRewardsReached.message(), "Maximum number of reward tokens reached.");
    assert_eq!(FarmError::InvalidEndTs.message(), "Invalid end timestamp.");
    assert_eq!(FarmError::IntegerOverflow.message(), "Integer overflow");
    assert_eq!(FarmError::InvalidAmount.message(), "Amount must be greater than zero.");
    assert_eq!(FarmError::RewardNotFound.message(), "Reward mint not found in farm.");
    assert_eq!(FarmError::NothingToClaim.message(), "No rewards available to claim for this token.");
    assert_eq!(FarmError::InsufficientStake.message(), "Insufficient staked amount to unstake.");
}
