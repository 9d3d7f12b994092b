use vstd::prelude::*;

use crate::error::InstructionError;

verus! {

/// The instructions of the program, by their one-byte tag.
#[derive(Clone, Copy, Debug, PartialEq, Eq, Structural)]
pub enum InstructionKind {
    InitFarm,
    InitStaker,
    Stake,
    Unstake,
    ClaimReward,
    AddReward,
}

/// The instruction that a tag names.
pub open spec fn instruction_of_tag(tag: u8) -> Option<InstructionKind> {
    if tag == 0 {
        Some(InstructionKind::InitFarm)
    } else if tag == 1 {
        Some(InstructionKind::InitStaker)
    } else if tag == 2 {
        Some(InstructionKind::Stake)
    } else if tag == 3 {
        Some(InstructionKind::Unstake)
    } else if tag == 4 {
        Some(InstructionKind::ClaimReward)
    } else if tag == 5 {
        Some(InstructionKind::AddReward)
    } else {
        None
    }
}

/// Reads the instruction from the first byte of the instruction data; the
/// bytes after it are the instruction's arguments.
pub fn decode_instruction(instruction_data: &[u8]) -> (r: Result<InstructionKind, InstructionError>)
    ensures
        instruction_data@.len() == 0 ==> r == Err::<InstructionKind, InstructionError>(
            InstructionError::InvalidInstructionData,
        ),
        instruction_data@.len() > 0 ==> r == match instruction_of_tag(instruction_data@[0]) {
            Some(k) => Ok::<InstructionKind, InstructionError>(k),
            None => Err(InstructionError::InvalidInstructionData),
        },
{
    if instruction_data.len() == 0 {
        return Err(InstructionError::InvalidInstructionData);
    }
    match instruction_data[0] {
        0 => Ok(InstructionKind::InitFarm),
        1 => Ok(InstructionKind::InitStaker),
        2 => Ok(InstructionKind::Stake),
        3 => Ok(InstructionKind::Unstake),
        4 => Ok(InstructionKind::ClaimReward),
        5 => Ok(InstructionKind::AddReward),
        _ => Err(InstructionError::InvalidInstructionData),
    }
}

} // verus!
