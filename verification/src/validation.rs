use vstd::prelude::*;

use crate::error::InstructionError;

verus! {

/// Checks that an account's data has the length `size` of the type stored in
/// it and starts at an address that is a multiple of the type's alignment `align`.
pub fn program_account_data_check(data_len: usize, data_address: usize, size: usize, align: usize) -> (r:
    Result<(), InstructionError>)
    requires
        align > 0,
    ensures
        r is Ok <==> (data_len == size && data_address % align == 0),
        r is Err ==> r == Err::<(), InstructionError>(InstructionError::InvalidAccountData),
{
    if data_len != size {
        return Err(InstructionError::InvalidAccountData);
    }
    if data_address % align != 0 {
        return Err(InstructionError::InvalidAccountData);
    }
    Ok(())
}

} // verus!
