use vstd::prelude::*;
use pinocchio::pubkey::Pubkey;

verus! {

/// What the program reads of an account: its address, its owner, whether it
/// signed, its data, and the address at which its data starts.
#[derive(Debug)]
pub struct AccountSnapshot {
    pub key: Pubkey,
    pub owner: Pubkey,
    pub is_signer: bool,
    pub data: Vec<u8>,
    pub data_address: usize,
}

/// The accounts and the data that an instruction comes with.
#[derive(Debug)]
pub struct Context {
    pub accounts: Vec<AccountSnapshot>,
    pub instruction_data: Vec<u8>,
}

impl From<(Vec<AccountSnapshot>, Vec<u8>)> for Context {
    fn from(value: (Vec<AccountSnapshot>, Vec<u8>)) -> (r: Context) {
        Context { accounts: value.0, instruction_data: value.1 }
    }
}

impl vstd::std_specs::convert::FromSpecImpl<(Vec<AccountSnapshot>, Vec<u8>)> for Context {
    open spec fn obeys_from_spec() -> bool {
        true
    }

    open spec fn from_spec(value: (Vec<AccountSnapshot>, Vec<u8>)) -> Context {
        Context { accounts: value.0, instruction_data: value.1 }
    }
}

} // verus!
