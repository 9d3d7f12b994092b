use vstd::prelude::*;
use pinocchio::pubkey::Pubkey;

use crate::account::AccountSnapshot;
use crate::seeds::{
    AddressSeeds, STAKER_AUTHORITY_SEED, STAKER_SEED, check_derived_key, derived_key_check,
    find_program_address, program_address, seed_list, staker_address_seeds, staker_authority_seeds,
};
use crate::constants::MAX_REWARDS_TOKENS;
use crate::error::InstructionError;
use crate::keys::{ID, lemma_key_view_eq, pubkey_eq};
use crate::layout::{farm_stake_mint_bytes, is_farm_data};
use crate::state::{Farm, Staker};

verus! {

/// The keys of the accounts that opening a staker names, in their order.
#[derive(Clone, Copy, Debug, PartialEq, Eq)]
pub struct InitStakerAccounts {
    pub payer: Pubkey,
    pub user: Pubkey,
    pub farm: Pubkey,
    pub staker: Pubkey,
    pub staker_authority: Pubkey,
    pub stake_mint: Pubkey,
    pub staker_stake_token_account: Pubkey,
    pub stake_token_program: Pubkey,
    pub associated_token_program: Pubkey,
    pub system_program: Pubkey,
}

/// Opening a user's position in a farm.
#[derive(Clone, Copy, Debug, PartialEq, Eq)]
pub struct InitStaker {
    pub accounts: InitStakerAccounts,
}

impl InitStaker {
    /// The new staker's state at `current_ts`: the user and farm, nothing staked
    /// or owed, every claim time and the stake time `current_ts`, and the bumps.
    pub fn execute(&self, current_ts: u64, staker_bump: u8, authority_bump: u8) -> (r: Staker)
        ensures
            r.user == self.accounts.user,
            r.farm == self.accounts.farm,
            r.stake_amount == 0,
            forall|i: int|
                0 <= i < MAX_REWARDS_TOKENS ==> r.rewards_tally_scaled[i] == 0
                    && r.rewards_issued_unclaimed[i] == 0 && r.last_claim_ts[i] == current_ts,
            r.last_stake_ts == current_ts,
            r.bump == staker_bump,
            r.authority_bump == authority_bump,
    {
        Staker::new(
            self.accounts.user,
            self.accounts.farm,
            current_ts,
            staker_bump,
            authority_bump,
        )
    }
}

/// The outcome of checking the accounts of a staker's creation, up to the
/// derived address: ten accounts; the user signed; the farm belongs to this
/// program, is a farm, and stakes the stake mint.
pub open spec fn init_staker_accounts_result(a: Seq<AccountSnapshot>) -> Result<
    InitStakerAccounts,
    InstructionError,
> {
    if a.len() != 10 {
        Err(InstructionError::NotEnoughAccountKeys)
    } else if !a[1].is_signer {
        Err(InstructionError::MissingRequiredSignature)
    } else if a[2].owner != ID {
        Err(InstructionError::IllegalOwner)
    } else if !is_farm_data(a[2].data@, a[2].data_address) {
        Err(InstructionError::InvalidAccountData)
    } else if farm_stake_mint_bytes(a[2].data@) != a[5].key@ {
        Err(InstructionError::InvalidAccountData)
    } else {
        Ok(
            InitStakerAccounts {
                payer: a[0].key,
                user: a[1].key,
                farm: a[2].key,
                staker: a[3].key,
                staker_authority: a[4].key,
                stake_mint: a[5].key,
                staker_stake_token_account: a[6].key,
                stake_token_program: a[7].key,
                associated_token_program: a[8].key,
                system_program: a[9].key,
            },
        )
    }
}

impl InitStakerAccounts {
    /// Checks the accounts of a staker's creation, all but the derived address,
    /// and takes their keys.
    pub fn try_from(accounts: &Vec<AccountSnapshot>) -> (r: Result<
        InitStakerAccounts,
        InstructionError,
    >)
        ensures
            r == init_staker_accounts_result(accounts@),
    {
        if accounts.len() != 10 {
            return Err(InstructionError::NotEnoughAccountKeys);
        }
        let user = &accounts[1];
        let farm = &accounts[2];
        let stake_mint = &accounts[5];
        if !user.is_signer {
            return Err(InstructionError::MissingRequiredSignature);
        }
        if !pubkey_eq(&farm.owner, &ID) {
            return Err(InstructionError::IllegalOwner);
        }
        let farm_state = match Farm::try_from_account_data(farm.data.as_slice(), farm.data_address) {
            Ok(f) => f,
            Err(e) => {
                return Err(e);
            },
        };
        proof {
            lemma_key_view_eq(farm_state.stake_info.mint, stake_mint.key);
        }
        if !pubkey_eq(&farm_state.stake_info.mint, &stake_mint.key) {
            return Err(InstructionError::InvalidAccountData);
        }
        Ok(
            InitStakerAccounts {
                payer: accounts[0].key,
                user: user.key,
                farm: farm.key,
                staker: accounts[3].key,
                staker_authority: accounts[4].key,
                stake_mint: stake_mint.key,
                staker_stake_token_account: accounts[6].key,
                stake_token_program: accounts[7].key,
                associated_token_program: accounts[8].key,
                system_program: accounts[9].key,
            },
        )
    }

    /// Checks the derived address: the staker's authority.
    pub fn check_addresses(&self, expected_staker_authority: &Pubkey) -> (r: Result<
        (),
        InstructionError,
    >)
        ensures
            r == (if self.staker_authority != *expected_staker_authority {
                Err(InstructionError::InvalidArgument)
            } else {
                Ok(())
            }),
    {
        if !pubkey_eq(&self.staker_authority, expected_staker_authority) {
            return Err(InstructionError::InvalidArgument);
        }
        Ok(())
    }
}

impl InitStaker {
    /// Opening a staker takes no arguments.
    pub fn try_from(accounts: InitStakerAccounts) -> (r: InitStaker)
        ensures
            r.accounts == accounts,
    {
        InitStaker { accounts }
    }
}


impl InitStakerAccounts {
    /// The inputs of the derived address that `check_addresses` takes: the
    /// staker's authority.
    pub fn address_seeds(&self) -> (r: AddressSeeds)
        ensures
            seed_list(&r.seeds) == seq![STAKER_AUTHORITY_SEED@, self.staker@],
            r.program_id == ID,
    {
        staker_authority_seeds(&self.staker)
    }

    /// Derives the staker authority's address and checks the account given for
    /// it.
    pub fn check_derived_addresses(&self) -> (r: Result<(), InstructionError>)
        ensures
            derived_key_check(
                seq![STAKER_AUTHORITY_SEED@, self.staker@],
                ID@,
                self.staker_authority@,
                r,
            ),
    {
        check_derived_key(&self.address_seeds(), &self.staker_authority)
    }
}

impl InitStaker {
    /// The inputs of the staker's own address: the staker seed, the farm and
    /// the user.
    pub fn staker_address_seeds(&self) -> (r: AddressSeeds)
        ensures
            seed_list(&r.seeds) == seq![STAKER_SEED@, self.accounts.farm@, self.accounts.user@],
            r.program_id == ID,
    {
        staker_address_seeds(&self.accounts.farm, &self.accounts.user)
    }

    /// The seeds with which the staker's address signs its creation.
    pub fn signer_seeds(&self, staker_bump: u8) -> (r: Vec<Vec<u8>>)
        ensures
            seed_list(&r) == seq![
                STAKER_SEED@,
                self.accounts.farm@,
                self.accounts.user@,
                seq![staker_bump],
            ],
    {
        staker_address_seeds(&self.accounts.farm, &self.accounts.user).with_bump(staker_bump)
    }

    /// The bump seeds of the staker's address and of its authority's address,
    /// as the runtime finds them; `InvalidSeeds` where it finds none.
    pub fn derive_bumps(&self) -> (r: Result<(u8, u8), InstructionError>)
        ensures
            r matches Ok((staker_bump, authority_bump)) ==> {
                &&& program_address(
                    seq![STAKER_SEED@, self.accounts.farm@, self.accounts.user@],
                    ID@,
                ) matches Some((staker, bump))
                &&& bump == staker_bump
                &&& program_address(seq![STAKER_AUTHORITY_SEED@, staker], ID@) matches Some(
                    (_authority, abump),
                )
                &&& abump == authority_bump
            },
            r is Err ==> r == Err::<(u8, u8), InstructionError>(InstructionError::InvalidSeeds),
    {
        let (staker, staker_bump) = match find_program_address(&self.staker_address_seeds()) {
            Ok(found) => found,
            Err(e) => {
                return Err(e);
            },
        };
        let authority = staker_authority_seeds(&staker);
        let (_authority, authority_bump) = match find_program_address(&authority) {
            Ok(found) => found,
            Err(e) => {
                return Err(e);
            },
        };
        Ok((staker_bump, authority_bump))
    }
}

} // verus!
