use vstd::prelude::*;
use pinocchio::pubkey::Pubkey;

use crate::account::AccountSnapshot;
use crate::seeds::{
    AddressSeeds, FARM_AUTHORITY_SEED, FARM_SEED, check_derived_key, derived_key_check,
    farm_address_seeds, farm_authority_seeds, find_program_address, program_address, seed_list,
};
use crate::constants::MAX_REWARDS_TOKENS;
use crate::error::InstructionError;
use crate::keys::{ID, MINT_ACCOUNT_LEN, TOKEN_PROGRAM_ID, VAULT_PROGRAM_ID, lemma_key_view_eq, mint_account_len, pubkey_eq, token_program_id};
use crate::vault::{Vault, VAULT_ACCOUNT_LEN, vault_lists_authority, vault_lp_mint_bytes};
use crate::state::{Farm, StakeInfo, is_empty_reward_info};

verus! {

/// The keys of the accounts that creating a farm names, in their order.
#[derive(Clone, Copy, Debug, PartialEq, Eq)]
pub struct InitFarmAccounts {
    pub payer: Pubkey,
    pub manager: Pubkey,
    pub voltr_vault: Pubkey,
    pub farm: Pubkey,
    pub farm_authority: Pubkey,
    pub stake_mint: Pubkey,
    pub system_program: Pubkey,
}

/// Creating a farm for a vault's share token.
#[derive(Clone, Copy, Debug, PartialEq, Eq)]
pub struct InitFarm {
    pub accounts: InitFarmAccounts,
}

impl InitFarm {
    /// The new farm's state: the stake mint, nothing staked, no rewards, and the
    /// bumps of the farm's address and of its authority's address.
    pub fn execute(&self, farm_bump: u8, authority_bump: u8) -> (r: Farm)
        ensures
            r.stake_info == (StakeInfo { mint: self.accounts.stake_mint, total_amount: 0 }),
            forall|i: int|
                0 <= i < MAX_REWARDS_TOKENS ==> is_empty_reward_info(#[trigger] r.reward_infos[i]),
            r.bump == farm_bump,
            r.authority_bump == authority_bump,
    {
        Farm::new(self.accounts.stake_mint, farm_bump, authority_bump)
    }
}

/// The outcome of checking the accounts of a farm's creation, up to the
/// derived address: seven accounts; the manager signed; the vault belongs to
/// the vault program, is a vault, names the manager as its manager or admin,
/// and has the stake mint as its LP mint; the stake mint is a mint of the
/// token program.
pub open spec fn init_farm_accounts_result(a: Seq<AccountSnapshot>) -> Result<
    InitFarmAccounts,
    InstructionError,
> {
    if a.len() != 7 {
        Err(InstructionError::NotEnoughAccountKeys)
    } else if !a[1].is_signer {
        Err(InstructionError::MissingRequiredSignature)
    } else if a[2].owner != VAULT_PROGRAM_ID {
        Err(InstructionError::IllegalOwner)
    } else if a[2].data@.len() != VAULT_ACCOUNT_LEN {
        Err(InstructionError::InvalidAccountData)
    } else if !vault_lists_authority(a[2].data@, a[1].key) {
        Err(InstructionError::MissingRequiredSignature)
    } else if vault_lp_mint_bytes(a[2].data@) != a[5].key@ {
        Err(InstructionError::InvalidAccountData)
    } else if a[5].owner != TOKEN_PROGRAM_ID {
        Err(InstructionError::IllegalOwner)
    } else if a[5].data@.len() != MINT_ACCOUNT_LEN {
        Err(InstructionError::InvalidAccountData)
    } else {
        Ok(
            InitFarmAccounts {
                payer: a[0].key,
                manager: a[1].key,
                voltr_vault: a[2].key,
                farm: a[3].key,
                farm_authority: a[4].key,
                stake_mint: a[5].key,
                system_program: a[6].key,
            },
        )
    }
}

impl InitFarmAccounts {
    /// Checks the accounts of a farm's creation, all but the derived address,
    /// and takes their keys.
    pub fn try_from(accounts: &Vec<AccountSnapshot>) -> (r: Result<InitFarmAccounts, InstructionError>)
        ensures
            r == init_farm_accounts_result(accounts@),
    {
        if accounts.len() != 7 {
            return Err(InstructionError::NotEnoughAccountKeys);
        }
        let manager = &accounts[1];
        let voltr_vault = &accounts[2];
        let stake_mint = &accounts[5];
        if !manager.is_signer {
            return Err(InstructionError::MissingRequiredSignature);
        }
        if !pubkey_eq(&voltr_vault.owner, &VAULT_PROGRAM_ID) {
            return Err(InstructionError::IllegalOwner);
        }
        let vault = match Vault::try_from_account_data(voltr_vault.data.as_slice()) {
            Ok(v) => v,
            Err(e) => {
                return Err(e);
            },
        };
        proof {
            lemma_key_view_eq(vault.manager, manager.key);
            lemma_key_view_eq(vault.admin, manager.key);
            lemma_key_view_eq(vault.lp.mint, stake_mint.key);
        }
        if !pubkey_eq(&vault.manager, &manager.key) && !pubkey_eq(&vault.admin, &manager.key) {
            return Err(InstructionError::MissingRequiredSignature);
        }
        if !pubkey_eq(&vault.lp.mint, &stake_mint.key) {
            return Err(InstructionError::InvalidAccountData);
        }
        if !pubkey_eq(&stake_mint.owner, &token_program_id()) {
            return Err(InstructionError::IllegalOwner);
        }
        if stake_mint.data.len() != mint_account_len() {
            return Err(InstructionError::InvalidAccountData);
        }
        Ok(
            InitFarmAccounts {
                payer: accounts[0].key,
                manager: manager.key,
                voltr_vault: voltr_vault.key,
                farm: accounts[3].key,
                farm_authority: accounts[4].key,
                stake_mint: stake_mint.key,
                system_program: accounts[6].key,
            },
        )
    }

    /// Checks the derived address: the farm's authority.
    pub fn check_addresses(&self, expected_farm_authority: &Pubkey) -> (r: Result<
        (),
        InstructionError,
    >)
        ensures
            r == (if self.farm_authority != *expected_farm_authority {
                Err(InstructionError::InvalidArgument)
            } else {
                Ok(())
            }),
    {
        if !pubkey_eq(&self.farm_authority, expected_farm_authority) {
            return Err(InstructionError::InvalidArgument);
        }
        Ok(())
    }
}

impl InitFarm {
    /// Creating a farm takes no arguments.
    pub fn try_from(accounts: InitFarmAccounts) -> (r: InitFarm)
        ensures
            r.accounts == accounts,
    {
        InitFarm { accounts }
    }
}


impl InitFarmAccounts {
    /// The inputs of the derived address that `check_addresses` takes: the
    /// farm's authority.
    pub fn address_seeds(&self) -> (r: AddressSeeds)
        ensures
            seed_list(&r.seeds) == seq![FARM_AUTHORITY_SEED@, self.farm@],
            r.program_id == ID,
    {
        farm_authority_seeds(&self.farm)
    }

    /// Derives the farm authority's address and checks the account given for it.
    pub fn check_derived_addresses(&self) -> (r: Result<(), InstructionError>)
        ensures
            derived_key_check(
                seq![FARM_AUTHORITY_SEED@, self.farm@],
                ID@,
                self.farm_authority@,
                r,
            ),
    {
        check_derived_key(&self.address_seeds(), &self.farm_authority)
    }
}

impl InitFarm {
    /// The inputs of the farm's own address: the farm seed and the stake mint.
    pub fn farm_address_seeds(&self) -> (r: AddressSeeds)
        ensures
            seed_list(&r.seeds) == seq![FARM_SEED@, self.accounts.stake_mint@],
            r.program_id == ID,
    {
        farm_address_seeds(&self.accounts.stake_mint)
    }

    /// The seeds with which the farm's address signs its creation.
    pub fn signer_seeds(&self, farm_bump: u8) -> (r: Vec<Vec<u8>>)
        ensures
            seed_list(&r) == seq![FARM_SEED@, self.accounts.stake_mint@, seq![farm_bump]],
    {
        farm_address_seeds(&self.accounts.stake_mint).with_bump(farm_bump)
    }

    /// The bump seeds of the farm's address and of its authority's address, as
    /// the runtime finds them; `InvalidSeeds` where it finds none.
    pub fn derive_bumps(&self) -> (r: Result<(u8, u8), InstructionError>)
        ensures
            r matches Ok((farm_bump, authority_bump)) ==> {
                &&& program_address(seq![FARM_SEED@, self.accounts.stake_mint@], ID@) matches Some(
                    (farm, bump),
                )
                &&& bump == farm_bump
                &&& program_address(seq![FARM_AUTHORITY_SEED@, farm], ID@) matches Some(
                    (_authority, abump),
                )
                &&& abump == authority_bump
            },
            r is Err ==> r == Err::<(u8, u8), InstructionError>(InstructionError::InvalidSeeds),
    {
        let (farm, farm_bump) = match find_program_address(&self.farm_address_seeds()) {
            Ok(found) => found,
            Err(e) => {
                return Err(e);
            },
        };
        let authority = farm_authority_seeds(&farm);
        let (_authority, authority_bump) = match find_program_address(&authority) {
            Ok(found) => found,
            Err(e) => {
                return Err(e);
            },
        };
        Ok((farm_bump, authority_bump))
    }
}

} // verus!
