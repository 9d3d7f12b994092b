use vstd::prelude::*;
use pinocchio::pubkey::Pubkey;

use crate::account::AccountSnapshot;
use crate::seeds::{
    AddressSeeds, FARM_AUTHORITY_SEED, associated_token_account_seeds, check_derived_key,
    derived_key_check, farm_authority_seeds, seed_list,
};
use crate::codec::{le_value, read_u64};
use crate::error::{FarmError, InstructionError};
use crate::keys::{ASSOCIATED_TOKEN_PROGRAM_ID, ID, VAULT_PROGRAM_ID, lemma_key_view_eq, pubkey_eq};
use crate::vault::{Vault, VAULT_ACCOUNT_LEN, vault_lists_authority};
use crate::state::{Farm, FarmModel, RewardInfo, find_reward_slot, refresh_farm, refresh_farm_attempt};

verus! {

/// The keys of the accounts that adding a reward names, in their order.
#[derive(Clone, Copy, Debug, PartialEq, Eq)]
pub struct AddRewardAccounts {
    pub payer: Pubkey,
    pub manager: Pubkey,
    pub voltr_vault: Pubkey,
    pub farm: Pubkey,
    pub farm_authority: Pubkey,
    pub reward_mint: Pubkey,
    pub farm_reward_token_account: Pubkey,
    pub manager_reward_token_account: Pubkey,
    pub reward_token_program: Pubkey,
    pub associated_token_program: Pubkey,
    pub system_program: Pubkey,
}

/// Adding `amount` of the reward mint to a farm, emitted linearly until `end_ts`.
#[derive(Clone, Copy, Debug, PartialEq, Eq)]
pub struct AddReward {
    pub accounts: AddRewardAccounts,
    pub amount: u64,
    pub end_ts: u64,
}

/// The farm after adding `amount` of `mint` with emission ending at `end_ts`:
/// the end must not lie in the past; the farm is brought up to `current_ts`;
/// the reward goes to the first slot that holds `mint` or is unused, whose
/// available amount grows by `amount` and whose emission restarts now and
/// ends at `end_ts`.
pub open spec fn add_reward_to_farm(
    f: FarmModel,
    mint: Pubkey,
    amount: u64,
    end_ts: u64,
    current_ts: u64,
) -> Result<FarmModel, FarmError> {
    if end_ts < current_ts {
        Err(FarmError::InvalidEndTs)
    } else {
        match refresh_farm(f, current_ts) {
            None => Err(FarmError::IntegerOverflow),
            Some(r) => match find_reward_slot(r.reward_infos, mint, 0) {
                None => Err(FarmError::MaxRewardsReached),
                Some(i) => {
                    let info = r.reward_infos[i];
                    if info.available_amount + amount > u64::MAX {
                        Err(FarmError::IntegerOverflow)
                    } else {
                        Ok(
                            FarmModel {
                                reward_infos: r.reward_infos.update(
                                    i,
                                    RewardInfo {
                                        mint: mint,
                                        available_amount: (info.available_amount + amount) as u64,
                                        last_updated_ts: current_ts,
                                        end_ts: end_ts,
                                        ..info
                                    },
                                ),
                                ..r
                            },
                        )
                    }
                },
            },
        }
    }
}

/// The farm as adding a reward leaves it when it fails: untouched when the
/// end lies in the past; the farm's refresh attempt when that overflows; the
/// refreshed farm when no slot is free; and when the available amount would
/// overflow, the refreshed farm whose chosen slot has already taken the mint.
pub open spec fn add_reward_error_state(
    f: FarmModel,
    mint: Pubkey,
    end_ts: u64,
    current_ts: u64,
) -> FarmModel {
    if end_ts < current_ts {
        f
    } else {
        match refresh_farm(f, current_ts) {
            None => refresh_farm_attempt(f, current_ts),
            Some(r) => match find_reward_slot(r.reward_infos, mint, 0) {
                None => r,
                Some(i) => FarmModel {
                    reward_infos: r.reward_infos.update(
                        i,
                        RewardInfo { mint: mint, ..r.reward_infos[i] },
                    ),
                    ..r
                },
            },
        }
    }
}

impl AddReward {
    /// Applies the reward to the farm's state at `current_ts`, in place.
    pub fn execute(&self, farm: &mut Farm, current_ts: u64) -> (r: Result<(), FarmError>)
        ensures
            match add_reward_to_farm(
                old(farm)@,
                self.accounts.reward_mint,
                self.amount,
                self.end_ts,
                current_ts,
            ) {
                Ok(f) => r is Ok && final(farm)@ == f,
                Err(e) => r == Err::<(), FarmError>(e) && final(farm)@ == add_reward_error_state(
                    old(farm)@,
                    self.accounts.reward_mint,
                    self.end_ts,
                    current_ts,
                ),
            },
    {
        if self.end_ts < current_ts {
            return Err(FarmError::InvalidEndTs);
        }
        match farm.refresh_rewards(current_ts) {
            Ok(()) => {},
            Err(e) => {
                return Err(e);
            },
        }
        let reward_mint_key = self.accounts.reward_mint;
        let i = match farm.reward_slot_for(&reward_mint_key) {
            Some(i) => i,
            None => {
                return Err(FarmError::MaxRewardsReached);
            },
        };
        let ghost refreshed = farm@;
        let mut reward_info = farm.reward_infos[i];
        reward_info.mint = reward_mint_key;
        reward_info.available_amount = match reward_info.available_amount.checked_add(self.amount) {
            Some(v) => v,
            None => {
                farm.reward_infos[i] = reward_info;
                proof {
                    assert(farm@.reward_infos =~= refreshed.reward_infos.update(
                        i as int,
                        RewardInfo { mint: reward_mint_key, ..refreshed.reward_infos[i as int] },
                    ));
                }
                return Err(FarmError::IntegerOverflow);
            },
        };
        reward_info.last_updated_ts = current_ts;
        reward_info.end_ts = self.end_ts;
        farm.reward_infos[i] = reward_info;
        proof {
            assert(farm@.reward_infos =~= refreshed.reward_infos.update(
                i as int,
                RewardInfo {
                    mint: reward_mint_key,
                    available_amount: reward_info.available_amount,
                    last_updated_ts: current_ts,
                    end_ts: self.end_ts,
                    ..refreshed.reward_infos[i as int]
                },
            ));
        }
        Ok(())
    }
}

/// The outcome of checking the accounts of an add-reward instruction, up to
/// the derived addresses: eleven accounts; the manager signed; the vault
/// belongs to the vault program, is a vault, and names the manager as its
/// manager or admin; the farm belongs to this program.
pub open spec fn add_reward_accounts_result(a: Seq<AccountSnapshot>) -> Result<
    AddRewardAccounts,
    InstructionError,
> {
    if a.len() != 11 {
        Err(InstructionError::NotEnoughAccountKeys)
    } else if !a[1].is_signer {
        Err(InstructionError::MissingRequiredSignature)
    } else if a[2].owner != VAULT_PROGRAM_ID {
        Err(InstructionError::IllegalOwner)
    } else if a[2].data@.len() != VAULT_ACCOUNT_LEN {
        Err(InstructionError::InvalidAccountData)
    } else if !vault_lists_authority(a[2].data@, a[1].key) {
        Err(InstructionError::MissingRequiredSignature)
    } else if a[3].owner != ID {
        Err(InstructionError::IllegalOwner)
    } else {
        Ok(
            AddRewardAccounts {
                payer: a[0].key,
                manager: a[1].key,
                voltr_vault: a[2].key,
                farm: a[3].key,
                farm_authority: a[4].key,
                reward_mint: a[5].key,
                farm_reward_token_account: a[6].key,
                manager_reward_token_account: a[7].key,
                reward_token_program: a[8].key,
                associated_token_program: a[9].key,
                system_program: a[10].key,
            },
        )
    }
}

impl AddRewardAccounts {
    /// Checks the accounts of an add-reward instruction, all but the two
    /// derived addresses, and takes their keys.
    pub fn try_from(accounts: &Vec<AccountSnapshot>) -> (r: Result<
        AddRewardAccounts,
        InstructionError,
    >)
        ensures
            r == add_reward_accounts_result(accounts@),
    {
        if accounts.len() != 11 {
            return Err(InstructionError::NotEnoughAccountKeys);
        }
        let manager = &accounts[1];
        let voltr_vault = &accounts[2];
        let farm = &accounts[3];
        if !manager.is_signer {
            return Err(InstructionError::MissingRequiredSignature);
        }
        if !pubkey_eq(&voltr_vault.owner, &VAULT_PROGRAM_ID) {
            return Err(InstructionError::IllegalOwner);
        }
        let vault = match Vault::try_from_account_data(voltr_vault.data.as_slice()) {
            Ok(v) => v,
            Err(e) => {
                return Err(e);
            },
        };
        if !pubkey_eq(&vault.manager, &manager.key) && !pubkey_eq(&vault.admin, &manager.key) {
            proof {
                lemma_key_view_eq(vault.manager, manager.key);
                lemma_key_view_eq(vault.admin, manager.key);
            }
            return Err(InstructionError::MissingRequiredSignature);
        }
        if !pubkey_eq(&farm.owner, &ID) {
            return Err(InstructionError::IllegalOwner);
        }
        Ok(
            AddRewardAccounts {
                payer: accounts[0].key,
                manager: manager.key,
                voltr_vault: voltr_vault.key,
                farm: farm.key,
                farm_authority: accounts[4].key,
                reward_mint: accounts[5].key,
                farm_reward_token_account: accounts[6].key,
                manager_reward_token_account: accounts[7].key,
                reward_token_program: accounts[8].key,
                associated_token_program: accounts[9].key,
                system_program: accounts[10].key,
            },
        )
    }

    /// Checks the two derived addresses: the farm's authority, and the farm
    /// authority's token account for the reward mint.
    pub fn check_addresses(
        &self,
        expected_farm_authority: &Pubkey,
        expected_farm_reward_token_account: &Pubkey,
    ) -> (r: Result<(), InstructionError>)
        ensures
            r == (if self.farm_authority != *expected_farm_authority {
                Err(InstructionError::InvalidArgument)
            } else if self.farm_reward_token_account != *expected_farm_reward_token_account {
                Err(InstructionError::InvalidArgument)
            } else {
                Ok(())
            }),
    {
        if !pubkey_eq(&self.farm_authority, expected_farm_authority) {
            return Err(InstructionError::InvalidArgument);
        }
        if !pubkey_eq(&self.farm_reward_token_account, expected_farm_reward_token_account) {
            return Err(InstructionError::InvalidArgument);
        }
        Ok(())
    }
}

impl AddReward {
    /// Reads the amount and the end time, two little-endian `u64`, from the
    /// instruction's arguments.
    pub fn try_from(accounts: AddRewardAccounts, args: &[u8]) -> (r: Result<
        AddReward,
        InstructionError,
    >)
        ensures
            r is Ok <==> args@.len() == 16,
            match r {
                Ok(ix) => ix.accounts == accounts && ix.amount == le_value(args@.subrange(0, 8))
                    && ix.end_ts == le_value(args@.subrange(8, 16)),
                Err(e) => e == InstructionError::InvalidInstructionData,
            },
    {
        if args.len() != 16 {
            return Err(InstructionError::InvalidInstructionData);
        }
        let amount = read_u64(args, 0);
        let end_ts = read_u64(args, 8);
        Ok(AddReward { accounts, amount, end_ts })
    }
}


impl AddRewardAccounts {
    /// The inputs of the two derived addresses that `check_addresses` takes:
    /// the farm's authority, and that authority's token account for the
    /// reward mint under the reward token program.
    pub fn address_seeds(&self) -> (r: (AddressSeeds, AddressSeeds))
        ensures
            seed_list(&r.0.seeds) == seq![FARM_AUTHORITY_SEED@, self.farm@],
            r.0.program_id == ID,
            seed_list(&r.1.seeds) == seq![
                self.farm_authority@,
                self.reward_token_program@,
                self.reward_mint@,
            ],
            r.1.program_id == ASSOCIATED_TOKEN_PROGRAM_ID,
    {
        (
            farm_authority_seeds(&self.farm),
            associated_token_account_seeds(
                &self.farm_authority,
                &self.reward_token_program,
                &self.reward_mint,
            ),
        )
    }

    /// Derives the farm's authority and checks the account given for it, then
    /// derives that authority's token account for the reward mint and checks
    /// the account given for it.
    pub fn check_derived_addresses(&self) -> (r: Result<(), InstructionError>)
        ensures
            ({
                let authority = seq![FARM_AUTHORITY_SEED@, self.farm@];
                let token_account = seq![
                    self.farm_authority@,
                    self.reward_token_program@,
                    self.reward_mint@,
                ];
                let first_fails = r is Err && derived_key_check(
                    authority,
                    ID@,
                    self.farm_authority@,
                    r,
                );
                let second_decides = derived_key_check(
                    authority,
                    ID@,
                    self.farm_authority@,
                    Ok(()),
                ) && derived_key_check(
                    token_account,
                    ASSOCIATED_TOKEN_PROGRAM_ID@,
                    self.farm_reward_token_account@,
                    r,
                );
                first_fails || second_decides
            }),
    {
        let (authority, token_account) = self.address_seeds();
        match check_derived_key(&authority, &self.farm_authority) {
            Ok(()) => {},
            Err(e) => {
                return Err(e);
            },
        }
        check_derived_key(&token_account, &self.farm_reward_token_account)
    }
}

} // verus!
