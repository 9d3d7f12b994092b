use vstd::prelude::*;
use pinocchio::pubkey::Pubkey;

use crate::account::AccountSnapshot;
use crate::seeds::{
    AddressSeeds, FARM_AUTHORITY_SEED, associated_token_account_seeds, check_derived_key,
    derived_key_check, farm_authority_seeds, seed_list,
};
use crate::error::{FarmError, InstructionError};
use crate::keys::{ASSOCIATED_TOKEN_PROGRAM_ID, ID, lemma_key_view_eq, pubkey_eq};
use crate::layout::{is_staker_data, staker_farm_bytes, staker_user_bytes};
use crate::state::{Farm, FarmModel, RewardInfo, Staker, StakerModel, find_mint, refresh_farm, refresh_pair_attempt, refresh_staker};

verus! {

/// The keys of the accounts that claiming a reward names, in their order.
#[derive(Clone, Copy, Debug, PartialEq, Eq)]
pub struct ClaimRewardAccounts {
    pub user: Pubkey,
    pub farm: Pubkey,
    pub farm_authority: Pubkey,
    pub staker: Pubkey,
    pub reward_mint: Pubkey,
    pub farm_reward_token_account: Pubkey,
    pub user_reward_token_account: Pubkey,
    pub reward_token_program: Pubkey,
}

/// Claiming everything a staker is owed in one reward mint.
#[derive(Clone, Copy, Debug, PartialEq, Eq)]
pub struct ClaimReward {
    pub accounts: ClaimRewardAccounts,
}

/// The farm and staker after a claim of `mint` at `current_ts`, and the amount
/// paid out: both are brought up to date; the claim goes to the first slot that
/// holds `mint`; what the staker is owed there is paid out, must not be zero,
/// and leaves the farm's issued-but-unclaimed amount; the staker then owes
/// nothing there and the claim time is recorded.
pub open spec fn claim_from_farm(
    f: FarmModel,
    s: StakerModel,
    mint: Pubkey,
    current_ts: u64,
) -> Result<(FarmModel, StakerModel, u64), FarmError> {
    match refresh_farm(f, current_ts) {
        None => Err(FarmError::IntegerOverflow),
        Some(f1) => match refresh_staker(s, f1) {
            None => Err(FarmError::IntegerOverflow),
            Some(s1) => match find_mint(f1.reward_infos, mint, 0) {
                None => Err(FarmError::RewardNotFound),
                Some(i) => {
                    let amount = s1.rewards_issued_unclaimed[i];
                    let info = f1.reward_infos[i];
                    if amount == 0 {
                        Err(FarmError::NothingToClaim)
                    } else if info.issued_unclaimed_amount < amount {
                        Err(FarmError::IntegerOverflow)
                    } else {
                        Ok(
                            (
                                FarmModel {
                                    reward_infos: f1.reward_infos.update(
                                        i,
                                        RewardInfo {
                                            issued_unclaimed_amount: (info.issued_unclaimed_amount
                                                - amount) as u64,
                                            ..info
                                        },
                                    ),
                                    ..f1
                                },
                                StakerModel {
                                    rewards_issued_unclaimed: s1.rewards_issued_unclaimed.update(
                                        i,
                                        0,
                                    ),
                                    last_claim_ts: s1.last_claim_ts.update(i, current_ts),
                                    ..s1
                                },
                                amount,
                            ),
                        )
                    }
                },
            },
        },
    }
}

impl ClaimReward {
    /// Applies the claim to the farm and staker at `current_ts`, in place, and
    /// returns the amount to pay out.  When it fails the farm and staker are
    /// as far brought up to date as it got.
    pub fn execute(&self, farm: &mut Farm, staker: &mut Staker, current_ts: u64) -> (r: Result<
        u64,
        FarmError,
    >)
        ensures
            match claim_from_farm(old(farm)@, old(staker)@, self.accounts.reward_mint, current_ts) {
                Ok((f, s, amount)) => r == Ok::<u64, FarmError>(amount) && final(farm)@ == f
                    && final(staker)@ == s,
                Err(e) => r == Err::<u64, FarmError>(e) && (final(farm)@, final(staker)@)
                    == refresh_pair_attempt(old(farm)@, old(staker)@, current_ts),
            },
    {
        match farm.refresh_rewards(current_ts) {
            Ok(()) => {},
            Err(e) => {
                return Err(e);
            },
        }
        match staker.refresh_rewards(&*farm) {
            Ok(()) => {},
            Err(e) => {
                return Err(e);
            },
        }
        let reward_mint_key = self.accounts.reward_mint;
        let reward_index = match farm.reward_index(&reward_mint_key) {
            Some(i) => i,
            None => {
                return Err(FarmError::RewardNotFound);
            },
        };
        let amount_to_claim = staker.rewards_issued_unclaimed[reward_index];
        if amount_to_claim == 0 {
            return Err(FarmError::NothingToClaim);
        }
        let ghost f1 = farm@;
        let ghost s1 = staker@;
        let mut info = farm.reward_infos[reward_index];
        info.issued_unclaimed_amount = match info.issued_unclaimed_amount.checked_sub(
            amount_to_claim,
        ) {
            Some(v) => v,
            None => {
                return Err(FarmError::IntegerOverflow);
            },
        };
        farm.reward_infos[reward_index] = info;
        staker.rewards_issued_unclaimed[reward_index] = 0;
        staker.last_claim_ts[reward_index] = current_ts;
        proof {
            assert(farm@.reward_infos =~= f1.reward_infos.update(reward_index as int, info));
            assert(staker@.rewards_issued_unclaimed =~= s1.rewards_issued_unclaimed.update(
                reward_index as int,
                0,
            ));
            assert(staker@.last_claim_ts =~= s1.last_claim_ts.update(
                reward_index as int,
                current_ts,
            ));
        }
        Ok(amount_to_claim)
    }
}

/// The outcome of checking the accounts of a claim, up to the derived address:
/// eight accounts; the user signed; farm and staker belong to this program;
/// the staker's data is a staker of this farm and this user.
pub open spec fn claim_reward_accounts_result(a: Seq<AccountSnapshot>) -> Result<
    ClaimRewardAccounts,
    InstructionError,
> {
    if a.len() != 8 {
        Err(InstructionError::NotEnoughAccountKeys)
    } else if !a[0].is_signer {
        Err(InstructionError::MissingRequiredSignature)
    } else if a[1].owner != ID {
        Err(InstructionError::IllegalOwner)
    } else if a[3].owner != ID {
        Err(InstructionError::IllegalOwner)
    } else if !is_staker_data(a[3].data@, a[3].data_address) {
        Err(InstructionError::InvalidAccountData)
    } else if staker_farm_bytes(a[3].data@) != a[1].key@ {
        Err(InstructionError::InvalidArgument)
    } else if staker_user_bytes(a[3].data@) != a[0].key@ {
        Err(InstructionError::InvalidArgument)
    } else {
        Ok(
            ClaimRewardAccounts {
                user: a[0].key,
                farm: a[1].key,
                farm_authority: a[2].key,
                staker: a[3].key,
                reward_mint: a[4].key,
                farm_reward_token_account: a[5].key,
                user_reward_token_account: a[6].key,
                reward_token_program: a[7].key,
            },
        )
    }
}

impl ClaimRewardAccounts {
    /// Checks the accounts of a claim, all but the derived address, and takes
    /// their keys.
    pub fn try_from(accounts: &Vec<AccountSnapshot>) -> (r: Result<
        ClaimRewardAccounts,
        InstructionError,
    >)
        ensures
            r == claim_reward_accounts_result(accounts@),
    {
        if accounts.len() != 8 {
            return Err(InstructionError::NotEnoughAccountKeys);
        }
        let user = &accounts[0];
        let farm = &accounts[1];
        let staker = &accounts[3];
        if !user.is_signer {
            return Err(InstructionError::MissingRequiredSignature);
        }
        if !pubkey_eq(&farm.owner, &ID) {
            return Err(InstructionError::IllegalOwner);
        }
        if !pubkey_eq(&staker.owner, &ID) {
            return Err(InstructionError::IllegalOwner);
        }
        let staker_state = match Staker::try_from_account_data(
            staker.data.as_slice(),
            staker.data_address,
        ) {
            Ok(s) => s,
            Err(e) => {
                return Err(e);
            },
        };
        proof {
            lemma_key_view_eq(staker_state.farm, farm.key);
            lemma_key_view_eq(staker_state.user, user.key);
        }
        if !pubkey_eq(&staker_state.farm, &farm.key) {
            return Err(InstructionError::InvalidArgument);
        }
        if !pubkey_eq(&staker_state.user, &user.key) {
            return Err(InstructionError::InvalidArgument);
        }
        Ok(
            ClaimRewardAccounts {
                user: user.key,
                farm: farm.key,
                farm_authority: accounts[2].key,
                staker: staker.key,
                reward_mint: accounts[4].key,
                farm_reward_token_account: accounts[5].key,
                user_reward_token_account: accounts[6].key,
                reward_token_program: accounts[7].key,
            },
        )
    }

    /// Checks the derived address: the user's token account for the reward mint.
    pub fn check_addresses(&self, expected_user_reward_token_account: &Pubkey) -> (r: Result<
        (),
        InstructionError,
    >)
        ensures
            r == (if self.user_reward_token_account != *expected_user_reward_token_account {
                Err(InstructionError::InvalidArgument)
            } else {
                Ok(())
            }),
    {
        if !pubkey_eq(&self.user_reward_token_account, expected_user_reward_token_account) {
            return Err(InstructionError::InvalidArgument);
        }
        Ok(())
    }
}

impl ClaimReward {
    /// A claim takes no arguments.
    pub fn try_from(accounts: ClaimRewardAccounts) -> (r: ClaimReward)
        ensures
            r.accounts == accounts,
    {
        ClaimReward { accounts }
    }
}


impl ClaimRewardAccounts {
    /// The inputs of the derived address that `check_addresses` takes: the
    /// user's token account for the reward mint under the reward token program.
    pub fn address_seeds(&self) -> (r: AddressSeeds)
        ensures
            seed_list(&r.seeds) == seq![
                self.user@,
                self.reward_token_program@,
                self.reward_mint@,
            ],
            r.program_id == ASSOCIATED_TOKEN_PROGRAM_ID,
    {
        associated_token_account_seeds(&self.user, &self.reward_token_program, &self.reward_mint)
    }

    /// Derives the user's token account for the reward mint and checks the
    /// account given for it.
    pub fn check_derived_addresses(&self) -> (r: Result<(), InstructionError>)
        ensures
            derived_key_check(
                seq![self.user@, self.reward_token_program@, self.reward_mint@],
                ASSOCIATED_TOKEN_PROGRAM_ID@,
                self.user_reward_token_account@,
                r,
            ),
    {
        check_derived_key(&self.address_seeds(), &self.user_reward_token_account)
    }
}

impl ClaimReward {
    /// The seeds with which the farm's authority signs the payout.
    pub fn signer_seeds(&self, authority_bump: u8) -> (r: Vec<Vec<u8>>)
        ensures
            seed_list(&r) == seq![FARM_AUTHORITY_SEED@, self.accounts.farm@, seq![authority_bump]],
    {
        farm_authority_seeds(&self.accounts.farm).with_bump(authority_bump)
    }
}

} // verus!
