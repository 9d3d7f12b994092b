use vstd::prelude::*;
use pinocchio::pubkey::Pubkey;

use crate::account::AccountSnapshot;
use crate::seeds::{
    AddressSeeds, STAKER_AUTHORITY_SEED, associated_token_account_seeds, check_derived_key,
    derived_key_check, seed_list, staker_authority_seeds,
};
use crate::codec::{le_value, read_u64};
use crate::error::{FarmError, InstructionError};
use crate::keys::{ASSOCIATED_TOKEN_PROGRAM_ID, ID, lemma_key_view_eq, pubkey_eq};
use crate::layout::{farm_stake_mint_bytes, is_farm_data, is_staker_data, staker_farm_bytes, staker_user_bytes};
use crate::state::{Farm, FarmModel, StakeInfo, Staker, StakerModel, refresh_farm, refresh_pair_attempt, refresh_staker};

verus! {

/// The keys of the accounts that unstaking names, in their order.
#[derive(Clone, Copy, Debug, PartialEq, Eq)]
pub struct UnstakeAccounts {
    pub user: Pubkey,
    pub farm: Pubkey,
    pub staker: Pubkey,
    pub staker_authority: Pubkey,
    pub stake_mint: Pubkey,
    pub user_stake_token_account: Pubkey,
    pub staker_stake_token_account: Pubkey,
    pub stake_token_program: Pubkey,
}

/// Withdrawing `amount` of a staker's stake.
#[derive(Clone, Copy, Debug, PartialEq, Eq)]
pub struct Unstake {
    pub accounts: UnstakeAccounts,
    pub amount: u64,
}

/// The farm and staker after withdrawing `amount` at `current_ts`: the amount
/// must be positive and at most the staker's stake; both are brought up to
/// date before the stake changes, so the staker is credited for the time it
/// was staked; then the farm's total and the staker's stake shrink by `amount`.
pub open spec fn unstake_from_farm(
    f: FarmModel,
    s: StakerModel,
    amount: u64,
    current_ts: u64,
) -> Result<(FarmModel, StakerModel), FarmError> {
    if amount == 0 {
        Err(FarmError::InvalidAmount)
    } else if s.stake_amount < amount {
        Err(FarmError::InsufficientStake)
    } else {
        match refresh_farm(f, current_ts) {
            None => Err(FarmError::IntegerOverflow),
            Some(f1) => match refresh_staker(s, f1) {
                None => Err(FarmError::IntegerOverflow),
                Some(s1) => if f1.stake_info.total_amount < amount {
                    Err(FarmError::IntegerOverflow)
                } else {
                    Ok(
                        (
                            FarmModel {
                                stake_info: StakeInfo {
                                    total_amount: (f1.stake_info.total_amount - amount) as u64,
                                    ..f1.stake_info
                                },
                                ..f1
                            },
                            StakerModel { stake_amount: (s1.stake_amount - amount) as u64, ..s1 },
                        ),
                    )
                },
            },
        }
    }
}

/// The farm and staker as a failed unstake leaves them: untouched when the
/// amount is refused; otherwise as far brought up to date as it got.
pub open spec fn unstake_error_state(f: FarmModel, s: StakerModel, amount: u64, current_ts: u64) -> (
    FarmModel,
    StakerModel,
) {
    if amount == 0 || s.stake_amount < amount {
        (f, s)
    } else {
        refresh_pair_attempt(f, s, current_ts)
    }
}

impl Unstake {
    /// Applies the withdrawal to the farm and staker at `current_ts`, in place.
    pub fn execute(&self, farm: &mut Farm, staker: &mut Staker, current_ts: u64) -> (r: Result<
        (),
        FarmError,
    >)
        ensures
            match unstake_from_farm(old(farm)@, old(staker)@, self.amount, current_ts) {
                Ok((f, s)) => r is Ok && final(farm)@ == f && final(staker)@ == s,
                Err(e) => r == Err::<(), FarmError>(e) && (final(farm)@, final(staker)@)
                    == unstake_error_state(old(farm)@, old(staker)@, self.amount, current_ts),
            },
    {
        if self.amount == 0 {
            return Err(FarmError::InvalidAmount);
        }
        if staker.stake_amount < self.amount {
            return Err(FarmError::InsufficientStake);
        }
        match farm.refresh_rewards(current_ts) {
            Ok(()) => {},
            Err(e) => {
                return Err(e);
            },
        }
        match staker.refresh_rewards(&*farm) {
            Ok(()) => {},
            Err(e) => {
                return Err(e);
            },
        }
        farm.stake_info.total_amount = match farm.stake_info.total_amount.checked_sub(
            self.amount,
        ) {
            Some(v) => v,
            None => {
                return Err(FarmError::IntegerOverflow);
            },
        };
        staker.stake_amount = match staker.stake_amount.checked_sub(self.amount) {
            Some(v) => v,
            None => {
                return Err(FarmError::IntegerOverflow);
            },
        };
        Ok(())
    }
}

/// The outcome of checking the accounts of an unstake, up to the derived
/// address: eight accounts; the user signed; the farm belongs to this program,
/// is a farm, and stakes the stake mint; the staker belongs to this program,
/// is a staker, and is this farm's and this user's.
pub open spec fn unstake_accounts_result(a: Seq<AccountSnapshot>) -> Result<
    UnstakeAccounts,
    InstructionError,
> {
    if a.len() != 8 {
        Err(InstructionError::NotEnoughAccountKeys)
    } else if !a[0].is_signer {
        Err(InstructionError::MissingRequiredSignature)
    } else if a[1].owner != ID {
        Err(InstructionError::IllegalOwner)
    } else if !is_farm_data(a[1].data@, a[1].data_address) {
        Err(InstructionError::InvalidAccountData)
    } else if farm_stake_mint_bytes(a[1].data@) != a[4].key@ {
        Err(InstructionError::InvalidArgument)
    } else if a[2].owner != ID {
        Err(InstructionError::IllegalOwner)
    } else if !is_staker_data(a[2].data@, a[2].data_address) {
        Err(InstructionError::InvalidAccountData)
    } else if staker_farm_bytes(a[2].data@) != a[1].key@ {
        Err(InstructionError::InvalidArgument)
    } else if staker_user_bytes(a[2].data@) != a[0].key@ {
        Err(InstructionError::InvalidArgument)
    } else {
        Ok(
            UnstakeAccounts {
                user: a[0].key,
                farm: a[1].key,
                staker: a[2].key,
                staker_authority: a[3].key,
                stake_mint: a[4].key,
                user_stake_token_account: a[5].key,
                staker_stake_token_account: a[6].key,
                stake_token_program: a[7].key,
            },
        )
    }
}

impl UnstakeAccounts {
    /// Checks the accounts of an unstake, all but the derived address, and
    /// takes their keys.
    pub fn try_from(accounts: &Vec<AccountSnapshot>) -> (r: Result<UnstakeAccounts, InstructionError>)
        ensures
            r == unstake_accounts_result(accounts@),
    {
        if accounts.len() != 8 {
            return Err(InstructionError::NotEnoughAccountKeys);
        }
        let user = &accounts[0];
        let farm = &accounts[1];
        let staker = &accounts[2];
        let stake_mint = &accounts[4];
        if !user.is_signer {
            return Err(InstructionError::MissingRequiredSignature);
        }
        if !pubkey_eq(&farm.owner, &ID) {
            return Err(InstructionError::IllegalOwner);
        }
        let farm_state = match Farm::try_from_account_data(farm.data.as_slice(), farm.data_address) {
            Ok(f) => f,
            Err(e) => {
                return Err(e);
            },
        };
        proof {
            lemma_key_view_eq(farm_state.stake_info.mint, stake_mint.key);
        }
        if !pubkey_eq(&farm_state.stake_info.mint, &stake_mint.key) {
            return Err(InstructionError::InvalidArgument);
        }
        if !pubkey_eq(&staker.owner, &ID) {
            return Err(InstructionError::IllegalOwner);
        }
        let staker_state = match Staker::try_from_account_data(
            staker.data.as_slice(),
            staker.data_address,
        ) {
            Ok(s) => s,
            Err(e) => {
                return Err(e);
            },
        };
        proof {
            lemma_key_view_eq(staker_state.farm, farm.key);
            lemma_key_view_eq(staker_state.user, user.key);
        }
        if !pubkey_eq(&staker_state.farm, &farm.key) {
            return Err(InstructionError::InvalidArgument);
        }
        if !pubkey_eq(&staker_state.user, &user.key) {
            return Err(InstructionError::InvalidArgument);
        }
        Ok(
            UnstakeAccounts {
                user: user.key,
                farm: farm.key,
                staker: staker.key,
                staker_authority: accounts[3].key,
                stake_mint: stake_mint.key,
                user_stake_token_account: accounts[5].key,
                staker_stake_token_account: accounts[6].key,
                stake_token_program: accounts[7].key,
            },
        )
    }

    /// Checks the derived address: the user's token account for the stake mint.
    pub fn check_addresses(&self, expected_user_stake_token_account: &Pubkey) -> (r: Result<
        (),
        InstructionError,
    >)
        ensures
            r == (if self.user_stake_token_account != *expected_user_stake_token_account {
                Err(InstructionError::InvalidArgument)
            } else {
                Ok(())
            }),
    {
        if !pubkey_eq(&self.user_stake_token_account, expected_user_stake_token_account) {
            return Err(InstructionError::InvalidArgument);
        }
        Ok(())
    }
}

impl Unstake {
    /// Reads the amount, one little-endian `u64`, from the instruction's arguments.
    pub fn try_from(accounts: UnstakeAccounts, args: &[u8]) -> (r: Result<Unstake, InstructionError>)
        ensures
            r is Ok <==> args@.len() == 8,
            match r {
                Ok(ix) => ix.accounts == accounts && ix.amount == le_value(args@.subrange(0, 8)),
                Err(e) => e == InstructionError::InvalidInstructionData,
            },
    {
        if args.len() != 8 {
            return Err(InstructionError::InvalidInstructionData);
        }
        let amount = read_u64(args, 0);
        Ok(Unstake { accounts, amount })
    }
}


impl UnstakeAccounts {
    /// The inputs of the derived address that `check_addresses` takes: the
    /// user's token account for the stake mint under the stake token program.
    pub fn address_seeds(&self) -> (r: AddressSeeds)
        ensures
            seed_list(&r.seeds) == seq![self.user@, self.stake_token_program@, self.stake_mint@],
            r.program_id == ASSOCIATED_TOKEN_PROGRAM_ID,
    {
        associated_token_account_seeds(&self.user, &self.stake_token_program, &self.stake_mint)
    }

    /// Derives the user's token account for the stake mint and checks the
    /// account given for it.
    pub fn check_derived_addresses(&self) -> (r: Result<(), InstructionError>)
        ensures
            derived_key_check(
                seq![self.user@, self.stake_token_program@, self.stake_mint@],
                ASSOCIATED_TOKEN_PROGRAM_ID@,
                self.user_stake_token_account@,
                r,
            ),
    {
        check_derived_key(&self.address_seeds(), &self.user_stake_token_account)
    }
}

impl Unstake {
    /// The seeds with which the staker's authority signs the withdrawal.
    pub fn signer_seeds(&self, authority_bump: u8) -> (r: Vec<Vec<u8>>)
        ensures
            seed_list(&r) == seq![
                STAKER_AUTHORITY_SEED@,
                self.accounts.staker@,
                seq![authority_bump],
            ],
    {
        staker_authority_seeds(&self.accounts.staker).with_bump(authority_bump)
    }
}

} // verus!
