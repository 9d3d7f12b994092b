use vstd::prelude::*;

use crate::account::AccountSnapshot;
use crate::error::InstructionError;
use crate::instructions::add_reward::add_reward_accounts_result;
use crate::instructions::claim_reward::claim_reward_accounts_result;
use crate::instructions::init_farm::init_farm_accounts_result;
use crate::instructions::init_staker::init_staker_accounts_result;
use crate::instructions::unstake::unstake_accounts_result;
use crate::keys::{ID, TOKEN_PROGRAM_ID, VAULT_PROGRAM_ID};

verus! {

// What the account checks of the instructions promise, stated by account
// position and by the byte ranges of a vault account: the vault's manager in
// bytes 368..400 and its admin in bytes 400..432 (an eight-byte
// discriminator, then the vault's fields in `repr(C)` order).

/// `key` is neither the manager nor the admin of the vault in `data`.
pub open spec fn neither_manager_nor_admin(data: Seq<u8>, key: Seq<u8>) -> bool {
    key != data.subrange(368, 400) && key != data.subrange(400, 432)
}

/// Creating a farm is refused for want of a signature exactly when the
/// second account did not sign, or, the vault account being a vault of the
/// vault program, it is neither the vault's manager nor its admin: the
/// manager and the admin may both create a farm.
pub proof fn farm_creation_needs_manager_or_admin(a: Seq<AccountSnapshot>)
    requires
        a.len() == 7,
    ensures
        (init_farm_accounts_result(a) matches Err(InstructionError::MissingRequiredSignature))
            <==> (!a[1].is_signer || (a[2].owner == VAULT_PROGRAM_ID && a[2].data@.len() == 928
            && neither_manager_nor_admin(a[2].data@, a[1].key@))),
{
}

/// Adding a reward is refused for want of a signature exactly when the
/// second account did not sign, or, the vault account being a vault of the
/// vault program, it is neither the vault's manager nor its admin.
pub proof fn adding_reward_needs_manager_or_admin(a: Seq<AccountSnapshot>)
    requires
        a.len() == 11,
    ensures
        (add_reward_accounts_result(a) matches Err(InstructionError::MissingRequiredSignature))
            <==> (!a[1].is_signer || (a[2].owner == VAULT_PROGRAM_ID && a[2].data@.len() == 928
            && neither_manager_nor_admin(a[2].data@, a[1].key@))),
{
}

/// Claiming, unstaking and opening a staker are refused for want of a
/// signature exactly when the user did not sign.
pub proof fn user_instructions_need_the_user(a: Seq<AccountSnapshot>)
    ensures
        a.len() == 8 ==> ((claim_reward_accounts_result(a) matches Err(
            InstructionError::MissingRequiredSignature,
        )) <==> !a[0].is_signer),
        a.len() == 8 ==> ((unstake_accounts_result(a) matches Err(
            InstructionError::MissingRequiredSignature,
        )) <==> !a[0].is_signer),
        a.len() == 10 ==> ((init_staker_accounts_result(a) matches Err(
            InstructionError::MissingRequiredSignature,
        )) <==> !a[1].is_signer),
{
}

/// Each account that an instruction names is taken from its position:
/// for creating a farm, payer, manager, vault, farm, farm authority, stake
/// mint, system program.
pub proof fn farm_creation_accounts_by_position(a: Seq<AccountSnapshot>)
    ensures
        init_farm_accounts_result(a) matches Ok(k) ==> {
            &&& a.len() == 7
            &&& k.payer == a[0].key
            &&& k.manager == a[1].key
            &&& k.voltr_vault == a[2].key
            &&& k.farm == a[3].key
            &&& k.farm_authority == a[4].key
            &&& k.stake_mint == a[5].key
            &&& k.system_program == a[6].key
        },
{
}

/// For adding a reward: payer, manager, vault, farm, farm authority, reward
/// mint, the farm's and the manager's reward token accounts, the reward token
/// program, the associated token program, the system program.
pub proof fn adding_reward_accounts_by_position(a: Seq<AccountSnapshot>)
    ensures
        add_reward_accounts_result(a) matches Ok(k) ==> {
            &&& a.len() == 11
            &&& k.payer == a[0].key
            &&& k.manager == a[1].key
            &&& k.voltr_vault == a[2].key
            &&& k.farm == a[3].key
            &&& k.farm_authority == a[4].key
            &&& k.reward_mint == a[5].key
            &&& k.farm_reward_token_account == a[6].key
            &&& k.manager_reward_token_account == a[7].key
            &&& k.reward_token_program == a[8].key
            &&& k.associated_token_program == a[9].key
            &&& k.system_program == a[10].key
        },
{
}

/// For a claim: user, farm, farm authority, staker, reward mint, the farm's
/// and the user's reward token accounts, the reward token program.
pub proof fn claim_accounts_by_position(a: Seq<AccountSnapshot>)
    ensures
        claim_reward_accounts_result(a) matches Ok(k) ==> {
            &&& a.len() == 8
            &&& k.user == a[0].key
            &&& k.farm == a[1].key
            &&& k.farm_authority == a[2].key
            &&& k.staker == a[3].key
            &&& k.reward_mint == a[4].key
            &&& k.farm_reward_token_account == a[5].key
            &&& k.user_reward_token_account == a[6].key
            &&& k.reward_token_program == a[7].key
        },
{
}

/// For unstaking: user, farm, staker, staker authority, stake mint, the
/// user's and the staker's stake token accounts, the stake token program.
pub proof fn unstake_accounts_by_position(a: Seq<AccountSnapshot>)
    ensures
        unstake_accounts_result(a) matches Ok(k) ==> {
            &&& a.len() == 8
            &&& k.user == a[0].key
            &&& k.farm == a[1].key
            &&& k.staker == a[2].key
            &&& k.staker_authority == a[3].key
            &&& k.stake_mint == a[4].key
            &&& k.user_stake_token_account == a[5].key
            &&& k.staker_stake_token_account == a[6].key
            &&& k.stake_token_program == a[7].key
        },
{
}

/// For opening a staker: payer, user, farm, staker, staker authority, stake
/// mint, the staker's stake token account, the stake token program, the
/// associated token program, the system program.
pub proof fn staker_creation_accounts_by_position(a: Seq<AccountSnapshot>)
    ensures
        init_staker_accounts_result(a) matches Ok(k) ==> {
            &&& a.len() == 10
            &&& k.payer == a[0].key
            &&& k.user == a[1].key
            &&& k.farm == a[2].key
            &&& k.staker == a[3].key
            &&& k.staker_authority == a[4].key
            &&& k.stake_mint == a[5].key
            &&& k.staker_stake_token_account == a[6].key
            &&& k.stake_token_program == a[7].key
            &&& k.associated_token_program == a[8].key
            &&& k.system_program == a[9].key
        },
{
}

/// The accounts of a farm's creation pass the checks (all but the derived
/// address) exactly when there are seven, the second signed, the third is an
/// account of 928 bytes of the vault program whose manager or admin the second
/// is and whose LP mint (bytes 272..304) is the sixth, and the sixth is an
/// account of 82 bytes of the token program.
pub proof fn farm_creation_accounts_accepted(a: Seq<AccountSnapshot>)
    ensures
        init_farm_accounts_result(a) is Ok <==> {
            &&& a.len() == 7
            &&& a[1].is_signer
            &&& a[2].owner == VAULT_PROGRAM_ID
            &&& a[2].data@.len() == 928
            &&& !neither_manager_nor_admin(a[2].data@, a[1].key@)
            &&& a[2].data@.subrange(272, 304) == a[5].key@
            &&& a[5].owner == TOKEN_PROGRAM_ID
            &&& a[5].data@.len() == 82
        },
{
}

/// The accounts of adding a reward pass the checks (all but the derived
/// addresses) exactly when there are eleven, the second signed, the third is
/// an account of 928 bytes of the vault program whose manager or admin the
/// second is, and the fourth belongs to this program.
pub proof fn adding_reward_accounts_accepted(a: Seq<AccountSnapshot>)
    ensures
        add_reward_accounts_result(a) is Ok <==> {
            &&& a.len() == 11
            &&& a[1].is_signer
            &&& a[2].owner == VAULT_PROGRAM_ID
            &&& a[2].data@.len() == 928
            &&& !neither_manager_nor_admin(a[2].data@, a[1].key@)
            &&& a[3].owner == ID
        },
{
}

/// The accounts of a claim pass the checks (all but the derived address)
/// exactly when there are eight, the first signed, the second and the fourth
/// belong to this program, and the fourth holds 248 bytes, aligned to 8, whose
/// user (bytes 0..32) is the first and whose farm (bytes 32..64) is the second.
pub proof fn claim_accounts_accepted(a: Seq<AccountSnapshot>)
    ensures
        claim_reward_accounts_result(a) is Ok <==> {
            &&& a.len() == 8
            &&& a[0].is_signer
            &&& a[1].owner == ID
            &&& a[3].owner == ID
            &&& a[3].data@.len() == 248
            &&& a[3].data_address % 8 == 0
            &&& a[3].data@.subrange(0, 32) == a[0].key@
            &&& a[3].data@.subrange(32, 64) == a[1].key@
        },
{
}

/// The accounts of an unstake pass the checks (all but the derived address)
/// exactly when there are eight, the first signed, the second belongs to this
/// program and holds 488 bytes, aligned to 8, whose stake mint (bytes 0..32) is
/// the fifth, and the third belongs to this program and holds 248 bytes,
/// aligned to 8, whose user is the first and whose farm is the second.
pub proof fn unstake_accounts_accepted(a: Seq<AccountSnapshot>)
    ensures
        unstake_accounts_result(a) is Ok <==> {
            &&& a.len() == 8
            &&& a[0].is_signer
            &&& a[1].owner == ID
            &&& a[1].data@.len() == 488
            &&& a[1].data_address % 8 == 0
            &&& a[1].data@.subrange(0, 32) == a[4].key@
            &&& a[2].owner == ID
            &&& a[2].data@.len() == 248
            &&& a[2].data_address % 8 == 0
            &&& a[2].data@.subrange(0, 32) == a[0].key@
            &&& a[2].data@.subrange(32, 64) == a[1].key@
        },
{
}

/// The accounts of a staker's creation pass the checks (all but the derived
/// address) exactly when there are ten, the second signed, and the third
/// belongs to this program and holds 488 bytes, aligned to 8, whose stake mint
/// (bytes 0..32) is the sixth.
pub proof fn staker_creation_accounts_accepted(a: Seq<AccountSnapshot>)
    ensures
        init_staker_accounts_result(a) is Ok <==> {
            &&& a.len() == 10
            &&& a[1].is_signer
            &&& a[2].owner == ID
            &&& a[2].data@.len() == 488
            &&& a[2].data_address % 8 == 0
            &&& a[2].data@.subrange(0, 32) == a[5].key@
        },
{
}

} // verus!
