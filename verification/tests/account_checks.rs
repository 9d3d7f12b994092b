use farm_rewards::account::{AccountSnapshot, Context};
use farm_rewards::error::InstructionError;
use farm_rewards::instructions::add_reward::{AddReward, AddRewardAccounts};
use farm_rewards::instructions::claim_reward::ClaimRewardAccounts;
use farm_rewards::instructions::init_farm::InitFarmAccounts;
use farm_rewards::instructions::init_staker::InitStakerAccounts;
use farm_rewards::instructions::unstake::{Unstake, UnstakeAccounts};
use farm_rewards::keys::{ID, TOKEN_PROGRAM_ID, VAULT_PROGRAM_ID};
use farm_rewards::state::{Farm, Staker};
use farm_rewards::vault::VAULT_ACCOUNT_LEN;

const MANAGER: [u8; 32] = [2u8; 32];
const ADMIN: [u8; 32] = [22u8; 32];
const STAKE_MINT: [u8; 32] = [9u8; 32];
const USER: [u8; 32] = [1u8; 32];
const FARM: [u8; 32] = [4u8; 32];

fn account(key: [u8; 32], owner: [u8; 32], is_signer: bool, data: Vec<u8>) -> AccountSnapshot {
    AccountSnapshot { key, owner, is_signer, data, data_address: 64 }
}

fn plain(key: u8) -> AccountSnapshot {
    account([key; 32], [0u8; 32], false, Vec::new())
}

fn vault_data(manager: [u8; 32], admin: [u8; 32], lp_mint: [u8; 32]) -> Vec<u8> {
    let mut data = vec![0u8; VAULT_ACCOUNT_LEN];
    data[8 + 264..8 + 296].copy_from_slice(&lp_mint);
    data[8 + 360..8 + 392].copy_from_slice(&manager);
    data[8 + 392..8 + 424].copy_from_slice(&admin);
    data
}

fn add_reward_accounts() -> Vec<AccountSnapshot> {
    vec![
        plain(30),
        account(MANAGER, [0u8; 32], true, Vec::new()),
        account([3u8; 32], VAULT_PROGRAM_ID, false, vault_data(MANAGER, ADMIN, STAKE_MINT)),
        account(FARM, ID, false, Farm::new(STAKE_MINT, 1, 2).to_account_data()),
        plain(5),
        plain(7),
        plain(6),
        plain(31),
        plain(11),
        plain(12),
        plain(0),
    ]
}

#[test]
fn add_reward_accounts_accepted() {
    let accts = AddRewardAccounts::try_from(&add_reward_accounts()).unwrap();
    assert_eq!(accts.manager, MANAGER);
    assert_eq!(accts.farm, FARM);
    assert_eq!(accts.reward_mint, [7u8; 32]);
    assert_eq!(accts.check_addresses(&[5u8; 32], &[6u8; 32]), Ok(()));
    assert_eq!(accts.check_addresses(&[50u8; 32], &[6u8; 32]), Err(InstructionError::InvalidArgument));
    assert_eq!(accts.check_addresses(&[5u8; 32], &[60u8; 32]), Err(InstructionError::InvalidArgument));
    let mut args = 1000u64.to_le_bytes().to_vec();
    args.extend_from_slice(&77u64.to_le_bytes());
    let ix = AddReward::try_from(accts, &args).unwrap();
    assert_eq!((ix.amount, ix.end_ts), (1000, 77));
    assert_eq!(AddReward::try_from(accts, &args[..15]), Err(InstructionError::InvalidInstructionData));
}

#[test]
fn add_reward_admin_may_sign() {
    let mut accounts = add_reward_accounts();
    accounts[1].key = ADMIN;
    assert!(AddRewardAccounts::try_from(&accounts).is_ok());
}

#[test]
fn add_reward_accounts_refused() {
    let mut a = add_reward_accounts();
    a.pop();
    assert_eq!(AddRewardAccounts::try_from(&a), Err(InstructionError::NotEnoughAccountKeys));
    let mut a = add_reward_accounts();
    a.push(plain(40));
    assert_eq!(AddRewardAccounts::try_from(&a), Err(InstructionError::NotEnoughAccountKeys));
    let mut a = add_reward_accounts();
    a[1].is_signer = false;
    assert_eq!(AddRewardAccounts::try_from(&a), Err(InstructionError::MissingRequiredSignature));
    let mut a = add_reward_accounts();
    a[2].owner = ID;
    assert_eq!(AddRewardAccounts::try_from(&a), Err(InstructionError::IllegalOwner));
    let mut a = add_reward_accounts();
    a[2].data.pop();
    assert_eq!(AddRewardAccounts::try_from(&a), Err(InstructionError::InvalidAccountData));
    let mut a = add_reward_accounts();
    a[1].key = [44u8; 32];
    assert_eq!(AddRewardAccounts::try_from(&a), Err(InstructionError::MissingRequiredSignature));
    let mut a = add_reward_accounts();
    a[3].owner = VAULT_PROGRAM_ID;
    assert_eq!(AddRewardAccounts::try_from(&a), Err(InstructionError::IllegalOwner));
}

fn init_farm_accounts() -> Vec<AccountSnapshot> {
    vec![
        plain(30),
        account(MANAGER, [0u8; 32], true, Vec::new()),
        account([3u8; 32], VAULT_PROGRAM_ID, false, vault_data(MANAGER, ADMIN, STAKE_MINT)),
        plain(4),
        plain(5),
        account(STAKE_MINT, TOKEN_PROGRAM_ID, false, vec![0u8; 82]),
        plain(0),
    ]
}

#[test]
fn init_farm_accounts_accepted() {
    let accts = InitFarmAccounts::try_from(&init_farm_accounts()).unwrap();
    assert_eq!(accts.stake_mint, STAKE_MINT);
    assert_eq!(accts.check_addresses(&[5u8; 32]), Ok(()));
    assert_eq!(accts.check_addresses(&[6u8; 32]), Err(InstructionError::InvalidArgument));
}

#[test]
fn init_farm_accounts_refused() {
    let mut a = init_farm_accounts();
    a.pop();
    assert_eq!(InitFarmAccounts::try_from(&a), Err(InstructionError::NotEnoughAccountKeys));
    let mut a = init_farm_accounts();
    a[1].is_signer = false;
    assert_eq!(InitFarmAccounts::try_from(&a), Err(InstructionError::MissingRequiredSignature));
    let mut a = init_farm_accounts();
    a[2].owner = [0u8; 32];
    assert_eq!(InitFarmAccounts::try_from(&a), Err(InstructionError::IllegalOwner));
    let mut a = init_farm_accounts();
    a[2].data = vec![0u8; 10];
    assert_eq!(InitFarmAccounts::try_from(&a), Err(InstructionError::InvalidAccountData));
    let mut a = init_farm_accounts();
    a[2].data = vault_data([44u8; 32], [45u8; 32], STAKE_MINT);
    assert_eq!(InitFarmAccounts::try_from(&a), Err(InstructionError::MissingRequiredSignature));
    let mut a = init_farm_accounts();
    a[2].data = vault_data(MANAGER, ADMIN, [46u8; 32]);
    assert_eq!(InitFarmAccounts::try_from(&a), Err(InstructionError::InvalidAccountData));
    let mut a = init_farm_accounts();
    a[5].owner = ID;
    assert_eq!(InitFarmAccounts::try_from(&a), Err(InstructionError::IllegalOwner));
    let mut a = init_farm_accounts();
    a[5].data = vec![0u8; 81];
    assert_eq!(InitFarmAccounts::try_from(&a), Err(InstructionError::InvalidAccountData));
}

fn init_staker_accounts() -> Vec<AccountSnapshot> {
    vec![
        plain(30),
        account(USER, [0u8; 32], true, Vec::new()),
        account(FARM, ID, false, Farm::new(STAKE_MINT, 1, 2).to_account_data()),
        plain(13),
        plain(15),
        plain(9),
        plain(17),
        plain(11),
        plain(12),
        plain(0),
    ]
}

#[test]
fn init_staker_accounts_checks() {
    let accts = InitStakerAccounts::try_from(&init_staker_accounts()).unwrap();
    assert_eq!(accts.user, USER);
    assert_eq!(accts.check_addresses(&[15u8; 32]), Ok(()));
    assert_eq!(accts.check_addresses(&[16u8; 32]), Err(InstructionError::InvalidArgument));
    let mut a = init_staker_accounts();
    a.truncate(9);
    assert_eq!(InitStakerAccounts::try_from(&a), Err(InstructionError::NotEnoughAccountKeys));
    let mut a = init_staker_accounts();
    a[1].is_signer = false;
    assert_eq!(InitStakerAccounts::try_from(&a), Err(InstructionError::MissingRequiredSignature));
    let mut a = init_staker_accounts();
    a[2].owner = VAULT_PROGRAM_ID;
    assert_eq!(InitStakerAccounts::try_from(&a), Err(InstructionError::IllegalOwner));
    let mut a = init_staker_accounts();
    a[2].data_address = 65;
    assert_eq!(InitStakerAccounts::try_from(&a), Err(InstructionError::InvalidAccountData));
    let mut a = init_staker_accounts();
    a[5].key = [8u8; 32];
    assert_eq!(InitStakerAccounts::try_from(&a), Err(InstructionError::InvalidAccountData));
}

fn staker_data(user: [u8; 32], farm: [u8; 32]) -> Vec<u8> {
    Staker::new(user, farm, 0, 1, 2).to_account_data()
}

fn claim_accounts() -> Vec<AccountSnapshot> {
    vec![
        account(USER, [0u8; 32], true, Vec::new()),
        account(FARM, ID, false, Vec::new()),
        plain(5),
        account([13u8; 32], ID, false, staker_data(USER, FARM)),
        plain(7),
        plain(6),
        plain(14),
        plain(11),
    ]
}

#[test]
fn claim_accounts_checks() {
    let accts = ClaimRewardAccounts::try_from(&claim_accounts()).unwrap();
    assert_eq!(accts.reward_mint, [7u8; 32]);
    assert_eq!(accts.check_addresses(&[14u8; 32]), Ok(()));
    assert_eq!(accts.check_addresses(&[15u8; 32]), Err(InstructionError::InvalidArgument));
    let mut a = claim_accounts();
    a.pop();
    assert_eq!(ClaimRewardAccounts::try_from(&a), Err(InstructionError::NotEnoughAccountKeys));
    let mut a = claim_accounts();
    a[0].is_signer = false;
    assert_eq!(ClaimRewardAccounts::try_from(&a), Err(InstructionError::MissingRequiredSignature));
    let mut a = claim_accounts();
    a[1].owner = [0u8; 32];
    assert_eq!(ClaimRewardAccounts::try_from(&a), Err(InstructionError::IllegalOwner));
    let mut a = claim_accounts();
    a[3].owner = [0u8; 32];
    assert_eq!(ClaimRewardAccounts::try_from(&a), Err(InstructionError::IllegalOwner));
    let mut a = claim_accounts();
    a[3].data.pop();
    assert_eq!(ClaimRewardAccounts::try_from(&a), Err(InstructionError::InvalidAccountData));
    let mut a = claim_accounts();
    a[3].data = staker_data(USER, [40u8; 32]);
    assert_eq!(ClaimRewardAccounts::try_from(&a), Err(InstructionError::InvalidArgument));
    let mut a = claim_accounts();
    a[3].data = staker_data([41u8; 32], FARM);
    assert_eq!(ClaimRewardAccounts::try_from(&a), Err(InstructionError::InvalidArgument));
}

fn unstake_accounts() -> Vec<AccountSnapshot> {
    vec![
        account(USER, [0u8; 32], true, Vec::new()),
        account(FARM, ID, false, Farm::new(STAKE_MINT, 1, 2).to_account_data()),
        account([13u8; 32], ID, false, staker_data(USER, FARM)),
        plain(15),
        plain(9),
        plain(16),
        plain(17),
        plain(11),
    ]
}

#[test]
fn unstake_accounts_checks() {
    let accts = UnstakeAccounts::try_from(&unstake_accounts()).unwrap();
    assert_eq!(accts.stake_mint, STAKE_MINT);
    assert_eq!(accts.check_addresses(&[16u8; 32]), Ok(()));
    assert_eq!(accts.check_addresses(&[17u8; 32]), Err(InstructionError::InvalidArgument));
    let ix = Unstake::try_from(accts, &5u64.to_le_bytes()).unwrap();
    assert_eq!(ix.amount, 5);
    assert_eq!(Unstake::try_from(accts, &[1, 2, 3]), Err(InstructionError::InvalidInstructionData));
    let mut a = unstake_accounts();
    a.pop();
    assert_eq!(UnstakeAccounts::try_from(&a), Err(InstructionError::NotEnoughAccountKeys));
    let mut a = unstake_accounts();
    a[0].is_signer = false;
    assert_eq!(UnstakeAccounts::try_from(&a), Err(InstructionError::MissingRequiredSignature));
    let mut a = unstake_accounts();
    a[1].owner = [0u8; 32];
    assert_eq!(UnstakeAccounts::try_from(&a), Err(InstructionError::IllegalOwner));
    let mut a = unstake_accounts();
    a[1].data.pop();
    assert_eq!(UnstakeAccounts::try_from(&a), Err(InstructionError::InvalidAccountData));
    let mut a = unstake_accounts();
    a[4].key = [8u8; 32];
    assert_eq!(UnstakeAccounts::try_from(&a), Err(InstructionError::InvalidArgument));
    let mut a = unstake_accounts();
    a[2].owner = [0u8; 32];
    assert_eq!(UnstakeAccounts::try_from(&a), Err(InstructionError::IllegalOwner));
    let mut a = unstake_accounts();
    a[2].data_address = 3;
    assert_eq!(UnstakeAccounts::try_from(&a), Err(InstructionError::InvalidAccountData));
    let mut a = unstake_accounts();
    a[2].data = staker_data(USER, [40u8; 32]);
    assert_eq!(UnstakeAccounts::try_from(&a), Err(InstructionError::InvalidArgument));
    let mut a = unstake_accounts();
    a[2].data = staker_data([41u8; 32], FARM);
    assert_eq!(UnstakeAccounts::try_from(&a), Err(InstructionError::InvalidArgument));
}

#[test]
fn context_from_parts() {
    let ctx = Context::from((unstake_accounts(), vec![3, 1]));
    assert_eq!(ctx.accounts.len(), 8);
    assert_eq!(ctx.instruction_data, vec![3, 1]);
}
