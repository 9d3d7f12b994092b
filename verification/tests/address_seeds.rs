use farm_rewards::instructions::add_reward::AddRewardAccounts;
use farm_rewards::instructions::claim_reward::{ClaimReward, ClaimRewardAccounts};
use farm_rewards::keys::{ASSOCIATED_TOKEN_PROGRAM_ID, ID};
use farm_rewards::error::InstructionError;
use farm_rewards::instructions::init_farm::{InitFarm, InitFarmAccounts};
use farm_rewards::seeds::{
    associated_token_account_seeds, check_derived_key, derived_address, farm_address_seeds,
    farm_authority_seeds, find_program_address, staker_address_seeds, staker_authority_seeds,
};

#[test]
fn seed_lists() {
    let farm = farm_address_seeds(&[9u8; 32]);
    assert_eq!(farm.seeds, vec![b"farm".to_vec(), vec![9u8; 32]]);
    assert_eq!(farm.program_id, ID);
    let authority = farm_authority_seeds(&[4u8; 32]);
    assert_eq!(authority.seeds, vec![b"farm_authority".to_vec(), vec![4u8; 32]]);
    let staker = staker_address_seeds(&[4u8; 32], &[1u8; 32]);
    assert_eq!(staker.seeds, vec![b"staker".to_vec(), vec![4u8; 32], vec![1u8; 32]]);
    let staker_authority = staker_authority_seeds(&[13u8; 32]);
    assert_eq!(staker_authority.seeds, vec![b"staker_authority".to_vec(), vec![13u8; 32]]);
    assert_eq!(staker_authority.program_id, ID);
    let ata = associated_token_account_seeds(&[1u8; 32], &[2u8; 32], &[3u8; 32]);
    assert_eq!(ata.seeds, vec![vec![1u8; 32], vec![2u8; 32], vec![3u8; 32]]);
    assert_eq!(ata.program_id, pinocchio_associated_token_account::ID);
    assert_eq!(ata.program_id, ASSOCIATED_TOKEN_PROGRAM_ID);
}

#[test]
fn seeds_with_bump() {
    let authority = farm_authority_seeds(&[4u8; 32]);
    assert_eq!(
        authority.with_bump(254),
        vec![b"farm_authority".to_vec(), vec![4u8; 32], vec![254u8]]
    );
}

#[test]
fn instruction_address_seeds() {
    let accounts = AddRewardAccounts {
        payer: [1u8; 32],
        manager: [2u8; 32],
        voltr_vault: [3u8; 32],
        farm: [4u8; 32],
        farm_authority: [5u8; 32],
        reward_mint: [7u8; 32],
        farm_reward_token_account: [6u8; 32],
        manager_reward_token_account: [10u8; 32],
        reward_token_program: [11u8; 32],
        associated_token_program: [12u8; 32],
        system_program: [0u8; 32],
    };
    let (authority, token_account) = accounts.address_seeds();
    assert_eq!(authority.seeds, vec![b"farm_authority".to_vec(), vec![4u8; 32]]);
    assert_eq!(token_account.seeds, vec![vec![5u8; 32], vec![11u8; 32], vec![7u8; 32]]);
    let claim = ClaimReward {
        accounts: ClaimRewardAccounts {
            user: [1u8; 32],
            farm: [4u8; 32],
            farm_authority: [5u8; 32],
            staker: [13u8; 32],
            reward_mint: [7u8; 32],
            farm_reward_token_account: [6u8; 32],
            user_reward_token_account: [14u8; 32],
            reward_token_program: [11u8; 32],
        },
    };
    assert_eq!(
        claim.accounts.address_seeds().seeds,
        vec![vec![1u8; 32], vec![11u8; 32], vec![7u8; 32]]
    );
    assert_eq!(claim.signer_seeds(9), vec![b"farm_authority".to_vec(), vec![4u8; 32], vec![9u8]]);
}

#[test]
fn derivation_off_chain_finds_no_address() {
    // Built for the host, the runtime's search is not there and finds nothing.
    let authority = farm_authority_seeds(&[4u8; 32]);
    assert_eq!(find_program_address(&authority), Err(InstructionError::InvalidSeeds));
    assert_eq!(derived_address(&authority), Err(InstructionError::InvalidSeeds));
    assert_eq!(check_derived_key(&authority, &[5u8; 32]), Err(InstructionError::InvalidSeeds));
    let accounts = InitFarmAccounts {
        payer: [1u8; 32],
        manager: [2u8; 32],
        voltr_vault: [3u8; 32],
        farm: [4u8; 32],
        farm_authority: [5u8; 32],
        stake_mint: [9u8; 32],
        system_program: [0u8; 32],
    };
    assert_eq!(accounts.check_derived_addresses(), Err(InstructionError::InvalidSeeds));
    assert_eq!(InitFarm::try_from(accounts).derive_bumps(), Err(InstructionError::InvalidSeeds));
}
