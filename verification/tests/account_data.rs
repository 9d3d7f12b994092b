use farm_rewards::error::InstructionError;
use farm_rewards::layout::{FARM_ACCOUNT_LEN, STAKER_ACCOUNT_LEN};
use farm_rewards::state::{Farm, RewardInfo, Staker};
use farm_rewards::vault::{Vault, VAULT_ACCOUNT_LEN};
use farm_rewards::validation::program_account_data_check;

fn sample_farm() -> Farm {
    let mut farm = Farm::new([9u8; 32], 254, 253);
    farm.stake_info.total_amount = 0x0102_0304_0506_0708;
    farm.reward_infos[1] = RewardInfo {
        mint: [7u8; 32],
        available_amount: 11,
        issued_unclaimed_amount: 12,
        issued_cumulative_amount: 13,
        end_ts: 14,
        last_updated_ts: 15,
        rewards_per_share_scaled: (1u128 << 100) + 16,
    };
    farm
}

fn sample_staker() -> Staker {
    let mut s = Staker::new([1u8; 32], [2u8; 32], 99, 8, 9);
    s.stake_amount = 1234;
    s.rewards_tally_scaled[4] = u128::MAX;
    s.rewards_issued_unclaimed[2] = 77;
    s.last_claim_ts[0] = 5;
    s
}

#[test]
fn farm_layout_places_fields() {
    let data = sample_farm().to_account_data();
    assert_eq!(data.len(), FARM_ACCOUNT_LEN);
    assert_eq!(FARM_ACCOUNT_LEN, 488);
    assert_eq!(&data[0..32], &[9u8; 32]);
    assert_eq!(&data[32..40], &[8, 7, 6, 5, 4, 3, 2, 1]);
    // The second slot starts at 40 + 88.
    assert_eq!(&data[128..160], &[7u8; 32]);
    assert_eq!(data[160], 11);
    assert_eq!(&data[200..216], &((1u128 << 100) + 16).to_le_bytes());
    assert_eq!(data[480], 254);
    assert_eq!(data[481], 253);
    assert_eq!(&data[482..488], &[0u8; 6]);
}

#[test]
fn farm_account_data_roundtrip() {
    let farm = sample_farm();
    let data = farm.to_account_data();
    assert_eq!(Farm::try_from_account_data(&data, 8), Ok(farm));
}

#[test]
fn farm_data_must_fit() {
    let data = sample_farm().to_account_data();
    assert_eq!(Farm::try_from_account_data(&data[..487], 8), Err(InstructionError::InvalidAccountData));
    assert_eq!(Farm::try_from_account_data(&data, 12), Err(InstructionError::InvalidAccountData));
}

#[test]
fn staker_account_data_roundtrip() {
    let staker = sample_staker();
    let data = staker.to_account_data();
    assert_eq!(data.len(), STAKER_ACCOUNT_LEN);
    assert_eq!(STAKER_ACCOUNT_LEN, 248);
    assert_eq!(&data[64..72], &1234u64.to_le_bytes());
    assert_eq!(&data[136..152], &u128::MAX.to_le_bytes());
    assert_eq!(data[168], 77);
    assert_eq!(data[192], 5);
    assert_eq!(&data[232..240], &99u64.to_le_bytes());
    assert_eq!((data[240], data[241]), (8, 9));
    assert_eq!(Staker::try_from_account_data(&data, 16), Ok(staker));
}

#[test]
fn staker_data_must_fit() {
    let data = sample_staker().to_account_data();
    assert_eq!(Staker::try_from_account_data(&data[1..], 8), Err(InstructionError::InvalidAccountData));
    assert_eq!(Staker::try_from_account_data(&data, 4), Err(InstructionError::InvalidAccountData));
}

#[test]
fn vault_fields_are_read_after_discriminator() {
    let mut data = vec![0u8; VAULT_ACCOUNT_LEN];
    assert_eq!(VAULT_ACCOUNT_LEN, 928);
    data[8] = b'v';
    data[8 + 96..8 + 128].copy_from_slice(&[3u8; 32]);
    data[8 + 160..8 + 168].copy_from_slice(&500u64.to_le_bytes());
    data[8 + 264..8 + 296].copy_from_slice(&[4u8; 32]);
    data[8 + 360..8 + 392].copy_from_slice(&[5u8; 32]);
    data[8 + 392..8 + 424].copy_from_slice(&[6u8; 32]);
    data[8 + 504..8 + 506].copy_from_slice(&250u16.to_le_bytes());
    data[8 + 616..8 + 632].copy_from_slice(&7u128.to_le_bytes());
    data[8 + 656] = 2;
    data[8 + 664..8 + 672].copy_from_slice(&33u64.to_le_bytes());
    let vault = Vault::try_from_account_data(&data).unwrap();
    assert_eq!(vault.name[0], b'v');
    assert_eq!(vault.asset.mint, [3u8; 32]);
    assert_eq!(vault.asset.total_value, 500);
    assert_eq!(vault.lp.mint, [4u8; 32]);
    assert_eq!(vault.manager, [5u8; 32]);
    assert_eq!(vault.admin, [6u8; 32]);
    assert_eq!(vault.fee_configuration.manager_performance_fee, 250);
    assert_eq!(vault.high_water_mark.highest_asset_per_lp_decimal_bits, 7);
    assert_eq!(vault.version, 2);
    assert_eq!(vault.locked_profit_state.last_updated_locked_profit, 33);
}

#[test]
fn vault_data_must_have_vault_length() {
    let data = vec![0u8; VAULT_ACCOUNT_LEN - 8];
    assert_eq!(Vault::try_from_account_data(&data), Err(InstructionError::InvalidAccountData));
}

#[test]
fn account_data_check() {
    assert_eq!(program_account_data_check(488, 16, 488, 8), Ok(()));
    assert_eq!(program_account_data_check(487, 16, 488, 8), Err(InstructionError::InvalidAccountData));
    assert_eq!(program_account_data_check(488, 17, 488, 8), Err(InstructionError::InvalidAccountData));
}
