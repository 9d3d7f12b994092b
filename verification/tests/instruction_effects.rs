use farm_rewards::error::FarmError;
use farm_rewards::instructions::add_reward::{AddReward, AddRewardAccounts};
use farm_rewards::instructions::claim_reward::{ClaimReward, ClaimRewardAccounts};
use farm_rewards::instructions::init_farm::{InitFarm, InitFarmAccounts};
use farm_rewards::instructions::init_staker::{InitStaker, InitStakerAccounts};
use farm_rewards::instructions::unstake::{Unstake, UnstakeAccounts};
use farm_rewards::state::{Farm, RewardInfo, Staker};

const REWARD_MINT: [u8; 32] = [7u8; 32];
const STAKE_MINT: [u8; 32] = [9u8; 32];

fn add_reward(mint: [u8; 32], amount: u64, end_ts: u64) -> AddReward {
    AddReward {
        accounts: AddRewardAccounts {
            payer: [1u8; 32],
            manager: [2u8; 32],
            voltr_vault: [3u8; 32],
            farm: [4u8; 32],
            farm_authority: [5u8; 32],
            reward_mint: mint,
            farm_reward_token_account: [6u8; 32],
            manager_reward_token_account: [10u8; 32],
            reward_token_program: [11u8; 32],
            associated_token_program: [12u8; 32],
            system_program: [0u8; 32],
        },
        amount,
        end_ts,
    }
}

fn claim(mint: [u8; 32]) -> ClaimReward {
    ClaimReward {
        accounts: ClaimRewardAccounts {
            user: [1u8; 32],
            farm: [4u8; 32],
            farm_authority: [5u8; 32],
            staker: [13u8; 32],
            reward_mint: mint,
            farm_reward_token_account: [6u8; 32],
            user_reward_token_account: [14u8; 32],
            reward_token_program: [11u8; 32],
        },
    }
}

fn unstake(amount: u64) -> Unstake {
    Unstake {
        accounts: UnstakeAccounts {
            user: [1u8; 32],
            farm: [4u8; 32],
            staker: [13u8; 32],
            staker_authority: [15u8; 32],
            stake_mint: STAKE_MINT,
            user_stake_token_account: [16u8; 32],
            staker_stake_token_account: [17u8; 32],
            stake_token_program: [11u8; 32],
        },
        amount,
    }
}

fn staked_farm(total: u64) -> Farm {
    let mut farm = Farm::new(STAKE_MINT, 1, 2);
    farm.stake_info.total_amount = total;
    farm
}

fn staker_with(stake: u64) -> Staker {
    let mut s = Staker::new([1u8; 32], [4u8; 32], 0, 1, 2);
    s.stake_amount = stake;
    s
}

#[test]
fn add_reward_fills_first_free_slot() {
    let mut farm = staked_farm(10);
    assert_eq!(add_reward(REWARD_MINT, 1000, 100).execute(&mut farm, 0), Ok(()));
    let info = farm.reward_infos[0];
    assert_eq!(info.mint, REWARD_MINT);
    assert_eq!(info.available_amount, 1000);
    assert_eq!(info.end_ts, 100);
    assert_eq!(info.last_updated_ts, 0);
    assert_eq!(farm.reward_infos[1], RewardInfo::empty());
}

#[test]
fn add_reward_tops_up_existing_token_and_restarts_emission() {
    let mut farm = staked_farm(10);
    add_reward(REWARD_MINT, 1000, 100).execute(&mut farm, 0).unwrap();
    add_reward([8u8; 32], 50, 100).execute(&mut farm, 0).unwrap();
    assert_eq!(add_reward(REWARD_MINT, 200, 300).execute(&mut farm, 50), Ok(()));
    let info = farm.reward_infos[0];
    // 500 emitted up to time 50, then 200 more added.
    assert_eq!(info.available_amount, 700);
    assert_eq!(info.issued_unclaimed_amount, 500);
    assert_eq!(info.end_ts, 300);
    assert_eq!(info.last_updated_ts, 50);
    assert_eq!(farm.reward_infos[1].mint, [8u8; 32]);
}

#[test]
fn add_reward_adds_exactly_amount_to_outstanding() {
    let mut farm = staked_farm(10);
    add_reward(REWARD_MINT, 1000, 100).execute(&mut farm, 0).unwrap();
    let before: u64 = farm.reward_infos.iter().map(|r| r.available_amount + r.issued_unclaimed_amount).sum();
    add_reward(REWARD_MINT, 250, 100).execute(&mut farm, 40).unwrap();
    let after: u64 = farm.reward_infos.iter().map(|r| r.available_amount + r.issued_unclaimed_amount).sum();
    assert_eq!(after, before + 250);
}

#[test]
fn add_reward_refuses_past_end() {
    let mut farm = staked_farm(10);
    let before = farm;
    assert_eq!(add_reward(REWARD_MINT, 1, 9).execute(&mut farm, 10), Err(FarmError::InvalidEndTs));
    assert_eq!(farm, before);
}

#[test]
fn add_reward_refuses_when_every_slot_is_taken() {
    let mut farm = staked_farm(10);
    for i in 0..farm.reward_infos.len() {
        add_reward([20 + i as u8; 32], 1, 100).execute(&mut farm, 0).unwrap();
    }
    let before = farm;
    assert_eq!(
        add_reward(REWARD_MINT, 1, 100).execute(&mut farm, 0),
        Err(FarmError::MaxRewardsReached)
    );
    assert_eq!(farm, before);
}

#[test]
fn add_reward_overflow_leaves_mint_in_slot() {
    let mut farm = staked_farm(0);
    // An unused slot that somehow holds an available amount.
    farm.reward_infos[0].available_amount = u64::MAX;
    assert_eq!(
        add_reward(REWARD_MINT, 1, 100).execute(&mut farm, 0),
        Err(FarmError::IntegerOverflow)
    );
    assert_eq!(farm.reward_infos[0].mint, REWARD_MINT);
    assert_eq!(farm.reward_infos[0].available_amount, u64::MAX);
    assert_eq!(farm.reward_infos[0].end_ts, 0);
}

#[test]
fn add_reward_without_free_slot_keeps_refresh() {
    let mut farm = staked_farm(10);
    for i in 0..farm.reward_infos.len() {
        add_reward([20 + i as u8; 32], 100, 100).execute(&mut farm, 0).unwrap();
    }
    assert_eq!(
        add_reward(REWARD_MINT, 1, 100).execute(&mut farm, 50),
        Err(FarmError::MaxRewardsReached)
    );
    assert_eq!(farm.reward_infos[0].available_amount, 50);
    assert_eq!(farm.reward_infos[0].last_updated_ts, 50);
}

#[test]
fn add_reward_refuses_available_overflow() {
    let mut farm = staked_farm(0);
    add_reward(REWARD_MINT, u64::MAX, 100).execute(&mut farm, 0).unwrap();
    assert_eq!(
        add_reward(REWARD_MINT, 1, 100).execute(&mut farm, 0),
        Err(FarmError::IntegerOverflow)
    );
}

fn farm_and_staker_at_50() -> (Farm, Staker) {
    let mut farm = staked_farm(10);
    add_reward(REWARD_MINT, 1000, 100).execute(&mut farm, 0).unwrap();
    (farm, staker_with(10))
}

#[test]
fn claim_pays_what_is_owed() {
    let (mut farm, mut staker) = farm_and_staker_at_50();
    let held = |f: &Farm| -> u64 {
        f.reward_infos.iter().map(|r| r.available_amount + r.issued_unclaimed_amount).sum()
    };
    let before = held(&farm);
    assert_eq!(claim(REWARD_MINT).execute(&mut farm, &mut staker, 50), Ok(500));
    assert_eq!(held(&farm) + 500, before);
    assert_eq!(farm.reward_infos[0].issued_unclaimed_amount, 0);
    assert_eq!(farm.reward_infos[0].available_amount, 500);
    assert_eq!(farm.reward_infos[0].issued_cumulative_amount, 500);
    assert_eq!(staker.rewards_issued_unclaimed[0], 0);
    assert_eq!(staker.last_claim_ts[0], 50);
    assert_eq!(staker.rewards_tally_scaled[0], 50_000_000_000_000);
}

#[test]
fn second_claim_at_same_time_finds_nothing() {
    let (mut farm, mut staker) = farm_and_staker_at_50();
    claim(REWARD_MINT).execute(&mut farm, &mut staker, 50).unwrap();
    let (f, s) = (farm, staker);
    assert_eq!(
        claim(REWARD_MINT).execute(&mut farm, &mut staker, 50),
        Err(FarmError::NothingToClaim)
    );
    assert_eq!((farm, staker), (f, s));
    // Later, more has been issued.
    assert_eq!(claim(REWARD_MINT).execute(&mut farm, &mut staker, 60), Ok(100));
}

#[test]
fn claim_of_unknown_token_is_refused() {
    let (mut farm, mut staker) = farm_and_staker_at_50();
    assert_eq!(
        claim([5u8; 32]).execute(&mut farm, &mut staker, 50),
        Err(FarmError::RewardNotFound)
    );
    // Both were brought up to date before the lookup failed.
    assert_eq!(farm.reward_infos[0].issued_unclaimed_amount, 500);
    assert_eq!(staker.rewards_issued_unclaimed[0], 500);
}

#[test]
fn claim_with_unissued_amount_is_refused() {
    let (mut farm, mut staker) = farm_and_staker_at_50();
    // The staker is owed more than the farm has issued.
    staker.rewards_issued_unclaimed[0] = 600;
    staker.rewards_tally_scaled[0] = 50_000_000_000_000;
    assert_eq!(
        claim(REWARD_MINT).execute(&mut farm, &mut staker, 50),
        Err(FarmError::IntegerOverflow)
    );
    assert_eq!(staker.rewards_issued_unclaimed[0], 600);
}

#[test]
fn unstake_credits_then_withdraws() {
    let (mut farm, mut staker) = farm_and_staker_at_50();
    assert_eq!(unstake(4).execute(&mut farm, &mut staker, 50), Ok(()));
    assert_eq!(farm.stake_info.total_amount, 6);
    assert_eq!(staker.stake_amount, 6);
    assert_eq!(staker.rewards_issued_unclaimed[0], 500);
    assert_eq!(farm.reward_infos[0].issued_unclaimed_amount, 500);
}

#[test]
fn unstake_refuses_zero() {
    let (mut farm, mut staker) = farm_and_staker_at_50();
    assert_eq!(unstake(0).execute(&mut farm, &mut staker, 50), Err(FarmError::InvalidAmount));
}

#[test]
fn unstake_refuses_more_than_staked() {
    let (mut farm, mut staker) = farm_and_staker_at_50();
    let before = (farm, staker);
    assert_eq!(
        unstake(11).execute(&mut farm, &mut staker, 50),
        Err(FarmError::InsufficientStake)
    );
    assert_eq!((farm, staker), before);
}

#[test]
fn unstake_refuses_more_than_farm_total() {
    let (mut farm, mut staker) = farm_and_staker_at_50();
    farm.stake_info.total_amount = 3;
    assert_eq!(unstake(4).execute(&mut farm, &mut staker, 50), Err(FarmError::IntegerOverflow));
    // Both were brought up to date; the stake was not moved.
    assert_eq!(farm.stake_info.total_amount, 3);
    assert_eq!(staker.stake_amount, 10);
    assert_eq!(farm.reward_infos[0].last_updated_ts, 50);
    assert_eq!(staker.rewards_issued_unclaimed[0], 1666);
}

#[test]
fn init_farm_and_staker_states() {
    let ix = InitFarm {
        accounts: InitFarmAccounts {
            payer: [1u8; 32],
            manager: [2u8; 32],
            voltr_vault: [3u8; 32],
            farm: [4u8; 32],
            farm_authority: [5u8; 32],
            stake_mint: STAKE_MINT,
            system_program: [0u8; 32],
        },
    };
    let farm = ix.execute(200, 201);
    assert_eq!(farm, Farm::new(STAKE_MINT, 200, 201));
    let ix = InitStaker {
        accounts: InitStakerAccounts {
            payer: [1u8; 32],
            user: [2u8; 32],
            farm: [4u8; 32],
            staker: [13u8; 32],
            staker_authority: [15u8; 32],
            stake_mint: STAKE_MINT,
            staker_stake_token_account: [17u8; 32],
            stake_token_program: [11u8; 32],
            associated_token_program: [12u8; 32],
            system_program: [0u8; 32],
        },
    };
    let staker = ix.execute(77, 3, 4);
    assert_eq!(staker, Staker::new([2u8; 32], [4u8; 32], 77, 3, 4));
}

#[test]
fn add_reward_ending_now_is_emitted_at_next_refresh() {
    let mut farm = staked_farm(10);
    assert_eq!(add_reward(REWARD_MINT, 100, 40).execute(&mut farm, 40), Ok(()));
    assert_eq!(farm.reward_infos[0].available_amount, 100);
    assert_eq!(farm.reward_infos[0].last_updated_ts, 40);
    assert_eq!(farm.refresh_rewards(90), Ok(()));
    let info = farm.reward_infos[0];
    assert_eq!(info.available_amount, 0);
    assert_eq!(info.issued_unclaimed_amount, 100);
    assert_eq!(info.issued_cumulative_amount, 100);
    assert_eq!(info.last_updated_ts, 40);
}
