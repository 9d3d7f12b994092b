use farm_rewards::constants::{MAX_REWARDS_TOKENS, REWARD_PRECISION};
use farm_rewards::error::FarmError;
use farm_rewards::state::{Farm, RewardInfo, StakeInfo, Staker};

const REWARD_MINT: [u8; 32] = [7u8; 32];
const STAKE_MINT: [u8; 32] = [9u8; 32];

fn slot(mint: [u8; 32], available: u64, end_ts: u64, last_updated_ts: u64) -> RewardInfo {
    RewardInfo {
        mint,
        available_amount: available,
        issued_unclaimed_amount: 0,
        issued_cumulative_amount: 0,
        end_ts,
        last_updated_ts,
        rewards_per_share_scaled: 0,
    }
}

fn refreshed(info: RewardInfo, total: u64, now: u64) -> Result<RewardInfo, FarmError> {
    let mut n = info;
    n.refresh(total, now).map(|_| n)
}

fn farm_with(total: u64, first: RewardInfo) -> Farm {
    let mut farm = Farm::new(STAKE_MINT, 250, 251);
    farm.stake_info.total_amount = total;
    farm.reward_infos[0] = first;
    farm
}

#[test]
fn new_farm_is_empty() {
    let farm = Farm::new(STAKE_MINT, 3, 4);
    assert_eq!(farm.stake_info, StakeInfo { mint: STAKE_MINT, total_amount: 0 });
    for info in farm.reward_infos.iter() {
        assert_eq!(*info, RewardInfo::empty());
        assert_eq!(info.mint, [0u8; 32]);
    }
    assert_eq!(farm.bump, 3);
    assert_eq!(farm.authority_bump, 4);
}

#[test]
fn linear_emission_releases_elapsed_share() {
    let info = slot(REWARD_MINT, 1000, 100, 0);
    let n = refreshed(info, 10, 50).unwrap();
    assert_eq!(n.available_amount, 500);
    assert_eq!(n.issued_unclaimed_amount, 500);
    assert_eq!(n.issued_cumulative_amount, 500);
    assert_eq!(n.last_updated_ts, 50);
    // 500 rewards over 10 staked, scaled by the precision.
    assert_eq!(n.rewards_per_share_scaled, 500 * REWARD_PRECISION / 10);
    assert_eq!(n.rewards_per_share_scaled, 50_000_000_000_000);
}

#[test]
fn emission_rounds_down() {
    let info = slot(REWARD_MINT, 10, 3, 0);
    let n = refreshed(info, 3, 1).unwrap();
    // 10 * 1 / 3 = 3 rounded down; 3 * 10^12 / 3 per share.
    assert_eq!(n.available_amount, 7);
    assert_eq!(n.issued_unclaimed_amount, 3);
    assert_eq!(n.rewards_per_share_scaled, 1_000_000_000_000);
}

#[test]
fn refresh_is_idempotent_at_same_time() {
    let info = slot(REWARD_MINT, 1000, 100, 0);
    let once = refreshed(info, 10, 50).unwrap();
    let twice = refreshed(once, 10, 50).unwrap();
    assert_eq!(once, twice);
}

#[test]
fn emission_completes_at_end() {
    let info = slot(REWARD_MINT, 1000, 100, 0);
    let half = refreshed(info, 10, 50).unwrap();
    let done = refreshed(half, 10, 200).unwrap();
    assert_eq!(done.available_amount, 0);
    assert_eq!(done.issued_unclaimed_amount, 1000);
    assert_eq!(done.issued_cumulative_amount, 1000);
    assert_eq!(done.last_updated_ts, 100);
    assert_eq!(done.rewards_per_share_scaled, 100_000_000_000_000);
}

#[test]
fn nothing_emitted_without_stake() {
    let info = slot(REWARD_MINT, 1000, 100, 0);
    let n = refreshed(info, 0, 50).unwrap();
    assert_eq!(n.available_amount, 1000);
    assert_eq!(n.issued_unclaimed_amount, 0);
    assert_eq!(n.rewards_per_share_scaled, 0);
    assert_eq!(n.last_updated_ts, 50);
}

#[test]
fn unused_slot_is_untouched() {
    let info = slot([0u8; 32], 1000, 100, 0);
    assert_eq!(refreshed(info, 10, 50).unwrap(), info);
}

#[test]
fn refresh_conserves_outstanding_rewards() {
    let mut info = slot(REWARD_MINT, 777, 90, 10);
    info.issued_unclaimed_amount = 5;
    info.issued_cumulative_amount = 20;
    let n = refreshed(info, 13, 47).unwrap();
    assert_eq!(
        n.available_amount + n.issued_unclaimed_amount,
        info.available_amount + info.issued_unclaimed_amount
    );
    assert_eq!(
        n.available_amount + n.issued_cumulative_amount,
        info.available_amount + info.issued_cumulative_amount
    );
    assert!(n.rewards_per_share_scaled >= info.rewards_per_share_scaled);
}

#[test]
fn rewards_per_share_overflow_is_refused() {
    let mut info = slot(REWARD_MINT, 1000, 100, 0);
    info.rewards_per_share_scaled = u128::MAX;
    let before = info;
    assert_eq!(info.refresh(10, 50), Err(FarmError::IntegerOverflow));
    // Nothing was written before the overflow.
    assert_eq!(info, before);
}

#[test]
fn issued_overflow_is_refused() {
    let mut info = slot(REWARD_MINT, 1000, 100, 0);
    info.issued_cumulative_amount = u64::MAX;
    assert_eq!(info.refresh(10, 50), Err(FarmError::IntegerOverflow));
    // Rewards per share, available and issued-unclaimed were written first.
    assert_eq!(info.rewards_per_share_scaled, 50_000_000_000_000);
    assert_eq!(info.available_amount, 500);
    assert_eq!(info.issued_unclaimed_amount, 500);
    assert_eq!(info.issued_cumulative_amount, u64::MAX);
    assert_eq!(info.last_updated_ts, 0);
    let mut info = slot(REWARD_MINT, 1000, 100, 0);
    info.issued_unclaimed_amount = u64::MAX - 1;
    assert_eq!(info.refresh(10, 50), Err(FarmError::IntegerOverflow));
    assert_eq!(info.rewards_per_share_scaled, 50_000_000_000_000);
    assert_eq!(info.available_amount, 500);
    assert_eq!(info.issued_unclaimed_amount, u64::MAX - 1);
    assert_eq!(info.last_updated_ts, 0);
}

#[test]
fn farm_refresh_updates_every_used_slot() {
    let mut farm = farm_with(10, slot(REWARD_MINT, 1000, 100, 0));
    farm.reward_infos[2] = slot([8u8; 32], 300, 60, 30);
    assert_eq!(farm.refresh_rewards(45), Ok(()));
    assert_eq!(farm.reward_infos[0].available_amount, 550);
    // 300 * 15 / 30 = 150
    assert_eq!(farm.reward_infos[2].available_amount, 150);
    assert_eq!(farm.reward_infos[2].last_updated_ts, 45);
    assert_eq!(farm.reward_infos[1], RewardInfo::empty());
    assert_eq!(farm.stake_info.total_amount, 10);
}

#[test]
fn farm_refresh_overflow_stops_at_that_slot() {
    let mut farm = farm_with(10, slot(REWARD_MINT, 1000, 100, 0));
    let mut bad = slot([8u8; 32], 1000, 100, 0);
    bad.rewards_per_share_scaled = u128::MAX;
    farm.reward_infos[2] = bad;
    farm.reward_infos[3] = slot([6u8; 32], 1000, 100, 0);
    assert_eq!(farm.refresh_rewards(50), Err(FarmError::IntegerOverflow));
    // The earlier slot is refreshed, the overflowing and later ones are not.
    assert_eq!(farm.reward_infos[0].available_amount, 500);
    assert_eq!(farm.reward_infos[0].last_updated_ts, 50);
    assert_eq!(farm.reward_infos[2], bad);
    assert_eq!(farm.reward_infos[3], slot([6u8; 32], 1000, 100, 0));
    assert_eq!(farm.reward_infos[MAX_REWARDS_TOKENS - 1], RewardInfo::empty());
}

fn staker_with(stake: u64) -> Staker {
    let mut s = Staker::new([1u8; 32], [2u8; 32], 5, 6, 7);
    s.stake_amount = stake;
    s
}

#[test]
fn new_staker_owes_nothing() {
    let s = Staker::new([1u8; 32], [2u8; 32], 42, 6, 7);
    assert_eq!(s.user, [1u8; 32]);
    assert_eq!(s.farm, [2u8; 32]);
    assert_eq!(s.stake_amount, 0);
    assert_eq!(s.rewards_tally_scaled, [0u128; MAX_REWARDS_TOKENS]);
    assert_eq!(s.rewards_issued_unclaimed, [0u64; MAX_REWARDS_TOKENS]);
    assert_eq!(s.last_claim_ts, [42u64; MAX_REWARDS_TOKENS]);
    assert_eq!(s.last_stake_ts, 42);
    assert_eq!((s.bump, s.authority_bump), (6, 7));
}

#[test]
fn staker_is_credited_its_share() {
    let mut farm = farm_with(10, slot(REWARD_MINT, 1000, 100, 0));
    farm.refresh_rewards(50).unwrap();
    let mut staker = staker_with(4);
    assert_eq!(staker.refresh_rewards(&farm), Ok(()));
    // 5 * 10^13 per share * 4 staked / 10^12 = 200
    assert_eq!(staker.rewards_issued_unclaimed[0], 200);
    assert_eq!(staker.rewards_tally_scaled[0], 50_000_000_000_000);
    let again = staker;
    assert_eq!(staker.refresh_rewards(&farm), Ok(()));
    assert_eq!(staker, again);
}

#[test]
fn staker_tally_follows_farm_down() {
    let mut farm = farm_with(10, slot(REWARD_MINT, 0, 100, 0));
    farm.reward_infos[0].rewards_per_share_scaled = 5;
    let mut staker = staker_with(4);
    staker.rewards_tally_scaled[0] = 9;
    staker.refresh_rewards(&farm).unwrap();
    assert_eq!(staker.rewards_tally_scaled[0], 5);
    assert_eq!(staker.rewards_issued_unclaimed[0], 0);
}

#[test]
fn staker_unused_slot_keeps_tally() {
    let mut farm = farm_with(10, slot(REWARD_MINT, 0, 100, 0));
    farm.reward_infos[1].rewards_per_share_scaled = 1_000_000_000_000;
    let mut staker = staker_with(4);
    staker.rewards_tally_scaled[1] = 3;
    staker.refresh_rewards(&farm).unwrap();
    assert_eq!(staker.rewards_tally_scaled[1], 3);
    assert_eq!(staker.rewards_issued_unclaimed[1], 0);
}

#[test]
fn staker_pending_reward_wraps_like_a_cast() {
    let mut farm = farm_with(10, slot(REWARD_MINT, 0, 100, 0));
    farm.reward_infos[0].rewards_per_share_scaled = 1u128 << 100;
    let mut staker = staker_with(1 << 20);
    staker.refresh_rewards(&farm).unwrap();
    // 2^120 / 10^12 = 1329227995784915872903807, taken modulo 2^64.
    assert_eq!(staker.rewards_issued_unclaimed[0], 10958065626712109695);
}

#[test]
fn staker_product_overflow_is_refused() {
    let mut farm = farm_with(10, slot(REWARD_MINT, 0, 100, 0));
    farm.reward_infos[0].rewards_per_share_scaled = u128::MAX;
    farm.reward_infos[3] = slot([8u8; 32], 0, 100, 0);
    farm.reward_infos[3].rewards_per_share_scaled = 1_000_000_000_000;
    let mut staker = staker_with(2);
    let before = staker;
    assert_eq!(staker.refresh_rewards(&farm), Err(FarmError::IntegerOverflow));
    // The update stops at the first slot, so the later one is not credited.
    assert_eq!(staker, before);
}

#[test]
fn staker_overflow_keeps_earlier_slots_credited() {
    let mut farm = farm_with(10, slot(REWARD_MINT, 0, 100, 0));
    farm.reward_infos[0].rewards_per_share_scaled = 3_000_000_000_000;
    farm.reward_infos[1] = slot([8u8; 32], 0, 100, 0);
    farm.reward_infos[1].rewards_per_share_scaled = u128::MAX;
    let mut staker = staker_with(2);
    assert_eq!(staker.refresh_rewards(&farm), Err(FarmError::IntegerOverflow));
    assert_eq!(staker.rewards_issued_unclaimed[0], 6);
    assert_eq!(staker.rewards_tally_scaled[0], 3_000_000_000_000);
    assert_eq!(staker.rewards_tally_scaled[1], 0);
}

#[test]
fn staker_sum_overflow_is_refused() {
    let mut farm = farm_with(10, slot(REWARD_MINT, 0, 100, 0));
    farm.reward_infos[0].rewards_per_share_scaled = 2_000_000_000_000;
    let mut staker = staker_with(1);
    staker.rewards_issued_unclaimed[0] = u64::MAX - 1;
    assert_eq!(staker.refresh_rewards(&farm), Err(FarmError::IntegerOverflow));
}

#[test]
fn slot_lookup_finds_first_match() {
    let mut farm = farm_with(10, slot(REWARD_MINT, 0, 100, 0));
    farm.reward_infos[3] = slot([8u8; 32], 0, 100, 0);
    assert_eq!(farm.reward_index(&REWARD_MINT), Some(0));
    assert_eq!(farm.reward_index(&[8u8; 32]), Some(3));
    assert_eq!(farm.reward_index(&[5u8; 32]), None);
    assert_eq!(farm.reward_slot_for(&[8u8; 32]), Some(1));
    assert_eq!(farm.reward_slot_for(&REWARD_MINT), Some(0));
}

#[test]
fn one_emission_credits_at_most_the_amount() {
    let mut farm = farm_with(10, slot(REWARD_MINT, 7, 10, 0));
    farm.refresh_rewards(10).unwrap();
    assert_eq!(farm.reward_infos[0].issued_unclaimed_amount, 7);
    let mut credited = 0u64;
    for stake in [3u64, 3, 4] {
        let mut s = staker_with(stake);
        s.refresh_rewards(&farm).unwrap();
        credited += s.rewards_issued_unclaimed[0];
    }
    // 2 + 2 + 2: each share is rounded down.
    assert_eq!(credited, 6);
    assert!(credited <= 7);
}

#[test]
fn farm_refresh_keeps_outstanding_total() {
    let mut farm = farm_with(3, slot(REWARD_MINT, 1000, 100, 0));
    farm.reward_infos[4] = slot([8u8; 32], 99, 20, 5);
    let total = |f: &Farm| -> u64 {
        f.reward_infos.iter().map(|r| r.available_amount + r.issued_unclaimed_amount).sum()
    };
    let before = total(&farm);
    farm.refresh_rewards(17).unwrap();
    assert_eq!(total(&farm), before);
    assert_eq!(farm.reward_infos[4].available_amount, 99 - 99 * 12 / 15);
}

#[test]
fn farm_refresh_is_idempotent_at_same_time() {
    let mut farm = farm_with(7, slot(REWARD_MINT, 1000, 100, 0));
    farm.reward_infos[1] = slot([8u8; 32], 55, 40, 10);
    farm.refresh_rewards(33).unwrap();
    let once = farm;
    farm.refresh_rewards(33).unwrap();
    assert_eq!(farm, once);
}

#[test]
fn zero_length_period_issues_everything() {
    let mut farm = Farm {
        stake_info: StakeInfo { mint: [2u8; 32], total_amount: 10 },
        reward_infos: [RewardInfo::empty(); MAX_REWARDS_TOKENS],
        bump: 0,
        authority_bump: 0,
    };
    farm.reward_infos[0] = slot([1u8; 32], 100, 50, 50);
    assert_eq!(farm.refresh_rewards(60), Ok(()));
    assert_eq!(
        farm.reward_infos[0],
        RewardInfo {
            mint: [1u8; 32],
            available_amount: 0,
            issued_unclaimed_amount: 100,
            issued_cumulative_amount: 100,
            end_ts: 50,
            last_updated_ts: 50,
            rewards_per_share_scaled: 10 * REWARD_PRECISION,
        }
    );
}

#[test]
fn period_over_at_last_update_issues_remainder() {
    let mut info = slot(REWARD_MINT, 30, 80, 80);
    info.issued_unclaimed_amount = 5;
    info.issued_cumulative_amount = 70;
    let n = refreshed(info, 3, 80).unwrap();
    assert_eq!(n.available_amount, 0);
    assert_eq!(n.issued_unclaimed_amount, 35);
    assert_eq!(n.issued_cumulative_amount, 100);
    assert_eq!(n.last_updated_ts, 80);
    assert_eq!(n.rewards_per_share_scaled, 10 * REWARD_PRECISION);
    // Nothing is left for a later refresh.
    assert_eq!(refreshed(n, 3, 500).unwrap(), n);
}
