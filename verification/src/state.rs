use vstd::prelude::*;
use pinocchio::pubkey::Pubkey;
use vstd::arithmetic::div_mod::{lemma_div_is_ordered, lemma_div_multiples_vanish, lemma_div_pos_is_pos};
use vstd::arithmetic::mul::{lemma_mul_inequality, lemma_mul_is_commutative, lemma_mul_nonnegative, lemma_mul_upper_bound};

use crate::constants::{MAX_REWARDS_TOKENS, REWARD_PRECISION};
use crate::error::FarmError;
use crate::keys::{is_unset, is_unset_key, pubkey_eq, unset_key};

verus! {

/// The staked token of a farm and how much of it is staked in total.
#[derive(Clone, Copy, Debug, PartialEq, Eq)]
pub struct StakeInfo {
    pub mint: Pubkey,
    pub total_amount: u64,
}

/// One reward token of a farm and the state of its linear emission.
#[derive(Clone, Copy, Debug, PartialEq, Eq)]
pub struct RewardInfo {
    pub mint: Pubkey,
    pub available_amount: u64,
    pub issued_unclaimed_amount: u64,
    pub issued_cumulative_amount: u64,
    pub end_ts: u64,
    pub last_updated_ts: u64,
    pub rewards_per_share_scaled: u128,
}

/// A farm: the staked token and a fixed number of reward slots.
/// A slot whose mint is the default key is unused.
#[derive(Clone, Copy, Debug, PartialEq, Eq)]
pub struct Farm {
    pub stake_info: StakeInfo,
    pub reward_infos: [RewardInfo; MAX_REWARDS_TOKENS],
    pub bump: u8,
    pub authority_bump: u8,
}

/// A user's position in a farm.
#[derive(Clone, Copy, Debug, PartialEq, Eq)]
pub struct Staker {
    pub user: Pubkey,
    pub farm: Pubkey,
    pub stake_amount: u64,
    pub rewards_tally_scaled: [u128; MAX_REWARDS_TOKENS],
    pub rewards_issued_unclaimed: [u64; MAX_REWARDS_TOKENS],
    pub last_claim_ts: [u64; MAX_REWARDS_TOKENS],
    pub last_stake_ts: u64,
    pub bump: u8,
    pub authority_bump: u8,
}

/// The mathematical model of a farm: its slots as a sequence.
#[verifier::ext_equal]
pub struct FarmModel {
    pub stake_info: StakeInfo,
    pub reward_infos: Seq<RewardInfo>,
    pub bump: u8,
    pub authority_bump: u8,
}

/// The mathematical model of a staker: its per-slot fields as sequences.
#[verifier::ext_equal]
pub struct StakerModel {
    pub user: Pubkey,
    pub farm: Pubkey,
    pub stake_amount: u64,
    pub rewards_tally_scaled: Seq<u128>,
    pub rewards_issued_unclaimed: Seq<u64>,
    pub last_claim_ts: Seq<u64>,
    pub last_stake_ts: u64,
    pub bump: u8,
    pub authority_bump: u8,
}

impl View for Farm {
    type V = FarmModel;

    open spec fn view(&self) -> FarmModel {
        FarmModel {
            stake_info: self.stake_info,
            reward_infos: self.reward_infos@,
            bump: self.bump,
            authority_bump: self.authority_bump,
        }
    }
}

impl View for Staker {
    type V = StakerModel;

    open spec fn view(&self) -> StakerModel {
        StakerModel {
            user: self.user,
            farm: self.farm,
            stake_amount: self.stake_amount,
            rewards_tally_scaled: self.rewards_tally_scaled@,
            rewards_issued_unclaimed: self.rewards_issued_unclaimed@,
            last_claim_ts: self.last_claim_ts@,
            last_stake_ts: self.last_stake_ts,
            bump: self.bump,
            authority_bump: self.authority_bump,
        }
    }
}

impl FarmModel {
    /// Every slot sequence has the farm's fixed number of slots.
    pub open spec fn wf(self) -> bool {
        self.reward_infos.len() == MAX_REWARDS_TOKENS
    }
}

impl StakerModel {
    pub open spec fn wf(self) -> bool {
        &&& self.rewards_tally_scaled.len() == MAX_REWARDS_TOKENS
        &&& self.rewards_issued_unclaimed.len() == MAX_REWARDS_TOKENS
        &&& self.last_claim_ts.len() == MAX_REWARDS_TOKENS
    }
}

/// The end of the period over which rewards are counted: now, or the
/// emission's end if that came first.
pub open spec fn effective_ts(current_ts: u64, end_ts: u64) -> u64 {
    if current_ts < end_ts {
        current_ts
    } else {
        end_ts
    }
}

/// Linear emission: the share of the available amount that the time from the
/// last update to `effective` makes up of the time from the last update to the
/// emission's end, rounded down.  Where no time remains until the end, all of
/// the available amount once the end is reached, and nothing before.
pub open spec fn emission_amount(info: RewardInfo, effective: u64) -> int {
    if info.end_ts > info.last_updated_ts {
        (info.available_amount * (effective - info.last_updated_ts)) / (info.end_ts
            - info.last_updated_ts)
    } else if effective >= info.end_ts {
        info.available_amount as int
    } else {
        0
    }
}

/// One reward slot brought up to `current_ts` for a farm with `total_staked`
/// staked; `None` where a counter would overflow.
pub open spec fn refresh_reward_info(info: RewardInfo, total_staked: u64, current_ts: u64) -> Option<
    RewardInfo,
> {
    if is_unset(info.mint) {
        Some(info)
    } else {
        let eff = effective_ts(current_ts, info.end_ts);
        if total_staked > 0 && eff >= info.last_updated_ts {
            let amount = emission_amount(info, eff);
            if amount > 0 {
                let rps = info.rewards_per_share_scaled + amount * REWARD_PRECISION / (
                total_staked as int);
                let unclaimed = info.issued_unclaimed_amount + amount;
                let cumulative = info.issued_cumulative_amount + amount;
                if rps > u128::MAX || unclaimed > u64::MAX || cumulative > u64::MAX {
                    None
                } else {
                    Some(
                        RewardInfo {
                            available_amount: (info.available_amount - amount) as u64,
                            issued_unclaimed_amount: unclaimed as u64,
                            issued_cumulative_amount: cumulative as u64,
                            rewards_per_share_scaled: rps as u128,
                            last_updated_ts: eff,
                            ..info
                        },
                    )
                }
            } else {
                Some(RewardInfo { last_updated_ts: eff, ..info })
            }
        } else {
            Some(RewardInfo { last_updated_ts: eff, ..info })
        }
    }
}

pub open spec fn farm_refresh_succeeds(f: FarmModel, current_ts: u64) -> bool {
    forall|i: int|
        0 <= i < f.reward_infos.len() ==> (#[trigger] refresh_reward_info(
            f.reward_infos[i],
            f.stake_info.total_amount,
            current_ts,
        )) is Some
}

/// The farm with every slot brought up to `current_ts`; `None` where any slot
/// overflows.
pub open spec fn refresh_farm(f: FarmModel, current_ts: u64) -> Option<FarmModel> {
    if farm_refresh_succeeds(f, current_ts) {
        Some(
            FarmModel {
                reward_infos: Seq::new(
                    f.reward_infos.len(),
                    |i: int|
                        refresh_reward_info(
                            f.reward_infos[i],
                            f.stake_info.total_amount,
                            current_ts,
                        ).unwrap(),
                ),
                ..f
            },
        )
    } else {
        None
    }
}

/// A used slot with stake behind it whose refresh overflows, as the refresh
/// leaves it: the rewards per share are written first, then the available
/// amount together with the issued-but-unclaimed amount, then the cumulative
/// amount, and each write happens only if its own sum fits.
pub open spec fn overflowed_reward_info(info: RewardInfo, total_staked: u64, current_ts: u64) -> RewardInfo {
    let eff = effective_ts(current_ts, info.end_ts);
    let amount = emission_amount(info, eff);
    let rps = info.rewards_per_share_scaled + amount * REWARD_PRECISION / (total_staked as int);
    let unclaimed = info.issued_unclaimed_amount + amount;
    if rps > u128::MAX {
        info
    } else if unclaimed > u64::MAX {
        RewardInfo {
            rewards_per_share_scaled: rps as u128,
            available_amount: (info.available_amount - amount) as u64,
            ..info
        }
    } else {
        RewardInfo {
            rewards_per_share_scaled: rps as u128,
            available_amount: (info.available_amount - amount) as u64,
            issued_unclaimed_amount: unclaimed as u64,
            ..info
        }
    }
}

/// What a slot holds after an attempt to bring it up to `current_ts`: the
/// refreshed slot, or the partly updated slot where a counter overflows.
pub open spec fn refresh_reward_info_attempt(info: RewardInfo, total_staked: u64, current_ts: u64) -> RewardInfo {
    match refresh_reward_info(info, total_staked, current_ts) {
        Some(n) => n,
        None => overflowed_reward_info(info, total_staked, current_ts),
    }
}

/// The first slot at or after `from` whose refresh overflows; the number of
/// slots where none does.
pub open spec fn first_overflowing_slot(
    infos: Seq<RewardInfo>,
    total_staked: u64,
    current_ts: u64,
    from: nat,
) -> nat
    decreases infos.len() - from,
{
    if from >= infos.len() {
        infos.len()
    } else if refresh_reward_info(infos[from as int], total_staked, current_ts) is None {
        from
    } else {
        first_overflowing_slot(infos, total_staked, current_ts, from + 1)
    }
}

/// The farm after an attempt to bring it up to `current_ts`: slots are
/// refreshed in order, and the refresh stops at the first slot that
/// overflows, which keeps its partial update while the later slots are
/// untouched.
pub open spec fn refresh_farm_attempt(f: FarmModel, current_ts: u64) -> FarmModel {
    let k = first_overflowing_slot(f.reward_infos, f.stake_info.total_amount, current_ts, 0);
    FarmModel {
        reward_infos: Seq::new(
            f.reward_infos.len(),
            |i: int|
                if i <= k {
                    refresh_reward_info_attempt(
                        f.reward_infos[i],
                        f.stake_info.total_amount,
                        current_ts,
                    )
                } else {
                    f.reward_infos[i]
                },
        ),
        ..f
    }
}

/// A stake's share of the growth of rewards per share since its tally:
/// `(rps - tally) * stake / precision`, reduced modulo 2^64 as a cast to `u64` does.
pub open spec fn pending_reward(rps: u128, tally: u128, stake: u64) -> int {
    (((rps - tally) * stake) / (REWARD_PRECISION as int)) % 0x1_0000_0000_0000_0000
}

/// One slot of a staker brought up to the farm's slot: the new tally and the
/// new unclaimed amount; `None` where the product or the sum overflows.
pub open spec fn refresh_stake_slot(tally: u128, unclaimed: u64, stake: u64, info: RewardInfo) -> Option<
    (u128, u64),
> {
    if is_unset(info.mint) {
        Some((tally, unclaimed))
    } else if info.rewards_per_share_scaled > tally {
        if (info.rewards_per_share_scaled - tally) * stake > u128::MAX {
            None
        } else {
            let total = unclaimed + pending_reward(info.rewards_per_share_scaled, tally, stake);
            if total > u64::MAX {
                None
            } else {
                Some((info.rewards_per_share_scaled, total as u64))
            }
        }
    } else {
        Some((info.rewards_per_share_scaled, unclaimed))
    }
}

pub open spec fn stake_slot_of(s: StakerModel, f: FarmModel, i: int) -> Option<(u128, u64)> {
    refresh_stake_slot(
        s.rewards_tally_scaled[i],
        s.rewards_issued_unclaimed[i],
        s.stake_amount,
        f.reward_infos[i],
    )
}

pub open spec fn staker_refresh_succeeds(s: StakerModel, f: FarmModel) -> bool {
    forall|i: int| 0 <= i < MAX_REWARDS_TOKENS ==> (#[trigger] stake_slot_of(s, f, i)) is Some
}

/// The staker with every slot brought up to the farm; `None` where any slot overflows.
pub open spec fn refresh_staker(s: StakerModel, f: FarmModel) -> Option<StakerModel> {
    if staker_refresh_succeeds(s, f) {
        Some(
            StakerModel {
                rewards_tally_scaled: Seq::new(
                    MAX_REWARDS_TOKENS as nat,
                    |i: int| stake_slot_of(s, f, i).unwrap().0,
                ),
                rewards_issued_unclaimed: Seq::new(
                    MAX_REWARDS_TOKENS as nat,
                    |i: int| stake_slot_of(s, f, i).unwrap().1,
                ),
                ..s
            },
        )
    } else {
        None
    }
}

/// The first slot at or after `from` where bringing the staker up to the farm
/// overflows; the number of slots where none does.
pub open spec fn first_overflowing_stake_slot(s: StakerModel, f: FarmModel, from: nat) -> nat
    decreases MAX_REWARDS_TOKENS - from,
{
    if from >= MAX_REWARDS_TOKENS {
        MAX_REWARDS_TOKENS as nat
    } else if stake_slot_of(s, f, from as int) is None {
        from
    } else {
        first_overflowing_stake_slot(s, f, from + 1)
    }
}

/// The staker after an attempt to bring it up to the farm: slots are updated
/// in order, and the update stops at the first slot that overflows, which is
/// left as it was, as are the later slots.
pub open spec fn refresh_staker_attempt(s: StakerModel, f: FarmModel) -> StakerModel {
    let k = first_overflowing_stake_slot(s, f, 0);
    StakerModel {
        rewards_tally_scaled: Seq::new(
            MAX_REWARDS_TOKENS as nat,
            |i: int|
                if i < k {
                    stake_slot_of(s, f, i).unwrap().0
                } else {
                    s.rewards_tally_scaled[i]
                },
        ),
        rewards_issued_unclaimed: Seq::new(
            MAX_REWARDS_TOKENS as nat,
            |i: int|
                if i < k {
                    stake_slot_of(s, f, i).unwrap().1
                } else {
                    s.rewards_issued_unclaimed[i]
                },
        ),
        ..s
    }
}

/// The farm and staker as an instruction leaves them when it stops after
/// bringing them up to date: the farm's attempt, and, where the farm's
/// refresh succeeded, the staker's attempt against the refreshed farm.
pub open spec fn refresh_pair_attempt(f: FarmModel, s: StakerModel, current_ts: u64) -> (
    FarmModel,
    StakerModel,
) {
    match refresh_farm(f, current_ts) {
        None => (refresh_farm_attempt(f, current_ts), s),
        Some(f1) => (f1, refresh_staker_attempt(s, f1)),
    }
}

/// An unused reward slot: the default key and every counter zero.
pub open spec fn is_empty_reward_info(r: RewardInfo) -> bool {
    &&& is_unset(r.mint)
    &&& r.available_amount == 0
    &&& r.issued_unclaimed_amount == 0
    &&& r.issued_cumulative_amount == 0
    &&& r.end_ts == 0
    &&& r.last_updated_ts == 0
    &&& r.rewards_per_share_scaled == 0
}

/// The first slot at or after `from` that holds `mint`.
pub open spec fn find_mint(infos: Seq<RewardInfo>, mint: Pubkey, from: nat) -> Option<int>
    decreases infos.len() - from,
{
    if from >= infos.len() {
        None
    } else if infos[from as int].mint == mint {
        Some(from as int)
    } else {
        find_mint(infos, mint, from + 1)
    }
}

/// The first slot at or after `from` that holds `mint` or is unused.
pub open spec fn find_reward_slot(infos: Seq<RewardInfo>, mint: Pubkey, from: nat) -> Option<int>
    decreases infos.len() - from,
{
    if from >= infos.len() {
        None
    } else if infos[from as int].mint == mint || is_unset(infos[from as int].mint) {
        Some(from as int)
    } else {
        find_reward_slot(infos, mint, from + 1)
    }
}

pub proof fn lemma_find_mint_in_range(infos: Seq<RewardInfo>, mint: Pubkey, from: nat)
    ensures
        find_mint(infos, mint, from) matches Some(i) ==> from <= i < infos.len()
            && infos[i].mint == mint,
    decreases infos.len() - from,
{
    if from < infos.len() && infos[from as int].mint != mint {
        lemma_find_mint_in_range(infos, mint, from + 1);
    }
}

pub proof fn lemma_find_reward_slot_in_range(infos: Seq<RewardInfo>, mint: Pubkey, from: nat)
    ensures
        find_reward_slot(infos, mint, from) matches Some(i) ==> from <= i < infos.len() && (
        infos[i].mint == mint || is_unset(infos[i].mint)),
    decreases infos.len() - from,
{
    if from < infos.len() && !(infos[from as int].mint == mint || is_unset(
        infos[from as int].mint,
    )) {
        lemma_find_reward_slot_in_range(infos, mint, from + 1);
    }
}

pub proof fn lemma_emission_bounds(available: u64, time_passed: u64, reward_period: u64)
    requires
        0 < reward_period,
        time_passed <= reward_period,
    ensures
        available * time_passed <= u128::MAX,
        (available * time_passed) / (reward_period as int) <= available,
        (available * time_passed) / (reward_period as int) >= 0,
{
    lemma_mul_inequality(time_passed as int, reward_period as int, available as int);
    lemma_mul_is_commutative(available as int, time_passed as int);
    lemma_mul_is_commutative(available as int, reward_period as int);
    lemma_mul_upper_bound(
        available as int,
        u64::MAX as int,
        time_passed as int,
        u64::MAX as int,
    );
    lemma_div_is_ordered(
        (available * time_passed) as int,
        (available * reward_period) as int,
        reward_period as int,
    );
    lemma_div_multiples_vanish(available as int, reward_period as int);
    lemma_mul_nonnegative(available as int, time_passed as int);
    lemma_div_pos_is_pos((available * time_passed) as int, reward_period as int);
}

proof fn lemma_u128_cast_is_mod(x: u128)
    ensures
        (x as u64) as int == (x as int) % 0x1_0000_0000_0000_0000,
{
    assert((x as u64) == x % 0x1_0000_0000_0000_0000) by (bit_vector);
}

impl RewardInfo {
    /// An unused reward slot (the default value).
    pub fn empty() -> (r: RewardInfo)
        ensures
            is_empty_reward_info(r),
    {
        RewardInfo {
            mint: unset_key(),
            available_amount: 0,
            issued_unclaimed_amount: 0,
            issued_cumulative_amount: 0,
            end_ts: 0,
            last_updated_ts: 0,
            rewards_per_share_scaled: 0,
        }
    }

    /// Brings this slot up to `current_ts`: the rewards that linear emission
    /// released since the last update move from available to issued, and the
    /// rewards per share grow by their share of `total_staked`.  Where a
    /// counter overflows the slot keeps the writes made before the overflow.
    pub fn refresh(&mut self, total_staked: u64, current_ts: u64) -> (r: Result<(), FarmError>)
        ensures
            *final(self) == refresh_reward_info_attempt(*old(self), total_staked, current_ts),
            match refresh_reward_info(*old(self), total_staked, current_ts) {
                Some(n) => r is Ok,
                None => r == Err::<(), FarmError>(FarmError::IntegerOverflow),
            },
    {
        if is_unset_key(&self.mint) {
            return Ok(());
        }
        let effective_ts = if current_ts < self.end_ts {
            current_ts
        } else {
            self.end_ts
        };
        if total_staked > 0 && effective_ts >= self.last_updated_ts {
            // The effective time lies no earlier than the last update and no
            // later than the end, so neither difference underflows.
            let time_passed = effective_ts - self.last_updated_ts;
            let reward_period = self.end_ts - self.last_updated_ts;
            // Linear emission over the remaining period; where none remains,
            // everything still available once the end is reached.
            let amount_to_issue = if reward_period > 0 {
                proof {
                    lemma_emission_bounds(self.available_amount, time_passed, reward_period);
                }
                let product = (self.available_amount as u128) * (time_passed as u128);
                (product / (reward_period as u128)) as u64
            } else if effective_ts >= self.end_ts {
                self.available_amount
            } else {
                0
            };
            if amount_to_issue > 0 {
                proof {
                    lemma_mul_upper_bound(
                        amount_to_issue as int,
                        u64::MAX as int,
                        REWARD_PRECISION as int,
                        REWARD_PRECISION as int,
                    );
                }
                let added_reward_per_share = (amount_to_issue as u128) * REWARD_PRECISION / (
                total_staked as u128);
                self.rewards_per_share_scaled =
                    match self.rewards_per_share_scaled.checked_add(added_reward_per_share) {
                    Some(v) => v,
                    None => {
                        return Err(FarmError::IntegerOverflow);
                    },
                };
                self.available_amount = self.available_amount - amount_to_issue;
                self.issued_unclaimed_amount =
                    match self.issued_unclaimed_amount.checked_add(amount_to_issue) {
                    Some(v) => v,
                    None => {
                        return Err(FarmError::IntegerOverflow);
                    },
                };
                self.issued_cumulative_amount =
                    match self.issued_cumulative_amount.checked_add(amount_to_issue) {
                    Some(v) => v,
                    None => {
                        return Err(FarmError::IntegerOverflow);
                    },
                };
            }
        }
        self.last_updated_ts = effective_ts;
        Ok(())
    }
}

impl Farm {
    /// A farm for `stake_mint` with nothing staked and every reward slot unused.
    pub fn new(stake_mint: Pubkey, bump: u8, authority_bump: u8) -> (r: Farm)
        ensures
            r.stake_info == (StakeInfo { mint: stake_mint, total_amount: 0 }),
            forall|i: int| 0 <= i < MAX_REWARDS_TOKENS ==> is_empty_reward_info(r.reward_infos[i]),
            r.bump == bump,
            r.authority_bump == authority_bump,
    {
        Farm {
            stake_info: StakeInfo { mint: stake_mint, total_amount: 0 },
            reward_infos: [RewardInfo::empty(); MAX_REWARDS_TOKENS],
            bump,
            authority_bump,
        }
    }

    /// The first slot that holds `mint`.
    pub fn reward_index(&self, mint: &Pubkey) -> (r: Option<usize>)
        ensures
            match r {
                Some(i) => i < MAX_REWARDS_TOKENS && find_mint(self.reward_infos@, *mint, 0) == Some(
                    i as int,
                ),
                None => find_mint(self.reward_infos@, *mint, 0) is None,
            },
    {
        proof {
            lemma_find_mint_in_range(self.reward_infos@, *mint, 0);
        }
        let mut i: usize = 0;
        while i < MAX_REWARDS_TOKENS
            invariant
                0 <= i <= MAX_REWARDS_TOKENS,
                find_mint(self.reward_infos@, *mint, 0) == find_mint(
                    self.reward_infos@,
                    *mint,
                    i as nat,
                ),
            decreases MAX_REWARDS_TOKENS - i,
        {
            if pubkey_eq(&self.reward_infos[i].mint, mint) {
                return Some(i);
            }
            i = i + 1;
        }
        None
    }

    /// The first slot that holds `mint` or is unused: where a reward in `mint` goes.
    pub fn reward_slot_for(&self, mint: &Pubkey) -> (r: Option<usize>)
        ensures
            match r {
                Some(i) => i < MAX_REWARDS_TOKENS && find_reward_slot(self.reward_infos@, *mint, 0) == Some(
                    i as int,
                ),
                None => find_reward_slot(self.reward_infos@, *mint, 0) is None,
            },
    {
        proof {
            lemma_find_reward_slot_in_range(self.reward_infos@, *mint, 0);
        }
        let mut i: usize = 0;
        while i < MAX_REWARDS_TOKENS
            invariant
                0 <= i <= MAX_REWARDS_TOKENS,
                find_reward_slot(self.reward_infos@, *mint, 0) == find_reward_slot(
                    self.reward_infos@,
                    *mint,
                    i as nat,
                ),
            decreases MAX_REWARDS_TOKENS - i,
        {
            if pubkey_eq(&self.reward_infos[i].mint, mint) || is_unset_key(
                &self.reward_infos[i].mint,
            ) {
                return Some(i);
            }
            i = i + 1;
        }
        None
    }

    /// Brings every used reward slot up to `current_ts`, in order.  On an
    /// overflow it stops: earlier slots stay refreshed, the overflowing slot
    /// keeps its partial update, later slots are untouched.
    pub fn refresh_rewards(&mut self, current_ts: u64) -> (r: Result<(), FarmError>)
        ensures
            final(self)@ == refresh_farm_attempt(old(self)@, current_ts),
            match refresh_farm(old(self)@, current_ts) {
                Some(f) => r is Ok && final(self)@ == f,
                None => r == Err::<(), FarmError>(FarmError::IntegerOverflow),
            },
    {
        let total = self.stake_info.total_amount;
        let ghost start = self@;
        let mut i: usize = 0;
        while i < MAX_REWARDS_TOKENS
            invariant
                0 <= i <= MAX_REWARDS_TOKENS,
                start == old(self)@,
                self.stake_info == start.stake_info,
                self.bump == start.bump,
                self.authority_bump == start.authority_bump,
                total == start.stake_info.total_amount,
                first_overflowing_slot(start.reward_infos, total, current_ts, 0)
                    == first_overflowing_slot(start.reward_infos, total, current_ts, i as nat),
                forall|j: int|
                    0 <= j < i ==> (#[trigger] refresh_reward_info(
                        start.reward_infos[j],
                        total,
                        current_ts,
                    )) is Some && self.reward_infos@[j] == refresh_reward_info(
                        start.reward_infos[j],
                        total,
                        current_ts,
                    ).unwrap(),
                forall|j: int|
                    i <= j < MAX_REWARDS_TOKENS ==> self.reward_infos@[j] == start.reward_infos[j],
            decreases MAX_REWARDS_TOKENS - i,
        {
            let mut info = self.reward_infos[i];
            let result = info.refresh(total, current_ts);
            self.reward_infos[i] = info;
            if result.is_err() {
                proof {
                    assert(first_overflowing_slot(start.reward_infos, total, current_ts, i as nat)
                        == i);
                    assert(!farm_refresh_succeeds(start, current_ts));
                    assert(self@ =~= refresh_farm_attempt(start, current_ts));
                }
                return result;
            }
            i = i + 1;
        }
        proof {
            assert(farm_refresh_succeeds(start, current_ts));
            assert(self@ =~= refresh_farm(start, current_ts).unwrap());
            assert(self@ =~= refresh_farm_attempt(start, current_ts));
        }
        Ok(())
    }
}

impl Staker {
    /// A position of `user` in `farm` with nothing staked or owed, and every
    /// claim time set to `current_ts`.
    pub fn new(user: Pubkey, farm: Pubkey, current_ts: u64, bump: u8, authority_bump: u8) -> (r:
        Staker)
        ensures
            r.user == user,
            r.farm == farm,
            r.stake_amount == 0,
            forall|i: int|
                0 <= i < MAX_REWARDS_TOKENS ==> r.rewards_tally_scaled[i] == 0
                    && r.rewards_issued_unclaimed[i] == 0 && r.last_claim_ts[i] == current_ts,
            r.last_stake_ts == current_ts,
            r.bump == bump,
            r.authority_bump == authority_bump,
    {
        Staker {
            user,
            farm,
            stake_amount: 0,
            rewards_tally_scaled: [0u128; MAX_REWARDS_TOKENS],
            rewards_issued_unclaimed: [0u64; MAX_REWARDS_TOKENS],
            last_claim_ts: [current_ts; MAX_REWARDS_TOKENS],
            last_stake_ts: current_ts,
            bump,
            authority_bump,
        }
    }

    /// Credits the staker with its share of the rewards per share that each
    /// used slot of `farm` gained since the staker's tally, and moves the tally
    /// up to the farm's, slot by slot.  On an overflow it stops: earlier slots
    /// stay updated, the overflowing slot and later ones are untouched.
    pub fn refresh_rewards(&mut self, farm: &Farm) -> (r: Result<(), FarmError>)
        ensures
            final(self)@ == refresh_staker_attempt(old(self)@, farm@),
            match refresh_staker(old(self)@, farm@) {
                Some(s) => r is Ok && final(self)@ == s,
                None => r == Err::<(), FarmError>(FarmError::IntegerOverflow),
            },
    {
        let stake = self.stake_amount;
        let ghost start = self@;
        let mut i: usize = 0;
        while i < MAX_REWARDS_TOKENS
            invariant
                0 <= i <= MAX_REWARDS_TOKENS,
                start == old(self)@,
                self.user == start.user,
                self.farm == start.farm,
                self.stake_amount == start.stake_amount,
                self.last_claim_ts@ == start.last_claim_ts,
                self.last_stake_ts == start.last_stake_ts,
                self.bump == start.bump,
                self.authority_bump == start.authority_bump,
                stake == start.stake_amount,
                first_overflowing_stake_slot(start, farm@, 0) == first_overflowing_stake_slot(
                    start,
                    farm@,
                    i as nat,
                ),
                forall|j: int|
                    0 <= j < i ==> (#[trigger] stake_slot_of(start, farm@, j)) is Some
                        && self.rewards_tally_scaled@[j] == stake_slot_of(start, farm@, j).unwrap().0
                        && self.rewards_issued_unclaimed@[j] == stake_slot_of(
                        start,
                        farm@,
                        j,
                    ).unwrap().1,
                forall|j: int|
                    i <= j < MAX_REWARDS_TOKENS ==> self.rewards_tally_scaled@[j]
                        == start.rewards_tally_scaled[j] && self.rewards_issued_unclaimed@[j]
                        == start.rewards_issued_unclaimed[j],
            decreases MAX_REWARDS_TOKENS - i,
        {
            let farm_reward_info = &farm.reward_infos[i];
            if !is_unset_key(&farm_reward_info.mint) {
                let last_tally = self.rewards_tally_scaled[i];
                let current_rps_scaled = farm_reward_info.rewards_per_share_scaled;
                if current_rps_scaled > last_tally {
                    let diff = current_rps_scaled - last_tally;
                    let product = match diff.checked_mul(stake as u128) {
                        Some(v) => v,
                        None => {
                            proof {
                                assert(stake_slot_of(start, farm@, i as int) is None);
                                assert(self@ =~= refresh_staker_attempt(start, farm@));
                            }
                            return Err(FarmError::IntegerOverflow);
                        },
                    };
                    let scaled = product / REWARD_PRECISION;
                    let pending_reward = scaled as u64;
                    proof {
                        lemma_u128_cast_is_mod(scaled);
                    }
                    self.rewards_issued_unclaimed[i] =
                        match self.rewards_issued_unclaimed[i].checked_add(pending_reward) {
                        Some(v) => v,
                        None => {
                            proof {
                                assert(stake_slot_of(start, farm@, i as int) is None);
                                assert(self@ =~= refresh_staker_attempt(start, farm@));
                            }
                            return Err(FarmError::IntegerOverflow);
                        },
                    };
                }
                self.rewards_tally_scaled[i] = current_rps_scaled;
            }
            i = i + 1;
        }
        proof {
            assert(staker_refresh_succeeds(start, farm@));
            assert(self@ =~= refresh_staker(start, farm@).unwrap());
            assert(self@ =~= refresh_staker_attempt(start, farm@));
        }
        Ok(())
    }
}

} // verus!
