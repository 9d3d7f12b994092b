use vstd::prelude::*;
use pinocchio::pubkey::Pubkey;
use vstd::arithmetic::div_mod::{lemma_div_is_ordered, lemma_div_multiples_vanish, lemma_fundamental_div_mod, lemma_small_mod};
use vstd::arithmetic::mul::lemma_mul_is_commutative;

use crate::constants::{MAX_REWARDS_TOKENS, REWARD_PRECISION};
use crate::error::FarmError;
use crate::instructions::add_reward::add_reward_to_farm;
use crate::instructions::claim_reward::claim_from_farm;
use crate::instructions::unstake::unstake_from_farm;
use crate::codec::le_value;
use crate::keys::{is_unset, lemma_key_view_eq};
use crate::processor::instruction_of_tag;
use crate::layout::{farm_bytes, farm_decodes, lemma_farm_bytes_decode, lemma_staker_bytes_decode, reward_info_at, staker_bytes, staker_decodes};
use crate::state::{
    Farm, FarmModel, Staker, RewardInfo, StakerModel, effective_ts, emission_amount, find_mint,
    find_reward_slot, lemma_emission_bounds, pending_reward, refresh_farm, refresh_reward_info,
    refresh_stake_slot, refresh_staker, stake_slot_of,
};

verus! {

// ---------------------------------------------------------------------------
// Bringing a reward slot up to date.
/// A slot has nothing to catch up on at `current_ts` with `total_staked`
/// staked when it is unused, or was last updated at the effective time and,
/// if that time is its end, has nothing left to release to a stake.
pub open spec fn slot_is_current(info: RewardInfo, total_staked: u64, current_ts: u64) -> bool {
    is_unset(info.mint) || (info.last_updated_ts == effective_ts(current_ts, info.end_ts) && (
    total_staked == 0 || info.last_updated_ts != info.end_ts || info.available_amount == 0))
}

/// A used slot whose last update is no later than its end, as every slot that
/// the farm's instructions write is.
pub open spec fn slot_is_ordered(info: RewardInfo) -> bool {
    is_unset(info.mint) || info.last_updated_ts <= info.end_ts
}

/// Every slot of the farm is ordered.
pub open spec fn farm_slots_ordered(f: FarmModel) -> bool {
    forall|i: int| 0 <= i < f.reward_infos.len() ==> slot_is_ordered(#[trigger] f.reward_infos[i])
}

/// Bringing a slot up to date releases rewards but creates none: the
/// available amount shrinks by what is issued, issued-but-unclaimed and
/// cumulative issued grow by the same amount, rewards per share never fall,
/// and the slot's token and end time stay.
pub proof fn refresh_conserves_rewards(info: RewardInfo, total_staked: u64, current_ts: u64)
    requires
        refresh_reward_info(info, total_staked, current_ts) is Some,
    ensures
        ({
            let n = refresh_reward_info(info, total_staked, current_ts).unwrap();
            &&& n.mint == info.mint
            &&& n.end_ts == info.end_ts
            &&& n.available_amount <= info.available_amount
            &&& n.available_amount + n.issued_unclaimed_amount == info.available_amount
                + info.issued_unclaimed_amount
            &&& n.available_amount + n.issued_cumulative_amount == info.available_amount
                + info.issued_cumulative_amount
            &&& n.rewards_per_share_scaled >= info.rewards_per_share_scaled
        }),
{
    if !is_unset(info.mint) {
        let eff = effective_ts(current_ts, info.end_ts);
        if total_staked > 0 && eff >= info.last_updated_ts && info.end_ts > info.last_updated_ts {
            lemma_emission_bounds(
                info.available_amount,
                (eff - info.last_updated_ts) as u64,
                (info.end_ts - info.last_updated_ts) as u64,
            );
        }
    }
}

/// After an ordered slot is brought up to `current_ts` it is current, and
/// still ordered.
pub proof fn refresh_makes_current(info: RewardInfo, total_staked: u64, current_ts: u64)
    requires
        slot_is_ordered(info),
        refresh_reward_info(info, total_staked, current_ts) is Some,
    ensures
        slot_is_current(
            refresh_reward_info(info, total_staked, current_ts).unwrap(),
            total_staked,
            current_ts,
        ),
        slot_is_ordered(refresh_reward_info(info, total_staked, current_ts).unwrap()),
{
    if !is_unset(info.mint) && total_staked > 0 && info.end_ts <= current_ts
        && info.last_updated_ts < info.end_ts {
        emission_completes_at_end(info, total_staked, current_ts);
    }
}

/// A current slot is left as it is.
pub proof fn current_slot_is_fixed(info: RewardInfo, total_staked: u64, current_ts: u64)
    requires
        slot_is_current(info, total_staked, current_ts),
    ensures
        refresh_reward_info(info, total_staked, current_ts) == Some(info),
{
    if !is_unset(info.mint) && total_staked > 0 {
        let eff = effective_ts(current_ts, info.end_ts);
        if info.end_ts > info.last_updated_ts {
            assert(emission_amount(info, eff) == 0) by {
                assert(info.available_amount * (eff - info.last_updated_ts) == 0);
            }
        }
    }
}

/// Bringing an ordered slot up to date twice at the same time is the same as
/// once.
pub proof fn refresh_is_idempotent(info: RewardInfo, total_staked: u64, current_ts: u64)
    requires
        slot_is_ordered(info),
        refresh_reward_info(info, total_staked, current_ts) is Some,
    ensures
        ({
            let n = refresh_reward_info(info, total_staked, current_ts).unwrap();
            refresh_reward_info(n, total_staked, current_ts) == Some(n)
        }),
{
    refresh_makes_current(info, total_staked, current_ts);
    let n = refresh_reward_info(info, total_staked, current_ts).unwrap();
    current_slot_is_fixed(n, total_staked, current_ts);
}

/// Once the emission has ended, bringing a used slot with stake behind it up
/// to date issues everything that was still available, also where the slot
/// was last updated at its end.
pub proof fn emission_completes_at_end(info: RewardInfo, total_staked: u64, current_ts: u64)
    requires
        !is_unset(info.mint),
        total_staked > 0,
        info.last_updated_ts <= info.end_ts,
        info.end_ts <= current_ts,
        refresh_reward_info(info, total_staked, current_ts) is Some,
    ensures
        ({
            let n = refresh_reward_info(info, total_staked, current_ts).unwrap();
            &&& n.available_amount == 0
            &&& n.issued_unclaimed_amount == info.issued_unclaimed_amount + info.available_amount
        }),
{
    if info.last_updated_ts < info.end_ts {
        let period = info.end_ts - info.last_updated_ts;
        assert(emission_amount(info, info.end_ts) == info.available_amount) by {
            lemma_mul_is_commutative(info.available_amount as int, period as int);
            lemma_div_multiples_vanish(info.available_amount as int, period as int);
        }
    }
}

proof fn lemma_floor_div_bounds(x: int, d: int)
    requires
        0 <= x,
        0 < d,
    ensures
        (x / d) * d <= x < (x / d + 1) * d,
{
    lemma_fundamental_div_mod(x, d);
    lemma_mul_is_commutative(d, x / d);
    assert((x / d + 1) * d == (x / d) * d + d) by (nonlinear_arith);
}

/// Emission is linear in time, rounded down: bringing a used slot with
/// stake behind it from its last update to `current_ts` (before or after its
/// end) issues the whole number of tokens `q` with
/// `q * period <= available * elapsed < (q + 1) * period`, where the period
/// runs from the last update to the end and the elapsed time from the last
/// update to now or the end, whichever is first; the rewards per share grow by
/// the whole number `p` with `p * staked <= q * precision < (p + 1) * staked`;
/// and the slot is then updated at that time.
pub proof fn refresh_issues_linear_share(info: RewardInfo, total_staked: u64, current_ts: u64)
    requires
        !is_unset(info.mint),
        total_staked > 0,
        info.last_updated_ts < info.end_ts,
        info.last_updated_ts <= current_ts,
        refresh_reward_info(info, total_staked, current_ts) is Some,
    ensures
        ({
            let n = refresh_reward_info(info, total_staked, current_ts).unwrap();
            let elapsed = (if current_ts < info.end_ts {
                current_ts
            } else {
                info.end_ts
            }) - info.last_updated_ts;
            let period = info.end_ts - info.last_updated_ts;
            let q = info.available_amount - n.available_amount;
            let p = n.rewards_per_share_scaled - info.rewards_per_share_scaled;
            &&& q * period <= info.available_amount * elapsed
            &&& info.available_amount * elapsed < (q + 1) * period
            &&& p * total_staked <= q * REWARD_PRECISION
            &&& q * REWARD_PRECISION < (p + 1) * total_staked
            &&& n.issued_unclaimed_amount == info.issued_unclaimed_amount + q
            &&& n.last_updated_ts == info.last_updated_ts + elapsed
        }),
{
    let eff = effective_ts(current_ts, info.end_ts);
    let elapsed = eff - info.last_updated_ts;
    let period = info.end_ts - info.last_updated_ts;
    assert(0 <= info.available_amount * elapsed) by (nonlinear_arith)
        requires
            0 <= elapsed,
    ;
    lemma_floor_div_bounds(info.available_amount * elapsed, period);
    lemma_emission_bounds(info.available_amount, elapsed as u64, period as u64);
    let q = emission_amount(info, eff);
    assert(0 <= q * REWARD_PRECISION) by (nonlinear_arith)
        requires
            0 <= q,
    ;
    lemma_floor_div_bounds(q * REWARD_PRECISION, total_staked as int);
}

/// A staker's slot is credited its stake's share of the growth of rewards per
/// share since its tally, rounded down: where that share is below 2^64 the
/// owed amount grows by the whole number `c` with
/// `c * precision <= growth * stake < (c + 1) * precision`, and the tally
/// catches up with the farm.  A slot unused in the farm is left as it is, and
/// where the farm's rewards per share do not exceed the tally only the tally
/// moves.
pub proof fn stake_refresh_credits_share(tally: u128, unclaimed: u64, stake: u64, info: RewardInfo)
    ensures
        is_unset(info.mint) ==> refresh_stake_slot(tally, unclaimed, stake, info) == Some(
            (tally, unclaimed),
        ),
        !is_unset(info.mint) && info.rewards_per_share_scaled <= tally ==> refresh_stake_slot(
            tally,
            unclaimed,
            stake,
            info,
        ) == Some((info.rewards_per_share_scaled, unclaimed)),
        !is_unset(info.mint) && info.rewards_per_share_scaled > tally && (
        info.rewards_per_share_scaled - tally) * stake < 0x1_0000_0000_0000_0000 * REWARD_PRECISION
            ==> (refresh_stake_slot(tally, unclaimed, stake, info) matches Some((t, u)) ==> {
            let c = u - unclaimed;
            let growth = (info.rewards_per_share_scaled - tally) * stake;
            &&& t == info.rewards_per_share_scaled
            &&& c * REWARD_PRECISION <= growth
            &&& growth < (c + 1) * REWARD_PRECISION
        }),
{
    if !is_unset(info.mint) && info.rewards_per_share_scaled > tally {
        let growth = (info.rewards_per_share_scaled - tally) * stake;
        assert(0 <= growth) by (nonlinear_arith)
            requires
                info.rewards_per_share_scaled > tally,
                growth == (info.rewards_per_share_scaled - tally) * stake,
        ;
        lemma_floor_div_bounds(growth, REWARD_PRECISION as int);
        if growth < 0x1_0000_0000_0000_0000 * REWARD_PRECISION {
            assert(growth / (REWARD_PRECISION as int) < 0x1_0000_0000_0000_0000) by {
                lemma_div_is_ordered(growth, 0x1_0000_0000_0000_0000 * REWARD_PRECISION - 1, REWARD_PRECISION as int);
                lemma_div_multiples_vanish(0x1_0000_0000_0000_0000 - 1, REWARD_PRECISION as int);
            }
            lemma_small_mod((growth / (REWARD_PRECISION as int)) as nat, 0x1_0000_0000_0000_0000);
        }
    }
}

/// While nothing is staked, nothing is emitted: the slot only moves its
/// update time.
pub proof fn no_emission_without_stake(info: RewardInfo, current_ts: u64)
    ensures
        refresh_reward_info(info, 0, current_ts) == Some(
            if is_unset(info.mint) {
                info
            } else {
                RewardInfo { last_updated_ts: effective_ts(current_ts, info.end_ts), ..info }
            },
        ),
{
}

// ---------------------------------------------------------------------------
// Bringing a staker up to date.
/// A staker's slot that is unused in the farm, or whose tally equals the
/// farm's rewards per share, has nothing to catch up on.
pub open spec fn stake_slot_is_current(tally: u128, info: RewardInfo) -> bool {
    is_unset(info.mint) || tally == info.rewards_per_share_scaled
}

/// Bringing a staker's slot up to date never lowers what it is owed, and
/// leaves a current slot as it is.
pub proof fn stake_refresh_only_credits(tally: u128, unclaimed: u64, stake: u64, info: RewardInfo)
    ensures
        refresh_stake_slot(tally, unclaimed, stake, info) matches Some((t, u)) ==> u >= unclaimed
            && stake_slot_is_current(t, info),
        stake_slot_is_current(tally, info) ==> refresh_stake_slot(tally, unclaimed, stake, info)
            == Some((tally, unclaimed)),
{
}

// ---------------------------------------------------------------------------
// The rewards a farm holds.
/// What a slot still holds for stakers: not yet issued, or issued and not claimed.
pub open spec fn slot_outstanding(r: RewardInfo) -> int {
    r.available_amount + r.issued_unclaimed_amount
}

/// What all slots hold for stakers.
pub open spec fn outstanding(infos: Seq<RewardInfo>) -> int
    decreases infos.len(),
{
    if infos.len() == 0 {
        0
    } else {
        outstanding(infos.drop_last()) + slot_outstanding(infos.last())
    }
}

proof fn lemma_outstanding_pointwise(a: Seq<RewardInfo>, b: Seq<RewardInfo>)
    requires
        a.len() == b.len(),
        forall|i: int| 0 <= i < a.len() ==> slot_outstanding(#[trigger] a[i]) == slot_outstanding(
            b[i],
        ),
    ensures
        outstanding(a) == outstanding(b),
    decreases a.len(),
{
    if a.len() > 0 {
        let a0 = a.drop_last();
        let b0 = b.drop_last();
        assert forall|i: int| 0 <= i < a0.len() implies slot_outstanding(#[trigger] a0[i])
            == slot_outstanding(b0[i]) by {
            assert(a0[i] == a[i]);
            assert(b0[i] == b[i]);
        }
        lemma_outstanding_pointwise(a0, b0);
        assert(slot_outstanding(a[a.len() - 1]) == slot_outstanding(b[b.len() - 1]));
    }
}

proof fn lemma_outstanding_update(s: Seq<RewardInfo>, i: int, x: RewardInfo)
    requires
        0 <= i < s.len(),
    ensures
        outstanding(s.update(i, x)) == outstanding(s) - slot_outstanding(s[i]) + slot_outstanding(
            x,
        ),
    decreases s.len(),
{
    let u = s.update(i, x);
    if i == s.len() - 1 {
        assert(u.drop_last() =~= s.drop_last());
    } else {
        lemma_outstanding_update(s.drop_last(), i, x);
        assert(u.drop_last() =~= s.drop_last().update(i, x));
    }
}

/// Bringing a farm up to date keeps what it holds for stakers, its stake,
/// and the token of every slot.
pub proof fn refresh_farm_conserves_rewards(f: FarmModel, current_ts: u64)
    requires
        f.wf(),
        refresh_farm(f, current_ts) is Some,
    ensures
        ({
            let r = refresh_farm(f, current_ts).unwrap();
            &&& r.wf()
            &&& r.stake_info == f.stake_info
            &&& outstanding(r.reward_infos) == outstanding(f.reward_infos)
            &&& forall|i: int|
                0 <= i < MAX_REWARDS_TOKENS ==> (#[trigger] r.reward_infos[i]).mint
                    == f.reward_infos[i].mint
        }),
{
    let r = refresh_farm(f, current_ts).unwrap();
    assert forall|i: int| 0 <= i < f.reward_infos.len() implies slot_outstanding(
        #[trigger] r.reward_infos[i],
    ) == slot_outstanding(f.reward_infos[i]) && r.reward_infos[i].mint == f.reward_infos[i].mint by {
        assert(refresh_reward_info(f.reward_infos[i], f.stake_info.total_amount, current_ts) is Some);
        refresh_conserves_rewards(f.reward_infos[i], f.stake_info.total_amount, current_ts);
    }
    lemma_outstanding_pointwise(r.reward_infos, f.reward_infos);
}

/// A farm whose slots are all current is left as it is.
pub proof fn current_farm_is_fixed(f: FarmModel, current_ts: u64)
    requires
        forall|i: int|
            0 <= i < f.reward_infos.len() ==> slot_is_current(
                #[trigger] f.reward_infos[i],
                f.stake_info.total_amount,
                current_ts,
            ),
    ensures
        refresh_farm(f, current_ts) == Some(f),
{
    assert forall|i: int| 0 <= i < f.reward_infos.len() implies (#[trigger] refresh_reward_info(
        f.reward_infos[i],
        f.stake_info.total_amount,
        current_ts,
    )) == Some(f.reward_infos[i]) by {
        current_slot_is_fixed(f.reward_infos[i], f.stake_info.total_amount, current_ts);
    }
    let r = refresh_farm(f, current_ts).unwrap();
    assert(r.reward_infos =~= f.reward_infos);
    assert(r =~= f);
}

/// Bringing a farm whose slots are ordered up to date twice at the same time
/// is the same as once; the refreshed farm's slots are current and ordered.
pub proof fn refresh_farm_is_idempotent(f: FarmModel, current_ts: u64)
    requires
        farm_slots_ordered(f),
        refresh_farm(f, current_ts) is Some,
    ensures
        refresh_farm(refresh_farm(f, current_ts).unwrap(), current_ts) == refresh_farm(f, current_ts),
        farm_slots_ordered(refresh_farm(f, current_ts).unwrap()),
        forall|i: int|
            0 <= i < f.reward_infos.len() ==> slot_is_current(
                #[trigger] refresh_farm(f, current_ts).unwrap().reward_infos[i],
                f.stake_info.total_amount,
                current_ts,
            ),
{
    let r = refresh_farm(f, current_ts).unwrap();
    assert forall|i: int| 0 <= i < r.reward_infos.len() implies slot_is_current(
        #[trigger] r.reward_infos[i],
        r.stake_info.total_amount,
        current_ts,
    ) && slot_is_ordered(r.reward_infos[i]) by {
        assert(refresh_reward_info(f.reward_infos[i], f.stake_info.total_amount, current_ts) is Some);
        assert(slot_is_ordered(f.reward_infos[i]));
        refresh_makes_current(f.reward_infos[i], f.stake_info.total_amount, current_ts);
    }
    current_farm_is_fixed(r, current_ts);
}

/// A staker whose slots are all current against the farm is left as it is.
pub proof fn current_staker_is_fixed(s: StakerModel, f: FarmModel)
    requires
        s.wf(),
        f.wf(),
        forall|i: int|
            0 <= i < MAX_REWARDS_TOKENS ==> stake_slot_is_current(
                #[trigger] s.rewards_tally_scaled[i],
                f.reward_infos[i],
            ),
    ensures
        refresh_staker(s, f) == Some(s),
{
    assert forall|i: int| 0 <= i < MAX_REWARDS_TOKENS implies #[trigger] stake_slot_of(s, f, i)
        == Some((s.rewards_tally_scaled[i], s.rewards_issued_unclaimed[i])) by {
        stake_refresh_only_credits(
            s.rewards_tally_scaled[i],
            s.rewards_issued_unclaimed[i],
            s.stake_amount,
            f.reward_infos[i],
        );
    }
    let r = refresh_staker(s, f).unwrap();
    assert(r.rewards_tally_scaled =~= s.rewards_tally_scaled);
    assert(r.rewards_issued_unclaimed =~= s.rewards_issued_unclaimed);
    assert(r =~= s);
}

/// Bringing a staker up to date never lowers what it is owed in any slot,
/// and doing it twice against the same farm is the same as once.
pub proof fn refresh_staker_is_idempotent(s: StakerModel, f: FarmModel)
    requires
        s.wf(),
        f.wf(),
        refresh_staker(s, f) is Some,
    ensures
        ({
            let r = refresh_staker(s, f).unwrap();
            &&& r.wf()
            &&& forall|i: int|
                0 <= i < MAX_REWARDS_TOKENS ==> (#[trigger] r.rewards_issued_unclaimed[i])
                    >= s.rewards_issued_unclaimed[i]
            &&& refresh_staker(r, f) == Some(r)
        }),
{
    let r = refresh_staker(s, f).unwrap();
    assert forall|i: int| 0 <= i < MAX_REWARDS_TOKENS implies stake_slot_is_current(
        #[trigger] r.rewards_tally_scaled[i],
        f.reward_infos[i],
    ) && r.rewards_issued_unclaimed[i] >= s.rewards_issued_unclaimed[i] by {
        assert(stake_slot_of(s, f, i) is Some);
        stake_refresh_only_credits(
            s.rewards_tally_scaled[i],
            s.rewards_issued_unclaimed[i],
            s.stake_amount,
            f.reward_infos[i],
        );
    }
    current_staker_is_fixed(r, f);
}

// ---------------------------------------------------------------------------
// Finding a slot.
proof fn lemma_find_mint_none(infos: Seq<RewardInfo>, mint: Pubkey, from: nat)
    ensures
        find_mint(infos, mint, from) is None <==> forall|i: int|
            from <= i < infos.len() ==> (#[trigger] infos[i]).mint != mint,
    decreases infos.len() - from,
{
    if from < infos.len() {
        lemma_find_mint_none(infos, mint, from + 1);
        if find_mint(infos, mint, from) is None {
            assert forall|i: int| from <= i < infos.len() implies (#[trigger] infos[i]).mint
                != mint by {
                if i > from {
                }
            }
        }
    }
}

proof fn lemma_find_reward_slot_none(infos: Seq<RewardInfo>, mint: Pubkey, from: nat)
    ensures
        find_reward_slot(infos, mint, from) is None <==> forall|i: int|
            from <= i < infos.len() ==> (#[trigger] infos[i]).mint != mint && !is_unset(
                infos[i].mint,
            ),
    decreases infos.len() - from,
{
    if from < infos.len() {
        lemma_find_reward_slot_none(infos, mint, from + 1);
    }
}

proof fn lemma_find_mint_same_mints(a: Seq<RewardInfo>, b: Seq<RewardInfo>, mint: Pubkey, from: nat)
    requires
        a.len() == b.len(),
        forall|i: int| 0 <= i < a.len() ==> (#[trigger] a[i]).mint == b[i].mint,
    ensures
        find_mint(a, mint, from) == find_mint(b, mint, from),
    decreases a.len() - from,
{
    if from < a.len() {
        assert(a[from as int].mint == b[from as int].mint);
        lemma_find_mint_same_mints(a, b, mint, from + 1);
    }
}

proof fn lemma_find_mint_first(infos: Seq<RewardInfo>, mint: Pubkey, from: nat)
    ensures
        find_mint(infos, mint, from) matches Some(i) ==> forall|j: int|
            from <= j < i ==> (#[trigger] infos[j]).mint != mint,
    decreases infos.len() - from,
{
    if from < infos.len() && infos[from as int].mint != mint {
        lemma_find_mint_first(infos, mint, from + 1);
    }
}

proof fn lemma_find_reward_slot_first(infos: Seq<RewardInfo>, mint: Pubkey, from: nat)
    ensures
        find_reward_slot(infos, mint, from) matches Some(i) ==> forall|j: int|
            from <= j < i ==> (#[trigger] infos[j]).mint != mint && !is_unset(infos[j].mint),
    decreases infos.len() - from,
{
    if from < infos.len() && infos[from as int].mint != mint && !is_unset(infos[from as int].mint) {
        lemma_find_reward_slot_first(infos, mint, from + 1);
    }
}

/// A claim finds its slot unless no slot holds the claimed token.
pub proof fn reward_not_found_exactly_when_absent(infos: Seq<RewardInfo>, mint: Pubkey)
    ensures
        find_mint(infos, mint, 0) is None <==> forall|i: int|
            0 <= i < infos.len() ==> (#[trigger] infos[i]).mint != mint,
{
    lemma_find_mint_none(infos, mint, 0);
}

/// A reward finds a slot unless every slot is used by another token.
pub proof fn rewards_full_exactly_when_every_slot_is_taken(infos: Seq<RewardInfo>, mint: Pubkey)
    ensures
        find_reward_slot(infos, mint, 0) is None <==> forall|i: int|
            0 <= i < infos.len() ==> (#[trigger] infos[i]).mint != mint && !is_unset(
                infos[i].mint,
            ),
{
    lemma_find_reward_slot_none(infos, mint, 0);
}

// ---------------------------------------------------------------------------
// Instructions.
/// Adding a reward makes the farm hold exactly `amount` more for stakers.
pub proof fn add_reward_adds_amount(
    f: FarmModel,
    mint: Pubkey,
    amount: u64,
    end_ts: u64,
    current_ts: u64,
)
    requires
        f.wf(),
        add_reward_to_farm(f, mint, amount, end_ts, current_ts) is Ok,
    ensures
        ({
            let g = add_reward_to_farm(f, mint, amount, end_ts, current_ts)->Ok_0;
            &&& g.wf()
            &&& outstanding(g.reward_infos) == outstanding(f.reward_infos) + amount
            &&& g.stake_info == f.stake_info
        }),
{
    let r = refresh_farm(f, current_ts).unwrap();
    refresh_farm_conserves_rewards(f, current_ts);
    crate::state::lemma_find_reward_slot_in_range(r.reward_infos, mint, 0);
    let i = find_reward_slot(r.reward_infos, mint, 0).unwrap();
    let info = r.reward_infos[i];
    let x = RewardInfo {
        mint: mint,
        available_amount: (info.available_amount + amount) as u64,
        last_updated_ts: current_ts,
        end_ts: end_ts,
        ..info
    };
    lemma_outstanding_update(r.reward_infos, i, x);
}

/// Adding a reward is refused as ending in the past exactly when its end
/// lies before the current time, and then leaves the farm as it was.
pub proof fn add_reward_refuses_only_past_ends(
    f: FarmModel,
    mint: Pubkey,
    amount: u64,
    end_ts: u64,
    current_ts: u64,
)
    ensures
        (add_reward_to_farm(f, mint, amount, end_ts, current_ts) matches Err(FarmError::InvalidEndTs))
            <==> end_ts < current_ts,
{
}

/// Adding a reward puts it in the first slot, once the farm is brought up to
/// date, that holds its mint or is unused: that slot takes the mint, gains
/// exactly `amount` available, and emits from now until `end_ts`, keeping what
/// it had issued and its rewards per share; every other slot and the stake are
/// left as brought up to date.
pub proof fn add_reward_fills_one_slot(
    f: FarmModel,
    mint: Pubkey,
    amount: u64,
    end_ts: u64,
    current_ts: u64,
)
    requires
        f.wf(),
        add_reward_to_farm(f, mint, amount, end_ts, current_ts) is Ok,
    ensures
        ({
            let r = refresh_farm(f, current_ts)->Some_0;
            let g = add_reward_to_farm(f, mint, amount, end_ts, current_ts)->Ok_0;
            let i = find_reward_slot(r.reward_infos, mint, 0)->Some_0;
            &&& current_ts <= end_ts
            &&& 0 <= i < MAX_REWARDS_TOKENS
            &&& r.reward_infos[i].mint == mint || is_unset(r.reward_infos[i].mint)
            &&& forall|j: int|
                0 <= j < i ==> (#[trigger] r.reward_infos[j]).mint != mint && !is_unset(
                    r.reward_infos[j].mint,
                )
            &&& g.reward_infos[i].mint == mint
            &&& g.reward_infos[i].available_amount == r.reward_infos[i].available_amount + amount
            &&& g.reward_infos[i].end_ts == end_ts
            &&& g.reward_infos[i].last_updated_ts == current_ts
            &&& g.reward_infos[i].issued_unclaimed_amount == r.reward_infos[i].issued_unclaimed_amount
            &&& g.reward_infos[i].issued_cumulative_amount
                == r.reward_infos[i].issued_cumulative_amount
            &&& g.reward_infos[i].rewards_per_share_scaled
                == r.reward_infos[i].rewards_per_share_scaled
            &&& g.stake_info == r.stake_info
            &&& g.reward_infos.len() == MAX_REWARDS_TOKENS
            &&& forall|j: int|
                0 <= j < MAX_REWARDS_TOKENS && j != i ==> #[trigger] g.reward_infos[j]
                    == r.reward_infos[j]
        }),
{
    let r = refresh_farm(f, current_ts).unwrap();
    crate::state::lemma_find_reward_slot_in_range(r.reward_infos, mint, 0);
    lemma_find_reward_slot_first(r.reward_infos, mint, 0);
}

/// A claim pays out what the staker was owed, never nothing, and the farm
/// holds exactly that much less for stakers.
pub proof fn claim_pays_what_is_owed(f: FarmModel, s: StakerModel, mint: Pubkey, current_ts: u64)
    requires
        f.wf(),
        s.wf(),
        claim_from_farm(f, s, mint, current_ts) is Ok,
    ensures
        ({
            let (g, t, amount) = claim_from_farm(f, s, mint, current_ts)->Ok_0;
            &&& amount > 0
            &&& outstanding(g.reward_infos) + amount == outstanding(f.reward_infos)
            &&& g.stake_info == f.stake_info
            &&& t.stake_amount == s.stake_amount
        }),
{
    let r = refresh_farm(f, current_ts).unwrap();
    refresh_farm_conserves_rewards(f, current_ts);
    let s1 = refresh_staker(s, r).unwrap();
    crate::state::lemma_find_mint_in_range(r.reward_infos, mint, 0);
    let i = find_mint(r.reward_infos, mint, 0).unwrap();
    let info = r.reward_infos[i];
    let amount = s1.rewards_issued_unclaimed[i];
    let x = RewardInfo {
        issued_unclaimed_amount: (info.issued_unclaimed_amount - amount) as u64,
        ..info
    };
    lemma_outstanding_update(r.reward_infos, i, x);
}

/// Adding a reward, claiming and unstaking keep every slot's last update at
/// or before its end.
pub proof fn instructions_keep_slots_ordered(
    f: FarmModel,
    s: StakerModel,
    mint: Pubkey,
    amount: u64,
    end_ts: u64,
    current_ts: u64,
)
    requires
        f.wf(),
        s.wf(),
        farm_slots_ordered(f),
    ensures
        add_reward_to_farm(f, mint, amount, end_ts, current_ts) matches Ok(g) ==> farm_slots_ordered(g),
        claim_from_farm(f, s, mint, current_ts) matches Ok((g, t, paid)) ==> farm_slots_ordered(g),
        unstake_from_farm(f, s, amount, current_ts) matches Ok((g, t)) ==> farm_slots_ordered(g),
{
    if refresh_farm(f, current_ts) is Some {
        refresh_farm_is_idempotent(f, current_ts);
        let r = refresh_farm(f, current_ts).unwrap();
        crate::state::lemma_find_reward_slot_in_range(r.reward_infos, mint, 0);
        crate::state::lemma_find_mint_in_range(r.reward_infos, mint, 0);
        if add_reward_to_farm(f, mint, amount, end_ts, current_ts) is Ok {
            let g = add_reward_to_farm(f, mint, amount, end_ts, current_ts)->Ok_0;
            let i = find_reward_slot(r.reward_infos, mint, 0).unwrap();
            assert forall|j: int| 0 <= j < g.reward_infos.len() implies slot_is_ordered(
                #[trigger] g.reward_infos[j],
            ) by {
                if j != i {
                    assert(g.reward_infos[j] == r.reward_infos[j]);
                }
            }
        }
        if claim_from_farm(f, s, mint, current_ts) is Ok {
            let (g, t, paid) = claim_from_farm(f, s, mint, current_ts)->Ok_0;
            assert forall|j: int| 0 <= j < g.reward_infos.len() implies slot_is_ordered(
                #[trigger] g.reward_infos[j],
            ) by {
                assert(slot_is_ordered(r.reward_infos[j]));
            }
        }
    }
}

// After a claim the farm is still current at the claim's time, and the
// staker is still current against it; the mints stay where they were.
proof fn lemma_claim_leaves_state_current(f: FarmModel, s: StakerModel, mint: Pubkey, current_ts: u64)
    requires
        f.wf(),
        s.wf(),
        farm_slots_ordered(f),
        claim_from_farm(f, s, mint, current_ts) is Ok,
    ensures
        ({
            let r = refresh_farm(f, current_ts).unwrap();
            let (g, t, amount) = claim_from_farm(f, s, mint, current_ts)->Ok_0;
            &&& refresh_farm(g, current_ts) == Some(g)
            &&& refresh_staker(t, g) == Some(t)
            &&& g.reward_infos.len() == r.reward_infos.len()
            &&& forall|j: int|
                0 <= j < g.reward_infos.len() ==> (#[trigger] g.reward_infos[j]).mint
                    == r.reward_infos[j].mint
        }),
{
    let r = refresh_farm(f, current_ts).unwrap();
    refresh_farm_conserves_rewards(f, current_ts);
    refresh_farm_is_idempotent(f, current_ts);
    let s1 = refresh_staker(s, r).unwrap();
    refresh_staker_is_idempotent(s, r);
    crate::state::lemma_find_mint_in_range(r.reward_infos, mint, 0);
    let (g, t, amount) = claim_from_farm(f, s, mint, current_ts)->Ok_0;
    // The farm after the claim differs from the refreshed farm only in the
    // issued-but-unclaimed amount of the claimed slot, so it is still current.
    assert forall|j: int| 0 <= j < g.reward_infos.len() implies slot_is_current(
        #[trigger] g.reward_infos[j],
        g.stake_info.total_amount,
        current_ts,
    ) by {
        assert(slot_is_current(r.reward_infos[j], f.stake_info.total_amount, current_ts));
    }
    current_farm_is_fixed(g, current_ts);
    // The staker after the claim is still current against that farm.
    assert forall|j: int| 0 <= j < MAX_REWARDS_TOKENS implies stake_slot_is_current(
        #[trigger] t.rewards_tally_scaled[j],
        g.reward_infos[j],
    ) by {
        assert(stake_slot_of(s1, r, j) == Some(
            (s1.rewards_tally_scaled[j], s1.rewards_issued_unclaimed[j]),
        ));
        assert(refresh_stake_slot(
            s1.rewards_tally_scaled[j],
            s1.rewards_issued_unclaimed[j],
            s1.stake_amount,
            r.reward_infos[j],
        ) == Some((s1.rewards_tally_scaled[j], s1.rewards_issued_unclaimed[j])));
        if !is_unset(r.reward_infos[j].mint) && s1.rewards_tally_scaled[j]
            != r.reward_infos[j].rewards_per_share_scaled {
            stake_refresh_only_credits(
                s1.rewards_tally_scaled[j],
                s1.rewards_issued_unclaimed[j],
                s1.stake_amount,
                r.reward_infos[j],
            );
        }
    }
    current_staker_is_fixed(t, g);
}

/// Claiming the same token again at the same time finds nothing to claim,
/// for a farm whose slots are ordered.
pub proof fn second_claim_finds_nothing(
    f: FarmModel,
    s: StakerModel,
    mint: Pubkey,
    current_ts: u64,
)
    requires
        f.wf(),
        s.wf(),
        farm_slots_ordered(f),
        claim_from_farm(f, s, mint, current_ts) is Ok,
    ensures
        ({
            let (g, t, amount) = claim_from_farm(f, s, mint, current_ts)->Ok_0;
            claim_from_farm(g, t, mint, current_ts) == Err::<(FarmModel, StakerModel, u64), FarmError>(
                FarmError::NothingToClaim,
            )
        }),
{
    let r = refresh_farm(f, current_ts).unwrap();
    lemma_claim_leaves_state_current(f, s, mint, current_ts);
    crate::state::lemma_find_mint_in_range(r.reward_infos, mint, 0);
    let (g, t, amount) = claim_from_farm(f, s, mint, current_ts)->Ok_0;
    lemma_find_mint_same_mints(g.reward_infos, r.reward_infos, mint, 0);
}

/// A claim of `mint` pays what the staker, once farm and staker are brought up
/// to date, is owed in the first slot that holds `mint`; afterwards it owes
/// nothing there and the claim time is recorded there.  Every other slot of
/// the staker keeps what it is owed, its claim time and its tally, and every
/// other slot of the farm is left as brought up to date.
pub proof fn claim_settles_only_its_slot(f: FarmModel, s: StakerModel, mint: Pubkey, current_ts: u64)
    requires
        f.wf(),
        s.wf(),
        claim_from_farm(f, s, mint, current_ts) is Ok,
    ensures
        ({
            let r = refresh_farm(f, current_ts)->Some_0;
            let s1 = refresh_staker(s, r)->Some_0;
            let i = find_mint(r.reward_infos, mint, 0)->Some_0;
            let (g, t, amount) = claim_from_farm(f, s, mint, current_ts)->Ok_0;
            &&& 0 <= i < MAX_REWARDS_TOKENS
            &&& r.reward_infos[i].mint == mint
            &&& forall|j: int| 0 <= j < i ==> (#[trigger] r.reward_infos[j]).mint != mint
            &&& amount == s1.rewards_issued_unclaimed[i]
            &&& t.rewards_issued_unclaimed[i] == 0
            &&& t.last_claim_ts[i] == current_ts
            &&& g.reward_infos[i].issued_unclaimed_amount + amount
                == r.reward_infos[i].issued_unclaimed_amount
            &&& t.rewards_tally_scaled == s1.rewards_tally_scaled
            &&& t.stake_amount == s1.stake_amount
            &&& g.stake_info == r.stake_info
            &&& t.rewards_issued_unclaimed.len() == MAX_REWARDS_TOKENS
            &&& t.last_claim_ts.len() == MAX_REWARDS_TOKENS
            &&& g.reward_infos.len() == MAX_REWARDS_TOKENS
            &&& forall|j: int|
                0 <= j < MAX_REWARDS_TOKENS && j != i ==> {
                    &&& #[trigger] t.rewards_issued_unclaimed[j] == s1.rewards_issued_unclaimed[j]
                    &&& t.last_claim_ts[j] == s1.last_claim_ts[j]
                    &&& g.reward_infos[j] == r.reward_infos[j]
                }
        }),
{
    let r = refresh_farm(f, current_ts).unwrap();
    crate::state::lemma_find_mint_in_range(r.reward_infos, mint, 0);
    lemma_find_mint_first(r.reward_infos, mint, 0);
}

/// Claims of two different tokens at the same time do not disturb each
/// other: after claiming one, claiming the other pays what it would have paid
/// first.
pub proof fn claims_of_different_tokens_are_independent(
    f: FarmModel,
    s: StakerModel,
    first: Pubkey,
    second: Pubkey,
    current_ts: u64,
)
    requires
        f.wf(),
        s.wf(),
        farm_slots_ordered(f),
        first != second,
        claim_from_farm(f, s, first, current_ts) is Ok,
        claim_from_farm(f, s, second, current_ts) is Ok,
    ensures
        ({
            let (g, t, paid) = claim_from_farm(f, s, first, current_ts)->Ok_0;
            let (h, u, owed) = claim_from_farm(f, s, second, current_ts)->Ok_0;
            claim_from_farm(g, t, second, current_ts) matches Ok((h2, u2, paid2)) && paid2 == owed
        }),
{
    let r = refresh_farm(f, current_ts).unwrap();
    lemma_claim_leaves_state_current(f, s, first, current_ts);
    claim_settles_only_its_slot(f, s, first, current_ts);
    claim_settles_only_its_slot(f, s, second, current_ts);
    let (g, t, paid) = claim_from_farm(f, s, first, current_ts)->Ok_0;
    lemma_find_mint_same_mints(g.reward_infos, r.reward_infos, second, 0);
}

/// Unstaking lowers the farm's total and the staker's stake by the same
/// amount, and the farm holds as much for stakers as before.
pub proof fn unstake_moves_stake(f: FarmModel, s: StakerModel, amount: u64, current_ts: u64)
    requires
        f.wf(),
        s.wf(),
        unstake_from_farm(f, s, amount, current_ts) is Ok,
    ensures
        ({
            let (g, t) = unstake_from_farm(f, s, amount, current_ts)->Ok_0;
            &&& g.stake_info.total_amount + amount == f.stake_info.total_amount
            &&& t.stake_amount + amount == s.stake_amount
            &&& g.stake_info.mint == f.stake_info.mint
            &&& outstanding(g.reward_infos) == outstanding(f.reward_infos)
        }),
{
    refresh_farm_conserves_rewards(f, current_ts);
}

/// Unstaking, of any amount up to the whole stake, leaves the staker owed
/// exactly what it is owed once brought up to date against the refreshed
/// farm, with the same tallies and claim times; only the stake and the farm's
/// total shrink, and the reward slots stay as brought up to date.
pub proof fn unstake_keeps_what_is_owed(f: FarmModel, s: StakerModel, amount: u64, current_ts: u64)
    requires
        f.wf(),
        s.wf(),
        unstake_from_farm(f, s, amount, current_ts) is Ok,
    ensures
        ({
            let r = refresh_farm(f, current_ts)->Some_0;
            let s1 = refresh_staker(s, r)->Some_0;
            let (g, t) = unstake_from_farm(f, s, amount, current_ts)->Ok_0;
            &&& t.rewards_issued_unclaimed == s1.rewards_issued_unclaimed
            &&& t.rewards_tally_scaled == s1.rewards_tally_scaled
            &&& t.last_claim_ts == s1.last_claim_ts
            &&& t.last_stake_ts == s.last_stake_ts
            &&& t.user == s.user
            &&& t.farm == s.farm
            &&& t.bump == s.bump
            &&& t.authority_bump == s.authority_bump
            &&& t.stake_amount + amount == s.stake_amount
            &&& g.reward_infos == r.reward_infos
            &&& g.stake_info.total_amount + amount == r.stake_info.total_amount
        }),
{
}

/// Unstaking is refused for a zero amount, and for more than the staker has
/// staked, and for nothing else before farm and staker are brought up to date.
pub proof fn unstake_refusals(f: FarmModel, s: StakerModel, amount: u64, current_ts: u64)
    ensures
        (unstake_from_farm(f, s, amount, current_ts) matches Err(FarmError::InvalidAmount)) <==> amount
            == 0,
        (unstake_from_farm(f, s, amount, current_ts) matches Err(FarmError::InsufficientStake))
            <==> (amount > 0 && s.stake_amount < amount),
{
}

/// Bringing a farm up to date brings each slot up to date on its own, with
/// the farm's total stake, and changes nothing else.
pub proof fn farm_refresh_is_slotwise(f: FarmModel, current_ts: u64)
    requires
        f.wf(),
    ensures
        refresh_farm(f, current_ts) matches Some(g) ==> {
            &&& g.stake_info == f.stake_info
            &&& g.bump == f.bump
            &&& g.authority_bump == f.authority_bump
            &&& g.reward_infos.len() == f.reward_infos.len()
            &&& forall|i: int|
                0 <= i < f.reward_infos.len() ==> refresh_reward_info(
                    f.reward_infos[i],
                    f.stake_info.total_amount,
                    current_ts,
                ) == Some(#[trigger] g.reward_infos[i])
        },
        refresh_farm(f, current_ts) is None <==> exists|i: int|
            0 <= i < f.reward_infos.len() && (#[trigger] refresh_reward_info(
                f.reward_infos[i],
                f.stake_info.total_amount,
                current_ts,
            )) is None,
{
}

/// Bringing a staker up to date brings each of its slots up to date on its
/// own against the farm's slot of the same index, with its stake, and changes
/// nothing else.
pub proof fn staker_refresh_is_slotwise(s: StakerModel, f: FarmModel)
    requires
        s.wf(),
        f.wf(),
    ensures
        refresh_staker(s, f) matches Some(t) ==> {
            &&& t.user == s.user
            &&& t.farm == s.farm
            &&& t.stake_amount == s.stake_amount
            &&& t.last_claim_ts == s.last_claim_ts
            &&& t.last_stake_ts == s.last_stake_ts
            &&& t.bump == s.bump
            &&& t.authority_bump == s.authority_bump
            &&& t.rewards_tally_scaled.len() == MAX_REWARDS_TOKENS
            &&& t.rewards_issued_unclaimed.len() == MAX_REWARDS_TOKENS
            &&& forall|i: int|
                0 <= i < MAX_REWARDS_TOKENS ==> refresh_stake_slot(
                    s.rewards_tally_scaled[i],
                    s.rewards_issued_unclaimed[i],
                    s.stake_amount,
                    f.reward_infos[i],
                ) == Some((#[trigger] t.rewards_tally_scaled[i], t.rewards_issued_unclaimed[i]))
        },
        refresh_staker(s, f) is None <==> exists|i: int|
            0 <= i < MAX_REWARDS_TOKENS && (#[trigger] refresh_stake_slot(
                s.rewards_tally_scaled[i],
                s.rewards_issued_unclaimed[i],
                s.stake_amount,
                f.reward_infos[i],
            )) is None,
{
    if refresh_staker(s, f) is None {
        let i = choose|i: int| 0 <= i < MAX_REWARDS_TOKENS && (#[trigger] stake_slot_of(s, f, i)) is None;
        assert(stake_slot_of(s, f, i) is None);
    }
    if exists|i: int|
        0 <= i < MAX_REWARDS_TOKENS && (#[trigger] refresh_stake_slot(
            s.rewards_tally_scaled[i],
            s.rewards_issued_unclaimed[i],
            s.stake_amount,
            f.reward_infos[i],
        )) is None {
        let i = choose|i: int|
            0 <= i < MAX_REWARDS_TOKENS && (#[trigger] refresh_stake_slot(
                s.rewards_tally_scaled[i],
                s.rewards_issued_unclaimed[i],
                s.stake_amount,
                f.reward_infos[i],
            )) is None;
        assert(stake_slot_of(s, f, i) is None);
    }
}

/// The tags 0 to 5 name the six instructions, each a different one; every
/// other tag names none.
pub proof fn tags_name_distinct_instructions(a: u8, b: u8)
    ensures
        instruction_of_tag(a) is Some <==> a < 6,
        instruction_of_tag(a) is Some && instruction_of_tag(a) == instruction_of_tag(b) ==> a == b,
{
}

// ---------------------------------------------------------------------------
// Account data.
proof fn lemma_reward_info_at_unique(d: Seq<u8>, off: int, a: RewardInfo, b: RewardInfo)
    requires
        reward_info_at(d, off, a),
        reward_info_at(d, off, b),
    ensures
        a == b,
{
    lemma_key_view_eq(a.mint, b.mint);
}

/// Where a farm account's bytes hold a farm, they hold it in the program's
/// `repr(C)` order: the stake mint in bytes 0..32, the total staked in
/// 32..40, then slot `i` from `o = 40 + 88 * i`: mint in `o..o+32`, available,
/// issued-unclaimed, issued-cumulative, end time and last update as
/// little-endian `u64` in the next five words, rewards per share as a
/// little-endian `u128` in `o+72..o+88`; the bumps at 480 and 481.
#[verifier::spinoff_prover]
pub proof fn farm_account_layout(d: Seq<u8>, f: FarmModel)
    requires
        farm_decodes(d, f),
    ensures
        d.len() == 488,
        d.subrange(0, 32) == f.stake_info.mint@,
        le_value(d.subrange(32, 40)) == f.stake_info.total_amount,
        forall|i: int|
            0 <= i < MAX_REWARDS_TOKENS ==> {
                &&& d.subrange(40 + 88 * i, 72 + 88 * i) == (#[trigger] f.reward_infos[i]).mint@
                &&& le_value(d.subrange(72 + 88 * i, 80 + 88 * i)) == f.reward_infos[i].available_amount
                &&& le_value(d.subrange(80 + 88 * i, 88 + 88 * i))
                    == f.reward_infos[i].issued_unclaimed_amount
                &&& le_value(d.subrange(88 + 88 * i, 96 + 88 * i))
                    == f.reward_infos[i].issued_cumulative_amount
                &&& le_value(d.subrange(96 + 88 * i, 104 + 88 * i)) == f.reward_infos[i].end_ts
                &&& le_value(d.subrange(104 + 88 * i, 112 + 88 * i))
                    == f.reward_infos[i].last_updated_ts
                &&& le_value(d.subrange(112 + 88 * i, 128 + 88 * i))
                    == f.reward_infos[i].rewards_per_share_scaled
            },
        d[480] == f.bump,
        d[481] == f.authority_bump,
{
    assert forall|i: int| 0 <= i < MAX_REWARDS_TOKENS implies {
        &&& d.subrange(40 + 88 * i, 72 + 88 * i) == (#[trigger] f.reward_infos[i]).mint@
        &&& le_value(d.subrange(72 + 88 * i, 80 + 88 * i)) == f.reward_infos[i].available_amount
        &&& le_value(d.subrange(80 + 88 * i, 88 + 88 * i))
            == f.reward_infos[i].issued_unclaimed_amount
        &&& le_value(d.subrange(88 + 88 * i, 96 + 88 * i))
            == f.reward_infos[i].issued_cumulative_amount
        &&& le_value(d.subrange(96 + 88 * i, 104 + 88 * i)) == f.reward_infos[i].end_ts
        &&& le_value(d.subrange(104 + 88 * i, 112 + 88 * i)) == f.reward_infos[i].last_updated_ts
        &&& le_value(d.subrange(112 + 88 * i, 128 + 88 * i))
            == f.reward_infos[i].rewards_per_share_scaled
    } by {
        assert(reward_info_at(d, 40 + 88 * i, f.reward_infos[i]));
    }
}

/// The account image that a farm is written as lays the farm out as
/// `farm_account_layout` reads it: end time of slot `i` in bytes
/// `96 + 88 * i .. 104 + 88 * i`, last update in the next eight, and so on.
#[verifier::spinoff_prover]
pub proof fn farm_image_layout(f: FarmModel, i: int)
    requires
        f.wf(),
        0 <= i < MAX_REWARDS_TOKENS,
    ensures
        farm_bytes(f).len() == 488,
        farm_bytes(f).subrange(0, 32) == f.stake_info.mint@,
        le_value(farm_bytes(f).subrange(32, 40)) == f.stake_info.total_amount,
        farm_bytes(f).subrange(40 + 88 * i, 72 + 88 * i) == f.reward_infos[i].mint@,
        le_value(farm_bytes(f).subrange(72 + 88 * i, 80 + 88 * i)) == f.reward_infos[i].available_amount,
        le_value(farm_bytes(f).subrange(80 + 88 * i, 88 + 88 * i))
            == f.reward_infos[i].issued_unclaimed_amount,
        le_value(farm_bytes(f).subrange(88 + 88 * i, 96 + 88 * i))
            == f.reward_infos[i].issued_cumulative_amount,
        le_value(farm_bytes(f).subrange(96 + 88 * i, 104 + 88 * i)) == f.reward_infos[i].end_ts,
        le_value(farm_bytes(f).subrange(104 + 88 * i, 112 + 88 * i)) == f.reward_infos[i].last_updated_ts,
        le_value(farm_bytes(f).subrange(112 + 88 * i, 128 + 88 * i))
            == f.reward_infos[i].rewards_per_share_scaled,
        farm_bytes(f)[480] == f.bump,
        farm_bytes(f)[481] == f.authority_bump,
{
    lemma_farm_bytes_decode(f);
    farm_account_layout(farm_bytes(f), f);
    assert(f.reward_infos[i] == f.reward_infos[i]);
}

/// The account image that a staker is written as: user in bytes 0..32, farm
/// in 32..64, stake in 64..72, then the tallies (`u128`, from 72), the owed
/// amounts (`u64`, from 152), the claim times (`u64`, from 192), the time of
/// the last stake in 232..240 and the bumps at 240 and 241.
#[verifier::spinoff_prover]
pub proof fn staker_image_layout(s: StakerModel, i: int)
    requires
        s.wf(),
        0 <= i < MAX_REWARDS_TOKENS,
    ensures
        staker_bytes(s).len() == 248,
        staker_bytes(s).subrange(0, 32) == s.user@,
        staker_bytes(s).subrange(32, 64) == s.farm@,
        le_value(staker_bytes(s).subrange(64, 72)) == s.stake_amount,
        le_value(staker_bytes(s).subrange(72 + 16 * i, 88 + 16 * i)) == s.rewards_tally_scaled[i],
        le_value(staker_bytes(s).subrange(152 + 8 * i, 160 + 8 * i)) == s.rewards_issued_unclaimed[i],
        le_value(staker_bytes(s).subrange(192 + 8 * i, 200 + 8 * i)) == s.last_claim_ts[i],
        le_value(staker_bytes(s).subrange(232, 240)) == s.last_stake_ts,
        staker_bytes(s)[240] == s.bump,
        staker_bytes(s)[241] == s.authority_bump,
{
    lemma_staker_bytes_decode(s);
    let d = staker_bytes(s);
    assert(staker_decodes(d, s));
    assert(s.rewards_tally_scaled[i] == le_value(d.subrange(72 + 16 * i, 88 + 16 * i)));
    assert(s.rewards_issued_unclaimed[i] == le_value(d.subrange(152 + 8 * i, 160 + 8 * i)));
    assert(s.last_claim_ts[i] == le_value(d.subrange(192 + 8 * i, 200 + 8 * i)));
}

/// Writing a farm into account data and reading it back gives that farm, and
/// nothing else.
pub proof fn farm_account_data_roundtrip(f: Farm, g: Farm)
    ensures
        farm_decodes(farm_bytes(f@), f@),
        farm_decodes(farm_bytes(f@), g@) ==> g == f,
{
    lemma_farm_bytes_decode(f@);
    let d = farm_bytes(f@);
    if farm_decodes(d, g@) {
        lemma_key_view_eq(f.stake_info.mint, g.stake_info.mint);
        assert forall|i: int| 0 <= i < MAX_REWARDS_TOKENS implies f.reward_infos[i]
            == g.reward_infos[i] by {
            assert(reward_info_at(d, 40 + 88 * i, f@.reward_infos[i]));
            assert(reward_info_at(d, 40 + 88 * i, g@.reward_infos[i]));
            lemma_reward_info_at_unique(d, 40 + 88 * i, f.reward_infos[i], g.reward_infos[i]);
        }
        assert(f.reward_infos =~= g.reward_infos);
    }
}

/// Writing a staker into account data and reading it back gives that
/// staker, and nothing else.
pub proof fn staker_account_data_roundtrip(s: Staker, t: Staker)
    ensures
        staker_decodes(staker_bytes(s@), s@),
        staker_decodes(staker_bytes(s@), t@) ==> t == s,
{
    lemma_staker_bytes_decode(s@);
    let d = staker_bytes(s@);
    if staker_decodes(d, t@) {
        lemma_key_view_eq(s.user, t.user);
        lemma_key_view_eq(s.farm, t.farm);
        assert forall|i: int| 0 <= i < MAX_REWARDS_TOKENS implies s.rewards_tally_scaled[i]
            == t.rewards_tally_scaled[i] && s.rewards_issued_unclaimed[i]
            == t.rewards_issued_unclaimed[i] && s.last_claim_ts[i] == t.last_claim_ts[i] by {
            assert(s@.rewards_tally_scaled[i] == t@.rewards_tally_scaled[i]);
        }
        assert(s.rewards_tally_scaled =~= t.rewards_tally_scaled);
        assert(s.rewards_issued_unclaimed =~= t.rewards_issued_unclaimed);
        assert(s.last_claim_ts =~= t.last_claim_ts);
    }
}

/// Every farm error has a code of its own.
pub proof fn error_codes_are_distinct(a: FarmError, b: FarmError)
    ensures
        a.spec_code() == b.spec_code() ==> a == b,
{
}

// ---------------------------------------------------------------------------
// Solvency of one emission.
/// The sum of the stakes.
pub open spec fn total_stake(stakes: Seq<u64>) -> int
    decreases stakes.len(),
{
    if stakes.len() == 0 {
        0
    } else {
        total_stake(stakes.drop_last()) + stakes.last()
    }
}

/// What stakers with `stakes` are credited when the rewards per share grow
/// from `rps_before` to `rps_after`.
pub open spec fn credited(stakes: Seq<u64>, rps_before: u128, rps_after: u128) -> int
    decreases stakes.len(),
{
    if stakes.len() == 0 {
        0
    } else {
        credited(stakes.drop_last(), rps_before, rps_after) + pending_reward(
            rps_after,
            rps_before,
            stakes.last(),
        )
    }
}

proof fn lemma_sum_of_floors(stakes: Seq<u64>, d: nat)
    ensures
        ({
            let p = REWARD_PRECISION as int;
            &&& 0 <= total_stake(stakes)
            &&& floor_sum(stakes, d) <= (d * total_stake(stakes)) / p
        }),
    decreases stakes.len(),
{
    let p = REWARD_PRECISION as int;
    if stakes.len() > 0 {
        let init = stakes.drop_last();
        lemma_sum_of_floors(init, d);
        let x = d * total_stake(init);
        let y = d * stakes.last();
        assert(x >= 0 && y >= 0) by (nonlinear_arith)
            requires
                x == d * total_stake(init),
                y == d * stakes.last(),
                total_stake(init) >= 0,
                d >= 0,
                stakes.last() >= 0,
        ;
        assert(x / p + y / p <= (x + y) / p) by (nonlinear_arith)
            requires
                x >= 0,
                y >= 0,
                p > 0,
        {
            lemma_fundamental_div_mod(x, p);
            lemma_fundamental_div_mod(y, p);
            lemma_fundamental_div_mod(x + y, p);
        }
        assert(d * total_stake(stakes) == x + y) by (nonlinear_arith)
            requires
                total_stake(stakes) == total_stake(init) + stakes.last(),
                x == d * total_stake(init),
                y == d * stakes.last(),
        ;
    }
}

/// The sum of the stakes' shares of a growth `d` of the rewards per share,
/// each rounded down.
pub open spec fn floor_sum(stakes: Seq<u64>, d: nat) -> int
    decreases stakes.len(),
{
    if stakes.len() == 0 {
        0
    } else {
        floor_sum(stakes.drop_last(), d) + (d * stakes.last()) / (REWARD_PRECISION as int)
    }
}

proof fn lemma_credited_is_floor_sum(stakes: Seq<u64>, rps: u128, d: nat, amount: u64)
    requires
        rps + d <= u128::MAX,
        forall|i: int| 0 <= i < stakes.len() ==> (d * #[trigger] stakes[i]) / (REWARD_PRECISION as int) <= amount,
    ensures
        credited(stakes, rps, (rps + d) as u128) == floor_sum(stakes, d),
    decreases stakes.len(),
{
    if stakes.len() > 0 {
        let init = stakes.drop_last();
        assert forall|i: int| 0 <= i < init.len() implies (d * #[trigger] init[i]) / (
        REWARD_PRECISION as int) <= amount by {
            assert(init[i] == stakes[i]);
        }
        lemma_credited_is_floor_sum(init, rps, d, amount);
        let q = (d * stakes.last()) / (REWARD_PRECISION as int);
        assert(q <= amount);
        assert(q >= 0) by (nonlinear_arith)
            requires
                q == (d * stakes.last()) / (REWARD_PRECISION as int),
                d >= 0,
        ;
        assert(q % 0x1_0000_0000_0000_0000 == q) by {
            lemma_small_mod(q as nat, 0x1_0000_0000_0000_0000);
        }
    }
}

/// One emission is covered: when `amount` is issued to a farm with
/// `total_staked` staked, the growth of the rewards per share credits all
/// stakers together at most `amount`, however the stake is split among them.
pub proof fn one_emission_is_covered(
    amount: u64,
    total_staked: u64,
    rps: u128,
    stakes: Seq<u64>,
)
    requires
        total_staked > 0,
        total_stake(stakes) <= total_staked,
        rps + amount * REWARD_PRECISION / (total_staked as int) <= u128::MAX,
    ensures
        credited(
            stakes,
            rps,
            (rps + amount * REWARD_PRECISION / (total_staked as int)) as u128,
        ) <= amount,
{
    let p = REWARD_PRECISION as int;
    let t = total_staked as int;
    let d = amount * p / t;
    assert(0 <= d) by (nonlinear_arith)
        requires
            d == amount * p / t,
            t > 0,
            p > 0,
            amount >= 0,
    ;
    assert(d * t <= amount * p) by (nonlinear_arith)
        requires
            d == amount * p / t,
            t > 0,
            p > 0,
            amount >= 0,
    {
        lemma_fundamental_div_mod(amount * p, t);
    }
    lemma_sum_of_floors(stakes, d as nat);
    assert((d * total_stake(stakes)) / p <= amount) by (nonlinear_arith)
        requires
            0 <= total_stake(stakes) <= t,
            d * t <= amount * p,
            d >= 0,
            p > 0,
    {
        assert(d * total_stake(stakes) <= d * t);
        assert(d * total_stake(stakes) <= amount * p);
        lemma_div_is_ordered(d * total_stake(stakes), amount * p, p);
        lemma_div_multiples_vanish(amount as int, p);
        lemma_mul_is_commutative(amount as int, p);
    }
    assert forall|i: int| 0 <= i < stakes.len() implies (d * #[trigger] stakes[i]) / p
        <= amount by {
        assert(stakes[i] <= t) by {
            lemma_single_stake_le_total(stakes, i);
        }
        assert(d * stakes[i] <= d * t) by (nonlinear_arith)
            requires
                0 <= stakes[i] <= t,
                d >= 0,
        ;
        lemma_div_is_ordered(d * stakes[i], amount * p, p);
        lemma_div_multiples_vanish(amount as int, p);
        lemma_mul_is_commutative(amount as int, p);
    }
    lemma_credited_is_floor_sum(stakes, rps, d as nat, amount);
}

proof fn lemma_single_stake_le_total(stakes: Seq<u64>, i: int)
    requires
        0 <= i < stakes.len(),
    ensures
        stakes[i] <= total_stake(stakes),
        0 <= total_stake(stakes),
    decreases stakes.len(),
{
    let init = stakes.drop_last();
    lemma_total_stake_nonnegative(init);
    if i < stakes.len() - 1 {
        lemma_single_stake_le_total(init, i);
        assert(init[i] == stakes[i]);
    }
}

proof fn lemma_total_stake_nonnegative(stakes: Seq<u64>)
    ensures
        0 <= total_stake(stakes),
    decreases stakes.len(),
{
    if stakes.len() > 0 {
        lemma_total_stake_nonnegative(stakes.drop_last());
    }
}

} // verus!
