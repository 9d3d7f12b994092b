use vstd::prelude::*;

use crate::codec::{
    concat_map, le_bytes, le_value, lemma_concat_map_layout, lemma_le_bytes_len,
    lemma_le_roundtrip_small, lemma_byte_weight_values, read_pubkey, read_u128, read_u64,
    write_pubkey, write_u128, write_u64, write_zeros, zero_bytes,
};
use crate::constants::MAX_REWARDS_TOKENS;
use crate::error::InstructionError;
use crate::state::{Farm, FarmModel, RewardInfo, StakeInfo, Staker, StakerModel};

verus! {

// Account data holds the `repr(C)` image of a farm or a staker as the Solana
// target lays it out: integers little-endian, `u128` aligned to 8 bytes.

/// Bytes of one reward slot.
pub const REWARD_INFO_LEN: usize = 88;

/// Bytes of a farm account: stake info (40), the reward slots, two bumps,
/// padding to a multiple of 8.
pub const FARM_ACCOUNT_LEN: usize = 488;

/// Bytes of a staker account.
pub const STAKER_ACCOUNT_LEN: usize = 248;

/// Alignment that farm and staker account data must have.
pub const ACCOUNT_DATA_ALIGN: usize = 8;

pub open spec fn u64_bytes(v: u64) -> Seq<u8> {
    le_bytes(v as nat, 8)
}

pub open spec fn u128_bytes(v: u128) -> Seq<u8> {
    le_bytes(v as nat, 16)
}

pub open spec fn reward_info_bytes(r: RewardInfo) -> Seq<u8> {
    r.mint@ + u64_bytes(r.available_amount) + u64_bytes(r.issued_unclaimed_amount) + u64_bytes(
        r.issued_cumulative_amount,
    ) + u64_bytes(r.end_ts) + u64_bytes(r.last_updated_ts) + u128_bytes(
        r.rewards_per_share_scaled,
    )
}

/// The account image of a farm.
pub open spec fn farm_bytes(f: FarmModel) -> Seq<u8> {
    f.stake_info.mint@ + u64_bytes(f.stake_info.total_amount) + concat_map(
        f.reward_infos,
        |r: RewardInfo| reward_info_bytes(r),
    ) + seq![f.bump, f.authority_bump] + zero_bytes(6)
}

/// The account image of a staker.
pub open spec fn staker_bytes(s: StakerModel) -> Seq<u8> {
    s.user@ + s.farm@ + u64_bytes(s.stake_amount) + concat_map(
        s.rewards_tally_scaled,
        |v: u128| u128_bytes(v),
    ) + concat_map(s.rewards_issued_unclaimed, |v: u64| u64_bytes(v)) + concat_map(
        s.last_claim_ts,
        |v: u64| u64_bytes(v),
    ) + u64_bytes(s.last_stake_ts) + seq![s.bump, s.authority_bump] + zero_bytes(6)
}

/// The reward slot at `off` of the bytes `d` is `r`.
pub open spec fn reward_info_at(d: Seq<u8>, off: int, r: RewardInfo) -> bool {
    &&& r.mint@ == d.subrange(off, off + 32)
    &&& r.available_amount == le_value(d.subrange(off + 32, off + 40))
    &&& r.issued_unclaimed_amount == le_value(d.subrange(off + 40, off + 48))
    &&& r.issued_cumulative_amount == le_value(d.subrange(off + 48, off + 56))
    &&& r.end_ts == le_value(d.subrange(off + 56, off + 64))
    &&& r.last_updated_ts == le_value(d.subrange(off + 64, off + 72))
    &&& r.rewards_per_share_scaled == le_value(d.subrange(off + 72, off + 88))
}

/// The account bytes `d` hold the farm `f`.
pub open spec fn farm_decodes(d: Seq<u8>, f: FarmModel) -> bool {
    &&& d.len() == FARM_ACCOUNT_LEN
    &&& f.wf()
    &&& f.stake_info.mint@ == d.subrange(0, 32)
    &&& f.stake_info.total_amount == le_value(d.subrange(32, 40))
    &&& forall|i: int|
        0 <= i < MAX_REWARDS_TOKENS ==> reward_info_at(d, 40 + 88 * i, #[trigger] f.reward_infos[i])
    &&& f.bump == d[480]
    &&& f.authority_bump == d[481]
}

/// The account bytes `d` hold the staker `s`.
pub open spec fn staker_decodes(d: Seq<u8>, s: StakerModel) -> bool {
    &&& d.len() == STAKER_ACCOUNT_LEN
    &&& s.wf()
    &&& s.user@ == d.subrange(0, 32)
    &&& s.farm@ == d.subrange(32, 64)
    &&& s.stake_amount == le_value(d.subrange(64, 72))
    &&& forall|i: int|
        0 <= i < MAX_REWARDS_TOKENS ==> {
            &&& #[trigger] s.rewards_tally_scaled[i] == le_value(
                d.subrange(72 + 16 * i, 88 + 16 * i),
            )
            &&& s.rewards_issued_unclaimed[i] == le_value(d.subrange(152 + 8 * i, 160 + 8 * i))
            &&& s.last_claim_ts[i] == le_value(d.subrange(192 + 8 * i, 200 + 8 * i))
        }
    &&& s.last_stake_ts == le_value(d.subrange(232, 240))
    &&& s.bump == d[240]
    &&& s.authority_bump == d[241]
}

/// The bytes of a farm account that hold the stake mint.
pub open spec fn farm_stake_mint_bytes(d: Seq<u8>) -> Seq<u8> {
    d.subrange(0, 32)
}

/// The bytes of a staker account that hold the staker's user.
pub open spec fn staker_user_bytes(d: Seq<u8>) -> Seq<u8> {
    d.subrange(0, 32)
}

/// The bytes of a staker account that hold the staker's farm.
pub open spec fn staker_farm_bytes(d: Seq<u8>) -> Seq<u8> {
    d.subrange(32, 64)
}

/// Account data that a farm can be read from.
pub open spec fn is_farm_data(d: Seq<u8>, data_address: usize) -> bool {
    d.len() == FARM_ACCOUNT_LEN && data_address % ACCOUNT_DATA_ALIGN == 0
}

/// Account data that a staker can be read from.
pub open spec fn is_staker_data(d: Seq<u8>, data_address: usize) -> bool {
    d.len() == STAKER_ACCOUNT_LEN && data_address % ACCOUNT_DATA_ALIGN == 0
}

fn read_reward_info(data: &[u8], off: usize) -> (r: RewardInfo)
    requires
        off + 88 <= data@.len(),
    ensures
        reward_info_at(data@, off as int, r),
{
    let _len = data.len();
    RewardInfo {
        mint: read_pubkey(data, off),
        available_amount: read_u64(data, off + 32),
        issued_unclaimed_amount: read_u64(data, off + 40),
        issued_cumulative_amount: read_u64(data, off + 48),
        end_ts: read_u64(data, off + 56),
        last_updated_ts: read_u64(data, off + 64),
        rewards_per_share_scaled: read_u128(data, off + 72),
    }
}

fn write_reward_info(out: &mut Vec<u8>, r: &RewardInfo)
    ensures
        final(out)@ == old(out)@ + reward_info_bytes(*r),
{
    let ghost start = out@;
    write_pubkey(out, &r.mint);
    write_u64(out, r.available_amount);
    write_u64(out, r.issued_unclaimed_amount);
    write_u64(out, r.issued_cumulative_amount);
    write_u64(out, r.end_ts);
    write_u64(out, r.last_updated_ts);
    write_u128(out, r.rewards_per_share_scaled);
    assert(out@ =~= start + reward_info_bytes(*r));
}

proof fn lemma_field_lens()
    ensures
        forall|v: u64| #[trigger] u64_bytes(v).len() == 8,
        forall|v: u128| #[trigger] u128_bytes(v).len() == 16,
        forall|r: RewardInfo| #[trigger] reward_info_bytes(r).len() == 88,
{
    assert forall|v: u64| #[trigger] u64_bytes(v).len() == 8 by {
        lemma_le_bytes_len(v as nat, 8);
    }
    assert forall|v: u128| #[trigger] u128_bytes(v).len() == 16 by {
        lemma_le_bytes_len(v as nat, 16);
    }
    assert forall|r: RewardInfo| #[trigger] reward_info_bytes(r).len() == 88 by {
        lemma_le_bytes_len(r.available_amount as nat, 8);
        lemma_le_bytes_len(r.issued_unclaimed_amount as nat, 8);
        lemma_le_bytes_len(r.issued_cumulative_amount as nat, 8);
        lemma_le_bytes_len(r.end_ts as nat, 8);
        lemma_le_bytes_len(r.last_updated_ts as nat, 8);
        lemma_le_bytes_len(r.rewards_per_share_scaled as nat, 16);
    }
}

proof fn lemma_u64_roundtrip(v: u64)
    ensures
        le_value(u64_bytes(v)) == v,
        u64_bytes(v).len() == 8,
{
    lemma_byte_weight_values();
    lemma_le_roundtrip_small(v as nat, 8);
}

proof fn lemma_u128_roundtrip(v: u128)
    ensures
        le_value(u128_bytes(v)) == v,
        u128_bytes(v).len() == 16,
{
    lemma_byte_weight_values();
    lemma_le_roundtrip_small(v as nat, 16);
}

/// Where the bytes of a reward slot stand at `off`, they decode to that slot.
proof fn lemma_reward_info_roundtrip(d: Seq<u8>, off: int, r: RewardInfo)
    requires
        0 <= off,
        off + 88 <= d.len(),
        d.subrange(off, off + 88) == reward_info_bytes(r),
    ensures
        reward_info_at(d, off, r),
{
    lemma_u64_roundtrip(r.available_amount);
    lemma_u64_roundtrip(r.issued_unclaimed_amount);
    lemma_u64_roundtrip(r.issued_cumulative_amount);
    lemma_u64_roundtrip(r.end_ts);
    lemma_u64_roundtrip(r.last_updated_ts);
    lemma_u128_roundtrip(r.rewards_per_share_scaled);
    let b = reward_info_bytes(r);
    assert(d.subrange(off, off + 32) =~= b.subrange(0, 32));
    assert(b.subrange(0, 32) =~= r.mint@);
    assert(d.subrange(off + 32, off + 40) =~= b.subrange(32, 40));
    assert(b.subrange(32, 40) =~= u64_bytes(r.available_amount));
    assert(d.subrange(off + 40, off + 48) =~= b.subrange(40, 48));
    assert(b.subrange(40, 48) =~= u64_bytes(r.issued_unclaimed_amount));
    assert(d.subrange(off + 48, off + 56) =~= b.subrange(48, 56));
    assert(b.subrange(48, 56) =~= u64_bytes(r.issued_cumulative_amount));
    assert(d.subrange(off + 56, off + 64) =~= b.subrange(56, 64));
    assert(b.subrange(56, 64) =~= u64_bytes(r.end_ts));
    assert(d.subrange(off + 64, off + 72) =~= b.subrange(64, 72));
    assert(b.subrange(64, 72) =~= u64_bytes(r.last_updated_ts));
    assert(d.subrange(off + 72, off + 88) =~= b.subrange(72, 88));
    assert(b.subrange(72, 88) =~= u128_bytes(r.rewards_per_share_scaled));
}

/// The image of a farm decodes to that farm.
pub proof fn lemma_farm_bytes_decode(f: FarmModel)
    requires
        f.wf(),
    ensures
        farm_decodes(farm_bytes(f), f),
{
    lemma_field_lens();
    let fr = |r: RewardInfo| reward_info_bytes(r);
    lemma_concat_map_layout(f.reward_infos, fr, 88);
    lemma_u64_roundtrip(f.stake_info.total_amount);
    let infos = concat_map(f.reward_infos, fr);
    let d = farm_bytes(f);
    assert(d.len() == FARM_ACCOUNT_LEN);
    assert(d.subrange(0, 32) =~= f.stake_info.mint@);
    assert(d.subrange(32, 40) =~= u64_bytes(f.stake_info.total_amount));
    assert(d.subrange(40, 480) =~= infos);
    assert forall|i: int| 0 <= i < MAX_REWARDS_TOKENS implies reward_info_at(
        d,
        40 + 88 * i,
        #[trigger] f.reward_infos[i],
    ) by {
        assert(infos.subrange(88 * i, 88 * i + 88) == reward_info_bytes(f.reward_infos[i]));
        assert(d.subrange(40 + 88 * i, 40 + 88 * i + 88) =~= infos.subrange(88 * i, 88 * i + 88));
        lemma_reward_info_roundtrip(d, 40 + 88 * i, f.reward_infos[i]);
    }
    assert(d[480] == f.bump);
    assert(d[481] == f.authority_bump);
}

/// The image of a staker decodes to that staker.
pub proof fn lemma_staker_bytes_decode(s: StakerModel)
    requires
        s.wf(),
    ensures
        staker_decodes(staker_bytes(s), s),
{
    lemma_field_lens();
    let wide_enc = |v: u128| u128_bytes(v);
    let word_enc = |v: u64| u64_bytes(v);
    lemma_concat_map_layout(s.rewards_tally_scaled, wide_enc, 16);
    lemma_concat_map_layout(s.rewards_issued_unclaimed, word_enc, 8);
    lemma_concat_map_layout(s.last_claim_ts, word_enc, 8);
    lemma_u64_roundtrip(s.stake_amount);
    lemma_u64_roundtrip(s.last_stake_ts);
    let tally = concat_map(s.rewards_tally_scaled, wide_enc);
    let unclaimed = concat_map(s.rewards_issued_unclaimed, word_enc);
    let claims = concat_map(s.last_claim_ts, word_enc);
    let d = staker_bytes(s);
    assert(d.len() == STAKER_ACCOUNT_LEN);
    assert(d.subrange(0, 32) =~= s.user@);
    assert(d.subrange(32, 64) =~= s.farm@);
    assert(d.subrange(64, 72) =~= u64_bytes(s.stake_amount));
    assert(d.subrange(72, 152) =~= tally);
    assert(d.subrange(152, 192) =~= unclaimed);
    assert(d.subrange(192, 232) =~= claims);
    assert(d.subrange(232, 240) =~= u64_bytes(s.last_stake_ts));
    assert forall|i: int| 0 <= i < MAX_REWARDS_TOKENS implies {
        &&& #[trigger] s.rewards_tally_scaled[i] == le_value(d.subrange(72 + 16 * i, 88 + 16 * i))
        &&& s.rewards_issued_unclaimed[i] == le_value(d.subrange(152 + 8 * i, 160 + 8 * i))
        &&& s.last_claim_ts[i] == le_value(d.subrange(192 + 8 * i, 200 + 8 * i))
    } by {
        assert(tally.subrange(16 * i, 16 * i + 16) == u128_bytes(s.rewards_tally_scaled[i]));
        assert(d.subrange(72 + 16 * i, 88 + 16 * i) =~= tally.subrange(16 * i, 16 * i + 16));
        lemma_u128_roundtrip(s.rewards_tally_scaled[i]);
        assert(unclaimed.subrange(8 * i, 8 * i + 8) == u64_bytes(s.rewards_issued_unclaimed[i]));
        assert(d.subrange(152 + 8 * i, 160 + 8 * i) =~= unclaimed.subrange(8 * i, 8 * i + 8));
        lemma_u64_roundtrip(s.rewards_issued_unclaimed[i]);
        assert(claims.subrange(8 * i, 8 * i + 8) == u64_bytes(s.last_claim_ts[i]));
        assert(d.subrange(192 + 8 * i, 200 + 8 * i) =~= claims.subrange(8 * i, 8 * i + 8));
        lemma_u64_roundtrip(s.last_claim_ts[i]);
    }
    assert(d[240] == s.bump);
    assert(d[241] == s.authority_bump);
}

impl Farm {
    /// Reads a farm from its account data, which must have the farm's length
    /// and start at an address aligned for it.
    pub fn try_from_account_data(data: &[u8], data_address: usize) -> (r: Result<
        Farm,
        InstructionError,
    >)
        ensures
            r is Ok <==> (data@.len() == FARM_ACCOUNT_LEN && data_address % ACCOUNT_DATA_ALIGN
                == 0),
            match r {
                Ok(f) => farm_decodes(data@, f@),
                Err(e) => e == InstructionError::InvalidAccountData,
            },
    {
        if data.len() != FARM_ACCOUNT_LEN {
            return Err(InstructionError::InvalidAccountData);
        }
        if data_address % ACCOUNT_DATA_ALIGN != 0 {
            return Err(InstructionError::InvalidAccountData);
        }
        let mut infos = [RewardInfo::empty(); MAX_REWARDS_TOKENS];
        let mut i: usize = 0;
        while i < MAX_REWARDS_TOKENS
            invariant
                data@.len() == FARM_ACCOUNT_LEN,
                0 <= i <= MAX_REWARDS_TOKENS,
                forall|j: int| 0 <= j < i ==> reward_info_at(data@, 40 + 88 * j, #[trigger] infos@[j]),
            decreases MAX_REWARDS_TOKENS - i,
        {
            infos[i] = read_reward_info(data, 40 + REWARD_INFO_LEN * i);
            i = i + 1;
        }
        let farm = Farm {
            stake_info: StakeInfo { mint: read_pubkey(data, 0), total_amount: read_u64(data, 32) },
            reward_infos: infos,
            bump: data[480],
            authority_bump: data[481],
        };
        Ok(farm)
    }

    /// The farm's account data.
    pub fn to_account_data(&self) -> (r: Vec<u8>)
        ensures
            r@ == farm_bytes(self@),
    {
        let mut out: Vec<u8> = Vec::new();
        write_pubkey(&mut out, &self.stake_info.mint);
        write_u64(&mut out, self.stake_info.total_amount);
        let ghost head = out@;
        let mut i: usize = 0;
        while i < MAX_REWARDS_TOKENS
            invariant
                0 <= i <= MAX_REWARDS_TOKENS,
                out@ == head + concat_map(
                    self.reward_infos@.subrange(0, i as int),
                    |r: RewardInfo| reward_info_bytes(r),
                ),
            decreases MAX_REWARDS_TOKENS - i,
        {
            write_reward_info(&mut out, &self.reward_infos[i]);
            proof {
                let fr = |r: RewardInfo| reward_info_bytes(r);
                let next = self.reward_infos@.subrange(0, i + 1);
                assert(next.drop_last() =~= self.reward_infos@.subrange(0, i as int));
                assert(out@ =~= head + concat_map(next, fr));
            }
            i = i + 1;
        }
        assert(self.reward_infos@.subrange(0, MAX_REWARDS_TOKENS as int) =~= self.reward_infos@);
        out.push(self.bump);
        out.push(self.authority_bump);
        write_zeros(&mut out, 6);
        assert(out@ =~= farm_bytes(self@));
        out
    }
}

fn read_u128_array(data: &[u8], off: usize) -> (r: [u128; MAX_REWARDS_TOKENS])
    requires
        off + 16 * MAX_REWARDS_TOKENS <= data@.len(),
    ensures
        forall|i: int|
            0 <= i < MAX_REWARDS_TOKENS ==> #[trigger] r[i] == le_value(
                data@.subrange(off + 16 * i, off + 16 * i + 16),
            ),
{
    let n = data.len();
    let mut a = [0u128; MAX_REWARDS_TOKENS];
    let mut i: usize = 0;
    while i < MAX_REWARDS_TOKENS
        invariant
            n == data@.len(),
            off + 16 * MAX_REWARDS_TOKENS <= data@.len(),
            0 <= i <= MAX_REWARDS_TOKENS,
            forall|j: int|
                0 <= j < i ==> #[trigger] a@[j] == le_value(
                    data@.subrange(off + 16 * j, off + 16 * j + 16),
                ),
        decreases MAX_REWARDS_TOKENS - i,
    {
        a[i] = read_u128(data, off + 16 * i);
        i = i + 1;
    }
    a
}

fn read_u64_array(data: &[u8], off: usize) -> (r: [u64; MAX_REWARDS_TOKENS])
    requires
        off + 8 * MAX_REWARDS_TOKENS <= data@.len(),
    ensures
        forall|i: int|
            0 <= i < MAX_REWARDS_TOKENS ==> #[trigger] r[i] == le_value(
                data@.subrange(off + 8 * i, off + 8 * i + 8),
            ),
{
    let n = data.len();
    let mut a = [0u64; MAX_REWARDS_TOKENS];
    let mut i: usize = 0;
    while i < MAX_REWARDS_TOKENS
        invariant
            n == data@.len(),
            off + 8 * MAX_REWARDS_TOKENS <= data@.len(),
            0 <= i <= MAX_REWARDS_TOKENS,
            forall|j: int|
                0 <= j < i ==> #[trigger] a@[j] == le_value(
                    data@.subrange(off + 8 * j, off + 8 * j + 8),
                ),
        decreases MAX_REWARDS_TOKENS - i,
    {
        a[i] = read_u64(data, off + 8 * i);
        i = i + 1;
    }
    a
}

fn write_u128_array(out: &mut Vec<u8>, a: &[u128; MAX_REWARDS_TOKENS])
    ensures
        final(out)@ == old(out)@ + concat_map(a@, |v: u128| u128_bytes(v)),
{
    let ghost head = out@;
    let mut i: usize = 0;
    while i < MAX_REWARDS_TOKENS
        invariant
            0 <= i <= MAX_REWARDS_TOKENS,
            out@ == head + concat_map(a@.subrange(0, i as int), |v: u128| u128_bytes(v)),
        decreases MAX_REWARDS_TOKENS - i,
    {
        write_u128(out, a[i]);
        proof {
            let f = |v: u128| u128_bytes(v);
            let next = a@.subrange(0, i + 1);
            assert(next.drop_last() =~= a@.subrange(0, i as int));
            assert(out@ =~= head + concat_map(next, f));
        }
        i = i + 1;
    }
    assert(a@.subrange(0, MAX_REWARDS_TOKENS as int) =~= a@);
}

fn write_u64_array(out: &mut Vec<u8>, a: &[u64; MAX_REWARDS_TOKENS])
    ensures
        final(out)@ == old(out)@ + concat_map(a@, |v: u64| u64_bytes(v)),
{
    let ghost head = out@;
    let mut i: usize = 0;
    while i < MAX_REWARDS_TOKENS
        invariant
            0 <= i <= MAX_REWARDS_TOKENS,
            out@ == head + concat_map(a@.subrange(0, i as int), |v: u64| u64_bytes(v)),
        decreases MAX_REWARDS_TOKENS - i,
    {
        write_u64(out, a[i]);
        proof {
            let f = |v: u64| u64_bytes(v);
            let next = a@.subrange(0, i + 1);
            assert(next.drop_last() =~= a@.subrange(0, i as int));
            assert(out@ =~= head + concat_map(next, f));
        }
        i = i + 1;
    }
    assert(a@.subrange(0, MAX_REWARDS_TOKENS as int) =~= a@);
}

impl Staker {
    /// Reads a staker from its account data, which must have the staker's
    /// length and start at an address aligned for it.
    pub fn try_from_account_data(data: &[u8], data_address: usize) -> (r: Result<
        Staker,
        InstructionError,
    >)
        ensures
            r is Ok <==> (data@.len() == STAKER_ACCOUNT_LEN && data_address % ACCOUNT_DATA_ALIGN
                == 0),
            match r {
                Ok(s) => staker_decodes(data@, s@),
                Err(e) => e == InstructionError::InvalidAccountData,
            },
    {
        if data.len() != STAKER_ACCOUNT_LEN {
            return Err(InstructionError::InvalidAccountData);
        }
        if data_address % ACCOUNT_DATA_ALIGN != 0 {
            return Err(InstructionError::InvalidAccountData);
        }
        let staker = Staker {
            user: read_pubkey(data, 0),
            farm: read_pubkey(data, 32),
            stake_amount: read_u64(data, 64),
            rewards_tally_scaled: read_u128_array(data, 72),
            rewards_issued_unclaimed: read_u64_array(data, 152),
            last_claim_ts: read_u64_array(data, 192),
            last_stake_ts: read_u64(data, 232),
            bump: data[240],
            authority_bump: data[241],
        };
        Ok(staker)
    }

    /// The staker's account data.
    pub fn to_account_data(&self) -> (r: Vec<u8>)
        ensures
            r@ == staker_bytes(self@),
    {
        let mut out: Vec<u8> = Vec::new();
        write_pubkey(&mut out, &self.user);
        write_pubkey(&mut out, &self.farm);
        write_u64(&mut out, self.stake_amount);
        write_u128_array(&mut out, &self.rewards_tally_scaled);
        write_u64_array(&mut out, &self.rewards_issued_unclaimed);
        write_u64_array(&mut out, &self.last_claim_ts);
        write_u64(&mut out, self.last_stake_ts);
        out.push(self.bump);
        out.push(self.authority_bump);
        write_zeros(&mut out, 6);
        assert(out@ =~= staker_bytes(self@));
        out
    }
}

} // verus!
