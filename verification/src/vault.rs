use vstd::prelude::*;
use pinocchio::pubkey::Pubkey;

use crate::codec::{le_value, read_bytes, read_u128, read_u16, read_u64};
use crate::error::InstructionError;

verus! {

// A vault account holds an 8-byte discriminator followed by the `repr(C)`
// image of `Vault` as the Solana target lays it out (integers little-endian,
// `u128` aligned to 8 bytes).

/// Bytes of a vault account: the discriminator and the vault.
pub const VAULT_ACCOUNT_LEN: usize = 928;

/// Bytes before the vault in a vault account.
pub const VAULT_DISCRIMINATOR_LEN: usize = 8;

/// The vault's locked-profit state.
#[derive(Clone, Copy, Debug, PartialEq, Eq)]
pub struct LockedProfitState {
    pub last_updated_locked_profit: u64,
    pub last_report: u64,
}

/// The vault's main asset.
#[derive(Clone, Copy, Debug, PartialEq, Eq)]
pub struct VaultAsset {
    /// The mint of the vault's main asset.
    pub mint: Pubkey,
    /// The token account that holds un-invested assets.
    pub idle_ata: Pubkey,
    /// The total amount of the asset in the vault.
    pub total_value: u64,
    pub idle_ata_auth_bump: u8,
    pub reserved: [u8; 32],
    pub reserved2: [u8; 32],
    pub reserved3: [u8; 31],
}

/// The vault's LP (share) token.
#[derive(Clone, Copy, Debug, PartialEq, Eq)]
pub struct VaultLp {
    /// The LP mint, whose tokens are a farm's stake.
    pub mint: Pubkey,
    pub mint_bump: u8,
    pub mint_auth_bump: u8,
    pub reserved: [u8; 32],
    pub reserved2: [u8; 30],
}

/// The vault's cap, start and timing configuration.
#[derive(Clone, Copy, Debug, PartialEq, Eq)]
pub struct VaultConfiguration {
    pub max_cap: u64,
    pub start_at_ts: u64,
    pub locked_profit_degradation_duration: u64,
    pub withdrawal_waiting_period: u64,
    pub reserved: [u8; 32],
    pub reserved2: [u8; 16],
}

/// The vault's fees, in basis points.
#[derive(Clone, Copy, Debug, PartialEq, Eq)]
pub struct FeeConfiguration {
    pub manager_performance_fee: u16,
    pub admin_performance_fee: u16,
    pub manager_management_fee: u16,
    pub admin_management_fee: u16,
    pub redemption_fee: u16,
    pub issuance_fee: u16,
    pub reserved: [u8; 32],
    pub reserved2: [u8; 4],
}

/// The highest recorded asset value per share.
#[derive(Clone, Copy, Debug, PartialEq, Eq)]
pub struct HighWaterMark {
    pub highest_asset_per_lp_decimal_bits: u128,
    pub last_updated_ts: u64,
    pub reserved: [u8; 8],
}

/// When the fees were last updated.
#[derive(Clone, Copy, Debug, PartialEq, Eq)]
pub struct FeeUpdate {
    pub last_performance_fee_update_ts: u64,
    pub last_management_fee_update_ts: u64,
}

/// The fees accumulated in the vault.
#[derive(Clone, Copy, Debug, PartialEq, Eq)]
pub struct FeeState {
    pub accumulated_lp_manager_fees: u64,
    pub accumulated_lp_admin_fees: u64,
    pub accumulated_lp_protocol_fees: u64,
    pub reserved: [u8; 24],
}

/// A vault of the vault program, as a farm reads it.
#[derive(Clone, Copy, Debug, PartialEq, Eq)]
pub struct Vault {
    pub name: [u8; 32],
    pub description: [u8; 32],
    pub description2: [u8; 32],
    pub asset: VaultAsset,
    pub lp: VaultLp,
    /// The vault's manager, who may configure its farm.
    pub manager: Pubkey,
    /// The vault's admin, who may also configure its farm.
    pub admin: Pubkey,
    pub vault_configuration: VaultConfiguration,
    pub fee_configuration: FeeConfiguration,
    pub fee_update: FeeUpdate,
    pub fee_state: FeeState,
    pub high_water_mark: HighWaterMark,
    pub last_updated_ts: u64,
    pub version: u8,
    pub _padding0: [u8; 7],
    pub locked_profit_state: LockedProfitState,
    pub reserved: [u8; 32],
    pub reserved2: [u8; 32],
    pub reserved3: [u8; 32],
    pub reserved4: [u8; 32],
    pub reserved5: [u8; 32],
    pub reserved6: [u8; 32],
    pub reserved7: [u8; 32],
    pub reserved8: [u8; 16],
}

/// The parameters with which a vault is created.
#[derive(Clone, Copy, Debug, PartialEq, Eq)]
pub struct VaultInitializationInput {
    pub max_cap: u64,
    pub start_at_ts: u64,
    pub manager_performance_fee: u16,
    pub admin_performance_fee: u16,
    pub manager_management_fee: u16,
    pub admin_management_fee: u16,
    pub locked_profit_degradation_duration: u64,
    pub redemption_fee: u16,
    pub issuance_fee: u16,
    pub withdrawal_waiting_period: u64,
}

/// The bytes of `d` from `o` hold `x`.
pub open spec fn locked_profit_state_at(d: Seq<u8>, o: int, x: LockedProfitState) -> bool {
    &&& x.last_updated_locked_profit == le_value(d.subrange(o + 0, o + 8))
    &&& x.last_report == le_value(d.subrange(o + 8, o + 16))
}

/// The bytes of `d` from `o` hold `x`.
pub open spec fn vault_asset_at(d: Seq<u8>, o: int, x: VaultAsset) -> bool {
    &&& x.mint@ == d.subrange(o + 0, o + 32)
    &&& x.idle_ata@ == d.subrange(o + 32, o + 64)
    &&& x.total_value == le_value(d.subrange(o + 64, o + 72))
    &&& x.idle_ata_auth_bump == d[o + 72]
    &&& x.reserved@ == d.subrange(o + 73, o + 105)
    &&& x.reserved2@ == d.subrange(o + 105, o + 137)
    &&& x.reserved3@ == d.subrange(o + 137, o + 168)
}

/// The bytes of `d` from `o` hold `x`.
pub open spec fn vault_lp_at(d: Seq<u8>, o: int, x: VaultLp) -> bool {
    &&& x.mint@ == d.subrange(o + 0, o + 32)
    &&& x.mint_bump == d[o + 32]
    &&& x.mint_auth_bump == d[o + 33]
    &&& x.reserved@ == d.subrange(o + 34, o + 66)
    &&& x.reserved2@ == d.subrange(o + 66, o + 96)
}

/// The bytes of `d` from `o` hold `x`.
pub open spec fn vault_configuration_at(d: Seq<u8>, o: int, x: VaultConfiguration) -> bool {
    &&& x.max_cap == le_value(d.subrange(o + 0, o + 8))
    &&& x.start_at_ts == le_value(d.subrange(o + 8, o + 16))
    &&& x.locked_profit_degradation_duration == le_value(d.subrange(o + 16, o + 24))
    &&& x.withdrawal_waiting_period == le_value(d.subrange(o + 24, o + 32))
    &&& x.reserved@ == d.subrange(o + 32, o + 64)
    &&& x.reserved2@ == d.subrange(o + 64, o + 80)
}

/// The bytes of `d` from `o` hold `x`.
pub open spec fn fee_configuration_at(d: Seq<u8>, o: int, x: FeeConfiguration) -> bool {
    &&& x.manager_performance_fee == le_value(d.subrange(o + 0, o + 2))
    &&& x.admin_performance_fee == le_value(d.subrange(o + 2, o + 4))
    &&& x.manager_management_fee == le_value(d.subrange(o + 4, o + 6))
    &&& x.admin_management_fee == le_value(d.subrange(o + 6, o + 8))
    &&& x.redemption_fee == le_value(d.subrange(o + 8, o + 10))
    &&& x.issuance_fee == le_value(d.subrange(o + 10, o + 12))
    &&& x.reserved@ == d.subrange(o + 12, o + 44)
    &&& x.reserved2@ == d.subrange(o + 44, o + 48)
}

/// The bytes of `d` from `o` hold `x`.
pub open spec fn high_water_mark_at(d: Seq<u8>, o: int, x: HighWaterMark) -> bool {
    &&& x.highest_asset_per_lp_decimal_bits == le_value(d.subrange(o + 0, o + 16))
    &&& x.last_updated_ts == le_value(d.subrange(o + 16, o + 24))
    &&& x.reserved@ == d.subrange(o + 24, o + 32)
}

/// The bytes of `d` from `o` hold `x`.
pub open spec fn fee_update_at(d: Seq<u8>, o: int, x: FeeUpdate) -> bool {
    &&& x.last_performance_fee_update_ts == le_value(d.subrange(o + 0, o + 8))
    &&& x.last_management_fee_update_ts == le_value(d.subrange(o + 8, o + 16))
}

/// The bytes of `d` from `o` hold `x`.
pub open spec fn fee_state_at(d: Seq<u8>, o: int, x: FeeState) -> bool {
    &&& x.accumulated_lp_manager_fees == le_value(d.subrange(o + 0, o + 8))
    &&& x.accumulated_lp_admin_fees == le_value(d.subrange(o + 8, o + 16))
    &&& x.accumulated_lp_protocol_fees == le_value(d.subrange(o + 16, o + 24))
    &&& x.reserved@ == d.subrange(o + 24, o + 48)
}

/// The bytes of `d` from `o` hold `x`.
pub open spec fn vault_at(d: Seq<u8>, o: int, x: Vault) -> bool {
    &&& x.name@ == d.subrange(o + 0, o + 32)
    &&& x.description@ == d.subrange(o + 32, o + 64)
    &&& x.description2@ == d.subrange(o + 64, o + 96)
    &&& vault_asset_at(d, o + 96, x.asset)
    &&& vault_lp_at(d, o + 264, x.lp)
    &&& x.manager@ == d.subrange(o + 360, o + 392)
    &&& x.admin@ == d.subrange(o + 392, o + 424)
    &&& vault_configuration_at(d, o + 424, x.vault_configuration)
    &&& fee_configuration_at(d, o + 504, x.fee_configuration)
    &&& fee_update_at(d, o + 552, x.fee_update)
    &&& fee_state_at(d, o + 568, x.fee_state)
    &&& high_water_mark_at(d, o + 616, x.high_water_mark)
    &&& x.last_updated_ts == le_value(d.subrange(o + 648, o + 656))
    &&& x.version == d[o + 656]
    &&& x._padding0@ == d.subrange(o + 657, o + 664)
    &&& locked_profit_state_at(d, o + 664, x.locked_profit_state)
    &&& x.reserved@ == d.subrange(o + 680, o + 712)
    &&& x.reserved2@ == d.subrange(o + 712, o + 744)
    &&& x.reserved3@ == d.subrange(o + 744, o + 776)
    &&& x.reserved4@ == d.subrange(o + 776, o + 808)
    &&& x.reserved5@ == d.subrange(o + 808, o + 840)
    &&& x.reserved6@ == d.subrange(o + 840, o + 872)
    &&& x.reserved7@ == d.subrange(o + 872, o + 904)
    &&& x.reserved8@ == d.subrange(o + 904, o + 920)
}

fn read_locked_profit_state(data: &[u8], off: usize) -> (r: LockedProfitState)
    requires
        off + 16 <= data@.len(),
    ensures
        locked_profit_state_at(data@, off as int, r),
{
    let _len = data.len();
    LockedProfitState {
        last_updated_locked_profit: read_u64(data, off + 0),
        last_report: read_u64(data, off + 8),
    }
}

fn read_vault_asset(data: &[u8], off: usize) -> (r: VaultAsset)
    requires
        off + 168 <= data@.len(),
    ensures
        vault_asset_at(data@, off as int, r),
{
    let _len = data.len();
    VaultAsset {
        mint: read_bytes(data, off + 0),
        idle_ata: read_bytes(data, off + 32),
        total_value: read_u64(data, off + 64),
        idle_ata_auth_bump: data[off + 72],
        reserved: read_bytes(data, off + 73),
        reserved2: read_bytes(data, off + 105),
        reserved3: read_bytes(data, off + 137),
    }
}

fn read_vault_lp(data: &[u8], off: usize) -> (r: VaultLp)
    requires
        off + 96 <= data@.len(),
    ensures
        vault_lp_at(data@, off as int, r),
{
    let _len = data.len();
    VaultLp {
        mint: read_bytes(data, off + 0),
        mint_bump: data[off + 32],
        mint_auth_bump: data[off + 33],
        reserved: read_bytes(data, off + 34),
        reserved2: read_bytes(data, off + 66),
    }
}

fn read_vault_configuration(data: &[u8], off: usize) -> (r: VaultConfiguration)
    requires
        off + 80 <= data@.len(),
    ensures
        vault_configuration_at(data@, off as int, r),
{
    let _len = data.len();
    VaultConfiguration {
        max_cap: read_u64(data, off + 0),
        start_at_ts: read_u64(data, off + 8),
        locked_profit_degradation_duration: read_u64(data, off + 16),
        withdrawal_waiting_period: read_u64(data, off + 24),
        reserved: read_bytes(data, off + 32),
        reserved2: read_bytes(data, off + 64),
    }
}

fn read_fee_configuration(data: &[u8], off: usize) -> (r: FeeConfiguration)
    requires
        off + 48 <= data@.len(),
    ensures
        fee_configuration_at(data@, off as int, r),
{
    let _len = data.len();
    FeeConfiguration {
        manager_performance_fee: read_u16(data, off + 0),
        admin_performance_fee: read_u16(data, off + 2),
        manager_management_fee: read_u16(data, off + 4),
        admin_management_fee: read_u16(data, off + 6),
        redemption_fee: read_u16(data, off + 8),
        issuance_fee: read_u16(data, off + 10),
        reserved: read_bytes(data, off + 12),
        reserved2: read_bytes(data, off + 44),
    }
}

fn read_high_water_mark(data: &[u8], off: usize) -> (r: HighWaterMark)
    requires
        off + 32 <= data@.len(),
    ensures
        high_water_mark_at(data@, off as int, r),
{
    let _len = data.len();
    HighWaterMark {
        highest_asset_per_lp_decimal_bits: read_u128(data, off + 0),
        last_updated_ts: read_u64(data, off + 16),
        reserved: read_bytes(data, off + 24),
    }
}

fn read_fee_update(data: &[u8], off: usize) -> (r: FeeUpdate)
    requires
        off + 16 <= data@.len(),
    ensures
        fee_update_at(data@, off as int, r),
{
    let _len = data.len();
    FeeUpdate {
        last_performance_fee_update_ts: read_u64(data, off + 0),
        last_management_fee_update_ts: read_u64(data, off + 8),
    }
}

fn read_fee_state(data: &[u8], off: usize) -> (r: FeeState)
    requires
        off + 48 <= data@.len(),
    ensures
        fee_state_at(data@, off as int, r),
{
    let _len = data.len();
    FeeState {
        accumulated_lp_manager_fees: read_u64(data, off + 0),
        accumulated_lp_admin_fees: read_u64(data, off + 8),
        accumulated_lp_protocol_fees: read_u64(data, off + 16),
        reserved: read_bytes(data, off + 24),
    }
}

fn read_vault(data: &[u8], off: usize) -> (r: Vault)
    requires
        off + 920 <= data@.len(),
    ensures
        vault_at(data@, off as int, r),
{
    let _len = data.len();
    Vault {
        name: read_bytes(data, off + 0),
        description: read_bytes(data, off + 32),
        description2: read_bytes(data, off + 64),
        asset: read_vault_asset(data, off + 96),
        lp: read_vault_lp(data, off + 264),
        manager: read_bytes(data, off + 360),
        admin: read_bytes(data, off + 392),
        vault_configuration: read_vault_configuration(data, off + 424),
        fee_configuration: read_fee_configuration(data, off + 504),
        fee_update: read_fee_update(data, off + 552),
        fee_state: read_fee_state(data, off + 568),
        high_water_mark: read_high_water_mark(data, off + 616),
        last_updated_ts: read_u64(data, off + 648),
        version: data[off + 656],
        _padding0: read_bytes(data, off + 657),
        locked_profit_state: read_locked_profit_state(data, off + 664),
        reserved: read_bytes(data, off + 680),
        reserved2: read_bytes(data, off + 712),
        reserved3: read_bytes(data, off + 744),
        reserved4: read_bytes(data, off + 776),
        reserved5: read_bytes(data, off + 808),
        reserved6: read_bytes(data, off + 840),
        reserved7: read_bytes(data, off + 872),
        reserved8: read_bytes(data, off + 904),
    }
}

impl Vault {
    /// Reads a vault from its account data, which must have exactly the
    /// account's length.
    pub fn try_from_account_data(data: &[u8]) -> (r: Result<Vault, InstructionError>)
        ensures
            r is Ok <==> data@.len() == VAULT_ACCOUNT_LEN,
            match r {
                Ok(v) => vault_at(data@, VAULT_DISCRIMINATOR_LEN as int, v),
                Err(e) => e == InstructionError::InvalidAccountData,
            },
    {
        if data.len() != VAULT_ACCOUNT_LEN {
            return Err(InstructionError::InvalidAccountData);
        }
        Ok(read_vault(data, VAULT_DISCRIMINATOR_LEN))
    }
}

/// The bytes of a vault account that hold the vault's manager.
pub open spec fn vault_manager_bytes(d: Seq<u8>) -> Seq<u8> {
    d.subrange(VAULT_DISCRIMINATOR_LEN + 360, VAULT_DISCRIMINATOR_LEN + 392)
}

/// The bytes of a vault account that hold the vault's admin.
pub open spec fn vault_admin_bytes(d: Seq<u8>) -> Seq<u8> {
    d.subrange(VAULT_DISCRIMINATOR_LEN + 392, VAULT_DISCRIMINATOR_LEN + 424)
}

/// The bytes of a vault account that hold the vault's LP mint.
pub open spec fn vault_lp_mint_bytes(d: Seq<u8>) -> Seq<u8> {
    d.subrange(VAULT_DISCRIMINATOR_LEN + 264, VAULT_DISCRIMINATOR_LEN + 296)
}

/// `key` is the manager or the admin of the vault in the account bytes `d`.
pub open spec fn vault_lists_authority(d: Seq<u8>, key: Pubkey) -> bool {
    key@ == vault_manager_bytes(d) || key@ == vault_admin_bytes(d)
}

} // verus!
