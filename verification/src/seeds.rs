use vstd::prelude::*;
use pinocchio::pubkey::Pubkey;

use crate::codec::write_pubkey;
use crate::error::InstructionError;
use crate::keys::{
    ASSOCIATED_TOKEN_PROGRAM_ID, ID, associated_token_program_id, lemma_key_view_eq, pubkey_eq,
};

verus! {

/// Seed of a farm's address, followed by the stake mint: `b"farm"`.
pub const FARM_SEED: [u8; 4] = [102, 97, 114, 109];

/// Seed of a farm authority's address, followed by the farm:
/// `b"farm_authority"`.
pub const FARM_AUTHORITY_SEED: [u8; 14] = [
    102, 97, 114, 109, 95, 97, 117, 116, 104, 111, 114, 105, 116, 121,
];

/// Seed of a staker's address, followed by the farm and the user: `b"staker"`.
pub const STAKER_SEED: [u8; 6] = [115, 116, 97, 107, 101, 114];

/// Seed of a staker authority's address, followed by the staker:
/// `b"staker_authority"`.
pub const STAKER_AUTHORITY_SEED: [u8; 16] = [
    115, 116, 97, 107, 101, 114, 95, 97, 117, 116, 104, 111, 114, 105, 116, 121,
];

/// The inputs of a program-derived address: the seeds, in order, and the
/// program that the address belongs to.
pub struct AddressSeeds {
    pub seeds: Vec<Vec<u8>>,
    pub program_id: Pubkey,
}

fn copy_bytes(b: &[u8]) -> (r: Vec<u8>)
    ensures
        r@ == b@,
{
    let n = b.len();
    let mut out: Vec<u8> = Vec::new();
    let mut i: usize = 0;
    while i < n
        invariant
            n == b@.len(),
            0 <= i <= n,
            out@ == b@.subrange(0, i as int),
        decreases n - i,
    {
        out.push(b[i]);
        i = i + 1;
        proof {
            assert(out@ =~= b@.subrange(0, i as int));
        }
    }
    assert(b@.subrange(0, n as int) =~= b@);
    out
}

fn key_bytes(key: &Pubkey) -> (r: Vec<u8>)
    ensures
        r@ == key@,
{
    let mut out: Vec<u8> = Vec::new();
    write_pubkey(&mut out, key);
    assert(out@ =~= key@);
    out
}

/// The byte strings held by a list of seeds.
pub open spec fn seed_list(seeds: &Vec<Vec<u8>>) -> Seq<Seq<u8>> {
    seeds@.map_values(|b: Vec<u8>| b@)
}

impl AddressSeeds {
    /// The seeds followed by the one-byte bump seed: what signs for the address.
    pub fn with_bump(&self, bump: u8) -> (r: Vec<Vec<u8>>)
        ensures
            seed_list(&r) == seed_list(&self.seeds).push(seq![bump]),
    {
        let n = self.seeds.len();
        let mut out: Vec<Vec<u8>> = Vec::new();
        let mut i: usize = 0;
        while i < n
            invariant
                n == self.seeds@.len(),
                0 <= i <= n,
                out@.len() == i,
                forall|j: int| 0 <= j < i ==> (#[trigger] out@[j])@ == self.seeds@[j]@,
            decreases n - i,
        {
            let item = copy_bytes(self.seeds[i].as_slice());
            out.push(item);
            i = i + 1;
        }
        let mut last: Vec<u8> = Vec::new();
        last.push(bump);
        out.push(last);
        assert(seed_list(&out) =~= seed_list(&self.seeds).push(seq![bump]));
        out
    }
}

/// The address of the farm for `stake_mint`.
pub fn farm_address_seeds(stake_mint: &Pubkey) -> (r: AddressSeeds)
    ensures
        seed_list(&r.seeds) == seq![FARM_SEED@, stake_mint@],
        r.program_id == ID,
{
    let seeds = vec![copy_bytes(FARM_SEED.as_slice()), key_bytes(stake_mint)];
    assert(seed_list(&seeds) =~= seq![FARM_SEED@, stake_mint@]);
    AddressSeeds { seeds, program_id: ID }
}

/// The address of the authority of `farm`.
pub fn farm_authority_seeds(farm: &Pubkey) -> (r: AddressSeeds)
    ensures
        seed_list(&r.seeds) == seq![FARM_AUTHORITY_SEED@, farm@],
        r.program_id == ID,
{
    let seeds = vec![copy_bytes(FARM_AUTHORITY_SEED.as_slice()), key_bytes(farm)];
    assert(seed_list(&seeds) =~= seq![FARM_AUTHORITY_SEED@, farm@]);
    AddressSeeds { seeds, program_id: ID }
}

/// The address of `user`'s staker in `farm`.
pub fn staker_address_seeds(farm: &Pubkey, user: &Pubkey) -> (r: AddressSeeds)
    ensures
        seed_list(&r.seeds) == seq![STAKER_SEED@, farm@, user@],
        r.program_id == ID,
{
    let seeds = vec![copy_bytes(STAKER_SEED.as_slice()), key_bytes(farm), key_bytes(user)];
    assert(seed_list(&seeds) =~= seq![STAKER_SEED@, farm@, user@]);
    AddressSeeds { seeds, program_id: ID }
}

/// The address of the authority of `staker`.
pub fn staker_authority_seeds(staker: &Pubkey) -> (r: AddressSeeds)
    ensures
        seed_list(&r.seeds) == seq![STAKER_AUTHORITY_SEED@, staker@],
        r.program_id == ID,
{
    let seeds = vec![copy_bytes(STAKER_AUTHORITY_SEED.as_slice()), key_bytes(staker)];
    assert(seed_list(&seeds) =~= seq![STAKER_AUTHORITY_SEED@, staker@]);
    AddressSeeds { seeds, program_id: ID }
}

/// The address of `wallet`'s associated token account for `mint` under
/// `token_program`.
pub fn associated_token_account_seeds(wallet: &Pubkey, token_program: &Pubkey, mint: &Pubkey) -> (r:
    AddressSeeds)
    ensures
        seed_list(&r.seeds) == seq![wallet@, token_program@, mint@],
        r.program_id == ASSOCIATED_TOKEN_PROGRAM_ID,
{
    let seeds = vec![key_bytes(wallet), key_bytes(token_program), key_bytes(mint)];
    assert(seed_list(&seeds) =~= seq![wallet@, token_program@, mint@]);
    AddressSeeds { seeds, program_id: associated_token_program_id() }
}

/// The program-derived address for `seeds` under `program_id`, with its bump
/// seed, as the Solana runtime derives it; `None` where no bump seed gives an
/// address off the curve.
pub uninterp spec fn program_address(seeds: Seq<Seq<u8>>, program_id: Seq<u8>) -> Option<(Seq<u8>, u8)>;

/// Calls pinocchio's `try_find_program_address` with the seeds and program.
/// On the Solana target the runtime searches for the bump seed, and what it
/// finds is a function of the seeds and the program alone; built for any other
/// target the crate returns `None`.  So the contract speaks of a result that
/// came back, and does not state when one comes back.
#[verifier::external_body]
fn try_find_program_address(address: &AddressSeeds) -> (r: Option<(Pubkey, u8)>)
    ensures
        r matches Some((key, bump)) ==> program_address(seed_list(&address.seeds), address.program_id@)
            == Some((key@, bump)),
{
    let seeds: Vec<&[u8]> = address.seeds.iter().map(|s| s.as_slice()).collect();
    pinocchio::pubkey::try_find_program_address(&seeds, &address.program_id)
}

/// The program-derived address with these inputs and its bump seed, as the
/// runtime finds them; `InvalidSeeds` where none is found.
pub fn find_program_address(address: &AddressSeeds) -> (r: Result<(Pubkey, u8), InstructionError>)
    ensures
        r matches Ok((key, bump)) ==> program_address(seed_list(&address.seeds), address.program_id@)
            == Some((key@, bump)),
        r is Err ==> r == Err::<(Pubkey, u8), InstructionError>(InstructionError::InvalidSeeds),
{
    match try_find_program_address(address) {
        Some(found) => Ok(found),
        None => Err(InstructionError::InvalidSeeds),
    }
}

/// The key of the program-derived address for `seeds` under `program_id`.
pub open spec fn derived_key(seeds: Seq<Seq<u8>>, program_id: Seq<u8>) -> Option<Seq<u8>> {
    match program_address(seeds, program_id) {
        Some((key, _bump)) => Some(key),
        None => None,
    }
}

/// The address with these inputs; `InvalidSeeds` where none is found.
pub fn derived_address(address: &AddressSeeds) -> (r: Result<Pubkey, InstructionError>)
    ensures
        r matches Ok(key) ==> derived_key(seed_list(&address.seeds), address.program_id@) == Some(
            key@,
        ),
        r is Err ==> r == Err::<Pubkey, InstructionError>(InstructionError::InvalidSeeds),
{
    match find_program_address(address) {
        Ok((key, _bump)) => Ok(key),
        Err(e) => Err(e),
    }
}

/// What checking `key` against the address derived from `seeds` under
/// `program_id` may give: `Ok` only where `key` is that address;
/// `InvalidArgument` only where an address exists and `key` is another;
/// `InvalidSeeds` where the runtime found none.
pub open spec fn derived_key_check(
    seeds: Seq<Seq<u8>>,
    program_id: Seq<u8>,
    key: Seq<u8>,
    r: Result<(), InstructionError>,
) -> bool {
    match r {
        Ok(()) => derived_key(seeds, program_id) == Some(key),
        Err(InstructionError::InvalidArgument) => derived_key(seeds, program_id) is Some
            && derived_key(seeds, program_id) != Some(key),
        Err(InstructionError::InvalidSeeds) => true,
        Err(_) => false,
    }
}

/// Derives the address with these inputs and checks that `key` is it.
pub fn check_derived_key(address: &AddressSeeds, key: &Pubkey) -> (r: Result<(), InstructionError>)
    ensures
        derived_key_check(seed_list(&address.seeds), address.program_id@, key@, r),
{
    match derived_address(address) {
        Ok(expected) => {
            proof {
                lemma_key_view_eq(expected, *key);
            }
            if pubkey_eq(key, &expected) {
                Ok(())
            } else {
                Err(InstructionError::InvalidArgument)
            }
        },
        Err(e) => Err(e),
    }
}

} // verus!
