use vstd::prelude::*;
use pinocchio::pubkey::Pubkey;

verus! {

/// Address of this program.
pub const ID: Pubkey = [
    86, 30, 138, 130, 145, 203, 108, 51, 119, 87, 75, 9, 0, 74, 77, 27,
    35, 73, 211, 197, 119, 187, 253, 68, 178, 94, 250, 233, 30, 24, 125, 14,
];

/// Address of the vault program whose accounts name a farm's manager and admin.
pub const VAULT_PROGRAM_ID: Pubkey = [
    13, 180, 88, 140, 0, 40, 46, 57, 6, 188, 144, 247, 144, 212, 112, 104,
    17, 232, 204, 36, 178, 156, 202, 153, 27, 77, 112, 219, 58, 165, 141, 57,
];

/// Address of the SPL Token program.
pub const TOKEN_PROGRAM_ID: Pubkey = [
    6, 221, 246, 225, 215, 101, 161, 147, 217, 203, 225, 70, 206, 235, 121, 172,
    28, 180, 133, 237, 95, 91, 55, 145, 58, 140, 245, 133, 126, 255, 0, 169,
];

/// Address of the associated token account program.
pub const ASSOCIATED_TOKEN_PROGRAM_ID: Pubkey = [
    140, 151, 37, 143, 78, 36, 137, 241, 187, 61, 16, 41, 20, 142, 13, 131,
    11, 90, 19, 153, 218, 255, 16, 132, 4, 142, 123, 216, 219, 233, 248, 89,
];

/// Length of an SPL Token mint account.
pub const MINT_ACCOUNT_LEN: usize = 82;

/// A key that is all zero bytes: the default key, which marks an unused slot.
pub open spec fn is_unset(k: Pubkey) -> bool {
    forall|i: int| 0 <= i < 32 ==> #[trigger] k[i] == 0
}

/// Two keys are equal exactly when their bytes are.
pub proof fn lemma_key_view_eq(a: Pubkey, b: Pubkey)
    ensures
        (a == b) <==> (a@ == b@),
{
    if a@ == b@ {
        assert(a =~= b);
    }
}

/// Compares two keys byte by byte.
pub fn pubkey_eq(a: &Pubkey, b: &Pubkey) -> (r: bool)
    ensures
        r == (*a == *b),
{
    let mut i: usize = 0;
    while i < 32
        invariant
            0 <= i <= 32,
            forall|j: int| 0 <= j < i ==> a[j] == b[j],
        decreases 32 - i,
    {
        if a[i] != b[i] {
            return false;
        }
        i = i + 1;
    }
    assert(*a =~= *b);
    true
}

/// Whether the key is the default (all-zero) key.
pub fn is_unset_key(k: &Pubkey) -> (r: bool)
    ensures
        r == is_unset(*k),
{
    let mut i: usize = 0;
    while i < 32
        invariant
            0 <= i <= 32,
            forall|j: int| 0 <= j < i ==> k[j] == 0,
        decreases 32 - i,
    {
        if k[i] != 0 {
            return false;
        }
        i = i + 1;
    }
    true
}

/// The default (all-zero) key.
pub fn unset_key() -> (r: Pubkey)
    ensures
        is_unset(r),
{
    [0u8; 32]
}

/// The SPL Token program's address, as the token crate declares it.
#[verifier::external_body]
pub(crate) fn token_program_id() -> (r: Pubkey)
    ensures
        r == TOKEN_PROGRAM_ID,
{
    pinocchio_token::ID
}

/// The associated token account program's address, as its crate declares it.
#[verifier::external_body]
pub(crate) fn associated_token_program_id() -> (r: Pubkey)
    ensures
        r == ASSOCIATED_TOKEN_PROGRAM_ID,
{
    pinocchio_associated_token_account::ID
}

/// The length of an SPL Token mint account, as the token crate declares it.
#[verifier::external_body]
pub(crate) fn mint_account_len() -> (r: usize)
    ensures
        r == MINT_ACCOUNT_LEN,
{
    pinocchio_token::state::Mint::LEN
}

} // verus!
