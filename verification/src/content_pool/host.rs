//! What the engine asks of the host's SDKs: the address that the runtime
//! derives from seeds, and the fields of a token account and of a mint as the
//! token program stores them.
//!
//! The three functions of this module call into the SDKs. Their contracts
//! are taken from the SDKs' sources and are not proved. What the token
//! program accepts as an account or as a mint is written out; the derived
//! address, a hash, has a name only.

use vstd::prelude::*;
use anchor_lang::prelude::Pubkey;
use anchor_spl::token::spl_token::solana_program::program_pack::Pack;
use anchor_spl::token::spl_token::state::{Account, Mint};
use super::state::Address;

verus! {

/// Length of a token account as the token program stores it.
pub const TOKEN_ACCOUNT_LEN: usize = 165;

/// Length of a mint as the token program stores it.
pub const MINT_LEN: usize = 82;

/// Offset of the decimals in a stored mint.
pub const MINT_DECIMALS_AT: usize = 44;

/// The address and the bump seed that the runtime derives from `seeds` for
/// the program `program_id`, if it derives any.
pub uninterp spec fn program_address(seeds: Seq<Seq<u8>>, program_id: Seq<u8>) -> Option<
    (Seq<u8>, u8),
>;

/// Offset of the state in a stored token account.
pub const ACCOUNT_STATE_AT: usize = 108;

/// Offset of the initialization flag in a stored mint.
pub const MINT_INITIALIZED_AT: usize = 45;

/// The four bytes of `data` at `at` are the tag of an optional field: 0 for
/// none or 1 for some, as a little-endian word.
pub open spec fn is_option_tag(data: Seq<u8>, at: int) -> bool {
    (data[at] == 0 || data[at] == 1) && data[at + 1] == 0 && data[at + 2] == 0 && data[at + 3]
        == 0
}

/// The token program reads `data` as an initialized token account: 165
/// bytes; well-formed tags of the delegate at 72, of the native flag at 109
/// and of the close authority at 129; and the state initialized (1) or
/// frozen (2).
pub open spec fn is_token_account(data: Seq<u8>) -> bool {
    &&& data.len() == TOKEN_ACCOUNT_LEN
    &&& is_option_tag(data, 72)
    &&& is_option_tag(data, 109)
    &&& is_option_tag(data, 129)
    &&& (data[ACCOUNT_STATE_AT as int] == 1 || data[ACCOUNT_STATE_AT as int] == 2)
}

/// The token program reads `data` as an initialized mint: 82 bytes;
/// well-formed tags of the mint authority at 0 and of the freeze authority at
/// 46; and the initialization flag set.
pub open spec fn is_mint(data: Seq<u8>) -> bool {
    &&& data.len() == MINT_LEN
    &&& is_option_tag(data, 0)
    &&& is_option_tag(data, 46)
    &&& data[MINT_INITIALIZED_AT as int] == 1
}

/// Derive the address of `seeds` under `program_id`.
///
/// Calls `Pubkey::try_find_program_address`, which hashes the seeds, a bump
/// seed and the program's address, and tries the bump seeds from 255 down
/// until a hash is no point of the curve. The contract claims only that the
/// outcome is a function of the seeds and of the program's address.
#[verifier::external_body]
pub(crate) fn find_address(seeds: &Vec<Vec<u8>>, program_id: &Address) -> (r: Option<(Address, u8)>)
    ensures
        r matches Some(found) ==> program_address(seeds.deep_view(), program_id.bytes@) == Some(
            (found.0.bytes@, found.1),
        ),
        r is None ==> program_address(seeds.deep_view(), program_id.bytes@) is None,
{
    let parts: Vec<&[u8]> = seeds.iter().map(|s| s.as_slice()).collect();
    let id = Pubkey::new_from_array(program_id.bytes);
    match Pubkey::try_find_program_address(&parts, &id) {
        Some((key, bump)) => Some((Address { bytes: key.to_bytes() }, bump)),
        None => None,
    }
}

/// The owner and the mint of a stored token account, in this order.
///
/// Calls `Account::unpack` of the token program's crate. It accepts exactly
/// 165 bytes, of which the first 32 are the mint and the next 32 the owner;
/// it refuses an account whose state is not initialized or frozen, or whose
/// optional fields have a malformed tag. The contract claims exactly that:
/// when it accepts, and the two fields.
#[verifier::external_body]
pub(crate) fn unpack_token_account(data: &[u8]) -> (r: Option<(Address, Address)>)
    ensures
        r is Some <==> is_token_account(data@),
        r matches Some(fields) ==> fields.1.bytes@ == data@.subrange(0, 32) && fields.0.bytes@
            == data@.subrange(32, 64),
{
    match Account::unpack(data) {
        Ok(account) => Some(
            (Address { bytes: account.owner.to_bytes() }, Address { bytes: account.mint.to_bytes() }),
        ),
        Err(_) => None,
    }
}

/// The decimals of a stored mint.
///
/// Calls `Mint::unpack` of the token program's crate. It accepts exactly 82
/// bytes, of which the byte at offset 44 holds the decimals; it refuses a
/// mint whose initialization flag is not 1, or whose optional fields have a
/// malformed tag. The contract claims exactly that: when it accepts, and the
/// decimals.
#[verifier::external_body]
pub(crate) fn unpack_mint_decimals(data: &[u8]) -> (r: Option<u8>)
    ensures
        r is Some <==> is_mint(data@),
        r matches Some(decimals) ==> decimals == data@[MINT_DECIMALS_AT as int],
{
    match Mint::unpack(data) {
        Ok(mint) => Some(mint.decimals),
        Err(_) => None,
    }
}

} // verus!
