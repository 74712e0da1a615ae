//! Making the one treasury.

use vstd::prelude::*;
use crate::content_pool::state::Address;
use crate::errors::ErrorCode;
use crate::protocol_treasury::state::ProtocolTreasury;

verus! {

/// Make the treasury with its authority and its vault. The authority must
/// be set.
pub fn initialize_treasury(authority: Address, usdc_vault: Address, bump: u8) -> (res: Result<
    ProtocolTreasury,
    ErrorCode,
>)
    ensures
        authority.is_unset() ==> res == Err::<ProtocolTreasury, ErrorCode>(
            ErrorCode::InvalidAuthority,
        ),
        !authority.is_unset() ==> res == Ok::<ProtocolTreasury, ErrorCode>(
            ProtocolTreasury { authority, usdc_vault, bump },
        ),
{
    if authority.is_default() {
        return Err(ErrorCode::InvalidAuthority);
    }
    Ok(ProtocolTreasury { authority, usdc_vault, bump })
}

} // verus!
