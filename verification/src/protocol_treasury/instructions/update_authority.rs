//! Handing the treasury over.

use vstd::prelude::*;
use crate::content_pool::state::Address;
use crate::errors::ErrorCode;
use crate::protocol_treasury::state::ProtocolTreasury;

verus! {

/// Replace the treasury's authority, and return the one replaced.
///
/// Only the present authority may do so, and the new authority must be set.
/// On an error the treasury is unchanged.
pub fn update_treasury_authority(
    treasury: &mut ProtocolTreasury,
    signer: Address,
    new_authority: Address,
) -> (res: Result<Address, ErrorCode>)
    ensures
        !signer.same_as(&old(treasury).authority) ==> res == Err::<Address, ErrorCode>(
            ErrorCode::Unauthorized,
        ),
        signer.same_as(&old(treasury).authority) && new_authority.is_unset() ==> res == Err::<
            Address,
            ErrorCode,
        >(ErrorCode::InvalidAuthority),
        signer.same_as(&old(treasury).authority) && !new_authority.is_unset() ==> res == Ok::<
            Address,
            ErrorCode,
        >(old(treasury).authority) && *final(treasury) == (ProtocolTreasury {
            authority: new_authority,
            ..*old(treasury)
        }),
        res is Err ==> *final(treasury) == *old(treasury),
{
    if !signer.equals(&treasury.authority) {
        return Err(ErrorCode::Unauthorized);
    }
    if new_authority.is_default() {
        return Err(ErrorCode::InvalidAuthority);
    }
    let old_authority = treasury.authority;
    treasury.authority = new_authority;
    Ok(old_authority)
}

} // verus!
