//! Making the one custodian.

use vstd::prelude::*;
use crate::content_pool::state::Address;
use crate::errors::ErrorCode;
use crate::veritas_custodian::state::VeritasCustodian;

verus! {

/// Make the custodian with its protocol authority and its vault. The
/// authority must be set. Nothing is paid in or out yet, and payouts are
/// not paused.
pub fn initialize_custodian(protocol_authority: Address, usdc_vault: Address, bump: u8) -> (res:
    Result<VeritasCustodian, ErrorCode>)
    ensures
        protocol_authority.is_unset() ==> res == Err::<VeritasCustodian, ErrorCode>(
            ErrorCode::InvalidAuthority,
        ),
        !protocol_authority.is_unset() ==> res == Ok::<VeritasCustodian, ErrorCode>(
            VeritasCustodian {
                protocol_authority,
                usdc_vault,
                total_deposits: 0,
                total_withdrawals: 0,
                emergency_pause: false,
                bump,
            },
        ),
{
    if protocol_authority.is_default() {
        return Err(ErrorCode::InvalidAuthority);
    }
    Ok(
        VeritasCustodian {
            protocol_authority,
            usdc_vault,
            total_deposits: 0,
            total_withdrawals: 0,
            emergency_pause: false,
            bump,
        },
    )
}

} // verus!
