//! Replacing the custodian's protocol authority.

use vstd::prelude::*;
use crate::content_pool::state::Address;
use crate::errors::ErrorCode;
use crate::governance::{check_upgrade_authority, names_upgrade_authority, PROGRAM_DATA_HEAD};
use crate::veritas_custodian::instructions::toggle_emergency_pause::refusal_as_error_code;
use crate::veritas_custodian::state::VeritasCustodian;

verus! {

/// Replace the authority that may pay out, and return the one replaced.
///
/// Only the program's upgrade authority may do so, and the new authority
/// must be set. On an error the custodian is unchanged.
pub fn update_protocol_authority(
    custodian: &mut VeritasCustodian,
    program_data: &[u8],
    upgrade_authority: Address,
    new_protocol_authority: Address,
) -> (res: Result<Address, ErrorCode>)
    ensures
        program_data@.len() < PROGRAM_DATA_HEAD ==> res == Err::<Address, ErrorCode>(
            ErrorCode::InvalidProgramData,
        ),
        program_data@.len() >= PROGRAM_DATA_HEAD && !names_upgrade_authority(
            program_data@,
            upgrade_authority,
        ) ==> res == Err::<Address, ErrorCode>(ErrorCode::InvalidUpgradeAuthority),
        names_upgrade_authority(program_data@, upgrade_authority)
            && new_protocol_authority.is_unset() ==> res == Err::<Address, ErrorCode>(
            ErrorCode::InvalidAuthority,
        ),
        names_upgrade_authority(program_data@, upgrade_authority)
            && !new_protocol_authority.is_unset() ==> res == Ok::<Address, ErrorCode>(
            old(custodian).protocol_authority,
        ) && *final(custodian) == (VeritasCustodian {
            protocol_authority: new_protocol_authority,
            ..*old(custodian)
        }),
        res is Err ==> *final(custodian) == *old(custodian),
{
    match check_upgrade_authority(program_data, &upgrade_authority) {
        Ok(_) => {},
        Err(refusal) => {
            return Err(refusal_as_error_code(refusal));
        },
    }
    if new_protocol_authority.is_default() {
        return Err(ErrorCode::InvalidAuthority);
    }
    let old_authority = custodian.protocol_authority;
    custodian.protocol_authority = new_protocol_authority;
    Ok(old_authority)
}

} // verus!
