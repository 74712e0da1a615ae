//! Pausing and resuming payouts.

use vstd::prelude::*;
use crate::content_pool::state::Address;
use crate::errors::ErrorCode;
use crate::governance::{
    check_upgrade_authority, names_upgrade_authority, GovernanceRefusal, PROGRAM_DATA_HEAD,
};
use crate::veritas_custodian::state::VeritasCustodian;

verus! {

/// A governance refusal as a custodian error.
pub fn refusal_as_error_code(refusal: GovernanceRefusal) -> (e: ErrorCode)
    ensures
        e == match refusal {
            GovernanceRefusal::InvalidProgramData => ErrorCode::InvalidProgramData,
            GovernanceRefusal::InvalidUpgradeAuthority => ErrorCode::InvalidUpgradeAuthority,
        },
{
    match refusal {
        GovernanceRefusal::InvalidProgramData => ErrorCode::InvalidProgramData,
        GovernanceRefusal::InvalidUpgradeAuthority => ErrorCode::InvalidUpgradeAuthority,
    }
}

/// Set the emergency pause to `paused`, and return what it was.
///
/// Only the program's upgrade authority may do so. On an error the
/// custodian is unchanged.
pub fn toggle_emergency_pause(
    custodian: &mut VeritasCustodian,
    program_data: &[u8],
    upgrade_authority: Address,
    paused: bool,
) -> (res: Result<bool, ErrorCode>)
    ensures
        program_data@.len() < PROGRAM_DATA_HEAD ==> res == Err::<bool, ErrorCode>(
            ErrorCode::InvalidProgramData,
        ),
        program_data@.len() >= PROGRAM_DATA_HEAD && !names_upgrade_authority(
            program_data@,
            upgrade_authority,
        ) ==> res == Err::<bool, ErrorCode>(ErrorCode::InvalidUpgradeAuthority),
        names_upgrade_authority(program_data@, upgrade_authority) ==> res == Ok::<bool, ErrorCode>(
            old(custodian).emergency_pause,
        ) && *final(custodian) == (VeritasCustodian { emergency_pause: paused, ..*old(custodian) }),
        res is Err ==> *final(custodian) == *old(custodian),
{
    match check_upgrade_authority(program_data, &upgrade_authority) {
        Ok(_) => {},
        Err(refusal) => {
            return Err(refusal_as_error_code(refusal));
        },
    }
    let old_state = custodian.emergency_pause;
    custodian.emergency_pause = paused;
    Ok(old_state)
}

} // verus!
