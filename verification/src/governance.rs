//! The program's upgrade authority, as the host's program-data record holds
//! it. Governance operations are open to that authority alone.

use vstd::prelude::*;
use crate::content_pool::state::Address;

verus! {

/// Length of the head of a program-data record: a 4-byte tag, an 8-byte slot,
/// a 1-byte option tag and a 32-byte address.
pub const PROGRAM_DATA_HEAD: usize = 45;

/// Offset of the option tag of the upgrade authority.
pub const AUTHORITY_TAG_AT: usize = 12;

/// Offset of the address of the upgrade authority.
pub const AUTHORITY_AT: usize = 13;

/// What a program-data record says of the upgrade authority.
#[derive(Clone, Copy, Debug)]
pub enum UpgradeAuthority {
    /// The record is shorter than its head.
    Unreadable,
    /// The program has no upgrade authority.
    Absent,
    /// The upgrade authority.
    Held(Address),
}

/// The record names `signer` as the upgrade authority: it is long enough,
/// its option tag is set, and the 32 bytes after the tag are the signer's.
pub open spec fn names_upgrade_authority(program_data: Seq<u8>, signer: Address) -> bool {
    program_data.len() >= PROGRAM_DATA_HEAD && program_data[AUTHORITY_TAG_AT as int] != 0
        && program_data.subrange(AUTHORITY_AT as int, PROGRAM_DATA_HEAD as int) == signer.bytes@
}

/// Read the upgrade authority from a program-data record.
pub fn upgrade_authority_of(program_data: &[u8]) -> (r: UpgradeAuthority)
    ensures
        program_data@.len() < PROGRAM_DATA_HEAD ==> r is Unreadable,
        program_data@.len() >= PROGRAM_DATA_HEAD && program_data@[AUTHORITY_TAG_AT as int] == 0
            ==> r is Absent,
        program_data@.len() >= PROGRAM_DATA_HEAD && program_data@[AUTHORITY_TAG_AT as int] != 0
            ==> (r matches UpgradeAuthority::Held(a) && a.bytes@ == program_data@.subrange(
            AUTHORITY_AT as int,
            PROGRAM_DATA_HEAD as int,
        )),
{
    if program_data.len() < PROGRAM_DATA_HEAD {
        return UpgradeAuthority::Unreadable;
    }
    if program_data[AUTHORITY_TAG_AT] == 0 {
        return UpgradeAuthority::Absent;
    }
    let mut bytes = [0u8; 32];
    let mut i: usize = 0;
    while i < 32
        invariant
            i <= 32,
            program_data@.len() >= PROGRAM_DATA_HEAD,
            forall|j: int| 0 <= j < i ==> bytes@[j] == program_data@[AUTHORITY_AT + j],
        decreases 32 - i,
    {
        bytes[i] = program_data[AUTHORITY_AT + i];
        i = i + 1;
    }
    assert(bytes@ =~= program_data@.subrange(AUTHORITY_AT as int, PROGRAM_DATA_HEAD as int));
    UpgradeAuthority::Held(Address { bytes })
}

/// How a governance operation ends before it starts.
#[derive(Clone, Copy, Debug, PartialEq, Eq, Structural)]
pub enum GovernanceRefusal {
    /// The program-data record is too short.
    InvalidProgramData,
    /// The signer is not the program's upgrade authority.
    InvalidUpgradeAuthority,
}

/// Check that `signer` is the upgrade authority that the record names.
pub fn check_upgrade_authority(program_data: &[u8], signer: &Address) -> (res: Result<
    (),
    GovernanceRefusal,
>)
    ensures
        program_data@.len() < PROGRAM_DATA_HEAD ==> res == Err::<(), GovernanceRefusal>(
            GovernanceRefusal::InvalidProgramData,
        ),
        program_data@.len() >= PROGRAM_DATA_HEAD && !names_upgrade_authority(
            program_data@,
            *signer,
        ) ==> res == Err::<(), GovernanceRefusal>(GovernanceRefusal::InvalidUpgradeAuthority),
        names_upgrade_authority(program_data@, *signer) ==> res is Ok,
{
    match upgrade_authority_of(program_data) {
        UpgradeAuthority::Unreadable => Err(GovernanceRefusal::InvalidProgramData),
        UpgradeAuthority::Absent => Err(GovernanceRefusal::InvalidUpgradeAuthority),
        UpgradeAuthority::Held(authority) => {
            if authority.equals(signer) {
                Ok(())
            } else {
                Err(GovernanceRefusal::InvalidUpgradeAuthority)
            }
        },
    }
}

} // verus!
