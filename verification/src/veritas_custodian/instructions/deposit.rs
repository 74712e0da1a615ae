//! Paying into the custodian's vault.

use vstd::prelude::*;
use crate::content_pool::state::Address;
use crate::errors::ErrorCode;
use crate::veritas_custodian::state::{DepositEvent, VeritasCustodian, MIN_DEPOSIT};

verus! {

/// Note a deposit of `amount`; the host moves the funds.
///
/// The amount must be at least the least deposit. On an error the custodian
/// is unchanged.
pub fn deposit(custodian: &mut VeritasCustodian, depositor: Address, amount: u64, now: i64) -> (res:
    Result<DepositEvent, ErrorCode>)
    ensures
        amount == 0 ==> res == Err::<DepositEvent, ErrorCode>(ErrorCode::InvalidAmount),
        0 < amount < MIN_DEPOSIT ==> res == Err::<DepositEvent, ErrorCode>(ErrorCode::BelowMinimum),
        amount >= MIN_DEPOSIT && old(custodian).total_deposits + amount > u128::MAX ==> res
            == Err::<DepositEvent, ErrorCode>(ErrorCode::NumericalOverflow),
        amount >= MIN_DEPOSIT && old(custodian).total_deposits + amount <= u128::MAX ==> res
            == Ok::<DepositEvent, ErrorCode>(DepositEvent { depositor, amount, timestamp: now })
            && *final(custodian) == (VeritasCustodian {
            total_deposits: (old(custodian).total_deposits + amount) as u128,
            ..*old(custodian)
        }),
        res is Err ==> *final(custodian) == *old(custodian),
{
    if amount == 0 {
        return Err(ErrorCode::InvalidAmount);
    }
    if amount < MIN_DEPOSIT {
        return Err(ErrorCode::BelowMinimum);
    }
    let total = match custodian.total_deposits.checked_add(amount as u128) {
        Some(v) => v,
        None => {
            return Err(ErrorCode::NumericalOverflow);
        },
    };
    custodian.total_deposits = total;
    Ok(DepositEvent { depositor, amount, timestamp: now })
}

} // verus!
