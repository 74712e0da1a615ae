//! Paying out of the custodian's vault.

use vstd::prelude::*;
use crate::content_pool::state::Address;
use crate::errors::ErrorCode;
use crate::veritas_custodian::state::{VeritasCustodian, WithdrawEvent};

verus! {

/// Why a withdrawal is refused, if it is. The checks run in this order.
pub open spec fn withdraw_refusal(
    custodian: VeritasCustodian,
    authority: Address,
    vault_amount: u64,
    amount: u64,
) -> Option<ErrorCode> {
    if custodian.emergency_pause {
        Some(ErrorCode::SystemPaused)
    } else if !authority.same_as(&custodian.protocol_authority) {
        Some(ErrorCode::Unauthorized)
    } else if amount == 0 {
        Some(ErrorCode::InvalidAmount)
    } else if amount > vault_amount {
        Some(ErrorCode::InsufficientVaultBalance)
    } else if custodian.total_withdrawals + amount > u128::MAX {
        Some(ErrorCode::NumericalOverflow)
    } else {
        None
    }
}

/// Note a withdrawal of `amount` to `recipient`; the host moves the funds.
///
/// Only the protocol authority may withdraw, not while payouts are paused,
/// and not more than the vault holds. On an error the custodian is
/// unchanged.
pub fn withdraw(
    custodian: &mut VeritasCustodian,
    authority: Address,
    vault_amount: u64,
    amount: u64,
    recipient: Address,
    now: i64,
) -> (res: Result<WithdrawEvent, ErrorCode>)
    ensures
        match withdraw_refusal(*old(custodian), authority, vault_amount, amount) {
            Some(e) => res == Err::<WithdrawEvent, ErrorCode>(e) && *final(custodian) == *old(custodian),
            None => res == Ok::<WithdrawEvent, ErrorCode>(
                WithdrawEvent { recipient, amount, authority, timestamp: now },
            ) && *final(custodian) == (VeritasCustodian {
                total_withdrawals: (old(custodian).total_withdrawals + amount) as u128,
                ..*old(custodian)
            }),
        },
{
    if custodian.emergency_pause {
        return Err(ErrorCode::SystemPaused);
    }
    if !authority.equals(&custodian.protocol_authority) {
        return Err(ErrorCode::Unauthorized);
    }
    if amount == 0 {
        return Err(ErrorCode::InvalidAmount);
    }
    if amount > vault_amount {
        return Err(ErrorCode::InsufficientVaultBalance);
    }
    let total = match custodian.total_withdrawals.checked_add(amount as u128) {
        Some(v) => v,
        None => {
            return Err(ErrorCode::NumericalOverflow);
        },
    };
    custodian.total_withdrawals = total;
    Ok(WithdrawEvent { recipient, amount, authority, timestamp: now })
}

} // verus!
