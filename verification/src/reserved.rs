//! Entry points that are reserved for liquidation and for order submission.
//! Neither does anything yet; both are here so that callers can be wired to
//! them now.

use vstd::prelude::*;
use anchor_lang::prelude::Pubkey;
use crate::account::UserAccount;
use crate::error::ErrorCode;

verus! {

/// Liquidation of the participant `user`, whose record is `account`. It is
/// meant for an account that is short of margin, one whose
/// [`free_collateral`](crate::account::AccountState::free_collateral) is
/// below zero. No transfer is carried out yet: the record stays as it is,
/// and the call succeeds.
#[allow(unused_variables)]
pub fn liquidate(account: &mut UserAccount, user: Pubkey) -> (result: Result<(), ErrorCode>)
    ensures
        result is Ok,
        *final(account) == *old(account),
{
    Ok(())
}

/// Submission of an order, given as an opaque payload. Nothing is matched
/// or stored yet: the call succeeds whatever the payload.
#[allow(unused_variables)]
pub fn add_order(order: String) -> (result: Result<(), ErrorCode>)
    ensures
        result is Ok,
{
    Ok(())
}

} // verus!
