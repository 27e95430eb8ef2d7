//! The collateral ledger: deposits, margin-guarded withdrawals, and the
//! realisation of profit and loss.
//!
//! A balance changes under one of two policies. A *strict* credit is refused
//! when the sum would leave the representable range. A *clamped* debit never
//! fails: a debit larger than the balance leaves zero.

use vstd::prelude::*;
use crate::account::{committed, reported, AccountState, Outcome, UserAccount};
use crate::error::ErrorCode;
use crate::margin::{margin_requirement, required_margin};

verus! {

/// The balance after a strict credit of `amount`.
pub open spec fn balance_after_credit(balance: nat, amount: nat) -> Result<nat, ErrorCode> {
    if balance + amount > u64::MAX {
        Err(ErrorCode::ArithmeticError)
    } else {
        Ok(balance + amount)
    }
}

/// The balance after a clamped debit of `amount`.
pub open spec fn balance_after_debit(balance: nat, amount: nat) -> nat {
    if amount >= balance {
        0
    } else {
        (balance - amount) as nat
    }
}

/// The balance after realising `pnl`: a gain is credited strictly, a loss
/// (or nothing) is debited clamped.
pub open spec fn balance_after_pnl(balance: nat, pnl: int) -> Result<nat, ErrorCode> {
    if pnl > 0 {
        balance_after_credit(balance, pnl as nat)
    } else {
        Ok(balance_after_debit(balance, (-pnl) as nat))
    }
}

impl AccountState {
    /// Adds `amount` to the balance, strictly.
    pub open spec fn deposit(self, amount: nat) -> Outcome {
        match balance_after_credit(self.collateral, amount) {
            Ok(balance) => Ok(self.with_collateral(balance)),
            Err(e) => Err(e),
        }
    }

    /// Takes `amount` from the balance, if the balance covers it and what
    /// is left covers the margin that the open positions require.
    pub open spec fn withdraw(self, amount: nat) -> Outcome {
        if amount > self.collateral {
            Err(ErrorCode::InsufficientCollateral)
        } else if self.collateral - amount < margin_requirement(self.positions) {
            Err(ErrorCode::InsufficientFreeCollateral)
        } else {
            Ok(self.with_collateral((self.collateral - amount) as nat))
        }
    }

    /// Moves a realised profit or loss into the balance.
    pub open spec fn realize_pnl(self, pnl: int) -> Outcome {
        match balance_after_pnl(self.collateral, pnl) {
            Ok(balance) => Ok(self.with_collateral(balance)),
            Err(e) => Err(e),
        }
    }
}

/// Credits `amount` to `balance` under the strict policy.
pub fn credit_strict(balance: u64, amount: u64) -> (result: Result<u64, ErrorCode>)
    ensures
        result == match balance_after_credit(balance as nat, amount as nat) {
            Ok(sum) => Ok::<u64, ErrorCode>(sum as u64),
            Err(e) => Err::<u64, ErrorCode>(e),
        },
{
    match balance.checked_add(amount) {
        Some(sum) => Ok(sum),
        None => Err(ErrorCode::ArithmeticError),
    }
}

/// Debits `amount` from `balance` under the clamped policy.
pub fn debit_clamped(balance: u64, amount: u64) -> (rest: u64)
    ensures
        rest == balance_after_debit(balance as nat, amount as nat),
{
    if amount >= balance {
        0
    } else {
        balance - amount
    }
}

/// Adds `amount` to the account's collateral. Refused with
/// `ArithmeticError` when the sum is not representable; the positions are
/// not looked at.
pub fn deposit_collateral(
    account: &mut UserAccount,
    amount: u64,
) -> (result: Result<(), ErrorCode>)
    ensures
        result == reported(old(account)@.deposit(amount as nat)),
        final(account)@ == committed(old(account)@, old(account)@.deposit(amount as nat)),
        result is Ok <==> old(account).collateral + amount <= u64::MAX,
        result is Ok ==> final(account).collateral == old(account).collateral + amount,
        final(account).positions@ == old(account).positions@,
        old(account).wf() ==> final(account).wf(),
{
    let sum = credit_strict(account.collateral, amount)?;
    account.collateral = sum;
    Ok(())
}

/// Takes `amount` out of the account's collateral. Refused with
/// `InsufficientCollateral` when `amount` exceeds the balance, and with
/// `InsufficientFreeCollateral` when the rest would fall below the margin
/// that the open positions require; so a withdrawal never succeeds beyond
/// the balance or into the margin, and leaves the free collateral at zero
/// or above.
pub fn withdraw_collateral(
    account: &mut UserAccount,
    amount: u64,
) -> (result: Result<(), ErrorCode>)
    ensures
        result == reported(old(account)@.withdraw(amount as nat)),
        final(account)@ == committed(old(account)@, old(account)@.withdraw(amount as nat)),
        result is Ok <==> amount <= old(account).collateral && old(account).collateral - amount
            >= margin_requirement(old(account).positions@),
        result is Ok ==> final(account).collateral == old(account).collateral - amount,
        result is Ok ==> final(account)@.free_collateral() >= 0,
        final(account).positions@ == old(account).positions@,
        old(account).wf() ==> final(account).wf(),
{
    if account.collateral < amount {
        return Err(ErrorCode::InsufficientCollateral);
    }
    let rest = account.collateral - amount;
    match required_margin(&account.positions) {
        Some(margin) => {
            if rest < margin {
                return Err(ErrorCode::InsufficientFreeCollateral);
            }
        },
        None => {
            return Err(ErrorCode::InsufficientFreeCollateral);
        },
    }
    account.collateral = rest;
    Ok(())
}

/// Moves a realised profit or loss into the account's collateral. A gain is
/// credited strictly: refused with `ArithmeticError` when the sum is not
/// representable. A loss is debited clamped: one larger than the balance
/// leaves zero, and is never refused.
pub fn realize_pnl(account: &mut UserAccount, pnl: i128) -> (result: Result<(), ErrorCode>)
    ensures
        result == reported(old(account)@.realize_pnl(pnl as int)),
        final(account)@ == committed(old(account)@, old(account)@.realize_pnl(pnl as int)),
        pnl <= 0 ==> result is Ok,
        final(account).positions@ == old(account).positions@,
        old(account).wf() ==> final(account).wf(),
{
    if pnl > 0 {
        if pnl > u64::MAX as i128 {
            return Err(ErrorCode::ArithmeticError);
        }
        let sum = credit_strict(account.collateral, pnl as u64)?;
        account.collateral = sum;
    } else if pnl < -(u64::MAX as i128) {
        account.collateral = 0;
    } else {
        account.collateral = debit_clamped(account.collateral, (-pnl) as u64);
    }
    Ok(())
}

} // verus!
