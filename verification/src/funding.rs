//! The funding settlement engine: in the hour after a market's funding rate
//! was set no settlement takes effect; past that hour each call moves one
//! funding payment between the account and the protocol.

use vstd::prelude::*;
use crate::account::{
    committed, find_position, lemma_lookup, lookup, reported, AccountState, Outcome, Position,
    UserAccount,
};
use crate::arith::{div_toward_zero, lemma_div_toward_zero_magnitude, magnitude, unsigned_magnitude};
use crate::collateral::{balance_after_credit, balance_after_debit, credit_strict, debit_clamped};
use crate::error::ErrorCode;
use crate::market::MarketAccount;

verus! {

/// Funding settles once this many seconds have passed since the market's
/// funding rate was set.
pub const FUNDING_INTERVAL: i64 = 3600;

/// Funding rates are fixed-point numbers in millionths.
pub const FUNDING_SCALE: u64 = 1_000_000;

/// At `now`, funding in `market` has come due.
pub open spec fn funding_due(market: MarketAccount, now: i64) -> bool {
    now - market.last_funding_time >= FUNDING_INTERVAL
}

/// The funding payment on `position` at `funding_rate`: the position's
/// notional at its entry price times the rate, scaled down and rounded
/// toward zero. It has the sign of the rate.
pub open spec fn funding_payment(position: Position, funding_rate: i64) -> int {
    div_toward_zero(position.notional() * funding_rate, FUNDING_SCALE as int)
}

/// The holder of `position` pays funding at `funding_rate`: a long pays a
/// positive rate, a short a negative one. Otherwise the holder receives.
pub open spec fn user_pays(position: Position, funding_rate: i64) -> bool {
    (position.size > 0 && funding_rate > 0) || (position.size < 0 && funding_rate < 0)
}

impl AccountState {
    /// Settles funding on the position held in `market_index`. Nothing
    /// happens before funding is due, or when no position is held. A holder
    /// who pays is debited clamped; one who receives is credited strictly.
    pub open spec fn settle_funding(self, market: MarketAccount, market_index: u64, now: i64)
        -> Outcome {
        if !funding_due(market, now) {
            Ok(self)
        } else {
            match lookup(self.positions, market_index) {
                Some(i) => {
                    let position = self.positions[i];
                    let amount = magnitude(funding_payment(position, market.funding_rate));
                    if user_pays(position, market.funding_rate) {
                        Ok(self.with_collateral(balance_after_debit(self.collateral, amount)))
                    } else {
                        match balance_after_credit(self.collateral, amount) {
                            Ok(balance) => Ok(self.with_collateral(balance)),
                            Err(e) => Err(e),
                        }
                    }
                },
                None => Ok(self),
            }
        }
    }
}

/// Whether funding in `market` has come due at `now`.
pub fn funding_is_due(market: &MarketAccount, now: i64) -> (due: bool)
    ensures
        due == funding_due(*market, now),
{
    now as i128 - market.last_funding_time as i128 >= FUNDING_INTERVAL as i128
}

/// The magnitude of the funding payment on `position` at `funding_rate`;
/// `None` when it exceeds every `u64`.
pub fn funding_amount(position: &Position, funding_rate: i64) -> (amount: Option<u64>)
    ensures
        amount == if magnitude(funding_payment(*position, funding_rate)) <= u64::MAX {
            Some(magnitude(funding_payment(*position, funding_rate)) as u64)
        } else {
            None
        },
{
    proof {
        lemma_funding_amount(*position, funding_rate);
    }
    let notional = position.notional_value();
    let rate = unsigned_magnitude(funding_rate) as u128;
    match notional.checked_mul(rate) {
        Some(product) => {
            let scaled = product / (FUNDING_SCALE as u128);
            if scaled > u64::MAX as u128 {
                None
            } else {
                Some(scaled as u64)
            }
        },
        None => None,
    }
}

/// Whether the holder of `position` pays funding at `funding_rate`.
pub fn holder_pays(position: &Position, funding_rate: i64) -> (pays: bool)
    ensures
        pays == user_pays(*position, funding_rate),
{
    (position.size > 0 && funding_rate > 0) || (position.size < 0 && funding_rate < 0)
}

/// Settles funding between the protocol and the position that the account
/// holds in `market_index`.
///
/// Before an hour has passed since the market's funding rate was set, and
/// when the account holds no position there, nothing happens and the call
/// succeeds. Otherwise the payment is the position's notional times the
/// funding rate. A holder who pays (a long at a positive rate, a short at a
/// negative one) is debited, at most down to zero; any other holder is
/// credited, and the call is refused with `ArithmeticError` when the balance
/// cannot hold the sum. The market is only read: its time stamp stays, so
/// past the hour every call settles again.
pub fn settle_funding_payments(
    market: &MarketAccount,
    account: &mut UserAccount,
    market_index: u64,
    now: i64,
) -> (result: Result<(), ErrorCode>)
    ensures
        result == reported(old(account)@.settle_funding(*market, market_index, now)),
        final(account)@ == committed(
            old(account)@,
            old(account)@.settle_funding(*market, market_index, now),
        ),
        final(account).positions@ == old(account).positions@,
        !funding_due(*market, now) ==> result is Ok && final(account).collateral == old(
            account,
        ).collateral,
        old(account).wf() ==> final(account).wf(),
{
    if !funding_is_due(market, now) {
        return Ok(());
    }
    let i = match find_position(&account.positions, market_index) {
        Some(i) => i,
        None => {
            return Ok(());
        },
    };
    proof {
        lemma_lookup(account.positions@, market_index);
    }
    let position = account.positions[i];
    let amount = funding_amount(&position, market.funding_rate);
    if holder_pays(&position, market.funding_rate) {
        account.collateral = match amount {
            Some(amount) => debit_clamped(account.collateral, amount),
            None => 0,
        };
    } else {
        let sum = match amount {
            Some(amount) => credit_strict(account.collateral, amount)?,
            None => {
                return Err(ErrorCode::ArithmeticError);
            },
        };
        account.collateral = sum;
    }
    Ok(())
}

/// Law of the settlement gate. Before funding is due, a settlement succeeds
/// and changes nothing, however often it is called: two calls in the hour
/// after the funding rate was set both move nothing.
pub proof fn law_settle_before_due(
    state: AccountState,
    market: MarketAccount,
    market_index: u64,
    now: i64,
    again: i64,
)
    requires
        !funding_due(market, now),
        !funding_due(market, again),
    ensures
        state.settle_funding(market, market_index, now) == Ok::<AccountState, ErrorCode>(state),
        state.settle_funding(market, market_index, now)->Ok_0.settle_funding(
            market,
            market_index,
            again,
        ) == Ok::<AccountState, ErrorCode>(state),
{
}

/// Law of repeated settlement. A settlement leaves the market's time stamp
/// and the position as they are, so once funding is due a second call
/// settles the same payment a second time: it is no repetition without
/// effect. A holder who pays is debited the payment by each call, down to
/// zero; a holder who receives is credited it by each call that the balance
/// can hold. Where nothing is clamped or refused, both calls move the
/// balance by the same amount.
pub proof fn law_settle_when_due_repeats(
    state: AccountState,
    market: MarketAccount,
    market_index: u64,
    now: i64,
    again: i64,
)
    requires
        funding_due(market, now),
        funding_due(market, again),
    ensures
        ({
            let first = committed(state, state.settle_funding(market, market_index, now));
            let second = committed(first, first.settle_funding(market, market_index, again));
            &&& first.positions == state.positions
            &&& second.positions == state.positions
            &&& match state.position_in(market_index) {
                Some(position) => {
                    let amount = magnitude(funding_payment(position, market.funding_rate));
                    if user_pays(position, market.funding_rate) {
                        &&& first.collateral == balance_after_debit(state.collateral, amount)
                        &&& second.collateral == balance_after_debit(first.collateral, amount)
                        &&& 2 * amount <= state.collateral ==> state.collateral - first.collateral
                            == amount && first.collateral - second.collateral == amount
                    } else {
                        &&& state.collateral + amount <= u64::MAX ==> first.collateral
                            == state.collateral + amount
                        &&& state.collateral + 2 * amount <= u64::MAX ==> second.collateral
                            == state.collateral + 2 * amount
                        &&& state.collateral + amount > u64::MAX ==> second == state
                    }
                },
                None => second == state,
            }
        }),
{
}

/// The magnitude of a funding payment is the notional times the magnitude
/// of the rate, scaled down.
proof fn lemma_funding_amount(position: Position, funding_rate: i64)
    ensures
        magnitude(funding_payment(position, funding_rate)) == (position.notional() * magnitude(
            funding_rate as int,
        )) / (FUNDING_SCALE as nat),
{
    let notional = position.notional() as int;
    let rate = funding_rate as int;
    lemma_div_toward_zero_magnitude(notional * rate, FUNDING_SCALE as int);
    assert(magnitude(notional * rate) == notional * magnitude(rate)) by (nonlinear_arith)
        requires
            notional >= 0,
    ;
}

} // verus!
