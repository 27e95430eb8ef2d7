//! The market registry: one record per tradable instrument, with its
//! reference price and its funding state.

use vstd::prelude::*;
use crate::error::ErrorCode;

verus! {

/// The magnitude of the funding rate, in millionths: one ten-thousandth.
pub const FUNDING_RATE_STEP: i64 = 100;

/// The record of one tradable instrument.
#[derive(Clone, Copy, Debug, PartialEq, Eq)]
pub struct MarketAccount {
    /// A label for display; no rule reads it.
    pub name: [u8; 32],
    /// The reference price, in ten-thousandths, as last published.
    pub oracle_price: u64,
    /// The funding rate, in millionths; when positive, longs pay.
    pub funding_rate: i64,
    /// When the funding rate was last set, in seconds of Unix time.
    pub last_funding_time: i64,
}

/// The funding rate that follows `current`: the fixed step, with the sign
/// turned against a positive rate.
pub open spec fn following_rate(current: i64) -> i64 {
    if current > 0 {
        (0 - FUNDING_RATE_STEP) as i64
    } else {
        FUNDING_RATE_STEP
    }
}

/// Creates the record of a market that trades at `initial_price`, with no
/// funding rate yet, stamped `now`.
pub fn initialize_market(name: [u8; 32], initial_price: u64, now: i64) -> (market: MarketAccount)
    ensures
        market == (MarketAccount {
            name,
            oracle_price: initial_price,
            funding_rate: 0,
            last_funding_time: now,
        }),
{
    MarketAccount { name, oracle_price: initial_price, funding_rate: 0, last_funding_time: now }
}

/// The funding-rate policy: computes [`following_rate`].
pub fn next_funding_rate(current: i64) -> (next: i64)
    ensures
        next == following_rate(current),
{
    if current > 0 {
        -FUNDING_RATE_STEP
    } else {
        FUNDING_RATE_STEP
    }
}

/// Moves `market` to its next funding rate and stamps it `now`, however
/// long ago the rate was last set. The price and the name stay; the result
/// does not depend on `market_index`, which only tells the caller's records
/// which market was meant. Never fails.
#[allow(unused_variables)]
pub fn update_funding_rate(
    market: &mut MarketAccount,
    market_index: u64,
    now: i64,
) -> (result: Result<(), ErrorCode>)
    ensures
        result is Ok,
        *final(market) == (MarketAccount {
            funding_rate: following_rate(old(market).funding_rate),
            last_funding_time: now,
            ..*old(market)
        }),
{
    market.funding_rate = next_funding_rate(market.funding_rate);
    market.last_funding_time = now;
    Ok(())
}

} // verus!
