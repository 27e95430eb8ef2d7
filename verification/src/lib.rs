//! Margin accounting for perpetual-futures trading.
//!
//! The crate keeps, for each participant, a collateral balance and a book of
//! open positions, values the positions against a market's reference price,
//! guards withdrawals by a margin requirement and settles funding payments.
//! Every operation is a function from records to records: callers load the
//! records and read the clock, call, and store what comes back. A call that
//! is refused leaves the records as it found them.
//!
//! Prices are fixed-point numbers in ten-thousandths, funding rates in
//! millionths, times are seconds of Unix time. Formulas are evaluated over
//! the integers, with truncating division; a call is refused for overflow
//! only where a balance or a position size would leave its range.
//!
//! - [`market`]: the record of a market, and its funding rate.
//! - [`account`]: the record of a participant, and its invariant.
//! - [`margin`]: notional values and the margin requirement.
//! - [`collateral`]: deposits, withdrawals, realised profit and loss.
//! - [`book`]: opening and closing positions.
//! - [`funding`]: settlement of funding payments.
//! - [`ledger`]: what holds of every history of operations.
//! - [`reserved`]: entry points kept for liquidation and order submission.

pub mod account;
pub mod arith;
pub mod book;
pub mod collateral;
pub mod error;
pub mod funding;
pub mod ledger;
pub mod margin;
pub mod market;
pub mod reserved;

pub use crate::account::{find_position, initialize_user, AccountState, Position, UserAccount};
pub use crate::book::{close_position, open_position, position_pnl};
pub use crate::collateral::{
    credit_strict, debit_clamped, deposit_collateral, realize_pnl, withdraw_collateral,
};
pub use crate::error::ErrorCode;
pub use crate::funding::{
    funding_amount, funding_is_due, holder_pays, settle_funding_payments, FUNDING_INTERVAL,
    FUNDING_SCALE,
};
pub use crate::margin::{required_margin, MARGIN_DIVISOR, MAX_NOTIONAL, PRICE_SCALE};
pub use crate::market::{
    initialize_market, next_funding_rate, update_funding_rate, MarketAccount, FUNDING_RATE_STEP,
};
pub use crate::reserved::{add_order, liquidate};
