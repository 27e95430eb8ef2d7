//! The position book: opening, netting and closing positions, and the
//! profit or loss that a close realises.

use vstd::prelude::*;
use crate::account::{
    committed, distinct_markets, find_position, holds_market, lemma_lookup, lemma_lookup_is,
    lookup, no_flat_position, reported, AccountState, Outcome, Position, UserAccount,
};
use crate::arith::{div_toward_zero, lemma_div_toward_zero_magnitude};
use crate::collateral::{balance_after_pnl, realize_pnl};
use crate::error::ErrorCode;
use crate::margin::{law_total_notional_without, margin_requirement, PRICE_SCALE};
use crate::market::MarketAccount;

verus! {

/// What closing `position` at `oracle_price` would realise: the price
/// difference times the signed size, scaled down and rounded toward zero. A
/// long gains when the price has risen, a short when it has fallen.
pub open spec fn unrealized_pnl(position: Position, oracle_price: u64) -> int {
    div_toward_zero(
        (oracle_price - position.entry_price) * position.size,
        PRICE_SCALE as int,
    )
}

impl AccountState {
    /// Adds `size` to the position held in `market_index`, or creates that
    /// position at the market's current price. A position that nets to zero
    /// leaves the book; one that stays keeps its entry price. The balance is
    /// not touched.
    pub open spec fn open_position(self, market: MarketAccount, market_index: u64, size: i64)
        -> Outcome {
        match lookup(self.positions, market_index) {
            Some(i) => {
                let held = self.positions[i];
                let net = held.size + size;
                if net < i64::MIN || net > i64::MAX {
                    Err(ErrorCode::ArithmeticError)
                } else if net == 0 {
                    Ok(self.with_positions(self.positions.remove(i)))
                } else {
                    Ok(
                        self.with_positions(
                            self.positions.update(i, Position { size: net as i64, ..held }),
                        ),
                    )
                }
            },
            None => Ok(
                self.with_positions(
                    self.positions.push(
                        Position { market_index, size, entry_price: market.oracle_price },
                    ),
                ),
            ),
        }
    }

    /// Realises the profit or loss of the position held in `market_index`
    /// at the market's current price, and removes the position.
    pub open spec fn close_position(self, market: MarketAccount, market_index: u64) -> Outcome {
        match lookup(self.positions, market_index) {
            Some(i) => match balance_after_pnl(
                self.collateral,
                unrealized_pnl(self.positions[i], market.oracle_price),
            ) {
                Ok(balance) => Ok(
                    AccountState { collateral: balance, positions: self.positions.remove(i), ..self },
                ),
                Err(e) => Err(e),
            },
            None => Err(ErrorCode::PositionNotFound),
        }
    }
}

/// Computes [`unrealized_pnl`]; an `i128` holds it whatever the position
/// and the price.
pub fn position_pnl(position: &Position, oracle_price: u64) -> (pnl: i128)
    ensures
        pnl == unrealized_pnl(*position, oracle_price),
{
    let diff: i128 = oracle_price as i128 - position.entry_price as i128;
    let size: i128 = position.size as i128;
    assert(-0x7fff_ffff_ffff_ffff_8000_0000_0000_0000 <= diff * size
        <= 0x7fff_ffff_ffff_ffff_8000_0000_0000_0000) by (nonlinear_arith)
        requires
            -0xffff_ffff_ffff_ffff <= diff <= 0xffff_ffff_ffff_ffff,
            -0x8000_0000_0000_0000 <= size <= 0x8000_0000_0000_0000,
    ;
    diff * size / (PRICE_SCALE as i128)
}

/// Opens a position of `size` in `market_index`, or adds `size` to the one
/// that the account already holds there.
///
/// A new position enters at the market's current price. An existing one
/// keeps its entry price whatever is added; when the sizes net to zero it
/// leaves the book, and nothing is realised. Refused with `ArithmeticError`
/// when the net size is not representable. The collateral is never touched.
pub fn open_position(
    account: &mut UserAccount,
    market: &MarketAccount,
    market_index: u64,
    size: i64,
) -> (result: Result<(), ErrorCode>)
    ensures
        result == reported(old(account)@.open_position(*market, market_index, size)),
        final(account)@ == committed(
            old(account)@,
            old(account)@.open_position(*market, market_index, size),
        ),
        final(account).collateral == old(account).collateral,
        distinct_markets(old(account).positions@) ==> distinct_markets(final(account).positions@),
        old(account).wf() && (size != 0 || holds_market(old(account).positions@, market_index))
            ==> final(account).wf(),
{
    proof {
        lemma_open_position_keeps_book(account@, *market, market_index, size);
    }
    match find_position(&account.positions, market_index) {
        Some(i) => {
            proof {
                lemma_lookup(account.positions@, market_index);
            }
            let held = account.positions[i];
            let net = match held.size.checked_add(size) {
                Some(net) => net,
                None => {
                    return Err(ErrorCode::ArithmeticError);
                },
            };
            if net == 0 {
                account.positions.remove(i);
            } else {
                account.positions.set(i, Position { size: net, ..held });
            }
        },
        None => {
            account.positions.push(
                Position { market_index, size, entry_price: market.oracle_price },
            );
        },
    }
    Ok(())
}

/// Closes the position that the account holds in `market_index`.
///
/// Refused with `PositionNotFound` when there is none. Otherwise the
/// position's profit or loss at the market's current price goes into the
/// collateral (a gain strictly, a loss clamped at zero) and the position
/// leaves the book. A gain that the balance cannot hold is refused with
/// `ArithmeticError`, and the position stays. After a successful close the
/// account holds no position in that market, so closing again is refused.
/// Closing never raises the margin that the account must keep.
pub fn close_position(
    account: &mut UserAccount,
    market: &MarketAccount,
    market_index: u64,
) -> (result: Result<(), ErrorCode>)
    ensures
        result == reported(old(account)@.close_position(*market, market_index)),
        final(account)@ == committed(
            old(account)@,
            old(account)@.close_position(*market, market_index),
        ),
        result == Err::<(), ErrorCode>(ErrorCode::PositionNotFound) <==> !holds_market(
            old(account).positions@,
            market_index,
        ),
        result is Ok && distinct_markets(old(account).positions@) ==> !holds_market(
            final(account).positions@,
            market_index,
        ),
        margin_requirement(final(account).positions@) <= margin_requirement(
            old(account).positions@,
        ),
        old(account).wf() ==> final(account).wf(),
{
    proof {
        lemma_close_position_keeps_book(account@, *market, market_index);
    }
    let i = match find_position(&account.positions, market_index) {
        Some(i) => i,
        None => {
            return Err(ErrorCode::PositionNotFound);
        },
    };
    proof {
        lemma_lookup(account.positions@, market_index);
    }
    let pnl = position_pnl(&account.positions[i], market.oracle_price);
    realize_pnl(account, pnl)?;
    account.positions.remove(i);
    Ok(())
}

/// Law of the sign of profit and loss. A long never loses when the price
/// has risen and never gains when it has fallen; for a short it is the
/// other way round; and at the entry price nothing is realised. A short
/// realises the opposite of what a long of the same size would.
pub proof fn law_pnl_sign(position: Position, oracle_price: u64)
    ensures
        position.size >= 0 && oracle_price >= position.entry_price ==> unrealized_pnl(
            position,
            oracle_price,
        ) >= 0,
        position.size >= 0 && oracle_price <= position.entry_price ==> unrealized_pnl(
            position,
            oracle_price,
        ) <= 0,
        position.size <= 0 && oracle_price >= position.entry_price ==> unrealized_pnl(
            position,
            oracle_price,
        ) <= 0,
        position.size <= 0 && oracle_price <= position.entry_price ==> unrealized_pnl(
            position,
            oracle_price,
        ) >= 0,
        position.size > i64::MIN ==> unrealized_pnl(
            Position { size: (-position.size) as i64, ..position },
            oracle_price,
        ) == -unrealized_pnl(position, oracle_price),
{
    let diff = oracle_price - position.entry_price;
    let size = position.size as int;
    lemma_div_toward_zero_magnitude(diff * size, PRICE_SCALE as int);
    assert(diff >= 0 && size >= 0 ==> diff * size >= 0) by (nonlinear_arith);
    assert(diff <= 0 && size >= 0 ==> diff * size <= 0) by (nonlinear_arith);
    assert(diff >= 0 && size <= 0 ==> diff * size <= 0) by (nonlinear_arith);
    assert(diff <= 0 && size <= 0 ==> diff * size >= 0) by (nonlinear_arith);
    assert(diff * (-size) == -(diff * size)) by (nonlinear_arith);
}

/// Law of the position book. An account whose markets are distinct holds,
/// after `open_position`, one position at most in each market, and:
///
/// - in `market_index`, the position that was held there with `size` added
///   and the entry price kept, or none when the sizes net to zero, or a new
///   position at the market's current price when none was held;
/// - in every other market, the position that it held before.
///
/// A refused call (the net size is not representable) changes nothing.
pub proof fn law_open_position_by_market(
    state: AccountState,
    market: MarketAccount,
    market_index: u64,
    size: i64,
    other: u64,
)
    requires
        distinct_markets(state.positions),
        other != market_index,
    ensures
        match state.open_position(market, market_index, size) {
            Ok(after) => {
                &&& distinct_markets(after.positions)
                &&& after.collateral == state.collateral
                &&& after.position_in(other) == state.position_in(other)
                &&& after.position_in(market_index) == match state.position_in(market_index) {
                    Some(held) => if held.size + size == 0 {
                        None
                    } else {
                        Some(Position { size: (held.size + size) as i64, ..held })
                    },
                    None => Some(
                        Position { market_index, size, entry_price: market.oracle_price },
                    ),
                }
            },
            Err(e) => {
                &&& e == ErrorCode::ArithmeticError
                &&& state.position_in(market_index) matches Some(held)
                &&& !(i64::MIN <= held.size + size <= i64::MAX)
            },
        },
{
    lemma_open_position_keeps_book(state, market, market_index, size);
    lemma_lookup(state.positions, market_index);
    match lookup(state.positions, market_index) {
        Some(i) => {
            let held = state.positions[i];
            let net = held.size + size;
            if net < i64::MIN || net > i64::MAX {
            } else if net == 0 {
                lemma_remove_found(state.positions, market_index, i);
                lemma_remove_keeps_others(state.positions, market_index, i, other);
                lemma_lookup(state.positions.remove(i), market_index);
            } else {
                let changed = Position { size: net as i64, ..held };
                lemma_update_keeps_places(state.positions, i, changed, other);
                lemma_update_keeps_places(state.positions, i, changed, market_index);
                lemma_lookup(state.positions, other);
            }
        },
        None => {
            let fresh = Position { market_index, size, entry_price: market.oracle_price };
            lemma_push_keeps_places(state.positions, fresh, other);
            lemma_push_keeps_places(state.positions, fresh, market_index);
            lemma_lookup(state.positions, other);
        },
    }
}

/// Law of closing. In an account whose markets are distinct, a close that
/// is not refused for a gain beyond the range of the balance leaves no
/// position in the market closed, whatever the profit or loss was, and a
/// second close of that market is refused with `PositionNotFound`, at
/// whatever price it is tried. Every other market keeps its position.
pub proof fn law_close_position_once(
    state: AccountState,
    market: MarketAccount,
    later: MarketAccount,
    market_index: u64,
    other: u64,
)
    requires
        distinct_markets(state.positions),
        state.close_position(market, market_index) != Err::<AccountState, ErrorCode>(
            ErrorCode::ArithmeticError,
        ),
        other != market_index,
    ensures
        ({
            let after = committed(state, state.close_position(market, market_index));
            &&& state.close_position(market, market_index) is Ok <==> state.position_in(
                market_index,
            ) is Some
            &&& after.position_in(market_index) is None
            &&& after.position_in(other) == state.position_in(other)
            &&& distinct_markets(after.positions)
            &&& after.close_position(later, market_index) == Err::<AccountState, ErrorCode>(
                ErrorCode::PositionNotFound,
            )
        }),
{
    lemma_lookup(state.positions, market_index);
    match lookup(state.positions, market_index) {
        Some(i) => {
            lemma_remove_found(state.positions, market_index, i);
            lemma_remove_keeps_others(state.positions, market_index, i, other);
            lemma_lookup(state.positions.remove(i), market_index);
        },
        None => {},
    }
}

/// Opening a position keeps the markets of the book distinct, and keeps
/// every position away from size zero unless a position of size zero is
/// opened in a market not yet held.
pub proof fn lemma_open_position_keeps_book(
    state: AccountState,
    market: MarketAccount,
    market_index: u64,
    size: i64,
)
    ensures
        ({
            let after = committed(state, state.open_position(market, market_index, size));
            &&& after.collateral == state.collateral
            &&& after.authority == state.authority
            &&& distinct_markets(state.positions) ==> distinct_markets(after.positions)
            &&& no_flat_position(state.positions) && (size != 0 || holds_market(
                state.positions,
                market_index,
            )) ==> no_flat_position(after.positions)
        }),
{
    lemma_lookup(state.positions, market_index);
    let after = committed(state, state.open_position(market, market_index, size));
    match lookup(state.positions, market_index) {
        Some(i) => {
            lemma_remove_found(state.positions, market_index, i);
        },
        None => {
            let fresh = Position { market_index, size, entry_price: market.oracle_price };
            assert(after.positions == state.positions.push(fresh));
            if distinct_markets(state.positions) {
                assert forall|a: int, b: int| 0 <= a < b < after.positions.len() implies
                    after.positions[a].market_index != after.positions[b].market_index by {
                    assert(after.positions[a] == state.positions[a]);
                }
            }
        },
    }
}

/// Closing a position keeps the markets of the book distinct and every
/// position away from size zero, and never raises the margin requirement;
/// where no two positions shared a market, a successful close leaves none
/// in the market closed.
pub proof fn lemma_close_position_keeps_book(
    state: AccountState,
    market: MarketAccount,
    market_index: u64,
)
    ensures
        ({
            let outcome = state.close_position(market, market_index);
            let after = committed(state, outcome);
            &&& after.authority == state.authority
            &&& state.collateral <= u64::MAX ==> after.collateral <= u64::MAX
            &&& distinct_markets(state.positions) ==> distinct_markets(after.positions)
            &&& no_flat_position(state.positions) ==> no_flat_position(after.positions)
            &&& outcome is Ok && distinct_markets(state.positions) ==> !holds_market(
                after.positions,
                market_index,
            )
            &&& outcome == Err::<AccountState, ErrorCode>(ErrorCode::PositionNotFound)
                <==> !holds_market(state.positions, market_index)
            &&& margin_requirement(after.positions) <= margin_requirement(state.positions)
        }),
{
    lemma_lookup(state.positions, market_index);
    match lookup(state.positions, market_index) {
        Some(i) => {
            lemma_remove_found(state.positions, market_index, i);
            law_total_notional_without(state.positions, i);
        },
        None => {},
    }
}

/// Removing the position found for a market leaves none in that market,
/// where no two positions shared one.
proof fn lemma_remove_found(positions: Seq<Position>, market: u64, i: int)
    requires
        lookup(positions, market) == Some(i),
    ensures
        distinct_markets(positions) ==> distinct_markets(positions.remove(i)),
        distinct_markets(positions) ==> !holds_market(positions.remove(i), market),
        no_flat_position(positions) ==> no_flat_position(positions.remove(i)),
{
    lemma_lookup(positions, market);
    let rest = positions.remove(i);
    assert forall|j: int| 0 <= j < rest.len() implies rest[j] == positions[if j < i {
        j
    } else {
        j + 1
    }] by {}
    if distinct_markets(positions) {
        assert forall|a: int, b: int| 0 <= a < b < rest.len() implies rest[a].market_index
            != rest[b].market_index by {
            let a0 = if a < i { a } else { a + 1 };
            let b0 = if b < i { b } else { b + 1 };
            assert(rest[a] == positions[a0]);
            assert(rest[b] == positions[b0]);
        }
        assert forall|j: int| 0 <= j < rest.len() implies rest[j].market_index != market by {
            let j0 = if j < i { j } else { j + 1 };
            assert(rest[j] == positions[j0]);
        }
    }
    if no_flat_position(positions) {
        assert forall|j: int| 0 <= j < rest.len() implies rest[j].size != 0 by {
            let j0 = if j < i { j } else { j + 1 };
            assert(rest[j] == positions[j0]);
        }
    }
}

/// Removing the position found for one market leaves the position held in
/// any other market as it was.
proof fn lemma_remove_keeps_others(positions: Seq<Position>, market: u64, i: int, other: u64)
    requires
        lookup(positions, market) == Some(i),
        other != market,
    ensures
        match lookup(positions, other) {
            Some(k) => lookup(positions.remove(i), other) == Some(if k < i { k } else { k - 1 })
                && positions.remove(i)[if k < i { k } else { k - 1 }] == positions[k],
            None => lookup(positions.remove(i), other) is None,
        },
{
    lemma_lookup(positions, market);
    lemma_lookup(positions, other);
    let rest = positions.remove(i);
    assert forall|j: int| 0 <= j < rest.len() implies rest[j] == positions[if j < i {
        j
    } else {
        j + 1
    }] by {}
    match lookup(positions, other) {
        Some(k) => {
            let moved = if k < i { k } else { k - 1 };
            assert(rest[moved] == positions[k]);
            assert forall|j: int| 0 <= j < moved implies rest[j].market_index != other by {
                let j0 = if j < i { j } else { j + 1 };
                assert(rest[j] == positions[j0]);
            }
            lemma_lookup_is(rest, other, moved);
        },
        None => {
            assert forall|j: int| 0 <= j < rest.len() implies rest[j].market_index != other by {
                let j0 = if j < i { j } else { j + 1 };
                assert(rest[j] == positions[j0]);
            }
            lemma_lookup(rest, other);
        },
    }
}

/// Replacing a position by one in the same market moves no position.
proof fn lemma_update_keeps_places(positions: Seq<Position>, i: int, changed: Position, any: u64)
    requires
        0 <= i < positions.len(),
        changed.market_index == positions[i].market_index,
    ensures
        lookup(positions.update(i, changed), any) == lookup(positions, any),
{
    let next = positions.update(i, changed);
    lemma_lookup(positions, any);
    match lookup(positions, any) {
        Some(k) => {
            assert forall|j: int| 0 <= j < k implies next[j].market_index != any by {
                assert(next[j].market_index == positions[j].market_index);
            }
            lemma_lookup_is(next, any, k);
        },
        None => {
            assert forall|j: int| 0 <= j < next.len() implies next[j].market_index != any by {
                assert(next[j].market_index == positions[j].market_index);
            }
            lemma_lookup(next, any);
        },
    }
}

/// Appending a position in a market not yet held makes it the one found
/// for that market, and moves no other.
proof fn lemma_push_keeps_places(positions: Seq<Position>, fresh: Position, any: u64)
    requires
        lookup(positions, fresh.market_index) is None,
    ensures
        lookup(positions.push(fresh), any) == if any == fresh.market_index {
            Some(positions.len() as int)
        } else {
            lookup(positions, any)
        },
{
    let next = positions.push(fresh);
    lemma_lookup(positions, any);
    lemma_lookup(positions, fresh.market_index);
    if any == fresh.market_index {
        assert forall|j: int| 0 <= j < positions.len() implies next[j].market_index != any by {
            assert(next[j] == positions[j]);
        }
        lemma_lookup_is(next, any, positions.len() as int);
    } else {
        match lookup(positions, any) {
            Some(k) => {
                assert forall|j: int| 0 <= j < k implies next[j].market_index != any by {
                    assert(next[j] == positions[j]);
                }
                assert(next[k] == positions[k]);
                lemma_lookup_is(next, any, k);
            },
            None => {
                assert forall|j: int| 0 <= j < next.len() implies next[j].market_index != any by {
                    if j < positions.len() {
                        assert(next[j] == positions[j]);
                    }
                }
                lemma_lookup(next, any);
            },
        }
    }
}

} // verus!
