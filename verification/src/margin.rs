//! The margin rule: what a book of positions is worth at entry prices, and
//! the collateral it ties up.

use vstd::prelude::*;
use crate::account::{AccountState, Position};
use crate::arith::{magnitude, unsigned_magnitude};

verus! {

/// Prices are fixed-point numbers in ten-thousandths.
pub const PRICE_SCALE: u64 = 10_000;

/// The margin requirement is one part in this many of the notional.
pub const MARGIN_DIVISOR: u64 = 10;

/// No notional exceeds this: the largest size magnitude, `2^63`, times the
/// largest price, `2^64 - 1`, scaled down.
pub const MAX_NOTIONAL: u128 = 17_014_118_346_046_923_172_246_393_167_902_932;

/// The largest total notional whose margin requirement fits in a `u64`.
const MARGIN_LIMIT: u128 = 184_467_440_737_095_516_159;

impl Position {
    /// The position's exposure at its own entry price: size magnitude times
    /// entry price, scaled down and truncated.
    pub open spec fn notional(self) -> nat {
        magnitude(self.size as int) * (self.entry_price as nat) / (PRICE_SCALE as nat)
    }

    /// Computes [`Position::notional`]; a `u128` holds it whatever the
    /// position.
    pub fn notional_value(&self) -> (value: u128)
        ensures
            value == self.notional(),
            value <= MAX_NOTIONAL,
    {
        let units: u128 = unsigned_magnitude(self.size) as u128;
        let price: u128 = self.entry_price as u128;
        assert(units * price <= 0x7fff_ffff_ffff_ffff_8000_0000_0000_0000u128) by (nonlinear_arith)
            requires
                units <= 0x8000_0000_0000_0000u128,
                price <= 0xffff_ffff_ffff_ffffu128,
        ;
        units * price / (PRICE_SCALE as u128)
    }
}

/// The sum of the notionals of `positions`.
pub open spec fn total_notional(positions: Seq<Position>) -> nat
    decreases positions.len(),
{
    if positions.len() == 0 {
        0
    } else {
        total_notional(positions.drop_last()) + positions.last().notional()
    }
}

/// The collateral that `positions` tie up: a tenth of their total notional,
/// truncated.
pub open spec fn margin_requirement(positions: Seq<Position>) -> nat {
    total_notional(positions) / (MARGIN_DIVISOR as nat)
}

impl AccountState {
    /// The collateral that the open positions leave free. A withdrawal
    /// never takes it below zero; realised losses and funding payments can,
    /// and an account below zero is short of margin.
    pub open spec fn free_collateral(self) -> int {
        self.collateral - margin_requirement(self.positions)
    }
}

/// Computes [`margin_requirement`]; `None` when it exceeds every `u64`.
pub fn required_margin(positions: &Vec<Position>) -> (margin: Option<u64>)
    ensures
        margin == if margin_requirement(positions@) <= u64::MAX {
            Some(margin_requirement(positions@) as u64)
        } else {
            None
        },
{
    let mut total: u128 = 0;
    let mut i: usize = 0;
    while i < positions.len()
        invariant
            i <= positions.len(),
            total == total_notional(positions@.take(i as int)),
            total <= MARGIN_LIMIT,
        decreases positions.len() - i,
    {
        let value = positions[i].notional_value();
        proof {
            lemma_total_notional_step(positions@, i as int);
        }
        total = total + value;
        i += 1;
        if total > MARGIN_LIMIT {
            proof {
                lemma_total_notional_grows(positions@, i as int);
            }
            return None;
        }
    }
    proof {
        assert(positions@.take(i as int) =~= positions@);
        assert(total == total_notional(positions@));
        assert(total / 10 <= u64::MAX);
    }
    Some((total / (MARGIN_DIVISOR as u128)) as u64)
}

/// Law of the margin. A position adds its own notional to the total,
/// wherever in the book it stands: the order of the positions does not
/// matter, and taking a position out never raises the margin requirement.
pub proof fn law_total_notional_without(positions: Seq<Position>, i: int)
    requires
        0 <= i < positions.len(),
    ensures
        total_notional(positions.remove(i)) + positions[i].notional() == total_notional(positions),
        margin_requirement(positions.remove(i)) <= margin_requirement(positions),
    decreases positions.len(),
{
    if i == positions.len() - 1 {
        assert(positions.remove(i) =~= positions.drop_last());
    } else {
        assert(positions.remove(i).drop_last() =~= positions.drop_last().remove(i));
        assert(positions.remove(i).last() == positions.last());
        law_total_notional_without(positions.drop_last(), i);
    }
}

/// The total over the first `n + 1` positions adds the notional of the last
/// of them to the total over the first `n`.
proof fn lemma_total_notional_step(positions: Seq<Position>, n: int)
    requires
        0 <= n < positions.len(),
    ensures
        total_notional(positions.take(n + 1)) == total_notional(positions.take(n))
            + positions[n].notional(),
{
    assert(positions.take(n + 1).drop_last() =~= positions.take(n));
}

/// A book's total notional is at least that of any of its prefixes.
proof fn lemma_total_notional_grows(positions: Seq<Position>, n: int)
    requires
        0 <= n <= positions.len(),
    ensures
        total_notional(positions.take(n)) <= total_notional(positions),
    decreases positions.len() - n,
{
    if n == positions.len() {
        assert(positions.take(n) =~= positions);
    } else {
        lemma_total_notional_step(positions, n);
        lemma_total_notional_grows(positions, n + 1);
    }
}

} // verus!
