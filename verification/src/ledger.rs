//! Histories of operations on one account, and the account of where its
//! collateral came from and went.

use vstd::prelude::*;
use crate::account::{committed, distinct_markets, holds_market, AccountState, Outcome};
use crate::arith::magnitude;
use crate::book::{lemma_close_position_keeps_book, lemma_open_position_keeps_book, unrealized_pnl};
use crate::collateral::balance_after_credit;
use crate::funding::{funding_due, funding_payment, user_pays};
use crate::market::MarketAccount;

verus! {

/// One call that can change an account, with the market record and the
/// time it was given.
pub enum Operation {
    Deposit { amount: u64 },
    Withdraw { amount: u64 },
    Realize { pnl: i128 },
    Open { market: MarketAccount, market_index: u64, size: i64 },
    Close { market: MarketAccount, market_index: u64 },
    Settle { market: MarketAccount, market_index: u64, now: i64 },
}

/// What has moved into and out of a balance, by kind.
pub struct Tally {
    /// Deposited by deposits that succeeded.
    pub deposits: nat,
    /// Taken out by withdrawals that succeeded.
    pub withdrawals: nat,
    /// Gains realised, where the balance could hold them.
    pub gains: nat,
    /// Losses realised, each no larger than the balance it met.
    pub losses: nat,
    /// Funding received by settlements that succeeded.
    pub funding_received: nat,
    /// Funding paid by settlements, each no larger than the balance it met.
    pub funding_paid: nat,
}

impl Tally {
    /// Nothing moved.
    pub open spec fn zero() -> Tally {
        Tally {
            deposits: 0,
            withdrawals: 0,
            gains: 0,
            losses: 0,
            funding_received: 0,
            funding_paid: 0,
        }
    }

    /// Both tallies together.
    pub open spec fn plus(self, other: Tally) -> Tally {
        Tally {
            deposits: self.deposits + other.deposits,
            withdrawals: self.withdrawals + other.withdrawals,
            gains: self.gains + other.gains,
            losses: self.losses + other.losses,
            funding_received: self.funding_received + other.funding_received,
            funding_paid: self.funding_paid + other.funding_paid,
        }
    }

    /// What the tally adds to a balance, all told.
    pub open spec fn net(self) -> int {
        self.deposits - self.withdrawals + self.gains - self.losses + self.funding_received
            - self.funding_paid
    }
}

/// The smaller of two amounts.
pub open spec fn at_most(amount: nat, balance: nat) -> nat {
    if amount >= balance {
        balance
    } else {
        amount
    }
}

/// What realising `pnl` moves when it meets `balance`: the gain, if the
/// balance can hold it, or as much of the loss as the balance covers.
pub open spec fn moved_by_pnl(balance: nat, pnl: int) -> Tally {
    if pnl <= 0 {
        Tally { losses: at_most((-pnl) as nat, balance), ..Tally::zero() }
    } else if balance_after_credit(balance, pnl as nat) is Ok {
        Tally { gains: pnl as nat, ..Tally::zero() }
    } else {
        Tally::zero()
    }
}

/// What settling a funding payment of `amount` moves when it meets
/// `balance`: as much as the balance covers where the holder pays, and the
/// whole of it, if the balance can hold it, where the holder receives.
pub open spec fn moved_by_funding(balance: nat, amount: nat, holder_pays: bool) -> Tally {
    if holder_pays {
        Tally { funding_paid: at_most(amount, balance), ..Tally::zero() }
    } else if balance_after_credit(balance, amount) is Ok {
        Tally { funding_received: amount, ..Tally::zero() }
    } else {
        Tally::zero()
    }
}

impl AccountState {
    /// What `operation` makes of the record.
    pub open spec fn apply(self, operation: Operation) -> Outcome {
        match operation {
            Operation::Deposit { amount } => self.deposit(amount as nat),
            Operation::Withdraw { amount } => self.withdraw(amount as nat),
            Operation::Realize { pnl } => self.realize_pnl(pnl as int),
            Operation::Open { market, market_index, size } => self.open_position(
                market,
                market_index,
                size,
            ),
            Operation::Close { market, market_index } => self.close_position(market, market_index),
            Operation::Settle { market, market_index, now } => self.settle_funding(
                market,
                market_index,
                now,
            ),
        }
    }

    /// The record after the operations of `history`, first to last, each
    /// refused one skipped.
    pub open spec fn replay(self, history: Seq<Operation>) -> AccountState
        decreases history.len(),
    {
        if history.len() == 0 {
            self
        } else {
            let before = self.replay(history.drop_last());
            committed(before, before.apply(history.last()))
        }
    }

    /// `operation` would open a position of size zero in a market in which
    /// the record holds none.
    pub open spec fn opens_flat(self, operation: Operation) -> bool {
        operation matches Operation::Open { market_index, size, .. } && size == 0 && !holds_market(
            self.positions,
            market_index,
        )
    }

    /// No operation of `history`, when its turn comes, opens a position of
    /// size zero in a market not held.
    pub open spec fn never_opens_flat(self, history: Seq<Operation>) -> bool {
        forall|k: int|
            0 <= k < history.len() ==> !(#[trigger] self.replay(history.take(k))).opens_flat(
                history[k],
            )
    }

    /// What `operation` moves when it meets the record: a deposit or a
    /// withdrawal its amount, a close the gain or the clamped loss of the
    /// position it finds, a settlement that is due the funding payment on
    /// the position it finds. A refused operation moves nothing, and opening
    /// a position never does.
    pub open spec fn moved_by(self, operation: Operation) -> Tally {
        match operation {
            Operation::Deposit { amount } => if self.deposit(amount as nat) is Ok {
                Tally { deposits: amount as nat, ..Tally::zero() }
            } else {
                Tally::zero()
            },
            Operation::Withdraw { amount } => if self.withdraw(amount as nat) is Ok {
                Tally { withdrawals: amount as nat, ..Tally::zero() }
            } else {
                Tally::zero()
            },
            Operation::Realize { pnl } => moved_by_pnl(self.collateral, pnl as int),
            Operation::Open { .. } => Tally::zero(),
            Operation::Close { market, market_index } => match self.position_in(market_index) {
                Some(position) => moved_by_pnl(
                    self.collateral,
                    unrealized_pnl(position, market.oracle_price),
                ),
                None => Tally::zero(),
            },
            Operation::Settle { market, market_index, now } => match self.position_in(
                market_index,
            ) {
                Some(position) => if funding_due(market, now) {
                    moved_by_funding(
                        self.collateral,
                        magnitude(funding_payment(position, market.funding_rate)),
                        user_pays(position, market.funding_rate),
                    )
                } else {
                    Tally::zero()
                },
                None => Tally::zero(),
            },
        }
    }

    /// What the operations of `history` move, first to last.
    pub open spec fn moved_over(self, history: Seq<Operation>) -> Tally
        decreases history.len(),
    {
        if history.len() == 0 {
            Tally::zero()
        } else {
            self.moved_over(history.drop_last()).plus(
                self.replay(history.drop_last()).moved_by(history.last()),
            )
        }
    }
}

/// One operation changes the balance by what it moves, and by nothing else.
pub proof fn law_operation_accounts(state: AccountState, operation: Operation)
    ensures
        committed(state, state.apply(operation)).collateral == state.collateral + state.moved_by(
            operation,
        ).net(),
        committed(state, state.apply(operation)).authority == state.authority,
{
}

/// Law of the ledger. After any history of operations, the collateral is
/// what it was at the start, plus the deposits that succeeded, less the
/// withdrawals that succeeded, plus the gains realised, less the losses
/// realised (each clamped at the balance it met), plus the funding
/// received, less the funding paid (clamped alike). Nothing else ever moves
/// it.
pub proof fn law_collateral_is_accounted(state: AccountState, history: Seq<Operation>)
    ensures
        ({
            let moved = state.moved_over(history);
            state.replay(history).collateral == state.collateral + moved.deposits
                - moved.withdrawals + moved.gains - moved.losses + moved.funding_received
                - moved.funding_paid
        }),
        state.replay(history).authority == state.authority,
    decreases history.len(),
{
    if history.len() > 0 {
        law_collateral_is_accounted(state, history.drop_last());
        law_operation_accounts(state.replay(history.drop_last()), history.last());
    }
}

/// Law of the book over histories. Whatever operations an account has been
/// through, it holds at most one position in each market, if it did at the
/// start; and its balance stays representable.
pub proof fn law_history_keeps_markets_distinct(state: AccountState, history: Seq<Operation>)
    requires
        distinct_markets(state.positions),
        state.collateral <= u64::MAX,
    ensures
        distinct_markets(state.replay(history).positions),
        state.replay(history).collateral <= u64::MAX,
    decreases history.len(),
{
    if history.len() > 0 {
        law_history_keeps_markets_distinct(state, history.drop_last());
        let before = state.replay(history.drop_last());
        match history.last() {
            Operation::Open { market, market_index, size } => {
                lemma_open_position_keeps_book(before, market, market_index, size);
            },
            Operation::Close { market, market_index } => {
                lemma_close_position_keeps_book(before, market, market_index);
            },
            _ => {},
        }
    }
}

/// Law of the record's invariant. An account that starts well formed stays
/// so through any history in which no position of size zero is opened in a
/// market not held: a position that nets to zero leaves the book at once,
/// and none is ever kept at size zero.
pub proof fn law_history_keeps_invariant(state: AccountState, history: Seq<Operation>)
    requires
        state.wf(),
        state.never_opens_flat(history),
    ensures
        state.replay(history).wf(),
    decreases history.len(),
{
    if history.len() > 0 {
        let earlier = history.drop_last();
        assert forall|k: int| 0 <= k < earlier.len() implies !state.replay(
            earlier.take(k),
        ).opens_flat(earlier[k]) by {
            assert(earlier.take(k) =~= history.take(k));
            assert(!state.replay(history.take(k)).opens_flat(history[k]));
        }
        law_history_keeps_invariant(state, earlier);
        let before = state.replay(earlier);
        assert(history.take(history.len() - 1) =~= earlier);
        assert(!before.opens_flat(history.last()));
        match history.last() {
            Operation::Open { market, market_index, size } => {
                lemma_open_position_keeps_book(before, market, market_index, size);
            },
            Operation::Close { market, market_index } => {
                lemma_close_position_keeps_book(before, market, market_index);
            },
            _ => {},
        }
    }
}

} // verus!
