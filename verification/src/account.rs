//! A participant's record: who owns it, the collateral balance, and the book
//! of open positions.

use vstd::prelude::*;
use anchor_lang::prelude::Pubkey;
use crate::error::ErrorCode;

verus! {

/// `anchor_lang::prelude::Pubkey`, the identity of an account's owner,
/// declared so that it can stand in fields and signatures. The library
/// stores such a value and hands it back; it never looks inside, and claims
/// nothing of what the value holds.
#[verifier::external_type_specification]
#[verifier::external_body]
pub struct ExPubkey(anchor_lang::prelude::Pubkey);

/// One open position: a signed size in one market, and the price it was
/// opened at.
#[derive(Clone, Copy, Debug, PartialEq, Eq, Structural)]
pub struct Position {
    /// The market the position is held in.
    pub market_index: u64,
    /// Base units held; positive is long, negative is short.
    pub size: i64,
    /// The market's reference price when the position was created, in
    /// ten-thousandths.
    pub entry_price: u64,
}

/// A participant's record.
#[derive(Debug, PartialEq, Eq)]
pub struct UserAccount {
    /// The principal that owns the record.
    pub authority: Pubkey,
    /// The collateral balance.
    pub collateral: u64,
    /// The open positions, in the order they were created.
    pub positions: Vec<Position>,
}

/// What a [`UserAccount`] holds, as a mathematical value.
pub struct AccountState {
    pub authority: Pubkey,
    pub collateral: nat,
    pub positions: Seq<Position>,
}

impl View for UserAccount {
    type V = AccountState;

    open spec fn view(&self) -> AccountState {
        AccountState {
            authority: self.authority,
            collateral: self.collateral as nat,
            positions: self.positions@,
        }
    }
}

/// What an operation makes of a record: the record that follows, or the
/// reason the operation was refused.
pub type Outcome = Result<AccountState, ErrorCode>;

/// What the caller is told of an outcome.
pub open spec fn reported(outcome: Outcome) -> Result<(), ErrorCode> {
    match outcome {
        Ok(_) => Ok(()),
        Err(e) => Err(e),
    }
}

/// The record once the operation has returned: a refused operation leaves
/// the record as it was.
pub open spec fn committed(before: AccountState, outcome: Outcome) -> AccountState {
    match outcome {
        Ok(after) => after,
        Err(_) => before,
    }
}

/// `i` is the first place in `positions` that holds a position in `market`.
pub open spec fn is_first_in_market(positions: Seq<Position>, market: u64, i: int) -> bool {
    &&& 0 <= i < positions.len()
    &&& positions[i].market_index == market
    &&& forall|j: int| 0 <= j < i ==> positions[j].market_index != market
}

/// Some position in `positions` is held in `market`.
pub open spec fn holds_market(positions: Seq<Position>, market: u64) -> bool {
    exists|i: int| 0 <= i < positions.len() && positions[i].market_index == market
}

/// The place of the first position held in `market`, if there is one.
pub open spec fn lookup(positions: Seq<Position>, market: u64) -> Option<int> {
    if exists|i: int| is_first_in_market(positions, market, i) {
        Some(choose|i: int| is_first_in_market(positions, market, i))
    } else {
        None
    }
}

/// No two positions share a market.
pub open spec fn distinct_markets(positions: Seq<Position>) -> bool {
    forall|i: int, j: int|
        0 <= i < j < positions.len() ==> positions[i].market_index != positions[j].market_index
}

/// No position has size zero.
pub open spec fn no_flat_position(positions: Seq<Position>) -> bool {
    forall|i: int| 0 <= i < positions.len() ==> positions[i].size != 0
}

impl AccountState {
    /// The record's invariant: the balance is representable, each market
    /// occurs at most once, and no position is flat.
    pub open spec fn wf(self) -> bool {
        &&& self.collateral <= u64::MAX
        &&& distinct_markets(self.positions)
        &&& no_flat_position(self.positions)
    }

    /// The same record with another balance.
    pub open spec fn with_collateral(self, collateral: nat) -> AccountState {
        AccountState { collateral, ..self }
    }

    /// The same record with another book.
    pub open spec fn with_positions(self, positions: Seq<Position>) -> AccountState {
        AccountState { positions, ..self }
    }

    /// The position held in `market`, if there is one.
    pub open spec fn position_in(self, market: u64) -> Option<Position> {
        match lookup(self.positions, market) {
            Some(i) => Some(self.positions[i]),
            None => None,
        }
    }
}

impl UserAccount {
    /// The record's invariant, see [`AccountState::wf`].
    pub open spec fn wf(&self) -> bool {
        self@.wf()
    }
}

impl Clone for UserAccount {
    fn clone(&self) -> (copy: Self)
        ensures
            copy@ == self@,
    {
        UserAccount {
            authority: self.authority,
            collateral: self.collateral,
            positions: self.positions.clone(),
        }
    }
}

/// Finds the first position held in `market_index`: its place in
/// `positions`, or `None` when no position is held there.
pub fn find_position(positions: &Vec<Position>, market_index: u64) -> (found: Option<usize>)
    ensures
        match found {
            Some(i) => is_first_in_market(positions@, market_index, i as int),
            None => !holds_market(positions@, market_index),
        },
        match found {
            Some(i) => lookup(positions@, market_index) == Some(i as int),
            None => lookup(positions@, market_index) is None,
        },
{
    let mut i: usize = 0;
    while i < positions.len()
        invariant
            i <= positions.len(),
            forall|j: int| 0 <= j < i ==> positions@[j].market_index != market_index,
        decreases positions.len() - i,
    {
        if positions[i].market_index == market_index {
            proof {
                lemma_lookup_is(positions@, market_index, i as int);
            }
            return Some(i);
        }
        i += 1;
    }
    proof {
        lemma_lookup(positions@, market_index);
    }
    None
}

/// Creates the record of a participant: owned by `authority`, with no
/// collateral and no positions.
pub fn initialize_user(authority: Pubkey) -> (account: UserAccount)
    ensures
        account.authority == authority,
        account.collateral == 0,
        account.positions@ == Seq::<Position>::empty(),
        account.wf(),
{
    UserAccount { authority, collateral: 0, positions: Vec::new() }
}

/// If any position is held in `market`, one of them comes first.
proof fn lemma_first_exists(positions: Seq<Position>, market: u64, k: int)
    requires
        0 <= k < positions.len(),
        positions[k].market_index == market,
    ensures
        exists|i: int| is_first_in_market(positions, market, i),
    decreases k,
{
    if forall|j: int| 0 <= j < k ==> positions[j].market_index != market {
        assert(is_first_in_market(positions, market, k));
    } else {
        let j = choose|j: int| 0 <= j < k && positions[j].market_index == market;
        lemma_first_exists(positions, market, j);
    }
}

/// What [`lookup`] returns: the first place held in `market`, and `None`
/// exactly when no position is held there.
pub proof fn lemma_lookup(positions: Seq<Position>, market: u64)
    ensures
        match lookup(positions, market) {
            Some(i) => is_first_in_market(positions, market, i),
            None => !holds_market(positions, market),
        },
        lookup(positions, market) is Some <==> holds_market(positions, market),
{
    if holds_market(positions, market) {
        let k = choose|k: int| 0 <= k < positions.len() && positions[k].market_index == market;
        lemma_first_exists(positions, market, k);
    }
}

/// A first place is the one that [`lookup`] finds.
pub proof fn lemma_lookup_is(positions: Seq<Position>, market: u64, i: int)
    requires
        is_first_in_market(positions, market, i),
    ensures
        lookup(positions, market) == Some(i),
{
    let found = choose|c: int| is_first_in_market(positions, market, c);
    assert(is_first_in_market(positions, market, found));
    assert(!(found < i) && !(i < found));
}

} // verus!
