//! The ways an operation on an account can be refused.

use vstd::prelude::*;

verus! {

/// Why an operation was refused. A refused operation leaves every record as
/// it found it.
#[derive(Clone, Copy, Debug, PartialEq, Eq, Structural)]
pub enum ErrorCode {
    /// A checked addition would have left the representable range.
    ArithmeticError,
    /// A withdrawal asked for more than the balance.
    InsufficientCollateral,
    /// A withdrawal would have left less than the margin the open positions
    /// require.
    InsufficientFreeCollateral,
    /// The account holds no position in the market named.
    PositionNotFound,
}

impl ErrorCode {
    /// The text shown to a user for this error.
    pub open spec fn message_text(self) -> Seq<char> {
        match self {
            ErrorCode::ArithmeticError => "Arithmetic error occurred"@,
            ErrorCode::InsufficientCollateral => "Insufficient collateral"@,
            ErrorCode::InsufficientFreeCollateral => "Insufficient free collateral"@,
            ErrorCode::PositionNotFound => "Position not found"@,
        }
    }

    /// The text shown to a user for this error.
    pub fn message(&self) -> (text: &'static str)
        ensures
            text@ == self.message_text(),
    {
        match self {
            ErrorCode::ArithmeticError => "Arithmetic error occurred",
            ErrorCode::InsufficientCollateral => "Insufficient collateral",
            ErrorCode::InsufficientFreeCollateral => "Insufficient free collateral",
            ErrorCode::PositionNotFound => "Position not found",
        }
    }
}

} // verus!
