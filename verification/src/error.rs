//! Error taxonomy for the pool: every fallible operation reports exactly one
//! of these variants and leaves all state untouched.

use vstd::prelude::*;

verus! {

/// Why an instruction or a pricing computation was rejected.
#[derive(Clone, Copy, Debug, PartialEq, Eq, Structural)]
pub enum AmmError {
    /// A caller-supplied account or balance is wrong for the requested action.
    ValidationError,
    /// An arithmetic step would overflow, underflow or divide by zero.
    ArithmeticError,
    /// A computed result would break the pool-favoring rounding rules.
    InvariantViolation,
    /// The result falls outside the caller-specified slippage bound.
    SlippageExceeded,
    /// The trade or withdrawal would exceed the available reserve.
    InsufficientLiquidity,
    /// The pool's status forbids the action, or the LP supply floor would be
    /// breached.
    StateError,
}

impl AmmError {
    /// A short human-readable name for the error, for logs and messages.
    pub fn describe(&self) -> (r: String)
        ensures
            r@.len() > 0,
    {
        let s = match self {
            AmmError::ValidationError => "validation error",
            AmmError::ArithmeticError => "arithmetic error",
            AmmError::InvariantViolation => "invariant violation",
            AmmError::SlippageExceeded => "slippage exceeded",
            AmmError::InsufficientLiquidity => "insufficient liquidity",
            AmmError::StateError => "state error",
        };
        proof {
            reveal_strlit("validation error");
            reveal_strlit("arithmetic error");
            reveal_strlit("invariant violation");
            reveal_strlit("slippage exceeded");
            reveal_strlit("insufficient liquidity");
            reveal_strlit("state error");
        }
        s.to_owned()
    }
}

} // verus!
