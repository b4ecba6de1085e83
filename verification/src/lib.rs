//! Constant-product automated market maker: a verified pricing engine and
//! instruction processor for a two-asset liquidity pool.
//!
//! The pricing engine ([`math`]) turns a requested swap, deposit or
//! withdrawal into exact integer amounts under a rounding policy that always
//! favors the pool. The processor ([`processor`]) validates one instruction
//! against the pool's status and live balances, applies the engine, and
//! returns the settlement directives the host must carry out. Persisted pool
//! configuration lives in [`state`]; every failure is one of the variants in
//! [`error`].

pub mod error;
pub mod math;
pub mod processor;
pub mod state;
