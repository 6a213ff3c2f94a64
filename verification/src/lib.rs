//! Accounting core of a two-asset constant-product automated market maker.
//!
//! The library holds the pool record, the validation gate that every trade
//! must pass before any balance moves, and the fee-adjusted constant-product
//! quote computation. Issuing the two balance transfers is delegated to the
//! host ledger runtime; the library only decides whether a trade is valid and
//! exactly how much it pays out.

pub mod error;
pub mod math;
pub mod state;
pub mod swap;
