//! A multi-asset token ledger and a constant-product swap pool registry.
//!
//! * [`fungible`] is the token ledger: any number of assets, each with
//!   balances, allowances and a supply that always equals the sum of the
//!   balances.
//! * [`currency`] is the base currency that every pool trades against,
//!   given as a trait together with an in-memory ledger.
//! * [`pricing`] is the price curve and its laws.
//! * [`swap`] is the registry of pools and the operations on them:
//!   creating a pool, providing and withdrawing liquidity, and trading.
//! * [`math`] is the exact arithmetic the formulas are computed with.
//!
//! Every operation either goes through as a whole or changes nothing.

pub mod currency;
pub mod fungible;
pub mod math;
pub mod pricing;
pub mod swap;
pub mod types;
