//! Identifier and amount types shared by the ledger and the pools.

use vstd::prelude::*;

verus! {

/// Identity of an account, already authenticated and resolved by the host.
pub type AccountId = u64;

/// Identity of a fungible asset tracked by the ledger.
pub type TokenId = u64;

/// Amount of a ledger asset.
pub type TokenBalance = u64;

/// Amount of the base currency.
pub type Balance = u128;

/// Identity of a swap pool.
pub type SwapId = u64;

/// Height of the chain, the clock that deadlines are measured against.
pub type BlockNumber = u64;

} // verus!
