//! The swap pools: a registry of constant-product pools, each trading one
//! ledger asset against the base currency.

pub mod laws;
pub mod liquidity;
pub mod pool;
pub mod state;
pub mod trade;

pub use pool::Module;
pub use state::Error;
pub use state::Event;
pub use state::Settlement;
pub use state::Swap;
pub use state::SwapState;
