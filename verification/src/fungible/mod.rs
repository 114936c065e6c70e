//! The token ledger: balances, allowances and supply of any number of
//! fungible assets.

pub mod ledger;
pub mod state;
pub mod sum;

pub use ledger::Module;
pub use state::Error;
pub use state::Event;
pub use state::LedgerState;
