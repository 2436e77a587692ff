//! A transaction-processing ledger: deposits, withdrawals and the dispute
//! lifecycle (dispute, resolve, chargeback), with fixed-point monetary
//! arithmetic and per-client account balances.

pub mod engine;
pub mod fixed;
pub mod laws;
pub mod types;

pub use engine::Engine;
pub use fixed::format_fixed;
pub use fixed::to_fixed;
pub use fixed::SCALE;
pub use types::Account;
pub use types::AccountOutput;
pub use types::DisputeState;
pub use types::StoredTransaction;
pub use types::Transaction;
pub use types::TransactionType;
