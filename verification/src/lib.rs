//! A fungible-token ledger with a fixed supply.
//!
//! The ledger tracks balances of opaque accounts and allowances that let a
//! spender move tokens out of an owner's balance. Every mutation preserves
//! conservation of supply: the balances always sum to the total supply.
//!
//! The hosting environment is modelled explicitly: the caller's identity is a
//! parameter of every mutating operation, and notifications are appended to an
//! event log that a host adapter drains and forwards.

pub mod account;
pub mod event;
pub mod ledger;
pub mod store;

pub use account::AccountId;
pub use event::Approval;
pub use event::Event;
pub use event::Transfer;
pub use ledger::Elecrypto;
