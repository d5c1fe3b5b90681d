//! A fungible-token ledger: balances per account, allowances per
//! (owner, spender) pair, and the transfers between them.
//!
//! The ledger keeps its entries in `ink_storage`'s hash map; every rule that
//! decides whether value may move, and how the books change when it does, is
//! verified here.

pub mod account;
pub mod allowance;
pub mod error;
pub mod event;
pub mod laws;
pub mod ledger;
pub mod model;
pub mod snapshot;
pub mod store;
pub mod sum;
pub mod token;

pub use account::AccountId;
pub use error::Error;
pub use event::{Approval, Event, Transfer, TransferFrom};
pub use token::Erc20;
