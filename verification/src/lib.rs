//! A fungible token ledger: balances, allowances, a minting administrator and
//! a total supply, with every operation verified against a mathematical model.

pub mod address;
pub mod sum;
pub mod ledger;
pub mod model;
pub mod token;
pub mod laws;

pub use address::Address;
pub use model::TokenError;
pub use token::{DataKey, Effects, NovaToken, TokenEvent};
