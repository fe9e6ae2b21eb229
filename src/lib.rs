//! A semi-fungible multi-token ledger: balances per owner and token id,
//! operator allowances, atomic batch transfers, and a mint/burn policy that
//! only allows registered ids to be minted and only owners to burn.
pub mod table;
pub mod types;
pub mod model;
pub mod engine;
pub mod ledger;
pub mod laws;
