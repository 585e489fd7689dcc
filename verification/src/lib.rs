//! A client core for a distributed ledger: typed identifiers with a verified
//! text grammar, a connection handle shared by everything derived from one
//! client, and the builders that describe one backend query each.

pub mod address;
pub mod client;
pub mod decimal;
pub mod error;
pub mod grammar;
pub mod handle;
pub mod ident;
pub mod query;
