//! Account-store core of a user-management tool: reading the colon-delimited
//! account database, computing the text of both stores after an account is
//! added or removed, and the privilege-gated read-modify-write protocol that
//! persists the two files in order. A whole change can also be run on the two
//! files held in memory.

pub mod account;
pub mod cli;
pub mod decimal;
pub mod failure;
pub mod files;
pub mod laws;
pub mod lines;
pub mod run;
pub mod shell;
pub mod split;
pub mod store;
pub mod text;
pub mod transaction;
