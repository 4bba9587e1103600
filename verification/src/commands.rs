//! What the commands decide. Reading, fetching, writing and printing are
//! left to the caller.

pub mod batch;
pub mod config;
pub mod find;
pub mod install;
pub mod list;
pub mod resolve;
pub mod uninstall;
pub mod upgrade;
