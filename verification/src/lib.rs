//! Declarative vendoring of directory trees out of git repositories: the
//! rules of the sync engine, stated over strings and plain values and proved.

pub mod config;
pub mod error;
pub mod git;
pub mod ledger;
pub mod lock;
mod outside;
pub mod resolution;
pub mod source;
pub mod stamp;
pub mod status;
pub mod sync;
pub mod text;
