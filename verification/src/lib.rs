//! Verified core of a code-first schema migration system, together with the
//! small shared utility layer that surrounds it.
//!
//! The heart of the crate is the migration engine: immutable migration
//! descriptors (`migrations`), the applied-migration ledger (`ledger`), and
//! the runner that decides which migrations to execute in which order
//! (`runner`). The runner's decision logic is fully verified; executing SQL
//! against a real store is the caller's side of the protocol.

pub mod numerals;
pub mod unicode;
pub mod migrations;
pub mod ledger;
pub mod runner;
pub mod status;
pub mod string_utils;
pub mod validation;
pub mod shared;
pub mod registry;
pub mod users;
pub mod config;
