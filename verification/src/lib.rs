//! Verified persistence layer for a single "item" resource: the data model,
//! the five repository operations (create, list, get, update, delete) with
//! their invariants, the migration ledger, and the mapping of repository
//! outcomes onto HTTP-style status codes.

pub mod config;
pub mod item;
pub mod migrate;
pub mod repository;
pub mod response;
