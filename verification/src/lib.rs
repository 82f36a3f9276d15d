//! Credential-validation core for a multi-resource HTTP service.
//!
//! Every mutating request presents a bearer token that maps to a stored,
//! hashed API key; some operations additionally require an administrator
//! privilege flag. This crate covers token hashing, a time-bounded in-memory
//! cache that shields the persistent store from repeated lookups, the
//! validation/authorization decision sequence, and the lifecycle operations
//! (create, revoke, list, bootstrap) that manage keys.

pub mod admin_api;
pub mod cache;
pub mod errors;
pub mod guard;
pub mod hashing;
pub mod models;
pub mod service;
pub mod store;
pub mod strutil;

use vstd::prelude::*;

verus! {

/// Seconds after which a cache entry is treated as absent.
pub const FRESHNESS_WINDOW_SECS: u64 = 300;

} // verus!
