//! A URL-shortening registry: short, caller-chosen codes mapped to target
//! URLs, with provenance (creator, creation time), per-mapping access counts,
//! an aggregate count of all mappings ever created, and a storage-lifetime
//! renewal policy.
//!
//! The registry is a pure state machine. The host environment that surrounds
//! it (identity verification, the ledger clock, durable storage) hands it
//! plain values: the outcome of the authorization check and the current
//! timestamp arrive as arguments, and the registry's own state stands for the
//! durable store.

pub mod laws;
pub mod mapping;
pub mod model;
pub mod registry;

pub use mapping::{UrlBook, UrlError, UrlMapping};
pub use registry::UrlShortenerContract;
