//! A single-user local credential vault.
//!
//! Named `(username, password)` pairs are stored encrypted at rest in a
//! JSON-backed map, keyed by a lowercased application name. The crate is
//! organised as:
//!
//! - [`cli`]: the request structure and the resolver that computes which
//!   fields an operation still needs;
//! - [`crypto`]: the symmetric key lifecycle and the authenticated
//!   encryption codec;
//! - [`store`]: the JSON-backed vault map with load, get, upsert and
//!   delete semantics;
//! - [`service`]: the dispatch layer that ties resolver, cipher and store
//!   together;
//! - [`exceptions`]: the error taxonomy;
//! - [`text`]: text helpers (whitespace trimming, lowercasing, equality).

pub mod cli;
pub mod crypto;
pub mod exceptions;
pub mod service;
pub mod store;
pub mod text;
