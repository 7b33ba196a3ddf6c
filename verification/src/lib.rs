//! A minimal social-graph ledger: user profiles, short text posts, likes, and
//! follow relationships, recorded as discrete mutations to keyed records.
//!
//! The crate is organised as a keyed-record store with deterministic identity
//! derivation, per-record mutation, and referential integrity across the
//! entity kinds:
//!
//! - [`keys`]: derives record keys deterministically from stable inputs.
//! - [`records`]: the record data model (profiles and posts) with its byte
//!   ceilings for variable-length fields.
//! - [`errors`]: the error kinds an operation can report.
//! - [`store`]: a keyed map from derived identity to record, supporting
//!   create-if-absent, read, and in-place update.
//! - [`validate`]: ownership and size checks made before a mutation commits.
//! - [`ops`]: the four operation handlers (create profile, create post,
//!   like post, follow user) and their transition specifications.
//! - [`laws`]: proved statements about sequences of operations.

pub mod errors;
pub mod keys;
pub mod laws;
pub mod ops;
pub mod records;
pub mod store;
pub mod validate;
