//! Persistence core for funding projects and withdrawal requests.
//!
//! The library translates strongly-typed domain values (unsigned 64-bit
//! scalars, fixed-length addresses, opaque program blobs) to and from the
//! text-oriented columns of a relational store, and enforces the lifecycle
//! rules of the stored records: generated identity, referential integrity,
//! timestamp-ordered retrieval and one-way request completion.

pub mod address;
pub mod blob;
pub mod codec;
pub mod config;
pub mod domain;
pub mod errors;
pub mod extid;
pub mod laws;
pub mod row;
pub mod service;
pub mod store;
