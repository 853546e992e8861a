//! Verified core of an encrypted, deduplicating archive.
pub mod changes;
pub mod codec;
pub mod commands;
pub mod crypto;
pub mod db;
pub mod digest;
pub mod display;
pub mod export;
pub mod ident;
pub mod ingest;
pub mod laws;
pub mod listings;
pub mod model;
pub mod opening;
pub mod paths;
pub mod queries;
pub mod runs;
pub mod search;
pub mod session;
pub mod sql;
pub mod tables;
pub mod tasks;
pub mod text;
pub mod traces;

use vstd::prelude::*;

verus! {

/// Bytes that are read, hashed, compressed and stored as one block.
pub const CHUNK_SIZE: usize = 1_048_576;

} // verus!
