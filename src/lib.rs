//! A lookup table from plaintext strings to their MD5, SHA-1, SHA-256 and
//! SHA-512 digests, with deduplicated insertion, lookup by plaintext or by
//! any digest, and bulk ingestion of line-oriented word lists.

pub mod digest;
pub mod entry;
pub mod ingest;
pub mod paths;
pub mod pattern;
pub mod table;

pub use entry::{construct_entry, Entry};
pub use table::Database;
