//! Retrieval of a game character's public profile from an HTML-rendered
//! directory service: structural extraction of name, portrait, job levels,
//! achievements, minions and mounts into one typed record.
//!
//! Network requests stay with the caller; everything from raw markup and
//! raw bytes to the finished record is computed here, with contracts.

pub mod aggregate;
pub mod dom;
pub mod extract;
pub mod hashing;
pub mod model;
pub mod record;
pub mod text;
pub mod timestamp;
