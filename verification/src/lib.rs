//! Core of a small versioned, journaled key-value service.
//!
//! Records live in an owner-scoped namespace inside an embedded ordered
//! key-value engine.  Every accepted mutation is bound atomically to an
//! append in a monotonically keyed change journal, updates are guarded by
//! an optimistic-concurrency version check, and the journal is readable as
//! an ordered, resumable change feed.

pub mod engine;
pub mod keys;
pub mod laws;
pub mod protos;
pub mod server;
pub mod wire;
