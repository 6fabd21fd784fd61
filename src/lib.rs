//! Catalog synchronisation for a graph store: renders resolve-then-mutate
//! upsert transactions for libraries and tracks, normalises query responses
//! into typed records, and holds the per-run import decisions.

pub mod formatter;
pub mod graph;
pub mod artist;
pub mod client;
pub mod dal;
pub mod dql;
pub mod library;
pub mod metadata;
pub mod response;
pub mod track;
pub mod sync;
pub mod laws;
