//! Incremental code-indexing library: collecting project files into blobs,
//! content-addressed fingerprinting, diffing against a stored index, batched
//! upload orchestration with retry/backoff, and a per-key task registry with
//! progress and cooperative abort.

pub mod arith;
pub mod assoc;
pub mod blob;
pub mod collect;
pub mod config;
pub mod fingerprint;
pub mod indexer;
pub mod service;
pub mod tasks;
pub mod upload;
pub mod text;
