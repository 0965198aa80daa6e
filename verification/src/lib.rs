//! A light client for a blockchain data-availability layer.
//!
//! Instead of downloading full block bodies, the client samples cells of a
//! block's erasure-coded data matrix, verifies each sampled cell against the
//! commitment published in the block header, and derives a numeric confidence
//! that the full block is available. The durable fact kept per block is the
//! verified-sample count; confidence and its encoding are recomputed on read.

pub mod confidence;
pub mod driver;
pub mod ingest;
pub mod numerals;
pub mod payload;
pub mod query;
pub mod routes;
pub mod sampling;
pub mod store;
pub mod types;
