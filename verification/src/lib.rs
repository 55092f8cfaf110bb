//! Bulk ingestion of article records into sharded or relational sinks.
//!
//! The library holds the verified core of the pipeline: canonical key
//! derivation, name sanitization, shard-path computation, the shared
//! pipeline state machine (progress counter, stop flag, first-error
//! latch), and the per-record decision logic and run accounting of
//! both sinks. The front end around it does the I/O: it decodes the
//! input streams, performs the planned filesystem operations, and
//! drives the relational store.
pub mod article;
pub mod commands;
pub mod filesink;
pub mod keys;
pub mod pipeline;
pub mod shard;
pub mod sqlsink;
pub mod sqlstore;
