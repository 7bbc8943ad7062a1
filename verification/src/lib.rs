//! Event ingestion and relay engine of a two-chain bridge relayer.
//!
//! Deposit and distribution events observed on two peer chains are decoded
//! from raw logs, recorded in an idempotent event store, and turned into
//! release calls on the opposite chain by a finality-gated relay processor.

pub mod abi;
pub mod database;
pub mod events;
pub mod laws;
pub mod models;
pub mod processor;
