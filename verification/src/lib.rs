//! Dual-cluster replication and failover sidecar core.
//!
//! The library holds the verified core of the sidecar: the append-only
//! outbox journal with its replay cursor, the failover state machine,
//! the replication manager that drains the outbox, and the sync worker's
//! bookkeeping. Network and file I/O live outside the library and hand
//! plain values in and out.

pub mod config;
pub mod cql;
pub mod errors;
pub mod health;
pub mod middleware;
pub mod replication;
pub mod types;
pub mod utils;

pub use replication::Cluster;
