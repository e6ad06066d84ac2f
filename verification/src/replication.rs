//! The replication core: outbox journal, frame codec, failover state
//! machine, replication manager and sync worker bookkeeping.

pub mod codec;
pub mod failover;
pub mod manager;
pub mod outbox;
pub mod worker;

pub use codec::OutboxRecord;
pub use codec::OutboxTarget;
pub use codec::RecView;
pub use outbox::Outbox;
pub use outbox::OutboxView;
pub use failover::Cluster;
pub use failover::DefaultSyncCheck;
pub use failover::FailoverManager;
pub use failover::FailoverState;
pub use manager::DriftStatus;
pub use manager::ReplicationManager;
pub use worker::SyncWorker;
