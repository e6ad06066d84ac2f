//! The sync worker's state: the replication manager and failover
//! manager it drives, its pacing knobs, and the last drift report.
//!
//! The periodic loop itself performs database I/O and sleeps, so it
//! runs outside the library; each tick asks this state for its replay
//! quota, drives the managers, and records the drift.

use vstd::prelude::*;

use crate::replication::failover::FailoverManager;
use crate::replication::manager::DriftStatus;
use crate::replication::manager::ReplicationManager;
use crate::replication::outbox::Outbox;
use crate::replication::outbox::spec_pending_frames;

verus! {

/// The sync worker's state and pacing configuration.
#[derive(Debug)]
pub struct SyncWorker {
    repl: ReplicationManager,
    failover: FailoverManager,
    interval_ms: u64,
    max_replay_per_tick: usize,
    drift_rec_threshold: usize,
    drift_bytes_threshold: u64,
    last_drift: Option<DriftStatus>,
}

impl SyncWorker {
    pub closed spec fn spec_repl(&self) -> ReplicationManager {
        self.repl
    }

    pub closed spec fn spec_failover(&self) -> FailoverManager {
        self.failover
    }

    pub closed spec fn spec_interval_ms(&self) -> u64 {
        self.interval_ms
    }

    pub closed spec fn spec_max_replay(&self) -> usize {
        self.max_replay_per_tick
    }

    pub closed spec fn spec_rec_threshold(&self) -> usize {
        self.drift_rec_threshold
    }

    pub closed spec fn spec_bytes_threshold(&self) -> u64 {
        self.drift_bytes_threshold
    }

    pub closed spec fn spec_last_drift(&self) -> Option<DriftStatus> {
        self.last_drift
    }

    /// A worker with the default pacing: one-second interval, at most
    /// 128 replays per tick, drift healthy up to 100 records and one
    /// million bytes.
    pub fn new() -> (r: Self)
        ensures
            r.spec_repl().spec_outbox() is None,
            r.spec_interval_ms() == 1000,
            r.spec_max_replay() == 128,
            r.spec_rec_threshold() == 100,
            r.spec_bytes_threshold() == 1000000,
            r.spec_last_drift() is None,
    {
        SyncWorker {
            repl: ReplicationManager::new(),
            failover: FailoverManager::new(),
            interval_ms: 1000,
            max_replay_per_tick: 128,
            drift_rec_threshold: 100,
            drift_bytes_threshold: 1000000,
            last_drift: None,
        }
    }

    pub fn with_interval_ms(self, ms: u64) -> (r: Self)
        ensures
            r.spec_interval_ms() == ms,
            r.spec_repl() == self.spec_repl(),
            r.spec_failover() == self.spec_failover(),
            r.spec_max_replay() == self.spec_max_replay(),
            r.spec_rec_threshold() == self.spec_rec_threshold(),
            r.spec_bytes_threshold() == self.spec_bytes_threshold(),
            r.spec_last_drift() == self.spec_last_drift(),
    {
        SyncWorker { interval_ms: ms, ..self }
    }

    pub fn with_max_replay_per_tick(self, max: usize) -> (r: Self)
        ensures
            r.spec_max_replay() == max,
            r.spec_repl() == self.spec_repl(),
            r.spec_failover() == self.spec_failover(),
            r.spec_interval_ms() == self.spec_interval_ms(),
            r.spec_rec_threshold() == self.spec_rec_threshold(),
            r.spec_bytes_threshold() == self.spec_bytes_threshold(),
            r.spec_last_drift() == self.spec_last_drift(),
    {
        SyncWorker { max_replay_per_tick: max, ..self }
    }

    /// The worker draining the given journal.
    pub fn with_outbox(self, ob: Outbox) -> (r: Self)
        requires
            ob.wf(),
        ensures
            r.spec_repl().spec_outbox() == Some(ob@),
            r.spec_repl().spec_active_keyspace() is None,
            r.spec_repl().spec_passive_keyspace() is None,
            r.spec_repl().wf(),
            r.spec_failover() == self.spec_failover(),
            r.spec_interval_ms() == self.spec_interval_ms(),
            r.spec_max_replay() == self.spec_max_replay(),
            r.spec_rec_threshold() == self.spec_rec_threshold(),
            r.spec_bytes_threshold() == self.spec_bytes_threshold(),
            r.spec_last_drift() == self.spec_last_drift(),
    {
        SyncWorker { repl: ReplicationManager::with_outbox(ob), ..self }
    }

    pub fn with_drift_thresholds(self, rec_threshold: usize, bytes_threshold: u64) -> (r: Self)
        ensures
            r.spec_rec_threshold() == rec_threshold,
            r.spec_bytes_threshold() == bytes_threshold,
            r.spec_repl() == self.spec_repl(),
            r.spec_failover() == self.spec_failover(),
            r.spec_interval_ms() == self.spec_interval_ms(),
            r.spec_max_replay() == self.spec_max_replay(),
            r.spec_last_drift() == self.spec_last_drift(),
    {
        SyncWorker { drift_rec_threshold: rec_threshold, drift_bytes_threshold: bytes_threshold, ..self }
    }

    pub fn with_keyspaces(self, active: &str, passive: &str) -> (r: Self)
        ensures
            r.spec_repl().spec_outbox() == self.spec_repl().spec_outbox(),
            r.spec_repl().spec_active_keyspace() == Some(active@),
            r.spec_repl().spec_passive_keyspace() == Some(passive@),
            r.spec_failover() == self.spec_failover(),
            r.spec_interval_ms() == self.spec_interval_ms(),
            r.spec_max_replay() == self.spec_max_replay(),
            r.spec_rec_threshold() == self.spec_rec_threshold(),
            r.spec_bytes_threshold() == self.spec_bytes_threshold(),
            r.spec_last_drift() == self.spec_last_drift(),
    {
        let repl = self.repl;
        SyncWorker { repl: repl.with_keyspaces(active, passive), ..self }
    }

    pub fn queue_len(&self) -> (r: usize)
        ensures
            r == self.spec_repl().spec_pending().len(),
    {
        self.repl.queue_len()
    }

    pub fn has_outbox(&self) -> (r: bool)
        ensures
            r == (self.spec_repl().spec_outbox() is Some),
    {
        self.repl.has_outbox()
    }

    pub fn interval_ms(&self) -> (r: u64)
        ensures
            r == self.spec_interval_ms(),
    {
        self.interval_ms
    }

    /// How many records this tick should replay: the per-tick cap,
    /// bounded by what is actually queued.
    pub fn replay_quota(&self) -> (r: usize)
        ensures
            r == if self.spec_repl().spec_pending().len() < self.spec_max_replay() {
                self.spec_repl().spec_pending().len() as int
            } else {
                self.spec_max_replay() as int
            },
    {
        let queued = self.repl.queue_len();
        if queued < self.max_replay_per_tick {
            queued
        } else {
            self.max_replay_per_tick
        }
    }

    /// The replication manager, for the tick to drive.
    pub fn repl_mut(&mut self) -> (r: &mut ReplicationManager)
        ensures
            *r == old(self).spec_repl(),
            final(self).spec_repl() == *final(r),
            final(self).spec_failover() == old(self).spec_failover(),
            final(self).spec_interval_ms() == old(self).spec_interval_ms(),
            final(self).spec_max_replay() == old(self).spec_max_replay(),
            final(self).spec_rec_threshold() == old(self).spec_rec_threshold(),
            final(self).spec_bytes_threshold() == old(self).spec_bytes_threshold(),
            final(self).spec_last_drift() == old(self).spec_last_drift(),
    {
        &mut self.repl
    }

    pub fn repl(&self) -> (r: &ReplicationManager)
        ensures
            *r == self.spec_repl(),
    {
        &self.repl
    }

    /// The failover manager, for the tick to drive.
    pub fn failover_mut(&mut self) -> (r: &mut FailoverManager)
        ensures
            *r == old(self).spec_failover(),
            final(self).spec_failover() == *final(r),
            final(self).spec_repl() == old(self).spec_repl(),
            final(self).spec_interval_ms() == old(self).spec_interval_ms(),
            final(self).spec_max_replay() == old(self).spec_max_replay(),
            final(self).spec_rec_threshold() == old(self).spec_rec_threshold(),
            final(self).spec_bytes_threshold() == old(self).spec_bytes_threshold(),
            final(self).spec_last_drift() == old(self).spec_last_drift(),
    {
        &mut self.failover
    }

    pub fn failover(&self) -> (r: &FailoverManager)
        ensures
            *r == self.spec_failover(),
    {
        &self.failover
    }

    pub fn last_drift(&self) -> (r: &Option<DriftStatus>)
        ensures
            *r == self.spec_last_drift(),
    {
        &self.last_drift
    }

    /// Recomputes the drift report against the worker's thresholds and
    /// stores it; reports whether the backlog is unhealthy.
    pub fn update_drift(&mut self) -> (unhealthy: bool)
        ensures
            final(self).spec_repl() == old(self).spec_repl(),
            final(self).spec_failover() == old(self).spec_failover(),
            final(self).spec_interval_ms() == old(self).spec_interval_ms(),
            final(self).spec_max_replay() == old(self).spec_max_replay(),
            final(self).spec_rec_threshold() == old(self).spec_rec_threshold(),
            final(self).spec_bytes_threshold() == old(self).spec_bytes_threshold(),
            match old(self).spec_repl().spec_outbox() {
                Some(v) => final(self).spec_last_drift() matches Some(ds) && {
                    &&& ds.cursor == v.cursor
                    &&& ds.end == v.log.len()
                    &&& ds.pending_records == spec_pending_frames(v).len()
                    &&& ds.pending_bytes == if v.cursor <= v.log.len() {
                        v.log.len() - v.cursor
                    } else {
                        0int
                    }
                    &&& ds.healthy == (ds.pending_records <= old(self).spec_rec_threshold()
                        && ds.pending_bytes <= old(self).spec_bytes_threshold())
                    &&& unhealthy == !ds.healthy
                },
                None => final(self).spec_last_drift() == old(self).spec_last_drift() && !unhealthy,
            },
    {
        match self.repl.drift_status(self.drift_rec_threshold, self.drift_bytes_threshold) {
            Some(ds) => {
                let unhealthy = !ds.healthy;
                self.last_drift = Some(ds);
                unhealthy
            },
            None => false,
        }
    }
}

} // verus!
