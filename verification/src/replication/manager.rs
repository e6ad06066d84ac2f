//! The replication manager: owns the outbox journal, enqueues writes
//! that failed to apply, and drains the queue strictly in order — the
//! cursor advances only over successfully applied records, and never
//! past the first failure.

use vstd::prelude::*;

use crate::errors::AppError;
use crate::replication::codec::OutboxRecord;
use crate::replication::codec::OutboxTarget;
use crate::replication::codec::RecView;
use crate::replication::codec::rec_wf;
use crate::replication::codec::spec_frame;
use crate::replication::codec::spec_parse_frames;
use crate::replication::codec::lemma_frames_chain;
use crate::replication::codec::lemma_frames_budget;
use crate::replication::codec::lemma_frames_budget_enough;
use crate::replication::codec::lemma_frames_skip;
use crate::replication::codec::lemma_frame_end_lower;
use crate::replication::codec::frame_start;
use crate::replication::failover::Cluster;
use crate::replication::outbox::Outbox;
use crate::replication::outbox::OutboxView;
use crate::replication::outbox::frames_view;
use crate::replication::outbox::spec_pending_frames;
use crate::replication::outbox::spec_stamped;

verus! {

/// The backlog between the cursor and the end of the log, and whether
/// it is within the given thresholds.
#[derive(Debug)]
pub struct DriftStatus {
    pub pending_records: usize,
    pub pending_bytes: u64,
    pub cursor: u64,
    pub end: u64,
    pub healthy: bool,
}

/// Dual-write façade state: the optional outbox and the two keyspaces
/// watermarks are written into.
#[derive(Debug)]
pub struct ReplicationManager {
    outbox: Option<Outbox>,
    active_keyspace: Option<String>,
    passive_keyspace: Option<String>,
}

impl ReplicationManager {
    /// The journal's image, if an outbox is configured.
    pub closed spec fn spec_outbox(&self) -> Option<OutboxView> {
        match self.outbox {
            Some(ob) => Some(ob@),
            None => None,
        }
    }

    pub closed spec fn spec_active_keyspace(&self) -> Option<Seq<char>> {
        match self.active_keyspace {
            Some(k) => Some(k@),
            None => None,
        }
    }

    pub closed spec fn spec_passive_keyspace(&self) -> Option<Seq<char>> {
        match self.passive_keyspace {
            Some(k) => Some(k@),
            None => None,
        }
    }

    /// The frames still queued behind the cursor.
    pub open spec fn spec_pending(&self) -> Seq<(int, int, RecView)> {
        match self.spec_outbox() {
            Some(v) => spec_pending_frames(v),
            None => Seq::empty(),
        }
    }

    /// The cursor lies within the log whenever an outbox is configured.
    pub open spec fn wf(&self) -> bool {
        match self.spec_outbox() {
            Some(v) => v.cursor <= v.log.len(),
            None => true,
        }
    }

    /// A manager with no outbox configured.
    pub fn new() -> (r: Self)
        ensures
            r.spec_outbox() is None,
            r.spec_active_keyspace() is None,
            r.spec_passive_keyspace() is None,
            r.wf(),
    {
        ReplicationManager { outbox: None, active_keyspace: None, passive_keyspace: None }
    }

    /// A manager draining the given journal.
    pub fn with_outbox(ob: Outbox) -> (r: Self)
        requires
            ob.wf(),
        ensures
            r.spec_outbox() == Some(ob@),
            r.spec_active_keyspace() is None,
            r.spec_passive_keyspace() is None,
            r.wf(),
    {
        ReplicationManager { outbox: Some(ob), active_keyspace: None, passive_keyspace: None }
    }

    /// The same manager with the watermark keyspaces set.
    pub fn with_keyspaces(self, active: &str, passive: &str) -> (r: Self)
        ensures
            r.spec_outbox() == self.spec_outbox(),
            r.spec_active_keyspace() == Some(active@),
            r.spec_passive_keyspace() == Some(passive@),
            r.wf() == self.wf(),
    {
        ReplicationManager {
            active_keyspace: Some(active.to_owned()),
            passive_keyspace: Some(passive.to_owned()),
            ..self
        }
    }

    pub fn has_outbox(&self) -> (r: bool)
        ensures
            r == (self.spec_outbox() is Some),
    {
        self.outbox.is_some()
    }

    /// The keyspace watermarks are written into on the given cluster.
    pub fn keyspace_for(&self, cluster: Cluster) -> (r: Option<&String>)
        ensures
            match cluster {
                Cluster::Active => match r {
                    Some(k) => self.spec_active_keyspace() == Some(k@),
                    None => self.spec_active_keyspace() is None,
                },
                Cluster::Passive => match r {
                    Some(k) => self.spec_passive_keyspace() == Some(k@),
                    None => self.spec_passive_keyspace() is None,
                },
            },
    {
        match cluster {
            Cluster::Active => self.active_keyspace.as_ref(),
            Cluster::Passive => self.passive_keyspace.as_ref(),
        }
    }

    /// How many records are queued for replay; zero without an outbox.
    pub fn queue_len(&self) -> (r: usize)
        ensures
            r == self.spec_pending().len(),
    {
        match &self.outbox {
            Some(ob) => ob.pending_count(),
            None => 0,
        }
    }

    /// Appends a record to the outbox, stamping an unset creation time
    /// with `now_ms`. Fails exactly when no outbox is configured or a
    /// record field overflows its length prefix.
    pub fn enqueue(&mut self, rec: OutboxRecord, now_ms: u64) -> (r: Result<u64, AppError>)
        ensures
            old(self).wf() ==> final(self).wf(),
            final(self).spec_active_keyspace() == old(self).spec_active_keyspace(),
            final(self).spec_passive_keyspace() == old(self).spec_passive_keyspace(),
            match r {
                Ok(end) => {
                    &&& old(self).spec_outbox() matches Some(v)
                    &&& rec_wf(rec@)
                    &&& final(self).spec_outbox() == Some(
                        OutboxView {
                            log: old(self).spec_outbox()->0.log + spec_frame(
                                spec_stamped(rec@, now_ms),
                            ),
                            ..old(self).spec_outbox()->0
                        },
                    )
                    &&& end == old(self).spec_outbox()->0.log.len() + spec_frame(
                        spec_stamped(rec@, now_ms),
                    ).len()
                },
                Err(e) => {
                    &&& e is Other
                    &&& *final(self) == *old(self)
                    &&& (old(self).spec_outbox() is None || !rec_wf(rec@))
                },
            },
    {
        match &mut self.outbox {
            Some(ob) => ob.append(rec, now_ms),
            None => Err(AppError::other("outbox not configured")),
        }
    }

    /// The journal's bytes, for persisting.
    pub fn log_bytes(&self) -> (r: Option<&Vec<u8>>)
        ensures
            match r {
                Some(b) => self.spec_outbox() matches Some(v) && b@ == v.log,
                None => self.spec_outbox() is None,
            },
    {
        match &self.outbox {
            Some(ob) => Some(ob.log_bytes()),
            None => None,
        }
    }

    /// The cursor, if an outbox is configured.
    pub fn current_cursor(&self) -> (r: Option<u64>)
        ensures
            match r {
                Some(c) => self.spec_outbox() matches Some(v) && c == v.cursor,
                None => self.spec_outbox() is None,
            },
    {
        match &self.outbox {
            Some(ob) => Some(ob.current_cursor()),
            None => None,
        }
    }

    /// The backlog between cursor and end of log, measured against the
    /// given thresholds; `None` without an outbox.
    pub fn drift_status(&self, rec_threshold: usize, bytes_threshold: u64) -> (r: Option<
        DriftStatus,
    >)
        ensures
            match r {
                Some(ds) => {
                    &&& self.spec_outbox() matches Some(v)
                    &&& ds.cursor == v.cursor
                    &&& ds.end == v.log.len()
                    &&& ds.pending_records == spec_pending_frames(v).len()
                    &&& ds.pending_bytes == if v.cursor <= v.log.len() {
                        v.log.len() - v.cursor
                    } else {
                        0int
                    }
                    &&& ds.healthy == (ds.pending_records <= rec_threshold && ds.pending_bytes
                        <= bytes_threshold)
                },
                None => self.spec_outbox() is None,
            },
    {
        match &self.outbox {
            Some(ob) => {
                let cursor = ob.current_cursor();
                let end = ob.end_offset();
                let pending_records = ob.pending_count();
                let pending_bytes: u64 = if cursor <= end {
                    end - cursor
                } else {
                    0
                };
                let healthy = pending_records <= rec_threshold && pending_bytes <= bytes_threshold;
                Some(DriftStatus { pending_records, pending_bytes, cursor, end, healthy })
            },
            None => None,
        }
    }

    /// The next records to replay, parsed from the cursor: up to `max`
    /// of them, in append order.
    pub fn replay_batch(&self, max: usize) -> (r: Vec<(u64, u64, OutboxRecord)>)
        ensures
            match self.spec_outbox() {
                Some(v) => frames_view(r@) == spec_parse_frames(v.log, v.cursor as int, max as nat),
                None => r@.len() == 0,
            },
    {
        match &self.outbox {
            Some(ob) => ob.read_from(ob.current_cursor(), max),
            None => Vec::new(),
        }
    }

    /// Credits a replayed record by moving the cursor to its frame end.
    /// Returns whether the move was accepted: it is exactly when an
    /// outbox is configured and the offset moves the cursor forward but
    /// not past the end of the log.
    pub fn mark_replayed(&mut self, end: u64) -> (r: bool)
        ensures
            old(self).wf() ==> final(self).wf(),
            final(self).spec_active_keyspace() == old(self).spec_active_keyspace(),
            final(self).spec_passive_keyspace() == old(self).spec_passive_keyspace(),
            r == (old(self).spec_outbox() matches Some(v) && v.cursor <= end <= v.log.len()),
            r ==> final(self).spec_outbox() == Some(
                OutboxView { cursor: end, ..old(self).spec_outbox()->0 },
            ),
            !r ==> *final(self) == *old(self),
    {
        match &mut self.outbox {
            Some(ob) => {
                if ob.current_cursor() <= end && end <= ob.end_offset() {
                    ob.store_cursor(end);
                    true
                } else {
                    false
                }
            },
            None => false,
        }
    }

    /// A no-op tick: the manager has no periodic work of its own.
    pub fn tick(&mut self)
        ensures
            *final(self) == *old(self),
    {
    }

    /// The clusters a write with the given target attempts, in order.
    pub fn attempts_for(target: OutboxTarget) -> (r: Vec<Cluster>)
        ensures
            r@ == spec_attempts_for(target),
    {
        let mut v: Vec<Cluster> = Vec::new();
        match target {
            OutboxTarget::Active => {
                v.push(Cluster::Active);
            },
            OutboxTarget::Passive => {
                v.push(Cluster::Passive);
            },
            OutboxTarget::Both => {
                v.push(Cluster::Active);
                v.push(Cluster::Passive);
            },
        }
        proof {
            assert(v@ =~= spec_attempts_for(target));
        }
        v
    }

    /// The single-cluster target a failed attempt is re-queued under.
    pub fn target_for(cluster: Cluster) -> (r: OutboxTarget)
        ensures
            r == match cluster {
                Cluster::Active => OutboxTarget::Active,
                Cluster::Passive => OutboxTarget::Passive,
            },
    {
        match cluster {
            Cluster::Active => OutboxTarget::Active,
            Cluster::Passive => OutboxTarget::Passive,
        }
    }

    /// The watermark updates a replayed record asks for: one per
    /// cluster the record targeted, each carrying the frame end.
    pub fn marks_for(target: OutboxTarget, end: u64) -> (r: Vec<(Cluster, u64)>)
        ensures
            r@ == spec_marks_for(target, end),
    {
        let mut v: Vec<(Cluster, u64)> = Vec::new();
        match target {
            OutboxTarget::Active => {
                v.push((Cluster::Active, end));
            },
            OutboxTarget::Passive => {
                v.push((Cluster::Passive, end));
            },
            OutboxTarget::Both => {
                v.push((Cluster::Active, end));
                v.push((Cluster::Passive, end));
            },
        }
        proof {
            assert(v@ =~= spec_marks_for(target, end));
        }
        v
    }

    /// Replays up to `max` queued records through `apply`, in order,
    /// advancing the cursor past each applied record and stopping at
    /// the first failure without advancing over it.
    #[verifier::loop_isolation(false)]
    #[verifier::rlimit(100)]
    #[verifier::spinoff_prover]
    pub fn replay_with<F: Fn(OutboxRecord) -> bool>(&mut self, max: usize, apply: F) -> (processed:
        usize)
        requires
            old(self).wf(),
            forall|r: OutboxRecord| #[trigger] apply.requires((r,)),
        ensures
            final(self).wf(),
            final(self).spec_active_keyspace() == old(self).spec_active_keyspace(),
            final(self).spec_passive_keyspace() == old(self).spec_passive_keyspace(),
            old(self).spec_outbox() is None ==> processed == 0 && *final(self) == *old(self),
            old(self).spec_outbox() matches Some(v) ==> ({
                let batch = spec_parse_frames(v.log, v.cursor as int, max as nat);
                let newcur = if processed == 0 {
                    v.cursor as int
                } else {
                    batch[processed - 1].1
                };
                &&& processed <= batch.len()
                &&& final(self).spec_outbox() == Some(OutboxView { cursor: newcur as u64, ..v })
                &&& v.cursor <= newcur <= v.log.len()
                &&& (forall|k: int|
                    0 <= k < processed ==> exists|rk: OutboxRecord|
                        rk@ == (#[trigger] batch[k]).2 && #[trigger] apply.ensures((rk,), true))
                &&& (processed < batch.len() ==> exists|rf: OutboxRecord|
                    rf@ == batch[processed as int].2 && #[trigger] apply.ensures((rf,), false))
                &&& spec_pending_frames(OutboxView { cursor: newcur as u64, ..v })
                    == spec_pending_frames(v).skip(processed as int)
                &&& (batch.len() > 0 && (forall|r0: OutboxRecord|
                    r0@ == batch[0].2 ==> !(#[trigger] apply.ensures((r0,), true))) ==> processed
                    == 0 && newcur == v.cursor)
            }),
    {
        if self.outbox.is_none() {
            return 0;
        }
        let ghost v0 = self.spec_outbox()->0;
        let ghost big = spec_parse_frames(v0.log, v0.cursor as int, max as nat);
        proof {
            match &self.outbox {
                Some(ob) => ob.lemma_log_len_bound(),
                None => {},
            }
            lemma_frames_chain(v0.log, v0.cursor as int, max as nat);
        }
        let batch = self.replay_batch(max);
        proof {
            assert(frames_view(batch@) == big);
        }
        let (processed, last_end) = apply_batch(batch, apply);
        if processed > 0 {
            proof {
                lemma_frame_end_lower(v0.log, v0.cursor as int, max as nat, processed as int - 1);
                assert(big[processed - 1].0 + 10 <= big[processed - 1].1 <= v0.log.len());
                assert(v0.cursor as int <= last_end as int);
            }
            let accepted = self.mark_replayed(last_end);
            proof {
                assert(accepted);
            }
        }
        proof {
            lemma_pending_after_replay(v0, max as nat, processed as nat);
        }
        processed
    }
}

/// Applies the closure to each record of a parsed batch in order,
/// stopping at the first failure; returns how many were applied and
/// the frame end of the last applied record.
#[verifier::loop_isolation(false)]
#[verifier::rlimit(60)]
fn apply_batch<F: Fn(OutboxRecord) -> bool>(batch: Vec<(u64, u64, OutboxRecord)>, apply: F) -> (r:
    (usize, u64))
    requires
        forall|rec: OutboxRecord| #[trigger] apply.requires((rec,)),
    ensures
        ({
            let big = frames_view(batch@);
            let processed = r.0;
            &&& processed <= big.len()
            &&& (processed > 0 ==> r.1 as int == big[processed - 1].1)
            &&& (forall|k: int|
                0 <= k < processed ==> exists|rk: OutboxRecord|
                    rk@ == (#[trigger] big[k]).2 && #[trigger] apply.ensures((rk,), true))
            &&& (processed < big.len() ==> exists|rf: OutboxRecord|
                rf@ == big[processed as int].2 && #[trigger] apply.ensures((rf,), false))
        }),
{
    proof {
        vstd::std_specs::vec::axiom_spec_len(&batch);
    }
    let ghost batch0 = batch@;
    let ghost big = frames_view(batch0);
    let mut batch = batch;
    let mut processed: usize = 0;
    let mut stopped = false;
    let mut last_end: u64 = 0;
    proof {
        assert(batch@ =~= batch0.skip(0));
    }
    while !stopped && batch.len() > 0
        invariant
            0 <= processed <= big.len(),
            !stopped ==> batch@ == batch0.skip(processed as int),
            stopped ==> processed < big.len() && (exists|rf: OutboxRecord|
                rf@ == big[processed as int].2 && #[trigger] apply.ensures((rf,), false)),
            processed > 0 ==> last_end as int == big[processed - 1].1,
            forall|k: int|
                0 <= k < processed ==> exists|rk: OutboxRecord|
                    rk@ == (#[trigger] big[k]).2 && #[trigger] apply.ensures((rk,), true),
        decreases batch.len(),
    {
        let ghost p_now = processed as int;
        let (_start, end, rec) = batch.remove(0);
        let ghost rec_g = rec;
        proof {
            assert(batch0.skip(p_now)[0] == batch0[p_now]);
            assert(frames_view(batch0)[p_now] == big[p_now]);
            assert(rec_g@ == big[p_now].2);
            assert(end as int == big[p_now].1);
            assert(batch@ =~= batch0.skip(p_now + 1));
        }
        let ok = apply(rec);
        if ok {
            last_end = end;
            processed = processed + 1;
        } else {
            stopped = true;
        }
    }
    proof {
        if !stopped {
            assert(batch@.len() == 0);
            assert(batch0.skip(processed as int).len() == 0);
            assert(processed == big.len());
        }
    }
    (processed, last_end)
}

/// The clusters a write with the given target attempts.
pub open spec fn spec_attempts_for(target: OutboxTarget) -> Seq<Cluster> {
    match target {
        OutboxTarget::Active => seq![Cluster::Active],
        OutboxTarget::Passive => seq![Cluster::Passive],
        OutboxTarget::Both => seq![Cluster::Active, Cluster::Passive],
    }
}

/// The watermark updates one replayed record asks for.
pub open spec fn spec_marks_for(target: OutboxTarget, end: u64) -> Seq<(Cluster, u64)> {
    match target {
        OutboxTarget::Active => seq![(Cluster::Active, end)],
        OutboxTarget::Passive => seq![(Cluster::Passive, end)],
        OutboxTarget::Both => seq![(Cluster::Active, end), (Cluster::Passive, end)],
    }
}

/// After replaying the first `p` records of a batch of budget `max`,
/// the pending queue is the old pending queue without its first `p`
/// frames.
proof fn lemma_pending_after_replay(v: OutboxView, max: nat, p: nat)
    requires
        v.log.len() <= u64::MAX,
        p <= spec_parse_frames(v.log, v.cursor as int, max).len(),
    ensures
        ({
            let batch = spec_parse_frames(v.log, v.cursor as int, max);
            let newcur = if p == 0 {
                v.cursor as int
            } else {
                batch[p - 1].1
            };
            spec_pending_frames(OutboxView { cursor: newcur as u64, ..v }) == spec_pending_frames(
                v,
            ).skip(p as int)
        }),
{
    let log = v.log;
    let cur = v.cursor as int;
    let len = log.len() as nat;
    let batch = spec_parse_frames(log, cur, max);
    let pend = spec_parse_frames(log, cur, len);
    let newcur = if p == 0 {
        cur
    } else {
        batch[p - 1].1
    };
    lemma_frames_chain(log, cur, len);
    // The batch is a prefix of the pending queue, so the two agree on
    // the first `p` frames.
    assert(p <= pend.len() && (p == 0 || batch[p as int - 1] == pend[p as int - 1])) by {
        if max <= len {
            lemma_frames_budget(log, cur, max, len);
        } else {
            lemma_frames_budget_enough(log, cur, len, max);
        }
    }
    assert(newcur == frame_start(pend, cur, p as int));
    lemma_frames_skip(log, cur, len, p);
    let small = spec_parse_frames(log, newcur, (len - p) as nat);
    assert(small == pend.skip(p as int));
    // The resume position is machine-bounded, and far enough in that
    // the shrunken budget still saturates the parse.
    assert(0 <= newcur <= log.len() + cur && 10 * ((len - p) as int) >= log.len() - newcur) by {
        if p > 0 {
            lemma_frames_chain(log, cur, len);
            assert(pend[p as int - 1].1 <= log.len());
            lemma_frame_end_lower(log, cur, len, p as int - 1);
            assert(newcur >= cur + 10 * (p as int));
        }
    }
    lemma_frames_budget_enough(log, newcur, (len - p) as nat, len);
    assert(spec_parse_frames(log, newcur, len) == small);
    assert((newcur as u64) as int == newcur) by {
        if p > 0 {
            lemma_frames_chain(log, cur, len);
            assert(pend[p as int - 1].1 <= log.len());
        }
    }
    assert(spec_pending_frames(OutboxView { cursor: newcur as u64, ..v }) == pend.skip(p as int));
}

} // verus!
