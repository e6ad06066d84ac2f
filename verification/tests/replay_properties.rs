use nayud_batch::replication::Cluster;
use nayud_batch::replication::Outbox;
use nayud_batch::replication::OutboxRecord;
use nayud_batch::replication::OutboxTarget;
use nayud_batch::replication::ReplicationManager;

fn end_of(rm: &ReplicationManager) -> u64 {
    rm.log_bytes().unwrap().len() as u64
}

fn manager_with_queue(keys: &[&str]) -> ReplicationManager {
    let mut rm = ReplicationManager::with_outbox(Outbox::new(true));
    for (i, k) in keys.iter().enumerate() {
        rm.enqueue(
            OutboxRecord::new_simple(k, "INSERT INTO t ...", OutboxTarget::Active),
            (i + 1) as u64,
        )
        .unwrap();
    }
    rm
}

#[test]
fn cursor_monotone_across_replays() {
    let mut rm = manager_with_queue(&["a", "b", "c"]);
    let end = end_of(&rm);
    let mut last = rm.current_cursor().unwrap();
    assert_eq!(last, 0);
    for _ in 0..3 {
        rm.replay_with(1, |_r| true);
        let cur = rm.current_cursor().unwrap();
        assert!(last <= cur && cur <= end);
        last = cur;
    }
    assert_eq!(last, end);
}

#[test]
fn no_skip_on_failure() {
    let mut rm = manager_with_queue(&["k1", "k2", "k3"]);
    let before = rm.queue_len();
    let cursor_before = rm.current_cursor().unwrap();
    let processed = rm.replay_with(10, |_r| false);
    assert_eq!(processed, 0);
    assert_eq!(rm.queue_len(), before);
    assert_eq!(rm.current_cursor().unwrap(), cursor_before);
}

#[test]
fn stop_at_first_failure_keeps_order() {
    let mut rm = manager_with_queue(&["k1", "k2", "k3"]);
    let processed = rm.replay_with(10, |r| r.idempotency_key != "k2");
    assert_eq!(processed, 1);
    assert_eq!(rm.queue_len(), 2);
    let batch = rm.replay_batch(10);
    assert_eq!(batch[0].2.idempotency_key, "k2");
    assert_eq!(batch[1].2.idempotency_key, "k3");
}

#[test]
fn at_least_once_across_restart() {
    let mut rm = manager_with_queue(&["k1", "k2"]);
    let processed = rm.replay_with(10, |_r| false);
    assert_eq!(processed, 0);
    assert_eq!(rm.queue_len(), 2);

    // A restart reopens the journal from its persisted bytes and cursor.
    let log = rm.log_bytes().unwrap().clone();
    let cursor = rm.current_cursor().unwrap();
    let reopened = Outbox::from_parts(log, cursor, true).unwrap();
    let rm2 = ReplicationManager::with_outbox(reopened);
    assert_eq!(rm2.queue_len(), 2);
    let batch = rm2.replay_batch(10);
    assert_eq!(batch[0].2.idempotency_key, "k1");
    assert_eq!(batch[1].2.idempotency_key, "k2");
}

#[test]
fn enqueue_without_outbox_fails() {
    let mut rm = ReplicationManager::new();
    let err = rm
        .enqueue(
            OutboxRecord::new_simple("k", "INSERT INTO t ...", OutboxTarget::Active),
            0,
        )
        .unwrap_err();
    assert_eq!(err.to_message(), "Other: outbox not configured");
    assert_eq!(rm.queue_len(), 0);
    assert!(rm.current_cursor().is_none());
}

#[test]
fn marks_for_each_target() {
    assert_eq!(
        ReplicationManager::marks_for(OutboxTarget::Active, 7),
        vec![(Cluster::Active, 7)]
    );
    assert_eq!(
        ReplicationManager::marks_for(OutboxTarget::Passive, 9),
        vec![(Cluster::Passive, 9)]
    );
    assert_eq!(
        ReplicationManager::marks_for(OutboxTarget::Both, 11),
        vec![(Cluster::Active, 11), (Cluster::Passive, 11)]
    );
}

#[test]
fn batch_frame_ends_never_decrease() {
    let rm = manager_with_queue(&["k1", "k2", "k3", "k4"]);
    let batch = rm.replay_batch(10);
    assert_eq!(batch.len(), 4);
    for w in batch.windows(2) {
        assert!(w[0].1 <= w[1].1, "watermark offsets must be monotone");
    }
    // Each frame starts where the previous one ended.
    assert_eq!(batch[0].0, 0);
    for w in batch.windows(2) {
        assert_eq!(w[1].0, w[0].1);
    }
}

#[test]
fn write_attempts_resolve_targets() {
    assert_eq!(
        ReplicationManager::attempts_for(OutboxTarget::Both),
        vec![Cluster::Active, Cluster::Passive]
    );
    assert_eq!(
        ReplicationManager::attempts_for(OutboxTarget::Active),
        vec![Cluster::Active]
    );
    assert_eq!(
        ReplicationManager::target_for(Cluster::Passive),
        OutboxTarget::Passive
    );
}

#[test]
fn drift_status_reports_backlog() {
    let mut rm = manager_with_queue(&["k1", "k2"]);
    let end = end_of(&rm);
    let ds = rm.drift_status(2, 1_000_000).unwrap();
    assert_eq!(ds.pending_records, 2);
    assert_eq!(ds.pending_bytes, end);
    assert_eq!(ds.cursor, 0);
    assert_eq!(ds.end, end);
    assert!(ds.healthy);

    let ds2 = rm.drift_status(1, 1_000_000).unwrap();
    assert!(!ds2.healthy);
    let ds3 = rm.drift_status(2, 1).unwrap();
    assert!(!ds3.healthy);

    rm.replay_with(10, |_r| true);
    let ds4 = rm.drift_status(0, 0).unwrap();
    assert_eq!(ds4.pending_records, 0);
    assert_eq!(ds4.pending_bytes, 0);
    assert!(ds4.healthy);

    assert!(ReplicationManager::new().drift_status(1, 1).is_none());
}

#[test]
fn mark_replayed_bounds() {
    let mut rm = manager_with_queue(&["k1"]);
    let end = end_of(&rm);
    assert!(rm.mark_replayed(end));
    assert_eq!(rm.current_cursor().unwrap(), end);
    // Backwards or past-the-end moves are refused.
    assert!(!rm.mark_replayed(0));
    assert!(!rm.mark_replayed(end + 1));
    assert_eq!(rm.current_cursor().unwrap(), end);
    assert!(!ReplicationManager::new().mark_replayed(0));
}
