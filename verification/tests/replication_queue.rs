use nayud_batch::replication::Outbox;
use nayud_batch::replication::OutboxRecord;
use nayud_batch::replication::OutboxTarget;
use nayud_batch::replication::ReplicationManager;

#[test]
fn outbox_enqueue_and_replay_marks_cursor() {
    let mut rm = ReplicationManager::with_outbox(Outbox::new(true));
    assert_eq!(rm.queue_len(), 0);

    rm.enqueue(
        OutboxRecord::new_simple("k1", "INSERT INTO t ...", OutboxTarget::Active),
        0,
    )
    .unwrap();
    rm.enqueue(
        OutboxRecord::new_simple("k2", "INSERT INTO t ...", OutboxTarget::Passive),
        0,
    )
    .unwrap();

    assert_eq!(rm.queue_len(), 2);

    let processed = rm.replay_with(1, |_rec| true);
    assert_eq!(processed, 1);
    assert_eq!(rm.queue_len(), 1);

    let processed2 = rm.replay_with(10, |_rec| true);
    assert_eq!(processed2, 1);
    assert_eq!(rm.queue_len(), 0);
}
