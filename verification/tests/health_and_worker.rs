use nayud_batch::health::db_health_response;
use nayud_batch::health::service_health;
use nayud_batch::middleware::RequestContext;
use nayud_batch::replication::Cluster;
use nayud_batch::replication::Outbox;
use nayud_batch::replication::OutboxRecord;
use nayud_batch::replication::OutboxTarget;
use nayud_batch::replication::SyncWorker;
use nayud_batch::types::response::ApiMessage;
use nayud_batch::types::response::CODE_FAILURE;
use nayud_batch::types::response::CODE_SUCCESS;

#[test]
fn service_health_is_static_ok() {
    let r = service_health();
    assert_eq!(r.code, CODE_SUCCESS);
    assert!(r.data.unwrap().ok);
}

#[test]
fn db_health_reports_each_case() {
    let r = db_health_response(true, true);
    assert_eq!(r.code, CODE_SUCCESS);
    let d = r.data.unwrap();
    assert!(d.active_ok && d.passive_ok);

    let r = db_health_response(false, true);
    assert_eq!(r.code, CODE_FAILURE);
    match &r.message {
        ApiMessage::Detail { what, .. } => {
            assert_eq!(what, "Active database is unavailable or unhealthy")
        }
        _ => panic!("expected detail"),
    }

    let r = db_health_response(true, false);
    assert_eq!(r.code, CODE_FAILURE);
    match &r.message {
        ApiMessage::Detail { what, .. } => {
            assert_eq!(what, "Passive database is unavailable or unhealthy")
        }
        _ => panic!("expected detail"),
    }

    let r = db_health_response(false, false);
    assert_eq!(r.code, CODE_FAILURE);
    match &r.message {
        ApiMessage::Detail { what, .. } => {
            assert_eq!(what, "Both Active and Passive databases are unavailable")
        }
        _ => panic!("expected detail"),
    }
    let d = r.data.unwrap();
    assert!(!d.active_ok && !d.passive_ok);
}

#[test]
fn worker_defaults_and_builders() {
    let w = SyncWorker::new();
    assert!(!w.has_outbox());
    assert_eq!(w.queue_len(), 0);
    assert_eq!(w.interval_ms(), 1000);

    let w = SyncWorker::new()
        .with_interval_ms(250)
        .with_max_replay_per_tick(2)
        .with_outbox(Outbox::new(true))
        .with_drift_thresholds(1, 10)
        .with_keyspaces("a_ks", "p_ks");
    assert!(w.has_outbox());
    assert_eq!(w.interval_ms(), 250);
}

#[test]
fn worker_quota_and_drift() {
    let mut w = SyncWorker::new()
        .with_max_replay_per_tick(2)
        .with_outbox(Outbox::new(true))
        .with_drift_thresholds(1, 1_000_000);
    assert_eq!(w.replay_quota(), 0);
    for i in 0..3u64 {
        w.repl_mut()
            .enqueue(
                OutboxRecord::new_simple("k", "INSERT INTO t ...", OutboxTarget::Active),
                i + 1,
            )
            .unwrap();
    }
    assert_eq!(w.queue_len(), 3);
    assert_eq!(w.replay_quota(), 2);

    let unhealthy = w.update_drift();
    assert!(unhealthy);
    let ds = w.last_drift().as_ref().unwrap();
    assert_eq!(ds.pending_records, 3);
    assert!(!ds.healthy);

    let processed = w.repl_mut().replay_with(3, |_r| true);
    assert_eq!(processed, 3);
    let unhealthy = w.update_drift();
    assert!(!unhealthy);
    assert!(w.last_drift().as_ref().unwrap().healthy);
}

#[test]
fn worker_tick_drives_failover() {
    let mut w = SyncWorker::new();
    for _ in 0..3 {
        w.failover_mut().tick_with_status(false, true, true);
    }
    assert_eq!(w.failover().current_primary(), Cluster::Passive);
}

#[test]
fn pending_preview_matches_tick() {
    let mut fm = nayud_batch::replication::FailoverManager::new();
    assert_eq!(fm.pending_after(false, true), None);
    fm.tick_with_status(false, true, false);
    fm.tick_with_status(false, true, false);
    assert_eq!(fm.pending_after(false, true), Some(Cluster::Passive));
    assert_eq!(fm.pending_after(true, true), None);
}

#[test]
fn request_context_holds_correlation_id() {
    let ctx = RequestContext::new(Some("abc-123".to_string()));
    assert_eq!(ctx.correlation_id.as_deref(), Some("abc-123"));
    let ctx = RequestContext::new(None);
    assert!(ctx.correlation_id.is_none());
}
