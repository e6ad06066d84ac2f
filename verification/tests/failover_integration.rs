use nayud_batch::replication::Cluster;
use nayud_batch::replication::FailoverManager;

#[test]
fn failover_to_passive_after_consecutive_failures() {
    let mut fm = FailoverManager::new().with_force_ready(true);

    for _ in 0..3 {
        fm.tick_with_status(false, true, false);
    }

    assert_eq!(
        fm.current_primary(),
        Cluster::Passive,
        "primary should switch to Passive after threshold and readiness"
    );
    assert!(fm.last_switch().is_some(), "last_switch should be recorded");
}

#[test]
fn no_recover_before_threshold() {
    let mut fm = FailoverManager::new().with_force_ready(true);

    for _ in 0..3 {
        fm.tick_with_status(false, true, false);
    }
    assert_eq!(fm.current_primary(), Cluster::Passive);

    for _ in 0..4 {
        fm.tick_with_status(true, true, false);
    }
    assert_eq!(
        fm.current_primary(),
        Cluster::Passive,
        "should not recover to Active before reaching threshold"
    );
}

#[test]
fn recover_to_active_after_threshold() {
    let mut fm = FailoverManager::new().with_force_ready(true);

    for _ in 0..3 {
        fm.tick_with_status(false, true, false);
    }
    assert_eq!(fm.current_primary(), Cluster::Passive);

    for _ in 0..5 {
        fm.tick_with_status(true, true, false);
    }
    assert_eq!(
        fm.current_primary(),
        Cluster::Active,
        "should recover to Active after threshold and readiness"
    );
}

#[test]
fn failover_blocked_without_readiness() {
    let mut fm = FailoverManager::new();

    for _ in 0..3 {
        fm.tick_with_status(false, true, false);
    }

    assert_eq!(
        fm.current_primary(),
        Cluster::Active,
        "should not switch without readiness"
    );
}
