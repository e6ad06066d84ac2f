use nayud_batch::replication::Cluster;
use nayud_batch::replication::FailoverManager;

#[test]
fn last_status_updates_and_no_switch_when_both_down() {
    let mut fm = FailoverManager::new();

    fm.tick_with_status(false, false, false);
    assert_eq!(fm.last_status(), (false, false));
    assert_eq!(fm.current_primary(), Cluster::Active);

    fm.tick_with_status(true, false, false);
    assert_eq!(fm.last_status(), (true, false));
    assert_eq!(fm.current_primary(), Cluster::Active);
}
