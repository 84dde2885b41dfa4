use rowifi_core::bucket::Bucket;

#[test]
fn capacity_commits_within_window_exhaust_the_bucket() {
    let mut b = Bucket::new(100, 3);
    b.commit(1, 0);
    b.commit(1, 1);
    b.commit(1, 2);
    let wait = b.check(1, 50);
    assert_eq!(wait, Some(50));
    assert!(50 <= 100);
}

#[test]
fn window_elapse_restores_the_allowance() {
    let mut b = Bucket::new(100, 3);
    b.commit(1, 0);
    b.commit(1, 1);
    b.commit(1, 2);
    assert!(b.check(1, 99).is_some());
    assert_eq!(b.check(1, 100), None);
}

#[test]
fn check_without_commit_keeps_remaining_and_deadline() {
    let mut b = Bucket::new(100, 1);
    assert_eq!(b.check(1, 0), None);
    // The handler fails: nothing is committed.
    assert_eq!(b.check(1, 10), None);
    // The deadline of the window opened at time zero is unchanged: consuming
    // the one allowed call now yields a wait against that original deadline.
    b.commit(1, 20);
    assert_eq!(b.check(1, 30), Some(70));
}

#[test]
fn guilds_are_limited_independently() {
    let mut b = Bucket::new(100, 1);
    b.commit(1, 0);
    assert!(b.check(1, 10).is_some());
    assert_eq!(b.check(2, 10), None);
}

#[test]
fn wait_never_exceeds_the_window() {
    let mut b = Bucket::new(60, 2);
    b.commit(9, 5);
    b.commit(9, 6);
    let wait = b.check(9, 7).expect("bucket is exhausted");
    assert!(wait <= 60);
    assert_eq!(wait, 58);
}

#[test]
fn zero_capacity_limits_immediately() {
    let mut b = Bucket::new(100, 0);
    let wait = b.check(1, 0).expect("no calls are allowed");
    assert_eq!(wait, 100);
}

#[test]
fn evicting_expired_entries_changes_nothing_observable() {
    let mut b = Bucket::new(100, 1);
    b.commit(1, 0);
    b.evict_expired(200);
    assert_eq!(b.entries.len(), 0);
    assert_eq!(b.check(1, 200), None);
}
