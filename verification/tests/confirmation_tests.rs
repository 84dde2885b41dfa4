use rowifi_core::confirmation::{offer, ConfirmStep, SuppressionSet};

#[test]
fn non_invoker_press_is_refused_and_keeps_the_suppression_entry() {
    let mut sup = SuppressionSet::new();
    let mut p = offer(&mut sup, 500, 7, 60_000);
    assert!(sup.contains(500));
    let step = p.on_interaction(8, 10_000);
    assert!(matches!(step, ConfirmStep::RejectOther));
    assert!(!p.fired);
    assert!(sup.contains(500));
}

#[test]
fn invoker_press_fires_exactly_once_despite_duplicates() {
    let mut sup = SuppressionSet::new();
    let mut p = offer(&mut sup, 500, 7, 60_000);
    let first = p.on_interaction(7, 10_000);
    assert!(matches!(first, ConfirmStep::Fire));
    assert!(p.fired);
    // A duplicate of the same press arrives concurrently.
    let second = p.on_interaction(7, 10_001);
    assert!(matches!(second, ConfirmStep::AlreadyDone));
    p.finish(&mut sup);
    assert!(!sup.contains(500));
}

#[test]
fn deadline_ends_the_wait_without_firing() {
    let mut sup = SuppressionSet::new();
    let mut p = offer(&mut sup, 500, 7, 60_000);
    let step = p.on_interaction(7, 60_000);
    assert!(matches!(step, ConfirmStep::TimedOut));
    assert!(!p.fired);
    p.finish(&mut sup);
    assert!(!sup.contains(500));
}

#[test]
fn suppression_tracks_each_message_independently() {
    let mut sup = SuppressionSet::new();
    let p1 = offer(&mut sup, 1, 7, 100);
    let _p2 = offer(&mut sup, 2, 7, 100);
    assert!(sup.contains(1));
    assert!(sup.contains(2));
    p1.finish(&mut sup);
    assert!(!sup.contains(1));
    assert!(sup.contains(2));
}

#[test]
fn reinserting_a_seen_id_keeps_one_entry() {
    let mut sup = SuppressionSet::new();
    sup.insert(9);
    sup.insert(9);
    sup.remove(9);
    assert!(!sup.contains(9));
}
