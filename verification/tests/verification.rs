use std::time::Duration;

use cxxpect_editor::verification::{Scheduler, DEBOUNCE_MS};

#[test]
fn debounce_is_in_required_range() {
    let debounce = Duration::from_millis(DEBOUNCE_MS);
    assert!(debounce >= Duration::from_millis(250));
    assert!(debounce <= Duration::from_millis(350));
}

#[test]
fn request_waits_for_the_debounce() {
    let mut s = Scheduler::new();
    s.schedule(1, 1000);
    assert!(!s.take_due(1, 1299));
    assert!(s.take_due(1, 1300));
    assert!(!s.take_due(1, 5000));
    s.request_sent(true);
    assert!(s.running);
}

#[test]
fn newer_edit_supersedes() {
    let mut s = Scheduler::new();
    s.schedule(1, 0);
    s.schedule(2, 200);
    assert!(!s.take_due(1, 1000));
    assert!(!s.take_due(2, 400));
    assert!(s.take_due(2, 500));
}

#[test]
fn clock_going_back_is_not_due() {
    let mut s = Scheduler::new();
    s.schedule(1, 1000);
    assert!(!s.take_due(1, 10));
}

#[test]
fn stale_results_are_ignored() {
    let mut s = Scheduler::new();
    s.request_sent(true);
    assert!(!s.accepts(3, 4));
    assert!(s.running);
    assert!(s.accepts(4, 4));
    assert!(!s.running);
}

#[test]
fn verify_now_drops_pending() {
    let mut s = Scheduler::new();
    s.schedule(7, 0);
    s.verify_now();
    assert!(s.pending.is_none());
    assert!(!s.take_due(7, 10_000));
    s.request_sent(false);
    assert!(!s.running);
}
