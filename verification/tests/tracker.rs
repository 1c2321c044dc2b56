use nfsserve::transaction_tracker::TransactionTracker;
use std::time::Duration;

fn tracker(seconds: u64, max_entries: usize) -> TransactionTracker {
    TransactionTracker::new_with_capacity(Duration::from_secs(seconds).as_nanos(), max_entries)
}

#[test]
fn connection_incarnation_partitions_transaction_identity() {
    let mut tracker = tracker(60, 8);

    assert!(!tracker.is_retransmission(11, 7, "127.0.0.1:2049"));
    assert!(tracker.is_retransmission(11, 7, "127.0.0.1:2049"));
    assert!(!tracker.is_retransmission(12, 7, "127.0.0.1:2049"));
}

#[test]
fn completed_transactions_are_evicted_at_the_hard_entry_cap() {
    let mut tracker = tracker(60, 2);

    assert!(!tracker.is_retransmission(1, 1, "client"));
    tracker.mark_processed(1, 1, "client");
    assert!(!tracker.is_retransmission(1, 2, "client"));
    tracker.mark_processed(1, 2, "client");
    assert_eq!(tracker.len(), 2);

    assert!(!tracker.is_retransmission(1, 3, "client"));
    assert_eq!(tracker.len(), 2);
    assert!(tracker.is_retransmission(1, 2, "client"));
    assert!(
        !tracker.is_retransmission(1, 1, "client"),
        "the oldest completion should be evicted rather than exceeding the cap",
    );
    assert_eq!(tracker.len(), 2);
}

#[test]
fn a_new_tracker_remembers_nothing() {
    let tracker = TransactionTracker::new(Duration::from_secs(60).as_nanos());
    assert_eq!(tracker.len(), 0);
}

#[test]
fn identities_differ_in_each_part() {
    let mut tracker = tracker(60, 8);
    assert!(!tracker.is_retransmission(1, 1, "a"));
    assert!(!tracker.is_retransmission(2, 1, "a"));
    assert!(!tracker.is_retransmission(1, 2, "a"));
    assert!(!tracker.is_retransmission(1, 1, "b"));
    assert_eq!(tracker.len(), 4);
    assert!(tracker.is_retransmission(1, 1, "b"));
    assert!(tracker.is_retransmission(2, 1, "a"));
}

#[test]
fn clients_that_share_a_slot_are_forgotten_one_by_one() {
    let mut tracker = TransactionTracker::new_with_capacity(100, 2);
    assert!(!tracker.is_retransmission_at(0, 1, 1, "a"));
    assert!(!tracker.is_retransmission_at(0, 1, 1, "b"));
    tracker.mark_processed_at(1, 1, 1, "a");
    assert!(!tracker.is_retransmission_at(2, 1, 1, "c"));
    assert_eq!(tracker.len(), 2);
    assert!(tracker.is_retransmission_at(3, 1, 1, "b"));
    assert!(tracker.is_retransmission_at(3, 1, 1, "c"));
    // "a" was forgotten, but both places are taken by calls in progress.
    assert!(tracker.is_retransmission_at(3, 1, 1, "a"));
    tracker.mark_processed_at(4, 1, 1, "b");
    assert!(!tracker.is_retransmission_at(5, 1, 1, "a"));
}

#[test]
fn a_completed_transaction_is_remembered_for_the_retention_period() {
    let mut tracker = TransactionTracker::new_with_capacity(100, 8);
    assert!(!tracker.is_retransmission_at(10, 1, 7, "client"));
    tracker.mark_processed_at(20, 1, 7, "client");
    assert!(tracker.is_retransmission_at(119, 1, 7, "client"));
    assert!(!tracker.is_retransmission_at(120, 1, 7, "client"));
    assert_eq!(tracker.len(), 1);
}

#[test]
fn a_clock_that_runs_back_expires_nothing() {
    let mut tracker = TransactionTracker::new_with_capacity(100, 8);
    assert!(!tracker.is_retransmission_at(500, 1, 7, "client"));
    tracker.mark_processed_at(500, 1, 7, "client");
    assert!(tracker.is_retransmission_at(0, 1, 7, "client"));
}

#[test]
fn a_transaction_in_progress_does_not_expire() {
    let mut tracker = TransactionTracker::new_with_capacity(100, 8);
    assert!(!tracker.is_retransmission_at(0, 1, 7, "client"));
    assert!(tracker.is_retransmission_at(1_000_000, 1, 7, "client"));
}

#[test]
fn a_tracker_full_of_calls_in_progress_fails_closed() {
    let mut tracker = TransactionTracker::new_with_capacity(100, 2);
    assert!(!tracker.is_retransmission_at(0, 1, 1, "client"));
    assert!(!tracker.is_retransmission_at(0, 1, 2, "client"));
    assert!(tracker.is_retransmission_at(0, 1, 3, "client"));
    assert_eq!(tracker.len(), 2);
    tracker.mark_processed_at(1, 1, 3, "client");
    assert!(tracker.is_retransmission_at(2, 1, 3, "client"));
    tracker.mark_processed_at(3, 1, 1, "client");
    assert!(!tracker.is_retransmission_at(4, 1, 3, "client"));
    assert_eq!(tracker.len(), 2);
}

#[test]
fn marking_twice_leaves_one_transaction() {
    let mut tracker = TransactionTracker::new_with_capacity(100, 8);
    assert!(!tracker.is_retransmission_at(0, 1, 1, "client"));
    tracker.mark_processed_at(10, 1, 1, "client");
    tracker.mark_processed_at(50, 1, 1, "client");
    assert_eq!(tracker.len(), 1);
    assert!(tracker.is_retransmission_at(60, 1, 1, "client"));
    assert!(!tracker.is_retransmission_at(150, 1, 1, "client"));
}
