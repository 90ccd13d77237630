use hzrd::flag::FlagStatus;
use hzrd::ledger::Ledger;
use hzrd::ledger::LedgerEntry;

fn flags(texts: &[&str]) -> Vec<Vec<u8>> {
    texts.iter().map(|t| t.as_bytes().to_vec()).collect()
}

#[test]
fn store_is_idempotent() {
    let mut ledger = Ledger::new();
    let batch = flags(&["FLAGAAA=", "FLAGBBB="]);
    let first = ledger.store_flags(&batch, 100);
    assert_eq!(first, 2);
    let second = ledger.store_flags(&batch, 200);
    assert_eq!(second, 0);
    assert_eq!(ledger.len(), 2);
    // The surviving records are the first-write ones.
    assert_eq!(ledger.entry_at(0).captured_at, 100);
    assert_eq!(ledger.entry_at(1).captured_at, 100);
}

#[test]
fn duplicates_in_one_batch_collapse() {
    let mut ledger = Ledger::new();
    let batch = flags(&["SAME=", "SAME=", "OTHER="]);
    let inserted = ledger.store_flags(&batch, 7);
    assert_eq!(inserted, 2);
    assert_eq!(ledger.len(), 2);
    assert_eq!(ledger.entry_at(0).flag, b"SAME=".to_vec());
    assert_eq!(ledger.entry_at(1).flag, b"OTHER=".to_vec());
}

#[test]
fn new_records_are_pending_in_order() {
    let mut ledger = Ledger::new();
    ledger.store_flags(&flags(&["A", "B", "C"]), 1);
    let pending = ledger.get_pending_flags();
    assert_eq!(pending, flags(&["A", "B", "C"]));
}

#[test]
fn update_unknown_flag_fails() {
    let mut ledger = Ledger::new();
    ledger.store_flags(&flags(&["A"]), 1);
    let ok = ledger.update_flag_status(b"A", FlagStatus::Accepted, 5000, None, 2);
    assert!(ok);
    let missing = ledger.update_flag_status(b"B", FlagStatus::Accepted, 5000, None, 2);
    assert!(!missing);
    assert_eq!(ledger.len(), 1);
}

#[test]
fn update_writes_outcome_and_keeps_capture_time() {
    let mut ledger = Ledger::new();
    ledger.store_flags(&flags(&["A", "B"]), 10);
    let ok = ledger.update_flag_status(
        b"B",
        FlagStatus::Rejected,
        0,
        Some(b"Rejected: too old".to_vec()),
        20,
    );
    assert!(ok);
    let b = ledger.entry_at(1);
    assert_eq!(b.status, FlagStatus::Rejected);
    assert_eq!(b.points_milli, 0);
    assert_eq!(b.captured_at, 10);
    assert_eq!(b.submitted_at, Some(20));
    assert_eq!(b.error, Some(b"Rejected: too old".to_vec()));
    // The sibling record is untouched.
    let a = ledger.entry_at(0);
    assert_eq!(a.status, FlagStatus::Pending);
    assert_eq!(a.submitted_at, None);
}

#[test]
fn points_sum_counts_accepted_only() {
    let mut ledger = Ledger::new();
    ledger.store_flags(&flags(&["A", "B", "C"]), 1);
    ledger.update_flag_status(b"A", FlagStatus::Accepted, 3000, None, 2);
    ledger.update_flag_status(b"B", FlagStatus::Rejected, 0, None, 2);
    ledger.update_flag_status(b"C", FlagStatus::Accepted, 1500, None, 2);
    assert_eq!(ledger.get_points_summary(), 4500);
}

#[test]
fn resubmission_overwrites_previous_outcome() {
    let mut ledger = Ledger::new();
    ledger.store_flags(&flags(&["A"]), 1);
    ledger.update_flag_status(b"A", FlagStatus::Accepted, 2000, None, 2);
    assert_eq!(ledger.get_points_summary(), 2000);
    ledger.update_flag_status(b"A", FlagStatus::Rejected, 0, Some(b"late".to_vec()), 3);
    assert_eq!(ledger.get_points_summary(), 0);
    assert_eq!(ledger.entry_at(0).status, FlagStatus::Rejected);
}

#[test]
fn restore_rebuilds_without_duplicating() {
    let mut ledger = Ledger::new();
    let entry = LedgerEntry {
        flag: b"A".to_vec(),
        status: FlagStatus::Accepted,
        points_milli: 1000,
        captured_at: 5,
        submitted_at: Some(6),
        error: None,
    };
    assert!(ledger.restore_entry(entry.clone()));
    assert!(!ledger.restore_entry(entry));
    assert_eq!(ledger.len(), 1);
    assert_eq!(ledger.get_points_summary(), 1000);
    // A restored accepted record is not pending.
    assert!(ledger.get_pending_flags().is_empty());
}
