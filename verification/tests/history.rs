use loom_cli::history::{HistoryLineWrapPolicy, PendingHistory};

#[test]
fn test_pending_history_new() {
    let ph = PendingHistory::new();
    assert!(ph.is_empty());
    assert_eq!(ph.len(), 0);
}

#[test]
fn test_pending_history_push() {
    let mut ph = PendingHistory::new();
    ph.push("hello".into(), HistoryLineWrapPolicy::PreWrap);
    assert!(!ph.is_empty());
    assert_eq!(ph.len(), 1);
}

#[test]
fn test_pending_history_clear() {
    let mut ph = PendingHistory::new();
    ph.push("hello".into(), HistoryLineWrapPolicy::PreWrap);
    ph.clear();
    assert!(ph.is_empty());
}

#[test]
fn test_pending_history_default() {
    let ph = PendingHistory::default();
    assert!(ph.is_empty());
}
