use ringside::error::RingsideError;
use ringside::ledger::SyncLedger;
use ringside::lock::{LockFile, LockedSource};

fn entry(url: &str, commit: &str) -> LockedSource {
    LockedSource {
        url: url.to_string(),
        commit: commit.to_string(),
        synced_at: "2024-05-01T10:00:00+00:00".to_string(),
    }
}

#[test]
fn a_run_without_failures_succeeds() {
    let mut ledger = SyncLedger::new(LockFile::new());
    assert_eq!(ledger.verdict(), Ok(()));
    ledger.record(Ok(Some(("k1".to_string(), entry("u1", "c1")))));
    ledger.record(Ok(None));
    assert_eq!(ledger.verdict(), Ok(()));
    assert!(ledger.errors.is_empty());
    assert_eq!(ledger.lock.get("k1"), Some(&entry("u1", "c1")));
    assert_eq!(ledger.lock.entries().len(), 1);
}

#[test]
fn a_partial_failure_keeps_what_succeeded() {
    let mut lock = LockFile::new();
    lock.set("old".to_string(), entry("u0", "c0"));
    lock.set("k2".to_string(), entry("u2", "stale"));
    let mut ledger = SyncLedger::new(lock);
    ledger.record(Ok(Some(("k1".to_string(), entry("u1", "c1")))));
    ledger.record(Err(RingsideError::GitError("Failed to clone u3: gone".to_string())));
    ledger.record(Ok(Some(("k2".to_string(), entry("u2", "c2")))));
    ledger.record(Err(RingsideError::SubpathNotFound {
        url: "u4".to_string(),
        path: "p".to_string(),
    }));
    ledger.record(Ok(Some(("k5".to_string(), entry("u5", "c5")))));
    assert_eq!(
        ledger.errors,
        vec![
            "Git operation failed: Failed to clone u3: gone".to_string(),
            "Failed to copy files: Path 'p' not found in u4".to_string(),
        ]
    );
    assert_eq!(
        ledger.verdict(),
        Err(RingsideError::GitError("2 source(s) failed to sync".to_string()))
    );
    assert_eq!(ledger.lock.get("k1"), Some(&entry("u1", "c1")));
    assert_eq!(ledger.lock.get("k2"), Some(&entry("u2", "c2")));
    assert_eq!(ledger.lock.get("k5"), Some(&entry("u5", "c5")));
    assert_eq!(ledger.lock.get("old"), Some(&entry("u0", "c0")));
    assert_eq!(ledger.lock.entries().len(), 4);
}

#[test]
fn the_count_of_failures_is_written_in_decimal() {
    let mut ledger = SyncLedger::new(LockFile::new());
    for i in 0..12 {
        ledger.record(Err(RingsideError::Io(format!("e{i}"))));
    }
    assert_eq!(
        ledger.verdict(),
        Err(RingsideError::GitError("12 source(s) failed to sync".to_string()))
    );
    assert_eq!(ledger.errors.len(), 12);
    assert_eq!(ledger.errors[11], "IO error: e11");
    assert!(ledger.lock.entries().is_empty());
}

#[test]
fn the_order_of_outcomes_does_not_change_the_table() {
    let outcomes = || {
        vec![
            Ok(Some(("a".to_string(), entry("ua", "1")))),
            Err(RingsideError::Io("x".to_string())),
            Ok(Some(("b".to_string(), entry("ub", "2")))),
            Ok(None),
        ]
    };
    let mut forward = SyncLedger::new(LockFile::new());
    for o in outcomes() {
        forward.record(o);
    }
    let mut backward = SyncLedger::new(LockFile::new());
    for o in outcomes().into_iter().rev() {
        backward.record(o);
    }
    for key in ["a", "b", "c"] {
        assert_eq!(forward.lock.get(key), backward.lock.get(key));
    }
    assert_eq!(forward.verdict(), backward.verdict());
    assert_eq!(forward.errors.len(), 1);
}
