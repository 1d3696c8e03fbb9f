use ringside::config::Source;
use ringside::lock::{LockFile, LockedSource};
use ringside::status::{
    classify, label, source_status, status_line, status_query, status_report, summary, tally,
    StatusQuery, StatusTally, SyncStatus,
};

fn source(url: &str, dest: Option<&str>, git_ref: Option<&str>) -> Source {
    Source {
        url: url.to_string(),
        path: None,
        dest: dest.map(|s| s.to_string()),
        git_ref: git_ref.map(|s| s.to_string()),
    }
}

fn entry(url: &str, commit: &str) -> LockedSource {
    LockedSource {
        url: url.to_string(),
        commit: commit.to_string(),
        synced_at: "2024-05-01T10:00:00+00:00".to_string(),
    }
}

#[test]
fn a_source_is_classified_by_lock_and_remote() {
    let e = entry("u", "abc");
    assert_eq!(classify(None, None), SyncStatus::NotSynced);
    assert_eq!(classify(None, Some("abc")), SyncStatus::NotSynced);
    assert_eq!(classify(Some(&e), None), SyncStatus::Unknown);
    assert_eq!(classify(Some(&e), Some("abc")), SyncStatus::UpToDate);
    assert_eq!(classify(Some(&e), Some("abd")), SyncStatus::Outdated);
    assert_eq!(classify(Some(&e), Some("")), SyncStatus::Outdated);
    assert_eq!(classify(Some(&e), Some("ABC")), SyncStatus::Outdated);
}

#[test]
fn each_status_has_its_label() {
    assert_eq!(label(SyncStatus::UpToDate), "up-to-date");
    assert_eq!(label(SyncStatus::Outdated), "outdated");
    assert_eq!(label(SyncStatus::Unknown), "unknown");
    assert_eq!(label(SyncStatus::NotSynced), "not synced");
}

#[test]
fn the_query_names_address_ref_and_key() {
    let mut lock = LockFile::new();
    lock.set("https://github.com/acme/skills.git:a".to_string(), entry("u", "c"));
    lock.set("/srv/repo".to_string(), entry("/srv/repo", "c"));
    assert_eq!(
        status_query(&source("acme/skills", Some("a"), None), &lock),
        StatusQuery {
            url: "https://github.com/acme/skills.git".to_string(),
            git_ref: None,
            key: "https://github.com/acme/skills.git:a".to_string(),
            ask: true,
        }
    );
    assert_eq!(
        status_query(
            &source("https://github.com/acme/skills/tree/main/x", Some("b"), None),
            &lock
        ),
        StatusQuery {
            url: "https://github.com/acme/skills.git".to_string(),
            git_ref: Some("main".to_string()),
            key: "https://github.com/acme/skills.git:b".to_string(),
            ask: false,
        }
    );
    assert_eq!(
        status_query(
            &source("https://github.com/acme/skills/tree/main/x", Some("a"), Some("v2")),
            &lock
        ),
        StatusQuery {
            url: "https://github.com/acme/skills.git".to_string(),
            git_ref: Some("v2".to_string()),
            key: "https://github.com/acme/skills.git:a".to_string(),
            ask: true,
        }
    );
    assert_eq!(
        status_query(&source("/srv/repo", None, None), &lock),
        StatusQuery {
            url: "/srv/repo".to_string(),
            git_ref: None,
            key: "/srv/repo".to_string(),
            ask: false,
        }
    );
}

#[test]
fn status_follows_the_lock_and_the_remote() {
    let mut lock = LockFile::new();
    lock.set("https://github.com/acme/skills.git:a".to_string(), entry("u", "abc"));
    let synced = source("acme/skills", Some("a"), None);
    let unsynced = source("acme/skills", Some("b"), None);
    assert_eq!(source_status(&unsynced, &lock, None), SyncStatus::NotSynced);
    assert_eq!(source_status(&unsynced, &lock, Some("abc")), SyncStatus::NotSynced);
    assert_eq!(source_status(&synced, &lock, Some("abc")), SyncStatus::UpToDate);
    assert_eq!(source_status(&synced, &lock, Some("def")), SyncStatus::Outdated);
    assert_eq!(source_status(&synced, &lock, None), SyncStatus::Unknown);
}

#[test]
fn a_local_source_is_never_compared() {
    let mut lock = LockFile::new();
    for path in ["/srv/repo", "./repo", "../repo", "~/repo", "C:\\repo", "C:/repos/skills"] {
        let s = source(path, Some("d"), None);
        assert_eq!(source_status(&s, &lock, None), SyncStatus::NotSynced);
        assert_eq!(source_status(&s, &lock, Some("abc")), SyncStatus::NotSynced);
        lock.set(format!("{path}:d"), entry(path, "abc"));
        assert_eq!(source_status(&s, &lock, None), SyncStatus::Unknown);
        assert_eq!(source_status(&s, &lock, Some("abc")), SyncStatus::Unknown);
        assert_eq!(source_status(&s, &lock, Some("def")), SyncStatus::Unknown);
    }
}

#[test]
fn a_source_is_listed_with_status_address_and_destination() {
    assert_eq!(
        status_line(SyncStatus::UpToDate, "https://x/y.git", Some("skills")),
        "[up-to-date] https://x/y.git -> skills"
    );
    assert_eq!(
        status_line(SyncStatus::NotSynced, "/srv/repo", None),
        "[not synced] /srv/repo -> /"
    );
    assert_eq!(status_line(SyncStatus::Outdated, "", Some("")), "[outdated]  -> ");
    assert_eq!(status_line(SyncStatus::Unknown, "u", Some("d")), "[unknown] u -> d");
}

#[test]
fn not_synced_is_none_of_the_three_counts() {
    let statuses = vec![
        SyncStatus::UpToDate,
        SyncStatus::NotSynced,
        SyncStatus::Outdated,
        SyncStatus::Unknown,
        SyncStatus::UpToDate,
        SyncStatus::NotSynced,
        SyncStatus::UpToDate,
    ];
    assert_eq!(
        tally(&statuses),
        StatusTally { up_to_date: 3, outdated: 1, unknown: 1 }
    );
    assert_eq!(
        tally(&vec![SyncStatus::NotSynced, SyncStatus::NotSynced]),
        StatusTally { up_to_date: 0, outdated: 0, unknown: 0 }
    );
    assert_eq!(
        tally(&vec![]),
        StatusTally { up_to_date: 0, outdated: 0, unknown: 0 }
    );
}

#[test]
fn the_counts_are_written_on_one_line() {
    assert_eq!(
        summary(&StatusTally { up_to_date: 3, outdated: 1, unknown: 12 }),
        "3 up-to-date, 1 outdated, 12 unknown"
    );
    assert_eq!(
        summary(&StatusTally { up_to_date: 0, outdated: 0, unknown: 0 }),
        "0 up-to-date, 0 outdated, 0 unknown"
    );
}

#[test]
fn the_report_lists_every_source() {
    let mut lock = LockFile::new();
    lock.set("https://github.com/acme/skills.git:a".to_string(), entry("u", "abc"));
    lock.set("https://github.com/acme/tools.git".to_string(), entry("u", "111"));
    lock.set("https://gitlab.com/acme/docs.git:docs".to_string(), entry("u", "222"));
    lock.set("/srv/repo:local".to_string(), entry("/srv/repo", "333"));
    let sources = vec![
        source("acme/skills", Some("a"), None),
        source("acme/skills", Some("b"), None),
        source("acme/tools", None, None),
        source("https://gitlab.com/acme/docs/-/tree/main", Some("docs"), None),
        source("/srv/repo", Some("local"), None),
    ];
    let answers = vec![
        Some("abc".to_string()),
        Some("abc".to_string()),
        Some("999".to_string()),
        None,
        Some("333".to_string()),
    ];
    let report = status_report(&sources, &lock, &answers);
    assert_eq!(
        report.statuses,
        vec![
            SyncStatus::UpToDate,
            SyncStatus::NotSynced,
            SyncStatus::Outdated,
            SyncStatus::Unknown,
            SyncStatus::Unknown,
        ]
    );
    assert_eq!(
        report.lines,
        vec![
            "[up-to-date] https://github.com/acme/skills.git -> a".to_string(),
            "[not synced] https://github.com/acme/skills.git -> b".to_string(),
            "[outdated] https://github.com/acme/tools.git -> /".to_string(),
            "[unknown] https://gitlab.com/acme/docs.git -> docs".to_string(),
            "[unknown] /srv/repo -> local".to_string(),
        ]
    );
    assert_eq!(
        report.tally,
        StatusTally { up_to_date: 1, outdated: 1, unknown: 2 }
    );
    assert_eq!(summary(&report.tally), "1 up-to-date, 1 outdated, 2 unknown");
}

#[test]
fn answers_that_are_missing_count_as_none() {
    let mut lock = LockFile::new();
    lock.set("https://github.com/acme/skills.git".to_string(), entry("u", "abc"));
    let sources = vec![source("acme/skills", None, None), source("acme/skills", None, None)];
    let report = status_report(&sources, &lock, &vec![Some("abc".to_string())]);
    assert_eq!(report.statuses, vec![SyncStatus::UpToDate, SyncStatus::Unknown]);
    let report = status_report(&vec![], &lock, &vec![]);
    assert!(report.statuses.is_empty());
    assert!(report.lines.is_empty());
    assert_eq!(report.tally, StatusTally { up_to_date: 0, outdated: 0, unknown: 0 });
}

#[test]
fn a_drive_letter_source_is_looked_up_under_its_own_text() {
    let mut lock = LockFile::new();
    lock.set("C:/repos/skills".to_string(), entry("C:/repos/skills", "abc"));
    let s = source("C:/repos/skills", None, None);
    assert_eq!(
        status_query(&s, &lock),
        StatusQuery {
            url: "C:/repos/skills".to_string(),
            git_ref: None,
            key: "C:/repos/skills".to_string(),
            ask: false,
        }
    );
    assert_eq!(source_status(&s, &lock, Some("abc")), SyncStatus::Unknown);
    assert_eq!(source_status(&s, &lock, None), SyncStatus::Unknown);
}
