use ringside::lock::{lock_key, LockFile, LockedSource};

fn entry(url: &str, commit: &str) -> LockedSource {
    LockedSource {
        url: url.to_string(),
        commit: commit.to_string(),
        synced_at: "2024-05-01T10:00:00+00:00".to_string(),
    }
}

#[test]
fn the_key_is_address_and_destination() {
    assert_eq!(lock_key("https://x/y.git", None), "https://x/y.git");
    assert_eq!(
        lock_key("https://x/y.git", Some("skills")),
        "https://x/y.git:skills"
    );
    assert_eq!(lock_key("https://x/y.git", Some("")), "https://x/y.git:");
    assert_eq!(lock_key("", None), "");
    assert_eq!(lock_key("", Some("d")), ":d");
}

#[test]
fn the_key_tells_whether_a_destination_is_declared() {
    for url in ["", "a", "https://github.com/o/r.git", "a:b"] {
        for dest in ["", "d", "a/b", ":"] {
            assert_ne!(lock_key(url, None), lock_key(url, Some(dest)));
        }
    }
}

#[test]
fn keys_differ_for_different_pairs_without_colons() {
    let urls = ["a", "b", "ab", "a/b"];
    let dests = [None, Some(""), Some("a"), Some("b"), Some("ab")];
    for u1 in urls {
        for d1 in dests {
            for u2 in urls {
                for d2 in dests {
                    let same = u1 == u2 && d1 == d2;
                    assert_eq!(lock_key(u1, d1) == lock_key(u2, d2), same);
                }
            }
        }
    }
}

#[test]
fn a_colon_in_the_address_can_make_keys_meet() {
    assert_eq!(lock_key("a:b", None), lock_key("a", Some("b")));
}

#[test]
fn an_empty_table_holds_nothing() {
    let table = LockFile::new();
    assert_eq!(table.get("k"), None);
    assert!(table.entries().is_empty());
    assert_eq!(LockFile::default().get(""), None);
}

#[test]
fn what_is_set_is_got() {
    let mut table = LockFile::new();
    table.set("k1".to_string(), entry("u1", "c1"));
    table.set("k2".to_string(), entry("u2", "c2"));
    assert_eq!(table.get("k1"), Some(&entry("u1", "c1")));
    assert_eq!(table.get("k2"), Some(&entry("u2", "c2")));
    assert_eq!(table.get("k3"), None);
    assert_eq!(table.get("k"), None);
    assert_eq!(table.entries().len(), 2);
}

#[test]
fn setting_a_key_again_replaces_its_entry() {
    let mut table = LockFile::new();
    table.set("k1".to_string(), entry("u1", "c1"));
    table.set("k2".to_string(), entry("u2", "c2"));
    table.set("k1".to_string(), entry("u1", "c9"));
    assert_eq!(table.get("k1"), Some(&entry("u1", "c9")));
    assert_eq!(table.get("k2"), Some(&entry("u2", "c2")));
    let entries = table.entries();
    assert_eq!(entries.len(), 2);
    let mut keys: Vec<&str> = entries.iter().map(|e| e.0.as_str()).collect();
    keys.sort();
    assert_eq!(keys, vec!["k1", "k2"]);
}

#[test]
fn an_entry_is_copied_field_by_field() {
    let e = entry("u", "c");
    assert_eq!(e.copy(), e);
}
