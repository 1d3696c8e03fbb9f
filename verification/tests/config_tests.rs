use ringside::config::{Config, Source, CONFIG_FILE, LOCK_FILE, RINGSIDE_DIR};
use ringside::error::RingsideError;
use ringside::lock::lock_key;

#[test]
fn the_files_live_in_one_directory() {
    assert_eq!(RINGSIDE_DIR, ".ringside");
    assert_eq!(CONFIG_FILE, ".ringside/config.toml");
    assert_eq!(LOCK_FILE, ".ringside/lock.toml");
}

#[test]
fn the_default_configuration_is_empty() {
    let c = Config::default();
    assert_eq!(c.root, ".agents");
    assert!(c.sources.is_empty());
}

#[test]
fn a_root_may_be_named() {
    assert_eq!(
        Config::with_root(Some("vendor")),
        Config { root: "vendor".to_string(), sources: vec![] }
    );
    assert_eq!(Config::with_root(None), Config::default());
}

#[test]
fn adding_declares_what_the_input_resolves_to() {
    let mut c = Config::default();
    assert_eq!(
        c.add("https://github.com/acme/tools/tree/main/docs", Some("d")),
        Ok(())
    );
    assert_eq!(c.add("/local/repo", None), Ok(()));
    assert_eq!(c.root, ".agents");
    assert_eq!(
        c.sources,
        vec![
            Source {
                url: "https://github.com/acme/tools.git".to_string(),
                path: Some("docs".to_string()),
                dest: Some("d".to_string()),
                git_ref: Some("main".to_string()),
            },
            Source {
                url: "/local/repo".to_string(),
                path: None,
                dest: None,
                git_ref: None,
            },
        ]
    );
}

#[test]
fn a_source_is_declared_once() {
    let mut c = Config::default();
    assert_eq!(c.add("acme/skills", Some("a")), Ok(()));
    let before = c.clone();
    assert_eq!(
        c.add("acme/skills", Some("a")),
        Err(RingsideError::DuplicateSource)
    );
    assert_eq!(c, before);
    assert_eq!(
        c.add("https://github.com/acme/skills/tree/main", Some("a")),
        Err(RingsideError::DuplicateSource)
    );
    assert_eq!(c, before);
    assert_eq!(c.add("acme/skills", None), Ok(()));
    assert_eq!(
        c.add("acme/skills/other/path", None),
        Err(RingsideError::DuplicateSource)
    );
    assert_eq!(c.sources.len(), 2);
}

#[test]
fn one_address_under_two_destinations_is_two_sources() {
    let mut c = Config::default();
    assert_eq!(c.add("acme/skills", Some("a")), Ok(()));
    assert_eq!(c.add("acme/skills", Some("b")), Ok(()));
    assert_eq!(c.sources.len(), 2);
    assert_eq!(c.sources[0].url, c.sources[1].url);
    assert_eq!(c.sources[0].dest, Some("a".to_string()));
    assert_eq!(c.sources[1].dest, Some("b".to_string()));
    assert!(c.holds("https://github.com/acme/skills.git", Some("a")));
    assert!(c.holds("https://github.com/acme/skills.git", Some("b")));
    assert!(!c.holds("https://github.com/acme/skills.git", None));
    assert!(!c.holds("https://github.com/acme/skills.git", Some("c")));
    assert!(c.holds("acme/skills", Some("a")));
    assert!(c.holds("acme/skills/some/path", Some("b")));
    assert!(c.holds("https://github.com/acme/skills/tree/main", Some("a")));
    assert!(!c.holds("acme/skills", Some("c")));
    assert!(!c.holds("acme/tools", Some("a")));
    assert_ne!(
        lock_key(&c.sources[0].url, c.sources[0].dest.as_deref()),
        lock_key(&c.sources[1].url, c.sources[1].dest.as_deref())
    );
}

#[test]
fn a_source_is_told_by_what_its_address_resolves_to() {
    let written_by_hand = Source {
        url: "acme/skills".to_string(),
        path: None,
        dest: Some("a".to_string()),
        git_ref: None,
    };
    let mut c = Config { root: ".agents".to_string(), sources: vec![written_by_hand] };
    let before = c.clone();
    for input in [
        "acme/skills",
        "acme/skills/docs",
        "https://github.com/acme/skills.git",
        "https://github.com/acme/skills/tree/main/docs",
        "http://github.com/acme/skills.git/tree/v1",
    ] {
        assert!(c.holds(input, Some("a")), "{input:?}");
        assert_eq!(c.add(input, Some("a")), Err(RingsideError::DuplicateSource), "{input:?}");
        assert_eq!(c, before);
    }
    assert!(!c.holds("https://gitlab.com/acme/skills.git", Some("a")));
    assert!(!c.holds("acme/skills", None));
    assert_eq!(c.add("https://gitlab.com/acme/skills/-/tree/main", Some("a")), Ok(()));
    assert_eq!(c.sources.len(), 2);
}
