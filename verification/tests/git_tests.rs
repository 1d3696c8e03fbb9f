use ringside::error::RingsideError;
use ringside::git::{
    clone_commands, commit_of_answer, commit_of_listing, git_failure, is_local_path,
    is_white_space, remote_query, GitCommand, TargetUse,
};

fn strings(items: &[&str]) -> Vec<String> {
    items.iter().map(|s| s.to_string()).collect()
}

fn clone_of(source: &str, args: &[&str]) -> GitCommand {
    GitCommand {
        args: strings(args),
        target: TargetUse::LastArgument,
        context: format!("Failed to clone {source}"),
    }
}

#[test]
fn local_paths_are_told_by_how_they_begin() {
    for local in [
        "/abs", "/", "./rel", "../rel", "~/x", "~", "~user", "C:\\x", "C:/x", "c:", "z:", "A:", "Z:x",
    ] {
        assert!(is_local_path(local), "{local:?}");
    }
    for remote in [
        "",
        "a",
        ":",
        ".",
        "..",
        "./",
        ".x/y",
        "..x",
        "owner/repo",
        "https://github.com/o/r.git",
        "git@github.com:o/r.git",
        "ab:c",
        " /abs",
        "1:2",
        "1:x",
        "ä:",
        "@:",
        "[:",
        "`:",
        "{:",
        "::",
    ] {
        assert_eq!(is_local_path(remote), remote == "./", "{remote:?}");
    }
}

#[test]
fn a_remote_source_is_cloned_shallow() {
    let url = "https://github.com/o/r.git";
    assert_eq!(
        clone_commands(url, None, None),
        vec![clone_of(url, &["clone", "--depth", "1", url])]
    );
    assert_eq!(
        clone_commands(url, Some("v2"), None),
        vec![clone_of(url, &["clone", "--depth", "1", "--branch", "v2", url])]
    );
}

#[test]
fn a_local_source_is_cloned_whole() {
    assert_eq!(
        clone_commands("/srv/repo", None, None),
        vec![clone_of("/srv/repo", &["clone", "/srv/repo"])]
    );
    assert_eq!(
        clone_commands("../repo", Some("main"), None),
        vec![clone_of("../repo", &["clone", "--branch", "main", "../repo"])]
    );
    assert_eq!(
        clone_commands("~/repo", Some("main"), Some("docs")),
        vec![clone_of("~/repo", &["clone", "--branch", "main", "~/repo"])]
    );
    assert_eq!(
        clone_commands("C:\\repo", None, Some("docs")),
        vec![clone_of("C:\\repo", &["clone", "C:\\repo"])]
    );
}

#[test]
fn a_subpath_of_a_remote_source_is_fetched_sparse() {
    let url = "https://gitlab.com/o/r.git";
    let narrow = |path: &str| GitCommand {
        args: strings(&["sparse-checkout", "set", path]),
        target: TargetUse::WorkingDirectory,
        context: format!("Failed to set sparse-checkout for path '{path}'"),
    };
    assert_eq!(
        clone_commands(url, None, Some("docs/guide")),
        vec![
            clone_of(
                url,
                &["clone", "--filter=blob:none", "--sparse", "--depth", "1", url]
            ),
            narrow("docs/guide"),
        ]
    );
    assert_eq!(
        clone_commands(url, Some("main"), Some("x")),
        vec![
            clone_of(
                url,
                &[
                    "clone",
                    "--filter=blob:none",
                    "--sparse",
                    "--depth",
                    "1",
                    "--branch",
                    "main",
                    url
                ]
            ),
            narrow("x"),
        ]
    );
}

#[test]
fn a_command_is_copied_field_by_field() {
    for c in clone_commands("https://x/y.git", Some("r"), Some("p")) {
        assert_eq!(c.copy(), c);
    }
}

#[test]
fn a_failed_command_reports_what_git_wrote() {
    assert_eq!(
        git_failure("Failed to clone x", "fatal: not found\n"),
        RingsideError::GitError("Failed to clone x: fatal: not found\n".to_string())
    );
    assert_eq!(git_failure("", ""), RingsideError::GitError(": ".to_string()));
}

#[test]
fn the_remote_is_asked_for_the_ref_or_the_head() {
    assert_eq!(
        remote_query("https://x/y.git", None),
        Some(strings(&["ls-remote", "https://x/y.git", "HEAD"]))
    );
    assert_eq!(
        remote_query("https://x/y.git", Some("v1")),
        Some(strings(&["ls-remote", "https://x/y.git", "v1"]))
    );
    assert_eq!(
        remote_query("git@host:o/r.git", Some("main")),
        Some(strings(&["ls-remote", "git@host:o/r.git", "main"]))
    );
}

#[test]
fn a_local_path_has_no_remote_to_ask() {
    for local in ["/abs", "./rel", "../rel", "~/x", "C:\\x"] {
        assert_eq!(remote_query(local, None), None);
        assert_eq!(remote_query(local, Some("main")), None);
    }
}

#[test]
fn the_commit_is_the_first_word_of_the_listing() {
    assert_eq!(
        commit_of_listing("9fceb02d0ae598e95dc970b74767f19372d61af8\tHEAD\n"),
        Some("9fceb02d0ae598e95dc970b74767f19372d61af8".to_string())
    );
    assert_eq!(
        commit_of_listing("abc\trefs/heads/main\ndef\trefs/tags/main\n"),
        Some("abc".to_string())
    );
    assert_eq!(commit_of_listing("abc"), Some("abc".to_string()));
    assert_eq!(commit_of_listing("  \n abc def"), Some("abc".to_string()));
    assert_eq!(commit_of_listing("\u{3000}x\u{2003}y"), Some("x".to_string()));
    assert_eq!(commit_of_listing("a\u{200b}b c"), Some("a\u{200b}b".to_string()));
    assert_eq!(commit_of_listing(""), None);
    assert_eq!(commit_of_listing(" \t\r\n\u{a0}\u{85}"), None);
}

#[test]
fn the_first_word_is_what_splitting_at_white_space_gives() {
    let pieces = ["", "a", "bc", " ", "\t", "\n", "\u{a0}", "\u{2028}", "\u{feff}", "é"];
    for a in pieces {
        for b in pieces {
            for c in pieces {
                for d in pieces {
                    let listing = format!("{a}{b}{c}{d}");
                    assert_eq!(
                        commit_of_listing(&listing),
                        listing.split_whitespace().next().map(|w| w.to_string()),
                        "{listing:?}"
                    );
                }
            }
        }
    }
}

#[test]
fn a_failed_query_names_no_commit() {
    assert_eq!(commit_of_answer(true, "abc\tHEAD\n"), Some("abc".to_string()));
    assert_eq!(commit_of_answer(true, ""), None);
    assert_eq!(commit_of_answer(false, "abc\tHEAD\n"), None);
}

#[test]
fn white_space_is_that_of_unicode() {
    let mut spaces = 0;
    for n in 0..=0x10FFFFu32 {
        if let Some(c) = char::from_u32(n) {
            assert_eq!(is_white_space(c), c.is_whitespace(), "U+{n:04X}");
            if c.is_whitespace() {
                spaces += 1;
            }
        }
    }
    assert_eq!(spaces, 25);
}
