use regex::Regex;
use ringside::source::{
    parse_github_tree_url, parse_gitlab_tree_url, parse_shorthand, parse_source, ParsedSource,
};

fn parsed(url: &str, path: Option<&str>, git_ref: Option<&str>) -> ParsedSource {
    ParsedSource {
        url: url.to_string(),
        path: path.map(|p| p.to_string()),
        git_ref: git_ref.map(|r| r.to_string()),
    }
}

#[test]
fn test_github_shorthand() {
    let parsed = parse_source("vercel-labs/agent-skills");
    assert_eq!(
        parsed.url,
        "https://github.com/vercel-labs/agent-skills.git"
    );
    assert_eq!(parsed.path, None);
}

#[test]
fn test_github_shorthand_with_path() {
    let parsed = parse_source("vercel-labs/agent-skills/skills/react-best-practices");
    assert_eq!(
        parsed.url,
        "https://github.com/vercel-labs/agent-skills.git"
    );
    assert_eq!(parsed.path, Some("skills/react-best-practices".to_string()));
}

#[test]
fn test_github_tree_url() {
    let parsed = parse_source(
        "https://github.com/vercel-labs/agent-skills/tree/main/skills/react-best-practices",
    );
    assert_eq!(
        parsed.url,
        "https://github.com/vercel-labs/agent-skills.git"
    );
    assert_eq!(parsed.path, Some("skills/react-best-practices".to_string()));
    assert_eq!(parsed.git_ref, Some("main".to_string()));
}

#[test]
fn test_plain_github_url() {
    let parsed = parse_source("https://github.com/octocat/Hello-World.git");
    assert_eq!(parsed.url, "https://github.com/octocat/Hello-World.git");
    assert_eq!(parsed.path, None);
}

#[test]
fn test_local_path() {
    let parsed = parse_source("/path/to/local/repo");
    assert_eq!(parsed.url, "/path/to/local/repo");
    assert_eq!(parsed.path, None);
}

#[test]
fn shorthand_has_no_ref() {
    assert_eq!(
        parse_source("owner/repo"),
        parsed("https://github.com/owner/repo.git", None, None)
    );
    assert_eq!(
        parse_source("owner/repo/a/b"),
        parsed("https://github.com/owner/repo.git", Some("a/b"), None)
    );
}

#[test]
fn shorthand_keeps_a_git_suffix() {
    assert_eq!(
        parse_source("owner/repo.git"),
        parsed("https://github.com/owner/repo.git.git", None, None)
    );
}

#[test]
fn github_tree_without_path() {
    assert_eq!(
        parse_source("https://github.com/acme/tools/tree/v1.2"),
        parsed("https://github.com/acme/tools.git", None, Some("v1.2"))
    );
}

#[test]
fn github_tree_over_plain_http() {
    assert_eq!(
        parse_source("http://github.com/acme/tools/tree/main/docs"),
        parsed("https://github.com/acme/tools.git", Some("docs"), Some("main"))
    );
}

#[test]
fn gitlab_tree_url() {
    assert_eq!(
        parse_source("https://gitlab.com/acme/tools/-/tree/main/docs/guide"),
        parsed("https://gitlab.com/acme/tools.git", Some("docs/guide"), Some("main"))
    );
    assert_eq!(
        parse_gitlab_tree_url("http://gitlab.com/acme/tools/-/tree/dev"),
        Some(parsed("https://gitlab.com/acme/tools.git", None, Some("dev")))
    );
}

#[test]
fn each_service_has_its_own_marker() {
    let github_style_on_gitlab = "https://gitlab.com/acme/tools/tree/main";
    assert_eq!(parse_gitlab_tree_url(github_style_on_gitlab), None);
    assert_eq!(parse_github_tree_url(github_style_on_gitlab), None);
    assert_eq!(
        parse_source(github_style_on_gitlab),
        parsed(github_style_on_gitlab, None, None)
    );
    let gitlab_style_on_github = "https://github.com/acme/tools/-/tree/main";
    assert_eq!(parse_github_tree_url(gitlab_style_on_github), None);
    assert_eq!(
        parse_source(gitlab_style_on_github),
        parsed(gitlab_style_on_github, None, None)
    );
}

#[test]
fn git_suffix_of_a_tree_repository_is_normalized() {
    assert_eq!(
        parse_source("https://github.com/acme/tools.git/tree/main"),
        parsed("https://github.com/acme/tools.git", None, Some("main"))
    );
    assert_eq!(
        parse_source("https://github.com/acme/tools.git.git/tree/main/x"),
        parsed("https://github.com/acme/tools.git", Some("x"), Some("main"))
    );
    assert_eq!(
        parse_source("https://gitlab.com/acme/.git/-/tree/main"),
        parsed("https://gitlab.com/acme/.git", None, Some("main"))
    );
    assert_eq!(
        parse_source("https://github.com/acme/tools.gitx/tree/main"),
        parsed("https://github.com/acme/tools.gitx.git", None, Some("main"))
    );
}

#[test]
fn tree_url_needs_every_segment() {
    for input in [
        "https://github.com/acme/tools/tree/",
        "https://github.com/acme/tools/tree",
        "https://github.com/acme//tree/main",
        "https://github.com//tools/tree/main",
        "https://github.com/acme/tools/tree/main/",
        "https://github.com/acme/tools/x/tree/main",
        "https://github.com/acme/tools/tree//x",
        "https://github.com/acme/tools/tree/main/a\nb",
        "https://GitHub.com/acme/tools/tree/main",
        "ftp://github.com/acme/tools/tree/main",
        " https://github.com/acme/tools/tree/main",
    ] {
        assert_eq!(parse_github_tree_url(input), None, "{input:?}");
    }
}

#[test]
fn segments_may_hold_a_line_break_but_the_path_may_not() {
    assert_eq!(
        parse_source("https://github.com/ac\nme/tools/tree/ma\nin/p"),
        parsed("https://github.com/ac\nme/tools.git", Some("p"), Some("ma\nin"))
    );
    assert_eq!(parse_source("a/b/c\nd"), parsed("a/b/c\nd", None, None));
    assert_eq!(
        parse_source("a\nb/c"),
        parsed("https://github.com/a\nb/c.git", None, None)
    );
}

#[test]
fn shorthand_is_not_for_addresses_and_paths() {
    for input in [
        "http://example.com/a/b",
        "https://example.com/a/b",
        "git@github.com:owner/repo.git",
        "/abs/path",
        "./rel/path",
        "../rel/path",
        "~/x/y",
        "~user/x",
        "C:\\work\\repo",
        "plain",
        "",
        "owner/",
        "/repo",
        "owner//path",
        "owner/repo/",
    ] {
        assert_eq!(parse_shorthand(input), None, "{input:?}");
        assert_eq!(parse_source(input), parsed(input, None, None), "{input:?}");
    }
}

#[test]
fn other_schemes_fall_through() {
    for input in ["ssh://git@host/owner/repo.git", "file:///srv/git/repo", "git://host/x/y"] {
        assert_eq!(parse_source(input), parsed(input, None, None), "{input:?}");
    }
}

#[test]
fn a_path_under_a_drive_letter_is_taken_as_it_stands() {
    for input in ["C:/repos/skills", "C:/work/repo", "c:x/y", "z:/a/b/c", "C:\\work/repo", "D:a/b"] {
        assert_eq!(parse_shorthand(input), None, "{input:?}");
        assert_eq!(parse_source(input), parsed(input, None, None), "{input:?}");
    }
}

#[test]
fn a_colon_after_anything_but_a_letter_is_no_drive() {
    assert_eq!(
        parse_source("1:/work/repo"),
        parsed("https://github.com/1:/work.git", Some("repo"), None)
    );
    assert_eq!(
        parse_source("ä:x/y"),
        parsed("https://github.com/ä:x/y.git", None, None)
    );
    assert_eq!(
        parse_source("ab:c/d"),
        parsed("https://github.com/ab:c/d.git", None, None)
    );
}

#[test]
fn text_is_read_by_characters() {
    assert_eq!(
        parse_source("ünï/cödé/päth/ß"),
        parsed("https://github.com/ünï/cödé.git", Some("päth/ß"), None)
    );
    assert_eq!(
        parse_source("https://github.com/ünï/cödé.git/tree/重要/路径"),
        parsed("https://github.com/ünï/cödé.git", Some("路径"), Some("重要"))
    );
}

#[test]
fn resolution_settles_on_its_own_output() {
    for input in [
        "vercel-labs/agent-skills",
        "vercel-labs/agent-skills/skills/x",
        "https://github.com/acme/tools/tree/main/docs",
        "https://gitlab.com/acme/tools.git/-/tree/main",
        "https://github.com/octocat/Hello-World.git",
        "git@github.com:owner/repo.git",
        "/abs",
        "C:/work/repo",
        "a/.git",
    ] {
        let once = parse_source(input);
        let twice = parse_source(&once.url);
        assert_eq!(twice, parsed(&once.url, None, None), "{input:?}");
    }
}

fn tree_by_pattern(pattern: &Regex, host: &str, input: &str) -> Option<ParsedSource> {
    let caps = pattern.captures(input)?;
    let owner = caps.get(1)?.as_str();
    let repo = caps.get(2)?.as_str().trim_end_matches(".git");
    let git_ref = caps.get(3)?.as_str();
    let path = caps.get(4).map(|m| m.as_str().to_string());
    Some(ParsedSource {
        url: format!("https://{host}/{owner}/{repo}.git"),
        path,
        git_ref: Some(git_ref.to_string()),
    })
}

fn shorthand_by_pattern(pattern: &Regex, input: &str) -> Option<ParsedSource> {
    if ["http://", "https://", "git@", "/", "./", "../", "~"]
        .iter()
        .any(|p| input.starts_with(p))
    {
        return None;
    }
    let mut first_two = input.chars();
    if let (Some(letter), Some(':')) = (first_two.next(), first_two.next()) {
        if letter.is_ascii_alphabetic() {
            return None;
        }
    }
    let caps = pattern.captures(input)?;
    let owner = caps.get(1)?.as_str();
    let repo = caps.get(2)?.as_str();
    let path = caps.get(3).map(|m| m.as_str().to_string());
    Some(ParsedSource {
        url: format!("https://github.com/{owner}/{repo}.git"),
        path,
        git_ref: None,
    })
}

fn words(alphabet: &[&str], longest: usize) -> Vec<String> {
    let mut all = vec![String::new()];
    let mut last = vec![String::new()];
    for _ in 0..longest {
        let mut next = Vec::new();
        for w in &last {
            for a in alphabet {
                next.push(format!("{w}{a}"));
            }
        }
        all.extend(next.iter().cloned());
        last = next;
    }
    all
}

#[test]
fn the_grammar_is_that_of_the_regular_expressions_but_for_drive_letters() {
    let github =
        Regex::new(r"^https?://github\.com/([^/]+)/([^/]+)/tree/([^/]+)(?:/(.+))?$").unwrap();
    let gitlab =
        Regex::new(r"^https?://gitlab\.com/([^/]+)/([^/]+)/-/tree/([^/]+)(?:/(.+))?$").unwrap();
    let shorthand = Regex::new(r"^([^/]+)/([^/]+)(?:/(.+))?$").unwrap();
    let heads = [
        "",
        "https://github.com/",
        "http://github.com/",
        "https://gitlab.com/",
        "http://gitlab.com/",
        "https://github.com/o/r/tree/",
        "https://github.com/o/r.git/tree/",
        "https://gitlab.com/o/r/-/tree/",
        "https://gitlab.com/o/r.git.git/-/tree/",
        "https://github.com/o/",
        "https://gitlab.com/o/",
        "o/",
        "o/r/",
        "./",
        "~",
        "git@",
        "C:",
        "c:/",
        "1:",
        "Cx:",
    ];
    let tails = words(&["a", "/", "\n", ".git", "tree", "-"], 5);
    let mut seen = 0;
    let mut trees = 0;
    let mut shorthands = 0;
    for head in heads {
        for tail in &tails {
            let input = format!("{head}{tail}");
            let by_github = tree_by_pattern(&github, "github.com", &input);
            let by_gitlab = tree_by_pattern(&gitlab, "gitlab.com", &input);
            let by_shorthand = shorthand_by_pattern(&shorthand, &input);
            assert_eq!(parse_github_tree_url(&input), by_github, "{input:?}");
            assert_eq!(parse_gitlab_tree_url(&input), by_gitlab, "{input:?}");
            assert_eq!(parse_shorthand(&input), by_shorthand, "{input:?}");
            if by_github.is_some() || by_gitlab.is_some() {
                trees += 1;
            }
            if by_shorthand.is_some() {
                shorthands += 1;
            }
            let expected = by_github
                .or(by_gitlab)
                .or(by_shorthand)
                .unwrap_or_else(|| parsed(&input, None, None));
            assert_eq!(parse_source(&input), expected, "{input:?}");
            seen += 1;
        }
    }
    assert_eq!(seen, heads.len() * tails.len());
    assert!(trees > 1000);
    assert!(shorthands > 1000);
}
