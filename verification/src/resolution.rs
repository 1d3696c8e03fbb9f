//! What holds of the resolution of source references, whatever the input.

use vstd::prelude::*;
use crate::source::{
    clone_url, git_suffix, github_domain, github_marker, gitlab_domain, gitlab_marker,
    is_marker, lemma_bases_apart, lemma_markers, lemma_piece_lacks, lemma_reads_cut,
    lemma_short_reads_cut, lemma_shorthand_reading_unique, lemma_tree_reading_unique,
    plain_base, reads_as_shorthand, reads_as_tree, resolved, secure_base, short_parts_ok,
    short_text, shorthand_reading, shorthand_source, shuns_shorthand, tree_parts_ok,
    tree_reading, tree_source, tree_text, trim_end, verbatim, ShortParts, TreeParts,
};
use crate::git::looks_local;
use crate::text::{begins_with, ends_with};

verus! {

/// The base of an address on the service at `domain`, with or without
/// transport security.
pub open spec fn base_of(domain: Seq<char>, secure: bool) -> Seq<char> {
    if secure {
        secure_base(domain)
    } else {
        plain_base(domain)
    }
}

/// `s` is of none of the forms that resolution rewrites: it is no tree
/// address on either hosting service, and no shorthand.
pub open spec fn falls_through(s: Seq<char>) -> bool {
    &&& tree_reading(s, github_domain(), github_marker()) is None
    &&& tree_reading(s, gitlab_domain(), gitlab_marker()) is None
    &&& shorthand_reading(s) is None
}

/// A text that is written out from the pieces of a tree reads as that tree
/// and as no other.
pub proof fn lemma_tree_text_reads(domain: Seq<char>, marker: Seq<char>, secure: bool, p: TreeParts)
    requires
        is_marker(marker),
        tree_parts_ok(p),
    ensures
        tree_reading(tree_text(base_of(domain, secure), marker, p), domain, marker) == Some(
            tree_source(domain, p),
        ),
{
    let s = tree_text(base_of(domain, secure), marker, p);
    assert(reads_as_tree(s, domain, marker, p));
    let q = choose|q: TreeParts| reads_as_tree(s, domain, marker, q);
    lemma_tree_reading_unique(s, domain, marker, p, q);
}

/// No text begins with a base of the first service and with one of the
/// second.
pub proof fn lemma_services_apart(s: Seq<char>, first: bool, second: bool)
    ensures
        !(begins_with(s, base_of(github_domain(), first)) && begins_with(
            s,
            base_of(gitlab_domain(), second),
        )),
{
    reveal_strlit("https://");
    reveal_strlit("http://");
    reveal_strlit("github.com");
    reveal_strlit("gitlab.com");
    let x = base_of(github_domain(), first);
    let y = base_of(gitlab_domain(), second);
    if begins_with(s, x) && begins_with(s, y) {
        assert(s.subrange(0, x.len() as int)[4] == x[4]);
        assert(s.subrange(0, y.len() as int)[4] == y[4]);
        assert(s.subrange(0, x.len() as int)[10] == x[10]);
        assert(s.subrange(0, y.len() as int)[10] == y[10]);
        assert(s.subrange(0, x.len() as int)[11] == x[11]);
        assert(s.subrange(0, y.len() as int)[11] == y[11]);
    }
}

/// A text that reads as a tree begins with a base of its service.
pub proof fn lemma_tree_begins_with_base(s: Seq<char>, domain: Seq<char>, marker: Seq<char>, p: TreeParts)
    requires
        is_marker(marker),
        reads_as_tree(s, domain, marker, p),
    ensures
        begins_with(s, secure_base(domain)) || begins_with(s, plain_base(domain)),
{
    lemma_reads_cut(secure_base(domain), marker, p);
    lemma_reads_cut(plain_base(domain), marker, p);
}

/// A text that reads as a tree begins like an address: with `https://` or
/// with `http://`.
pub proof fn lemma_tree_begins_like_address(
    s: Seq<char>,
    domain: Seq<char>,
    marker: Seq<char>,
    p: TreeParts,
)
    requires
        is_marker(marker),
        reads_as_tree(s, domain, marker, p),
    ensures
        begins_with(s, "https://"@) || begins_with(s, "http://"@),
{
    reveal_strlit("https://");
    reveal_strlit("http://");
    lemma_tree_begins_with_base(s, domain, marker, p);
    if begins_with(s, secure_base(domain)) {
        assert(s.subrange(0, 8) =~= s.subrange(0, secure_base(domain).len() as int).subrange(0, 8));
        assert(s.subrange(0, 8) =~= "https://"@);
    } else {
        assert(s.subrange(0, 7) =~= s.subrange(0, plain_base(domain).len() as int).subrange(0, 7));
        assert(s.subrange(0, 7) =~= "http://"@);
    }
}

/// The address of a tree on the first hosting service, with or without
/// transport security, resolves to the pieces between its slashes: the clone
/// address of owner and repository, the ref, and the trailing path.
pub proof fn law_github_tree_resolves(secure: bool, p: TreeParts)
    requires
        tree_parts_ok(p),
    ensures
        resolved(tree_text(base_of(github_domain(), secure), github_marker(), p)) == tree_source(
            github_domain(),
            p,
        ),
{
    lemma_markers();
    lemma_tree_text_reads(github_domain(), github_marker(), secure, p);
}

/// The same of the second hosting service.
pub proof fn law_gitlab_tree_resolves(secure: bool, p: TreeParts)
    requires
        tree_parts_ok(p),
    ensures
        resolved(tree_text(base_of(gitlab_domain(), secure), gitlab_marker(), p)) == tree_source(
            gitlab_domain(),
            p,
        ),
{
    lemma_markers();
    let s = tree_text(base_of(gitlab_domain(), secure), gitlab_marker(), p);
    lemma_tree_text_reads(gitlab_domain(), gitlab_marker(), secure, p);
    lemma_reads_cut(base_of(gitlab_domain(), secure), gitlab_marker(), p);
    assert forall|q: TreeParts| !reads_as_tree(s, github_domain(), github_marker(), q) by {
        if reads_as_tree(s, github_domain(), github_marker(), q) {
            lemma_tree_begins_with_base(s, github_domain(), github_marker(), q);
            lemma_services_apart(s, true, secure);
            lemma_services_apart(s, false, secure);
        }
    }
}

/// A text that begins like an address is no shorthand, and a text that is
/// one is no tree address.
pub proof fn lemma_shorthand_is_no_tree(s: Seq<char>, domain: Seq<char>, marker: Seq<char>)
    requires
        is_marker(marker),
        !shuns_shorthand(s),
    ensures
        tree_reading(s, domain, marker) is None,
{
    reveal_strlit("https://");
    reveal_strlit("http://");
    assert forall|q: TreeParts| !reads_as_tree(s, domain, marker, q) by {
        if reads_as_tree(s, domain, marker, q) {
            lemma_tree_begins_like_address(s, domain, marker, q);
        }
    }
}

/// A shorthand `<owner>/<repo>` or `<owner>/<repo>/<path>` resolves to the
/// clone address `https://github.com/<owner>/<repo>.git`, to no ref, and to
/// the trailing path where it has one.
pub proof fn law_shorthand_resolves(p: ShortParts)
    requires
        short_parts_ok(p),
        !shuns_shorthand(short_text(p)),
    ensures
        resolved(short_text(p)) == shorthand_source(p),
        resolved(short_text(p)).url == clone_url(github_domain(), p.owner, p.repo),
        resolved(short_text(p)).git_ref is None,
        resolved(short_text(p)).path == p.path,
{
    let s = short_text(p);
    lemma_markers();
    lemma_shorthand_is_no_tree(s, github_domain(), github_marker());
    lemma_shorthand_is_no_tree(s, gitlab_domain(), gitlab_marker());
    assert(reads_as_shorthand(s, p));
    let q = choose|q: ShortParts| reads_as_shorthand(s, q);
    lemma_shorthand_reading_unique(s, p, q);
}

/// What is left of a text without `c` once trailing words are trimmed holds
/// no `c` either.
pub proof fn lemma_trim_end_lacks(s: Seq<char>, word: Seq<char>, c: char)
    requires
        !s.contains(c),
    ensures
        !trim_end(s, word).contains(c),
    decreases s.len(),
{
    if word.len() > 0 && ends_with(s, word) {
        let shorter = s.subrange(0, s.len() - word.len());
        assert forall|i: int| 0 <= i < shorter.len() implies shorter[i] != c by {
            assert(shorter[i] == s[i]);
        }
        lemma_trim_end_lacks(shorter, word, c);
    }
}

/// A clone address whose owner and repository hold no slash is of none of
/// the forms that resolution rewrites: it resolves to itself.
pub proof fn lemma_clone_url_settled(domain: Seq<char>, owner: Seq<char>, repo: Seq<char>)
    requires
        !domain.contains('/'),
        !owner.contains('/'),
        !repo.contains('/'),
    ensures
        falls_through(clone_url(domain, owner, repo)),
        resolved(clone_url(domain, owner, repo)) == verbatim(clone_url(domain, owner, repo)),
{
    reveal_strlit("https://");
    reveal_strlit("http://");
    reveal_strlit(".git");
    lemma_markers();
    let u = clone_url(domain, owner, repo);
    let d_end: int = 8 + domain.len() as int;
    let o_end: int = d_end + 1 + owner.len();
    let r_end: int = o_end + 1 + repo.len();
    assert(u.subrange(0, 8) =~= "https://"@);
    assert(u.subrange(8, d_end) =~= domain);
    assert(u.subrange(d_end + 1, o_end) =~= owner);
    assert(u.subrange(o_end + 1, r_end) =~= repo);
    assert(u.subrange(r_end, r_end + 4) =~= ".git"@);
    assert(u.len() == r_end + 4);
    lemma_piece_lacks(u, 8, domain, '/');
    lemma_piece_lacks(u, d_end + 1, owner, '/');
    lemma_piece_lacks(u, o_end + 1, repo, '/');
    lemma_piece_lacks(u, r_end, ".git"@, '/');
    assert(forall|j: int| 8 <= j < u.len() && u[j] == '/' ==> j == d_end || j == o_end);
    assert(shuns_shorthand(u));
    assert forall|d: Seq<char>, m: Seq<char>, q: TreeParts| is_marker(m) implies !reads_as_tree(
        u,
        d,
        m,
        q,
    ) by {
        if reads_as_tree(u, d, m, q) {
            lemma_tree_begins_with_base(u, d, m, q);
            lemma_reads_cut(secure_base(d), m, q);
            lemma_reads_cut(plain_base(d), m, q);
            if u == tree_text(secure_base(d), m, q) {
                let e: int = 8 + d.len() as int;
                let a: int = e + 1 + q.owner.len();
                let b: int = a + 1 + q.repo.len();
                assert(u.subrange(0, secure_base(d).len() as int)[e] == secure_base(d)[e]);
                assert(u[e] == '/');
                assert(u[a] == '/');
                assert(u.subrange(b, b + m.len())[0] == u[b]);
                assert(u[b] == '/');
            } else {
                assert(u.subrange(0, plain_base(d).len() as int)[4] == plain_base(d)[4]);
                assert(u.subrange(0, 8)[4] == u[4]);
            }
        }
    }
}

/// Resolution settles: the address that a reference resolves to resolves to
/// itself, with no subpath and no ref.
pub proof fn law_resolution_settles(s: Seq<char>)
    ensures
        resolved(resolved(s).url) == verbatim(resolved(s).url),
{
    reveal_strlit("github.com");
    reveal_strlit("gitlab.com");
    if tree_reading(s, github_domain(), github_marker()) is Some {
        let p = choose|p: TreeParts| reads_as_tree(s, github_domain(), github_marker(), p);
        lemma_trim_end_lacks(p.repo, git_suffix(), '/');
        lemma_clone_url_settled(github_domain(), p.owner, trim_end(p.repo, git_suffix()));
    } else if tree_reading(s, gitlab_domain(), gitlab_marker()) is Some {
        let p = choose|p: TreeParts| reads_as_tree(s, gitlab_domain(), gitlab_marker(), p);
        lemma_trim_end_lacks(p.repo, git_suffix(), '/');
        lemma_clone_url_settled(gitlab_domain(), p.owner, trim_end(p.repo, git_suffix()));
    } else if shorthand_reading(s) is Some {
        let p = choose|p: ShortParts| reads_as_shorthand(s, p);
        lemma_clone_url_settled(github_domain(), p.owner, p.repo);
    }
}

/// A text that begins like a remote of the secure shell (`git@`) or names a
/// place in the local file system resolves to itself.
pub proof fn law_shunned_text_verbatim(s: Seq<char>)
    requires
        shuns_shorthand(s),
        !begins_with(s, "http://"@),
        !begins_with(s, "https://"@),
    ensures
        falls_through(s),
        resolved(s) == verbatim(s),
{
    reveal_strlit("https://");
    reveal_strlit("http://");
    lemma_markers();
    assert forall|d: Seq<char>, m: Seq<char>, q: TreeParts| is_marker(m) implies !reads_as_tree(
        s,
        d,
        m,
        q,
    ) by {
        if reads_as_tree(s, d, m, q) {
            lemma_tree_begins_like_address(s, d, m, q);
        }
    }
}

/// A text without a slash resolves to itself.
pub proof fn law_slashless_text_verbatim(s: Seq<char>)
    requires
        !s.contains('/'),
    ensures
        falls_through(s),
        resolved(s) == verbatim(s),
{
    lemma_markers();
    assert forall|d: Seq<char>, m: Seq<char>, q: TreeParts| is_marker(m) implies !reads_as_tree(
        s,
        d,
        m,
        q,
    ) by {
        if reads_as_tree(s, d, m, q) {
            lemma_reads_cut(secure_base(d), m, q);
            lemma_reads_cut(plain_base(d), m, q);
            let n: int = if s == tree_text(secure_base(d), m, q) {
                secure_base(d).len() as int
            } else {
                plain_base(d).len() as int
            };
            let a: int = n + q.owner.len();
            assert(s[a] == '/');
        }
    }
    assert forall|q: ShortParts| !reads_as_shorthand(s, q) by {
        if reads_as_shorthand(s, q) {
            lemma_short_reads_cut(q);
            assert(s[q.owner.len() as int] == '/');
        }
    }
}

/// A text that names a place in the local file system begins neither like
/// an address nor like a remote of the secure shell.
pub proof fn lemma_local_is_no_address(s: Seq<char>)
    requires
        looks_local(s),
    ensures
        !begins_with(s, "http://"@),
        !begins_with(s, "https://"@),
        !begins_with(s, "git@"@),
{
    reveal_strlit("/");
    reveal_strlit("./");
    reveal_strlit("../");
    reveal_strlit("~");
    reveal_strlit("http://");
    reveal_strlit("https://");
    reveal_strlit("git@");
    assert(s.len() > 0);
    assert(s[0] == '/' || s[0] == '.' || s[0] == '~' || s[1] == ':') by {
        if begins_with(s, "/"@) {
            assert(s.subrange(0, 1)[0] == s[0]);
        } else if begins_with(s, "./"@) {
            assert(s.subrange(0, 2)[0] == s[0]);
        } else if begins_with(s, "../"@) {
            assert(s.subrange(0, 3)[0] == s[0]);
        } else if begins_with(s, "~"@) {
            assert(s.subrange(0, 1)[0] == s[0]);
        }
    }
    if begins_with(s, "http://"@) {
        assert(s.subrange(0, 7)[0] == s[0]);
        assert(s.subrange(0, 7)[1] == s[1]);
    }
    if begins_with(s, "https://"@) {
        assert(s.subrange(0, 8)[0] == s[0]);
        assert(s.subrange(0, 8)[1] == s[1]);
    }
    if begins_with(s, "git@"@) {
        assert(s.subrange(0, 4)[0] == s[0]);
        assert(s.subrange(0, 4)[1] == s[1]);
    }
}

/// A path in the local file system is of none of the forms that resolution
/// rewrites, and resolves to itself: any text that begins with `/`, `./`,
/// `../` or `~`, or with a drive letter and a colon.
pub proof fn law_local_path_verbatim(s: Seq<char>)
    requires
        looks_local(s),
    ensures
        falls_through(s),
        resolved(s) == verbatim(s),
{
    lemma_local_is_no_address(s);
    law_shunned_text_verbatim(s);
}

} // verus!
