//! Source references: the forms in which a source may be written, and the
//! canonical clone address, subpath and ref that each form stands for.

use vstd::prelude::*;
use vstd::string::StringExecFns;
use vstd::string::StrSliceExecFns;
use crate::git::{is_local_chars, looks_local};
use crate::text::{begins_with, chars_of, ends_with, find_char, has_at, holds_at, opt_text};

verus! {

/// A source reference, resolved.
#[derive(Debug, Clone, PartialEq, Eq)]
pub struct ParsedSource {
    pub url: String,
    pub path: Option<String>,
    pub git_ref: Option<String>,
}

/// What a [`ParsedSource`] holds, as text.
pub struct ParsedText {
    pub url: Seq<char>,
    pub path: Option<Seq<char>>,
    pub git_ref: Option<Seq<char>>,
}

impl View for ParsedSource {
    type V = ParsedText;

    open spec fn view(&self) -> ParsedText {
        ParsedText { url: self.url@, path: opt_text(self.path), git_ref: opt_text(self.git_ref) }
    }
}

/// The text of an optional resolved source.
pub open spec fn opt_parsed(o: Option<ParsedSource>) -> Option<ParsedText> {
    match o {
        Some(p) => Some(p@),
        None => None,
    }
}

/// The pieces that a browser address of a tree is made of.
pub struct TreeParts {
    pub owner: Seq<char>,
    pub repo: Seq<char>,
    pub git_ref: Seq<char>,
    pub path: Option<Seq<char>>,
}

/// A path segment: not empty, and without a slash.
pub open spec fn is_segment(s: Seq<char>) -> bool {
    s.len() > 0 && !s.contains('/')
}

/// What may follow the last slash of a reference: not empty, and on one line.
pub open spec fn is_trail(s: Seq<char>) -> bool {
    s.len() > 0 && !s.contains('\n')
}

/// A slash and the trailing path, where there is one.
pub open spec fn trail_text(path: Option<Seq<char>>) -> Seq<char> {
    match path {
        Some(p) => seq!['/'] + p,
        None => Seq::empty(),
    }
}

/// `s` without any number of trailing repetitions of `word`.
pub open spec fn trim_end(s: Seq<char>, word: Seq<char>) -> Seq<char>
    decreases s.len(),
{
    if word.len() > 0 && ends_with(s, word) {
        trim_end(s.subrange(0, s.len() - word.len()), word)
    } else {
        s
    }
}

/// The suffix that a clone address ends in.
pub open spec fn git_suffix() -> Seq<char> {
    ".git"@
}

/// `https://`, the domain and a slash.
pub open spec fn secure_base(domain: Seq<char>) -> Seq<char> {
    "https://"@ + domain + seq!['/']
}

/// `http://`, the domain and a slash.
pub open spec fn plain_base(domain: Seq<char>) -> Seq<char> {
    "http://"@ + domain + seq!['/']
}

/// The clone address of a repository on a hosting service.
pub open spec fn clone_url(domain: Seq<char>, owner: Seq<char>, repo: Seq<char>) -> Seq<char> {
    secure_base(domain) + owner + seq!['/'] + repo + git_suffix()
}

/// Each piece is of the shape that its place asks for.
pub open spec fn tree_parts_ok(p: TreeParts) -> bool {
    &&& is_segment(p.owner)
    &&& is_segment(p.repo)
    &&& is_segment(p.git_ref)
    &&& p.path matches Some(t) ==> is_trail(t)
}

/// The address of a tree, written out from its pieces after `base`.
pub open spec fn tree_text(base: Seq<char>, marker: Seq<char>, p: TreeParts) -> Seq<char> {
    base + p.owner + seq!['/'] + p.repo + marker + p.git_ref + trail_text(p.path)
}

/// `s` is the address of the tree `p` on the service at `domain`, whose
/// addresses put `marker` between repository and ref.
pub open spec fn reads_as_tree(
    s: Seq<char>,
    domain: Seq<char>,
    marker: Seq<char>,
    p: TreeParts,
) -> bool {
    &&& tree_parts_ok(p)
    &&& (s == tree_text(secure_base(domain), marker, p) || s == tree_text(
        plain_base(domain),
        marker,
        p,
    ))
}

/// What the tree `p` on the service at `domain` resolves to: the clone
/// address of its repository, with one `.git` at the end however many the
/// address had, the ref and the trailing path.
pub open spec fn tree_source(domain: Seq<char>, p: TreeParts) -> ParsedText {
    ParsedText {
        url: clone_url(domain, p.owner, trim_end(p.repo, git_suffix())),
        path: p.path,
        git_ref: Some(p.git_ref),
    }
}

/// What `s` resolves to as the address of a tree, if it is one.
pub open spec fn tree_reading(s: Seq<char>, domain: Seq<char>, marker: Seq<char>) -> Option<
    ParsedText,
> {
    if exists|p: TreeParts| reads_as_tree(s, domain, marker, p) {
        Some(tree_source(domain, choose|p: TreeParts| reads_as_tree(s, domain, marker, p)))
    } else {
        None
    }
}

/// A marker stands between two segments: it begins and ends with a slash.
pub open spec fn is_marker(m: Seq<char>) -> bool {
    m.len() >= 2 && m[0] == '/' && m[m.len() - 1] == '/'
}

/// Where a piece stands in a text, none of its characters is one that the
/// piece does not hold.
pub proof fn lemma_piece_lacks(s: Seq<char>, at: int, piece: Seq<char>, c: char)
    requires
        has_at(s, at, piece),
        !piece.contains(c),
    ensures
        forall|j: int| at <= j < at + piece.len() ==> s[j] != c,
{
    assert forall|j: int| at <= j < at + piece.len() implies s[j] != c by {
        assert(s.subrange(at, at + piece.len())[j - at] == s[j]);
        assert(piece[j - at] == s[j]);
    }
}

/// A stretch of a text that holds no `c` is a piece without `c`.
pub proof fn lemma_stretch_lacks(s: Seq<char>, from: int, to: int, c: char)
    requires
        0 <= from <= to <= s.len(),
        forall|j: int| from <= j < to ==> s[j] != c,
    ensures
        !s.subrange(from, to).contains(c),
{
    let piece = s.subrange(from, to);
    assert forall|i: int| 0 <= i < piece.len() implies piece[i] != c by {
        assert(piece[i] == s[from + i]);
    }
}

/// Where the pieces of a tree address stand in its text.
pub proof fn lemma_tree_layout(base: Seq<char>, marker: Seq<char>, p: TreeParts)
    requires
        tree_parts_ok(p),
        is_marker(marker),
    ensures
        ({
            let s = tree_text(base, marker, p);
            let a: int = (base.len() + p.owner.len()) as int;
            let b: int = a + 1 + p.repo.len();
            let c: int = b + marker.len();
            let d: int = c + p.git_ref.len();
            &&& has_at(s, 0, base)
            &&& has_at(s, base.len() as int, p.owner)
            &&& s[a] == '/'
            &&& has_at(s, a + 1, p.repo)
            &&& has_at(s, b, marker)
            &&& s[b] == '/'
            &&& has_at(s, c, p.git_ref)
            &&& p.path is None ==> s.len() == d
            &&& p.path matches Some(t) ==> s.len() == d + 1 + t.len() && s[d] == '/' && has_at(
                s,
                d + 1,
                t,
            )
            &&& forall|j: int| base.len() <= j < a ==> s[j] != '/'
            &&& forall|j: int| a + 1 <= j < b ==> s[j] != '/'
            &&& forall|j: int| c <= j < d ==> s[j] != '/'
            &&& p.path matches Some(t) ==> forall|j: int| d + 1 <= j < s.len() ==> s[j] != '\n'
        }),
{
    let s = tree_text(base, marker, p);
    let a: int = (base.len() + p.owner.len()) as int;
    let b: int = a + 1 + p.repo.len();
    let c: int = b + marker.len();
    let d: int = c + p.git_ref.len();
    let t1 = base + p.owner;
    let t2 = t1 + seq!['/'];
    let t3 = t2 + p.repo;
    let t4 = t3 + marker;
    let t5 = t4 + p.git_ref;
    assert(s == t5 + trail_text(p.path));
    assert(s.subrange(0, base.len() as int) =~= base);
    assert(s.subrange(base.len() as int, a) =~= p.owner);
    assert(s.subrange(a + 1, b) =~= p.repo);
    assert(s.subrange(b, c) =~= marker);
    assert(s.subrange(c, d) =~= p.git_ref);
    assert(s[b] == marker[0]);
    match p.path {
        Some(t) => {
            assert(s.subrange(d + 1, d + 1 + t.len()) =~= t);
            lemma_piece_lacks(s, d + 1, t, '\n');
        },
        None => {},
    }
    lemma_piece_lacks(s, base.len() as int, p.owner, '/');
    lemma_piece_lacks(s, a + 1, p.repo, '/');
    lemma_piece_lacks(s, c, p.git_ref, '/');
}

/// No text begins with both bases of one domain.
pub proof fn lemma_bases_apart(s: Seq<char>, domain: Seq<char>)
    ensures
        !(begins_with(s, secure_base(domain)) && begins_with(s, plain_base(domain))),
{
    reveal_strlit("https://");
    reveal_strlit("http://");
    if begins_with(s, secure_base(domain)) && begins_with(s, plain_base(domain)) {
        let x = secure_base(domain);
        let y = plain_base(domain);
        assert(s.subrange(0, x.len() as int)[4] == x[4]);
        assert(s.subrange(0, y.len() as int)[4] == y[4]);
        assert(x[4] == 's');
        assert(y[4] == ':');
    }
}

/// The positions `a`, `b` and `d` cut what follows position `start` of `s`
/// into the pieces of a tree address: an owner up to the slash at `a`, a
/// repository up to `marker` at `b`, a ref up to `d`, and then either the end
/// or a slash and a trailing path.
pub open spec fn cut_after(s: Seq<char>, start: int, marker: Seq<char>, a: int, b: int, d: int) -> bool {
    let c = b + marker.len();
    &&& 0 <= start < a < s.len()
    &&& forall|j: int| start <= j < a ==> s[j] != '/'
    &&& s[a] == '/'
    &&& a + 1 < b
    &&& forall|j: int| a + 1 <= j < b ==> s[j] != '/'
    &&& has_at(s, b, marker)
    &&& c < d <= s.len()
    &&& forall|j: int| c <= j < d ==> s[j] != '/'
    &&& d < s.len() ==> {
        &&& s[d] == '/'
        &&& d + 1 < s.len()
        &&& forall|j: int| d < j < s.len() ==> s[j] != '\n'
    }
}

/// The pieces that the positions `a`, `b` and `d` cut out of `s`.
pub open spec fn parts_at(s: Seq<char>, start: int, marker: Seq<char>, a: int, b: int, d: int) -> TreeParts {
    TreeParts {
        owner: s.subrange(start, a),
        repo: s.subrange(a + 1, b),
        git_ref: s.subrange(b + marker.len(), d),
        path: if d < s.len() {
            Some(s.subrange(d + 1, s.len() as int))
        } else {
            None
        },
    }
}

/// A text that the positions cut as a tree address is the address that its
/// pieces write out.
pub proof fn lemma_cut_reads(s: Seq<char>, base: Seq<char>, marker: Seq<char>, a: int, b: int, d: int)
    requires
        has_at(s, 0, base),
        cut_after(s, base.len() as int, marker, a, b, d),
    ensures
        tree_parts_ok(parts_at(s, base.len() as int, marker, a, b, d)),
        s == tree_text(base, marker, parts_at(s, base.len() as int, marker, a, b, d)),
{
    let start = base.len() as int;
    let c = b + marker.len();
    let p = parts_at(s, start, marker, a, b, d);
    lemma_stretch_lacks(s, start, a, '/');
    lemma_stretch_lacks(s, a + 1, b, '/');
    lemma_stretch_lacks(s, c, d, '/');
    if d < s.len() {
        lemma_stretch_lacks(s, d + 1, s.len() as int, '\n');
    }
    assert(s.subrange(0, start) == base);
    assert(s.subrange(b, c) == marker);
    assert(s =~= tree_text(base, marker, p));
}

/// The address that pieces write out is cut at the ends of its pieces.
pub proof fn lemma_reads_cut(base: Seq<char>, marker: Seq<char>, p: TreeParts)
    requires
        tree_parts_ok(p),
        is_marker(marker),
    ensures
        ({
            let s = tree_text(base, marker, p);
            let a: int = (base.len() + p.owner.len()) as int;
            let b: int = a + 1 + p.repo.len();
            let d: int = b + marker.len() + p.git_ref.len();
            &&& has_at(s, 0, base)
            &&& cut_after(s, base.len() as int, marker, a, b, d)
            &&& parts_at(s, base.len() as int, marker, a, b, d) == p
        }),
{
    let s = tree_text(base, marker, p);
    let a: int = (base.len() + p.owner.len()) as int;
    let b: int = a + 1 + p.repo.len();
    let d: int = b + marker.len() + p.git_ref.len();
    lemma_tree_layout(base, marker, p);
    let q = parts_at(s, base.len() as int, marker, a, b, d);
    assert(q.owner == p.owner);
    assert(q.repo == p.repo);
    assert(q.git_ref == p.git_ref);
    assert(q.path == p.path);
}

/// A text is cut as a tree address in at most one way.
pub proof fn lemma_cut_unique(
    s: Seq<char>,
    start: int,
    marker: Seq<char>,
    a: int,
    b: int,
    d: int,
    a2: int,
    b2: int,
    d2: int,
)
    requires
        is_marker(marker),
        cut_after(s, start, marker, a, b, d),
        cut_after(s, start, marker, a2, b2, d2),
    ensures
        a == a2 && b == b2 && d == d2,
{
    assert(s.subrange(b, b + marker.len())[0] == s[b]);
    assert(s.subrange(b2, b2 + marker.len())[0] == s[b2]);
    if a < a2 {
        assert(s[a] == '/');
    }
    if a2 < a {
        assert(s[a2] == '/');
    }
    if b < b2 {
        assert(s[b] == '/');
    }
    if b2 < b {
        assert(s[b2] == '/');
    }
}

/// A text is the address of at most one tree.
pub proof fn lemma_tree_reading_unique(
    s: Seq<char>,
    domain: Seq<char>,
    marker: Seq<char>,
    p: TreeParts,
    q: TreeParts,
)
    requires
        is_marker(marker),
        reads_as_tree(s, domain, marker, p),
        reads_as_tree(s, domain, marker, q),
    ensures
        p == q,
{
    let bp = if s == tree_text(secure_base(domain), marker, p) {
        secure_base(domain)
    } else {
        plain_base(domain)
    };
    let bq = if s == tree_text(secure_base(domain), marker, q) {
        secure_base(domain)
    } else {
        plain_base(domain)
    };
    lemma_reads_cut(bp, marker, p);
    lemma_reads_cut(bq, marker, q);
    lemma_bases_apart(s, domain);
    assert(bp == bq);
    let a: int = (bp.len() + p.owner.len()) as int;
    let b: int = a + 1 + p.repo.len();
    let d: int = b + marker.len() + p.git_ref.len();
    let a2: int = (bp.len() + q.owner.len()) as int;
    let b2: int = a2 + 1 + q.repo.len();
    let d2: int = b2 + marker.len() + q.git_ref.len();
    lemma_cut_unique(s, bp.len() as int, marker, a, b, d, a2, b2, d2);
}

/// The end of what is left of the stretch from `from` to `to` of `s` once
/// every trailing `word` is taken off.
fn trimmed_end(s: &Vec<char>, from: usize, to: usize, word: &str) -> (e: usize)
    requires
        from <= to <= s.len(),
        word@.len() > 0,
    ensures
        from <= e <= to,
        s@.subrange(from as int, e as int) == trim_end(s@.subrange(from as int, to as int), word@),
{
    let n = word.unicode_len();
    let mut e: usize = to;
    while e - from >= n && holds_at(s, e - n, word)
        invariant
            from <= e <= to <= s.len(),
            n == word@.len(),
            n > 0,
            trim_end(s@.subrange(from as int, e as int), word@) == trim_end(
                s@.subrange(from as int, to as int),
                word@,
            ),
        decreases e,
    {
        proof {
            let cur = s@.subrange(from as int, e as int);
            assert(cur.subrange(cur.len() - n, cur.len() as int) =~= s@.subrange(e - n, e as int));
            assert(ends_with(cur, word@));
            assert(cur.subrange(0, cur.len() - n) =~= s@.subrange(from as int, e - n));
        }
        e = e - n;
    }
    proof {
        let cur = s@.subrange(from as int, e as int);
        if cur.len() >= n {
            assert(cur.subrange(cur.len() - n, cur.len() as int) =~= s@.subrange(e - n, e as int));
        }
        assert(!ends_with(cur, word@));
    }
    e
}

/// Cuts what follows position `start` of `s` as a tree address.
fn cut_tree(s: &Vec<char>, start: usize, marker: &str) -> (r: Option<(usize, usize, usize)>)
    requires
        is_marker(marker@),
    ensures
        match r {
            Some((a, b, d)) => cut_after(s@, start as int, marker@, a as int, b as int, d as int),
            None => forall|a: int, b: int, d: int| !cut_after(s@, start as int, marker@, a, b, d),
        },
{
    let n = s.len();
    if start >= n {
        return None;
    }
    let a = find_char(s, start, '/');
    if a == start || a == n {
        return None;
    }
    let b = find_char(s, a + 1, '/');
    if b == a + 1 || b == n {
        return None;
    }
    if !holds_at(s, b, marker) {
        assert forall|a2: int, b2: int, d2: int| !cut_after(
            s@,
            start as int,
            marker@,
            a2,
            b2,
            d2,
        ) by {
            if cut_after(s@, start as int, marker@, a2, b2, d2) {
                assert(s@.subrange(b2, b2 + marker@.len())[0] == s@[b2]);
            }
        }
        return None;
    }
    let m = marker.unicode_len();
    let c = b + m;
    let d = find_char(s, c, '/');
    proof {
        assert forall|a2: int, b2: int, d2: int|
            cut_after(s@, start as int, marker@, a2, b2, d2) implies a2 == a && b2 == b && (d2 < n
            ==> d2 == d) && (d < n ==> d2 == d) by {
            assert(s@.subrange(b2, b2 + marker@.len())[0] == s@[b2]);
            assert(s@.subrange(b as int, b + marker@.len())[0] == s@[b as int]);
        }
    }
    if d == c {
        return None;
    }
    if d < n {
        if d + 1 == n {
            return None;
        }
        let x = find_char(s, d + 1, '\n');
        if x != n {
            return None;
        }
    }
    Some((a, b, d))
}

/// Resolves `input` as the address of a tree on the service at `domain`.
fn parse_tree_url(input: &str, domain: &str, marker: &str) -> (r: Option<ParsedSource>)
    requires
        is_marker(marker@),
    ensures
        opt_parsed(r) == tree_reading(input@, domain@, marker@),
{
    let s = chars_of(input);
    let mut secure = String::from_str("https://");
    secure.append(domain);
    secure.append("/");
    let mut plain = String::from_str("http://");
    plain.append(domain);
    plain.append("/");
    proof {
        reveal_strlit("/");
        reveal_strlit(".git");
        assert("/"@ =~= seq!['/']);
        assert(secure@ =~= secure_base(domain@));
        assert(plain@ =~= plain_base(domain@));
    }
    let start = if holds_at(&s, 0, secure.as_str()) {
        secure.as_str().unicode_len()
    } else if holds_at(&s, 0, plain.as_str()) {
        plain.as_str().unicode_len()
    } else {
        proof {
            assert forall|p: TreeParts| !reads_as_tree(input@, domain@, marker@, p) by {
                if reads_as_tree(input@, domain@, marker@, p) {
                    lemma_reads_cut(secure_base(domain@), marker@, p);
                    lemma_reads_cut(plain_base(domain@), marker@, p);
                }
            }
        }
        return None;
    };
    let ghost base = if begins_with(s@, secure@) {
        secure@
    } else {
        plain@
    };
    proof {
        lemma_bases_apart(s@, domain@);
    }
    match cut_tree(&s, start, marker) {
        None => {
            proof {
                assert forall|p: TreeParts| !reads_as_tree(input@, domain@, marker@, p) by {
                    if reads_as_tree(input@, domain@, marker@, p) {
                        lemma_reads_cut(secure_base(domain@), marker@, p);
                        lemma_reads_cut(plain_base(domain@), marker@, p);
                        let a: int = (base.len() + p.owner.len()) as int;
                        let b: int = a + 1 + p.repo.len();
                        let d: int = b + marker@.len() + p.git_ref.len();
                        assert(cut_after(s@, start as int, marker@, a, b, d));
                    }
                }
            }
            None
        },
        Some((a, b, d)) => {
            let e = trimmed_end(&s, a + 1, b, ".git");
            let m = marker.unicode_len();
            let mut url = secure;
            url.append(input.substring_char(start, a));
            url.append("/");
            url.append(input.substring_char(a + 1, e));
            url.append(".git");
            let git_ref = String::from_str(input.substring_char(b + m, d));
            let path = if d < s.len() {
                Some(String::from_str(input.substring_char(d + 1, s.len())))
            } else {
                None
            };
            let r = ParsedSource { url, path, git_ref: Some(git_ref) };
            proof {
                let p = parts_at(s@, start as int, marker@, a as int, b as int, d as int);
                lemma_cut_reads(s@, base, marker@, a as int, b as int, d as int);
                assert(reads_as_tree(input@, domain@, marker@, p));
                let q = choose|q: TreeParts| reads_as_tree(input@, domain@, marker@, q);
                lemma_tree_reading_unique(input@, domain@, marker@, p, q);
                assert(r.url@ =~= clone_url(domain@, p.owner, trim_end(p.repo, git_suffix())));
                assert(r@ == tree_source(domain@, p));
            }
            Some(r)
        },
    }
}

/// The domain of the first hosting service.
pub open spec fn github_domain() -> Seq<char> {
    "github.com"@
}

/// What its tree addresses put between repository and ref.
pub open spec fn github_marker() -> Seq<char> {
    "/tree/"@
}

/// The domain of the second hosting service.
pub open spec fn gitlab_domain() -> Seq<char> {
    "gitlab.com"@
}

/// What its tree addresses put between repository and ref.
pub open spec fn gitlab_marker() -> Seq<char> {
    "/-/tree/"@
}

/// Both markers begin and end with a slash.
pub proof fn lemma_markers()
    ensures
        is_marker(github_marker()),
        is_marker(gitlab_marker()),
{
    reveal_strlit("/tree/");
    reveal_strlit("/-/tree/");
}

/// Resolves an address of the form
/// `http(s)://github.com/<owner>/<repo>/tree/<ref>[/<path>]`; none where
/// `input` is not of that form.
pub fn parse_github_tree_url(input: &str) -> (r: Option<ParsedSource>)
    ensures
        opt_parsed(r) == tree_reading(input@, github_domain(), github_marker()),
{
    proof {
        lemma_markers();
    }
    parse_tree_url(input, "github.com", "/tree/")
}

/// Resolves an address of the form
/// `http(s)://gitlab.com/<owner>/<repo>/-/tree/<ref>[/<path>]`; none where
/// `input` is not of that form.
pub fn parse_gitlab_tree_url(input: &str) -> (r: Option<ParsedSource>)
    ensures
        opt_parsed(r) == tree_reading(input@, gitlab_domain(), gitlab_marker()),
{
    proof {
        lemma_markers();
    }
    parse_tree_url(input, "gitlab.com", "/-/tree/")
}

/// The pieces that a shorthand is made of.
pub struct ShortParts {
    pub owner: Seq<char>,
    pub repo: Seq<char>,
    pub path: Option<Seq<char>>,
}

/// Each piece is of the shape that its place asks for.
pub open spec fn short_parts_ok(p: ShortParts) -> bool {
    &&& is_segment(p.owner)
    &&& is_segment(p.repo)
    &&& p.path matches Some(t) ==> is_trail(t)
}

/// The shorthand, written out from its pieces.
pub open spec fn short_text(p: ShortParts) -> Seq<char> {
    p.owner + seq!['/'] + p.repo + trail_text(p.path)
}

/// `s` begins like an address or a remote of the secure shell, or names a
/// place in the local file system: such a text is never taken for a
/// shorthand.
pub open spec fn shuns_shorthand(s: Seq<char>) -> bool {
    ||| begins_with(s, "http://"@)
    ||| begins_with(s, "https://"@)
    ||| begins_with(s, "git@"@)
    ||| looks_local(s)
}

/// `s` is the shorthand `p`.
pub open spec fn reads_as_shorthand(s: Seq<char>, p: ShortParts) -> bool {
    &&& !shuns_shorthand(s)
    &&& short_parts_ok(p)
    &&& s == short_text(p)
}

/// What the shorthand `p` resolves to: the repository on the first hosting
/// service, no ref, and the trailing path.
pub open spec fn shorthand_source(p: ShortParts) -> ParsedText {
    ParsedText { url: clone_url(github_domain(), p.owner, p.repo), path: p.path, git_ref: None }
}

/// What `s` resolves to as a shorthand, if it is one.
pub open spec fn shorthand_reading(s: Seq<char>) -> Option<ParsedText> {
    if exists|p: ShortParts| reads_as_shorthand(s, p) {
        Some(shorthand_source(choose|p: ShortParts| reads_as_shorthand(s, p)))
    } else {
        None
    }
}

/// The positions `a` and `b` cut `s` into the pieces of a shorthand: an
/// owner up to the slash at `a`, a repository up to `b`, and then either the
/// end or a slash and a trailing path.
pub open spec fn short_cut(s: Seq<char>, a: int, b: int) -> bool {
    &&& 0 < a < s.len()
    &&& forall|j: int| 0 <= j < a ==> s[j] != '/'
    &&& s[a] == '/'
    &&& a + 1 < b <= s.len()
    &&& forall|j: int| a + 1 <= j < b ==> s[j] != '/'
    &&& b < s.len() ==> {
        &&& s[b] == '/'
        &&& b + 1 < s.len()
        &&& forall|j: int| b < j < s.len() ==> s[j] != '\n'
    }
}

/// The pieces that the positions `a` and `b` cut out of `s`.
pub open spec fn short_parts_at(s: Seq<char>, a: int, b: int) -> ShortParts {
    ShortParts {
        owner: s.subrange(0, a),
        repo: s.subrange(a + 1, b),
        path: if b < s.len() {
            Some(s.subrange(b + 1, s.len() as int))
        } else {
            None
        },
    }
}

/// A text that the positions cut as a shorthand is the shorthand that its
/// pieces write out.
pub proof fn lemma_short_cut_reads(s: Seq<char>, a: int, b: int)
    requires
        short_cut(s, a, b),
    ensures
        short_parts_ok(short_parts_at(s, a, b)),
        s == short_text(short_parts_at(s, a, b)),
{
    lemma_stretch_lacks(s, 0, a, '/');
    lemma_stretch_lacks(s, a + 1, b, '/');
    if b < s.len() {
        lemma_stretch_lacks(s, b + 1, s.len() as int, '\n');
    }
    assert(s =~= short_text(short_parts_at(s, a, b)));
}

/// The shorthand that pieces write out is cut at the ends of its pieces.
pub proof fn lemma_short_reads_cut(p: ShortParts)
    requires
        short_parts_ok(p),
    ensures
        ({
            let s = short_text(p);
            let a: int = p.owner.len() as int;
            let b: int = a + 1 + p.repo.len();
            &&& short_cut(s, a, b)
            &&& short_parts_at(s, a, b) == p
        }),
{
    let s = short_text(p);
    let a: int = p.owner.len() as int;
    let b: int = a + 1 + p.repo.len();
    assert(s.subrange(0, a) =~= p.owner);
    assert(s.subrange(a + 1, b) =~= p.repo);
    lemma_piece_lacks(s, 0, p.owner, '/');
    lemma_piece_lacks(s, a + 1, p.repo, '/');
    match p.path {
        Some(t) => {
            assert(s.subrange(b + 1, s.len() as int) =~= t);
            lemma_piece_lacks(s, b + 1, t, '\n');
        },
        None => {},
    }
    let q = short_parts_at(s, a, b);
    assert(q.owner == p.owner);
    assert(q.repo == p.repo);
    assert(q.path == p.path);
}

/// A text is at most one shorthand.
pub proof fn lemma_shorthand_reading_unique(s: Seq<char>, p: ShortParts, q: ShortParts)
    requires
        reads_as_shorthand(s, p),
        reads_as_shorthand(s, q),
    ensures
        p == q,
{
    lemma_short_reads_cut(p);
    lemma_short_reads_cut(q);
    let a: int = p.owner.len() as int;
    let a2: int = q.owner.len() as int;
    if a < a2 {
        assert(s[a] == '/');
    }
    if a2 < a {
        assert(s[a2] == '/');
    }
    let b: int = a + 1 + p.repo.len();
    let b2: int = a2 + 1 + q.repo.len();
    if b < b2 {
        assert(s[b] == '/');
    }
    if b2 < b {
        assert(s[b2] == '/');
    }
}

/// Whether `s` begins in a way that rules a shorthand out.
fn shunned(s: &Vec<char>) -> (r: bool)
    ensures
        r == shuns_shorthand(s@),
{
    holds_at(s, 0, "http://") || holds_at(s, 0, "https://") || holds_at(s, 0, "git@")
        || is_local_chars(s)
}

/// Resolves a shorthand of the form `<owner>/<repo>[/<path>]`; none where
/// `input` is not of that form, begins like an address or a remote of the
/// secure shell, or names a place in the local file system.
pub fn parse_shorthand(input: &str) -> (r: Option<ParsedSource>)
    ensures
        opt_parsed(r) == shorthand_reading(input@),
{
    let s = chars_of(input);
    let n = s.len();
    if shunned(&s) {
        return None;
    }
    let a = find_char(&s, 0, '/');
    let b = if a < n {
        find_char(&s, a + 1, '/')
    } else {
        n
    };
    let mut fits = 0 < a && a < n && a + 1 < b;
    if fits && b < n {
        fits = b + 1 < n && find_char(&s, b + 1, '\n') == n;
    }
    if !fits {
        proof {
            assert forall|p: ShortParts| !reads_as_shorthand(input@, p) by {
                if reads_as_shorthand(input@, p) {
                    lemma_short_reads_cut(p);
                    let a2: int = p.owner.len() as int;
                    let b2: int = a2 + 1 + p.repo.len();
                    assert(short_cut(s@, a2, b2));
                    assert(a2 == a);
                    assert(b2 == b);
                }
            }
        }
        return None;
    }
    let mut url = String::from_str("https://");
    url.append("github.com");
    url.append("/");
    url.append(input.substring_char(0, a));
    url.append("/");
    url.append(input.substring_char(a + 1, b));
    url.append(".git");
    let path = if b < n {
        Some(String::from_str(input.substring_char(b + 1, n)))
    } else {
        None
    };
    let r = ParsedSource { url, path, git_ref: None };
    proof {
        reveal_strlit("/");
        assert("/"@ =~= seq!['/']);
        let p = short_parts_at(s@, a as int, b as int);
        lemma_short_cut_reads(s@, a as int, b as int);
        assert(reads_as_shorthand(input@, p));
        let q = choose|q: ShortParts| reads_as_shorthand(input@, q);
        lemma_shorthand_reading_unique(input@, p, q);
        assert(r.url@ =~= clone_url(github_domain(), p.owner, p.repo));
        assert(r@ == shorthand_source(p));
    }
    Some(r)
}

/// A text taken as it stands: the address is the text, with no subpath and
/// no ref.
pub open spec fn verbatim(s: Seq<char>) -> ParsedText {
    ParsedText { url: s, path: None, git_ref: None }
}

/// What a source reference resolves to. The forms are tried in order, and
/// the first that fits decides: a tree address on the first hosting service,
/// one on the second, a shorthand; any other text is taken as it stands.
pub open spec fn resolved(s: Seq<char>) -> ParsedText {
    if let Some(p) = tree_reading(s, github_domain(), github_marker()) {
        p
    } else if let Some(p) = tree_reading(s, gitlab_domain(), gitlab_marker()) {
        p
    } else if let Some(p) = shorthand_reading(s) {
        p
    } else {
        verbatim(s)
    }
}

/// Resolves a source reference. Never fails: a text of no known form is its
/// own address.
#[must_use]
pub fn parse_source(input: &str) -> (r: ParsedSource)
    ensures
        r@ == resolved(input@),
{
    if let Some(p) = parse_github_tree_url(input) {
        return p;
    }
    if let Some(p) = parse_gitlab_tree_url(input) {
        return p;
    }
    if let Some(p) = parse_shorthand(input) {
        return p;
    }
    ParsedSource { url: String::from_str(input), path: None, git_ref: None }
}

} // verus!
