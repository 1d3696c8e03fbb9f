//! What is asked of git: which commands fetch a source, what a failed
//! command reports, and how the commit of a remote ref is asked for and read.

use vstd::prelude::*;
use vstd::string::StringExecFns;
use vstd::string::StrSliceExecFns;
use crate::error::{ErrorText, RingsideError};
use crate::text::{begins_with, chars_of, holds_at, opt_str_text, opt_text, texts};

verus! {

/// A letter of the ASCII alphabet.
pub open spec fn is_letter(c: char) -> bool {
    ('a' <= c && c <= 'z') || ('A' <= c && c <= 'Z')
}

/// `s` begins with a drive letter and a colon.
pub open spec fn begins_with_drive(s: Seq<char>) -> bool {
    s.len() >= 2 && is_letter(s[0]) && s[1] == ':'
}

/// `s` names a place in the local file system: it begins with `/`, `./`,
/// `../` or `~`, or with a drive letter and a colon.
pub open spec fn looks_local(s: Seq<char>) -> bool {
    ||| begins_with(s, "/"@)
    ||| begins_with(s, "./"@)
    ||| begins_with(s, "../"@)
    ||| begins_with(s, "~"@)
    ||| begins_with_drive(s)
}

/// Whether the characters `s` name a place in the local file system.
pub fn is_local_chars(s: &Vec<char>) -> (r: bool)
    ensures
        r == looks_local(s@),
{
    if holds_at(s, 0, "/") || holds_at(s, 0, "./") || holds_at(s, 0, "../") || holds_at(s, 0, "~") {
        return true;
    }
    if s.len() < 2 {
        return false;
    }
    let first = s[0];
    (('a' <= first && first <= 'z') || ('A' <= first && first <= 'Z')) && s[1] == ':'
}

/// Whether `source` names a place in the local file system. Such a source
/// is fetched whole, never shallow, and has no remote commit to look up.
#[must_use]
pub fn is_local_path(source: &str) -> (r: bool)
    ensures
        r == looks_local(source@),
{
    let s = chars_of(source);
    is_local_chars(&s)
}

/// How a git command uses the scratch directory that a source is fetched
/// into.
#[derive(Debug, Clone, Copy, PartialEq, Eq, Structural)]
pub enum TargetUse {
    /// The directory follows the arguments, as the last of them.
    LastArgument,
    /// The command runs inside the directory.
    WorkingDirectory,
}

/// One invocation of git.
#[derive(Debug, Clone, PartialEq, Eq)]
pub struct GitCommand {
    /// The arguments after `git`, but for the scratch directory.
    pub args: Vec<String>,
    /// Where the scratch directory comes in.
    pub target: TargetUse,
    /// What a failure of the command is reported under.
    pub context: String,
}

/// What a [`GitCommand`] holds, as text.
pub struct GitCommandText {
    pub args: Seq<Seq<char>>,
    pub target: TargetUse,
    pub context: Seq<char>,
}

impl View for GitCommand {
    type V = GitCommandText;

    open spec fn view(&self) -> GitCommandText {
        GitCommandText { args: texts(self.args@), target: self.target, context: self.context@ }
    }
}

impl GitCommand {
    /// A copy of the command.
    pub fn copy(&self) -> (r: GitCommand)
        ensures
            r@ == self@,
    {
        let mut args: Vec<String> = Vec::new();
        let mut i: usize = 0;
        while i < self.args.len()
            invariant
                i <= self.args.len(),
                args.len() == i,
                forall|k: int| 0 <= k < i ==> args@[k]@ == self.args@[k]@,
            decreases self.args.len() - i,
        {
            args.push(self.args[i].clone());
            i += 1;
        }
        assert(texts(args@) =~= texts(self.args@));
        GitCommand { args, target: self.target, context: self.context.clone() }
    }
}

/// The texts of a list of commands.
pub open spec fn command_texts(v: Seq<GitCommand>) -> Seq<GitCommandText> {
    Seq::new(v.len(), |i: int| v[i]@)
}

/// The arguments that pin a clone to a ref, where one is given.
pub open spec fn branch_args(git_ref: Option<Seq<char>>) -> Seq<Seq<char>> {
    match git_ref {
        Some(r) => seq!["--branch"@, r],
        None => seq![],
    }
}

/// The arguments that keep a clone shallow.
pub open spec fn depth_args(shallow: bool) -> Seq<Seq<char>> {
    if shallow {
        seq!["--depth"@, "1"@]
    } else {
        seq![]
    }
}

/// What a failed clone of `source` is reported under.
pub open spec fn clone_context(source: Seq<char>) -> Seq<char> {
    "Failed to clone "@ + source
}

/// Whether a fetch is narrowed to one subpath: only where a subpath is
/// asked for and the source is not in the local file system.
pub open spec fn fetches_sparse(source: Seq<char>, sparse_path: Option<Seq<char>>) -> bool {
    !looks_local(source) && sparse_path is Some
}

/// The commands that fetch `source` into the scratch directory, in order.
///
/// A remote source of which one subpath is asked for is cloned shallow,
/// without blobs and sparse, and then narrowed to the subpath. Any other
/// source is cloned whole: shallow where it is remote, at full depth where
/// it is in the local file system. A ref, where given, pins the clone.
pub open spec fn clone_plan(
    source: Seq<char>,
    git_ref: Option<Seq<char>>,
    sparse_path: Option<Seq<char>>,
) -> Seq<GitCommandText> {
    if fetches_sparse(source, sparse_path) {
        let path = sparse_path->0;
        seq![
            GitCommandText {
                args: seq!["clone"@, "--filter=blob:none"@, "--sparse"@, "--depth"@, "1"@]
                    + branch_args(git_ref) + seq![source],
                target: TargetUse::LastArgument,
                context: clone_context(source),
            },
            GitCommandText {
                args: seq!["sparse-checkout"@, "set"@, path],
                target: TargetUse::WorkingDirectory,
                context: "Failed to set sparse-checkout for path '"@ + path + "'"@,
            },
        ]
    } else {
        seq![
            GitCommandText {
                args: seq!["clone"@] + depth_args(!looks_local(source)) + branch_args(git_ref)
                    + seq![source],
                target: TargetUse::LastArgument,
                context: clone_context(source),
            },
        ]
    }
}

/// A source in the local file system is never fetched shallow and never
/// sparse: it is cloned by one command, whole and at full depth, whatever
/// subpath is asked for.
pub proof fn law_local_source_is_cloned_whole(
    source: Seq<char>,
    git_ref: Option<Seq<char>>,
    sparse_path: Option<Seq<char>>,
)
    requires
        looks_local(source),
    ensures
        clone_plan(source, git_ref, sparse_path) == seq![
            GitCommandText {
                args: seq!["clone"@] + branch_args(git_ref) + seq![source],
                target: TargetUse::LastArgument,
                context: clone_context(source),
            },
        ],
{
    assert(seq!["clone"@] + depth_args(false) =~= seq!["clone"@]);
}

/// Appends the arguments that pin a clone to `git_ref`.
fn push_branch(args: &mut Vec<String>, git_ref: Option<&str>)
    ensures
        texts(final(args)@) == texts(old(args)@) + branch_args(opt_str_text(git_ref)),
{
    match git_ref {
        Some(r) => {
            args.push(String::from_str("--branch"));
            args.push(String::from_str(r));
        },
        None => {},
    }
    assert(texts(args@) =~= texts(old(args)@) + branch_args(opt_str_text(git_ref)));
}

/// The commands that fetch `source` into the scratch directory, in order.
pub fn clone_commands(source: &str, git_ref: Option<&str>, sparse_path: Option<&str>) -> (r: Vec<
    GitCommand,
>)
    ensures
        command_texts(r@) == clone_plan(source@, opt_str_text(git_ref), opt_str_text(sparse_path)),
{
    let local = is_local_path(source);
    let mut context = String::from_str("Failed to clone ");
    context.append(source);
    let mut args: Vec<String> = Vec::new();
    args.push(String::from_str("clone"));
    let mut r: Vec<GitCommand> = Vec::new();
    match sparse_path {
        Some(path) if !local => {
            args.push(String::from_str("--filter=blob:none"));
            args.push(String::from_str("--sparse"));
            args.push(String::from_str("--depth"));
            args.push(String::from_str("1"));
            assert(texts(args@) =~= seq![
                "clone"@,
                "--filter=blob:none"@,
                "--sparse"@,
                "--depth"@,
                "1"@,
            ]);
            push_branch(&mut args, git_ref);
            let ghost pinned = texts(args@);
            args.push(String::from_str(source));
            assert(texts(args@) =~= pinned + seq![source@]);
            assert(texts(args@) =~= seq![
                "clone"@,
                "--filter=blob:none"@,
                "--sparse"@,
                "--depth"@,
                "1"@,
            ] + branch_args(opt_str_text(git_ref)) + seq![source@]);
            r.push(GitCommand { args, target: TargetUse::LastArgument, context });
            let mut narrow: Vec<String> = Vec::new();
            narrow.push(String::from_str("sparse-checkout"));
            narrow.push(String::from_str("set"));
            narrow.push(String::from_str(path));
            assert(texts(narrow@) =~= seq!["sparse-checkout"@, "set"@, path@]);
            let mut narrow_context = String::from_str("Failed to set sparse-checkout for path '");
            narrow_context.append(path);
            narrow_context.append("'");
            r.push(
                GitCommand {
                    args: narrow,
                    target: TargetUse::WorkingDirectory,
                    context: narrow_context,
                },
            );
        },
        _ => {
            if !local {
                args.push(String::from_str("--depth"));
                args.push(String::from_str("1"));
            }
            assert(texts(args@) =~= seq!["clone"@] + depth_args(!local));
            push_branch(&mut args, git_ref);
            let ghost pinned = texts(args@);
            args.push(String::from_str(source));
            assert(texts(args@) =~= pinned + seq![source@]);
            assert(texts(args@) =~= seq!["clone"@] + depth_args(!local) + branch_args(
                opt_str_text(git_ref),
            ) + seq![source@]);
            r.push(GitCommand { args, target: TargetUse::LastArgument, context });
        },
    }
    assert(command_texts(r@) =~= clone_plan(
        source@,
        opt_str_text(git_ref),
        opt_str_text(sparse_path),
    ));
    r
}

/// What a command that git ran without success is reported as: the
/// command's context, a colon, and what git wrote to its error stream.
pub open spec fn git_failure_text(context: Seq<char>, stderr: Seq<char>) -> Seq<char> {
    context + ": "@ + stderr
}

/// The failure that stands for a command that git ran without success.
pub fn git_failure(context: &str, stderr: &str) -> (e: RingsideError)
    ensures
        e@ == ErrorText::GitError(git_failure_text(context@, stderr@)),
{
    let mut detail = String::from_str(context);
    detail.append(": ");
    detail.append(stderr);
    RingsideError::GitError(detail)
}

/// The arguments that ask a remote which commit a ref stands at: the ref
/// that is given, or `HEAD`.
pub open spec fn remote_query_text(url: Seq<char>, git_ref: Option<Seq<char>>) -> Seq<Seq<char>> {
    seq![
        "ls-remote"@,
        url,
        match git_ref {
            Some(r) => r,
            None => "HEAD"@,
        },
    ]
}

/// The text of an optional list of strings.
pub open spec fn opt_texts(o: Option<Vec<String>>) -> Option<Seq<Seq<char>>> {
    match o {
        Some(v) => Some(texts(v@)),
        None => None,
    }
}

/// The arguments with which git is asked for the commit of `git_ref` at
/// `url`; none for a source in the local file system, of which no remote
/// commit can be had.
pub fn remote_query(url: &str, git_ref: Option<&str>) -> (r: Option<Vec<String>>)
    ensures
        opt_texts(r) == (if looks_local(url@) {
            None
        } else {
            Some(remote_query_text(url@, opt_str_text(git_ref)))
        }),
{
    if is_local_path(url) {
        return None;
    }
    let mut args: Vec<String> = Vec::new();
    args.push(String::from_str("ls-remote"));
    args.push(String::from_str(url));
    match git_ref {
        Some(r) => args.push(String::from_str(r)),
        None => args.push(String::from_str("HEAD")),
    }
    assert(texts(args@) =~= remote_query_text(url@, opt_str_text(git_ref)));
    Some(args)
}

/// White space, as Unicode defines it.
pub open spec fn is_space(c: char) -> bool {
    let n = c as u32;
    ||| 0x09 <= n <= 0x0D
    ||| n == 0x20
    ||| n == 0x85
    ||| n == 0xA0
    ||| n == 0x1680
    ||| 0x2000 <= n <= 0x200A
    ||| n == 0x2028
    ||| n == 0x2029
    ||| n == 0x202F
    ||| n == 0x205F
    ||| n == 0x3000
}

/// Whether `c` is white space.
pub fn is_white_space(c: char) -> (r: bool)
    ensures
        r == is_space(c),
{
    let n = c as u32;
    (0x09 <= n && n <= 0x0D) || n == 0x20 || n == 0x85 || n == 0xA0 || n == 0x1680 || (0x2000 <= n
        && n <= 0x200A) || n == 0x2028 || n == 0x2029 || n == 0x202F || n == 0x205F || n
        == 0x3000
}

/// The stretch from `i` to `j` is the first word of `s`: only white space
/// stands before it, none in it, and it ends with `s` or before white space.
pub open spec fn first_word_at(s: Seq<char>, i: int, j: int) -> bool {
    &&& 0 <= i < j <= s.len()
    &&& forall|k: int| 0 <= k < i ==> is_space(s[k])
    &&& forall|k: int| i <= k < j ==> !is_space(s[k])
    &&& j < s.len() ==> is_space(s[j])
}

/// `s` holds nothing but white space.
pub open spec fn is_blank(s: Seq<char>) -> bool {
    forall|k: int| 0 <= k < s.len() ==> is_space(s[k])
}

/// The first word of `s`, if it has one.
pub open spec fn first_word(s: Seq<char>) -> Option<Seq<char>> {
    if is_blank(s) {
        None
    } else {
        let (i, j) = choose|i: int, j: int| first_word_at(s, i, j);
        Some(s.subrange(i, j))
    }
}

/// The commit that a listing of remote refs names first: its first word.
/// None where the listing is blank.
pub fn commit_of_listing(listing: &str) -> (r: Option<String>)
    ensures
        opt_text(r) == first_word(listing@),
{
    let s = chars_of(listing);
    let n = s.len();
    let mut i: usize = 0;
    while i < n && is_white_space(s[i])
        invariant
            i <= n,
            n == s.len(),
            forall|k: int| 0 <= k < i ==> is_space(s@[k]),
        decreases n - i,
    {
        i += 1;
    }
    if i == n {
        return None;
    }
    let mut j: usize = i + 1;
    while j < n && !is_white_space(s[j])
        invariant
            i < j <= n,
            n == s.len(),
            forall|k: int| i <= k < j ==> !is_space(s@[k]),
        decreases n - j,
    {
        j += 1;
    }
    proof {
        assert(first_word_at(s@, i as int, j as int));
        let (i2, j2) = choose|i2: int, j2: int| first_word_at(s@, i2, j2);
        assert(first_word_at(s@, i2, j2));
        if i2 < i {
            assert(is_space(s@[i2]));
        }
        if i < i2 {
            assert(!is_space(s@[i as int]));
        }
        if j2 < j {
            assert(!is_space(s@[j2]));
        }
        if j < j2 {
            assert(is_space(s@[j as int]));
        }
    }
    Some(String::from_str(listing.substring_char(i, j)))
}

/// The commit of a remote ref, from how the query to git went: none where
/// git failed, else what the listing names first.
pub fn commit_of_answer(success: bool, listing: &str) -> (r: Option<String>)
    ensures
        opt_text(r) == (if success {
            first_word(listing@)
        } else {
            None
        }),
{
    if success {
        commit_of_listing(listing)
    } else {
        None
    }
}

} // verus!
