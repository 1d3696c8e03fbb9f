//! The status of the declared sources: for each, how the commit that was
//! last synced compares with the commit that the remote stands at. Nothing
//! is fetched and nothing is changed.

use vstd::prelude::*;
use vstd::string::StringExecFns;
use crate::config::{Source, SourceText};
use crate::git::{is_local_path, looks_local};
use crate::lock::{lock_key, lock_key_text, opt_locked, LockFile, LockedSource, LockedText};
use crate::resolution::law_local_path_verbatim;
use crate::source::{parse_source, resolved};
use crate::sync::declared_or;
use crate::text::{borrow_opt, copy_opt, decimal, decimal_text, opt_str_text, opt_text, same_text};

verus! {

/// How a source stands against its remote.
#[derive(Debug, Clone, Copy, PartialEq, Eq, Structural)]
pub enum SyncStatus {
    /// The commit that was synced is the commit of the remote.
    UpToDate,
    /// The remote has moved on.
    Outdated,
    /// The source was synced, but the commit of the remote cannot be had.
    Unknown,
    /// The lock table holds nothing for the source.
    NotSynced,
}

/// The status of a source, from what the lock table holds for it and from
/// the commit of the remote, where it could be had.
pub open spec fn status_of(locked: Option<LockedText>, remote: Option<Seq<char>>) -> SyncStatus {
    match locked {
        None => SyncStatus::NotSynced,
        Some(entry) => match remote {
            None => SyncStatus::Unknown,
            Some(commit) => if commit == entry.commit {
                SyncStatus::UpToDate
            } else {
                SyncStatus::Outdated
            },
        },
    }
}

/// The status of a source, from what the lock table holds for it and from
/// the commit of the remote, where it could be had.
pub fn classify(locked: Option<&LockedSource>, remote: Option<&str>) -> (r: SyncStatus)
    ensures
        r == status_of(opt_locked(locked), opt_str_text(remote)),
{
    match locked {
        None => SyncStatus::NotSynced,
        Some(entry) => match remote {
            None => SyncStatus::Unknown,
            Some(commit) => if same_text(commit, entry.commit.as_str()) {
                SyncStatus::UpToDate
            } else {
                SyncStatus::Outdated
            },
        },
    }
}

/// How a status is written.
pub open spec fn label_text(status: SyncStatus) -> Seq<char> {
    match status {
        SyncStatus::UpToDate => "up-to-date"@,
        SyncStatus::Outdated => "outdated"@,
        SyncStatus::Unknown => "unknown"@,
        SyncStatus::NotSynced => "not synced"@,
    }
}

/// How a status is written.
pub fn label(status: SyncStatus) -> (r: &'static str)
    ensures
        r@ == label_text(status),
{
    match status {
        SyncStatus::UpToDate => "up-to-date",
        SyncStatus::Outdated => "outdated",
        SyncStatus::Unknown => "unknown",
        SyncStatus::NotSynced => "not synced",
    }
}

/// What is to be looked up for one source.
#[derive(Debug, Clone, PartialEq, Eq)]
pub struct StatusQuery {
    /// The canonical address of the source.
    pub url: String,
    /// The ref whose commit is asked for, if not the head.
    pub git_ref: Option<String>,
    /// The key of the source in the lock table.
    pub key: String,
    /// Whether the remote is to be asked at all.
    pub ask: bool,
}

/// What a [`StatusQuery`] holds, as text.
pub struct QueryText {
    pub url: Seq<char>,
    pub git_ref: Option<Seq<char>>,
    pub key: Seq<char>,
    pub ask: bool,
}

impl View for StatusQuery {
    type V = QueryText;

    open spec fn view(&self) -> QueryText {
        QueryText { url: self.url@, git_ref: opt_text(self.git_ref), key: self.key@, ask: self.ask }
    }
}

/// What is to be looked up for `source`, given the lock table: the address
/// that the source resolves to; the ref that is declared, or else the one
/// that the address implies; and the key of the source. The remote is asked
/// only for a source that the table holds and that is not in the local file
/// system: for any other the answer would not be used.
pub open spec fn query_of(source: SourceText, table: Map<Seq<char>, LockedText>) -> QueryText {
    let p = resolved(source.url);
    let key = lock_key_text(p.url, source.dest);
    QueryText {
        url: p.url,
        git_ref: declared_or(source.git_ref, p.git_ref),
        key,
        ask: table.contains_key(key) && !looks_local(p.url),
    }
}

/// What is to be looked up for `source`.
pub fn status_query(source: &Source, lock: &LockFile) -> (r: StatusQuery)
    ensures
        r@ == query_of(source@, lock@),
{
    let parsed = parse_source(source.url.as_str());
    let key = lock_key(parsed.url.as_str(), borrow_opt(&source.dest));
    let git_ref = if source.git_ref.is_some() {
        copy_opt(&source.git_ref)
    } else {
        parsed.git_ref
    };
    let ask = lock.get(key.as_str()).is_some() && !is_local_path(parsed.url.as_str());
    StatusQuery { url: parsed.url, git_ref, key, ask }
}

/// The entry that a table holds under a key, if any.
pub open spec fn entry_at(table: Map<Seq<char>, LockedText>, key: Seq<char>) -> Option<LockedText> {
    if table.contains_key(key) {
        Some(table[key])
    } else {
        None
    }
}

/// The status of `source`, given the lock table and what the remote
/// answered. Of a source in the local file system no remote commit counts,
/// whatever was answered.
pub open spec fn source_status_of(
    source: SourceText,
    table: Map<Seq<char>, LockedText>,
    answer: Option<Seq<char>>,
) -> SyncStatus {
    let q = query_of(source, table);
    status_of(
        entry_at(table, q.key),
        if looks_local(q.url) {
            None
        } else {
            answer
        },
    )
}

/// The status of `source`, given the lock table and what the remote
/// answered.
pub fn source_status(source: &Source, lock: &LockFile, answer: Option<&str>) -> (r: SyncStatus)
    ensures
        r == source_status_of(source@, lock@, opt_str_text(answer)),
{
    let q = status_query(source, lock);
    let remote = if is_local_path(q.url.as_str()) {
        None
    } else {
        answer
    };
    classify(lock.get(q.key.as_str()), remote)
}

/// A source in the local file system is never compared with a remote. Its
/// address is the path as it is declared, and so is its key, but for the
/// destination. It is unknown where the lock table holds an entry for it,
/// whatever the entry and whatever was answered, and not synced where the
/// table holds none; it is never up to date and never outdated, and no
/// remote is asked about it.
pub proof fn law_local_source_is_never_compared(
    source: SourceText,
    table: Map<Seq<char>, LockedText>,
    answer: Option<Seq<char>>,
)
    requires
        looks_local(source.url),
    ensures
        query_of(source, table).url == source.url,
        query_of(source, table).key == lock_key_text(source.url, source.dest),
        !query_of(source, table).ask,
        source_status_of(source, table, answer) == (if table.contains_key(
            lock_key_text(source.url, source.dest),
        ) {
            SyncStatus::Unknown
        } else {
            SyncStatus::NotSynced
        }),
{
    law_local_path_verbatim(source.url);
}

/// A source that the lock table holds nothing for is not synced; one whose
/// synced commit is the commit of the remote is up to date; one whose
/// remote stands at another commit is outdated; one whose remote gave no
/// answer is unknown.
pub proof fn law_status_classes(
    source: SourceText,
    table: Map<Seq<char>, LockedText>,
    answer: Option<Seq<char>>,
)
    ensures
        ({
            let q = query_of(source, table);
            let status = source_status_of(source, table, answer);
            &&& !table.contains_key(q.key) ==> status == SyncStatus::NotSynced
            &&& table.contains_key(q.key) && !looks_local(q.url) && answer == Some(
                table[q.key].commit,
            ) ==> status == SyncStatus::UpToDate
            &&& table.contains_key(q.key) && !looks_local(q.url) && answer is Some && answer
                != Some(table[q.key].commit) ==> status == SyncStatus::Outdated
            &&& table.contains_key(q.key) && answer is None ==> status == SyncStatus::Unknown
        }),
{
}

/// How one source is listed: its status in brackets, its address, an arrow
/// and its destination, or a slash for the root.
pub open spec fn status_line_text(status: SyncStatus, url: Seq<char>, dest: Option<Seq<char>>) -> Seq<
    char,
> {
    "["@ + label_text(status) + "] "@ + url + " -> "@ + match dest {
        Some(d) => d,
        None => "/"@,
    }
}

/// How one source is listed.
pub fn status_line(status: SyncStatus, url: &str, dest: Option<&str>) -> (r: String)
    ensures
        r@ == status_line_text(status, url@, opt_str_text(dest)),
{
    let mut r = String::from_str("[");
    r.append(label(status));
    r.append("] ");
    r.append(url);
    r.append(" -> ");
    match dest {
        Some(d) => r.append(d),
        None => r.append("/"),
    }
    r
}

/// How many of the first `n` statuses are `which`.
pub open spec fn count(statuses: Seq<SyncStatus>, which: SyncStatus, n: int) -> int
    decreases n,
{
    if n <= 0 {
        0
    } else {
        count(statuses, which, n - 1) + if statuses[n - 1] == which {
            1int
        } else {
            0int
        }
    }
}

/// The counts of a status listing.
#[derive(Debug, Clone, Copy, PartialEq, Eq, Structural)]
pub struct StatusTally {
    pub up_to_date: usize,
    pub outdated: usize,
    pub unknown: usize,
}

/// The counts of `statuses`: how many are up to date, how many outdated,
/// how many unknown. A source that is not synced is none of the three.
pub open spec fn tally_of(statuses: Seq<SyncStatus>) -> (int, int, int) {
    let n = statuses.len() as int;
    (
        count(statuses, SyncStatus::UpToDate, n),
        count(statuses, SyncStatus::Outdated, n),
        count(statuses, SyncStatus::Unknown, n),
    )
}

/// The counts of `statuses`.
pub fn tally(statuses: &Vec<SyncStatus>) -> (r: StatusTally)
    ensures
        (r.up_to_date as int, r.outdated as int, r.unknown as int) == tally_of(statuses@),
{
    let mut r = StatusTally { up_to_date: 0, outdated: 0, unknown: 0 };
    let mut i: usize = 0;
    while i < statuses.len()
        invariant
            i <= statuses.len(),
            r.up_to_date + r.outdated + r.unknown <= i,
            r.up_to_date == count(statuses@, SyncStatus::UpToDate, i as int),
            r.outdated == count(statuses@, SyncStatus::Outdated, i as int),
            r.unknown == count(statuses@, SyncStatus::Unknown, i as int),
        decreases statuses.len() - i,
    {
        match statuses[i] {
            SyncStatus::UpToDate => {
                r.up_to_date += 1;
            },
            SyncStatus::Outdated => {
                r.outdated += 1;
            },
            SyncStatus::Unknown => {
                r.unknown += 1;
            },
            SyncStatus::NotSynced => {},
        }
        i += 1;
    }
    r
}

/// How the counts are written.
pub open spec fn summary_text(up_to_date: nat, outdated: nat, unknown: nat) -> Seq<char> {
    decimal(up_to_date) + " up-to-date, "@ + decimal(outdated) + " outdated, "@ + decimal(unknown)
        + " unknown"@
}

/// How the counts are written.
pub fn summary(t: &StatusTally) -> (r: String)
    ensures
        r@ == summary_text(t.up_to_date as nat, t.outdated as nat, t.unknown as nat),
{
    let mut r = decimal_text(t.up_to_date);
    r.append(" up-to-date, ");
    r.append(decimal_text(t.outdated).as_str());
    r.append(" outdated, ");
    r.append(decimal_text(t.unknown).as_str());
    r.append(" unknown");
    r
}

/// The status of every source, its listing, and the counts.
#[derive(Debug, Clone, PartialEq, Eq)]
pub struct StatusReport {
    /// The status of each source, in the order of the declarations.
    pub statuses: Vec<SyncStatus>,
    /// The line that lists each source.
    pub lines: Vec<String>,
    /// The counts.
    pub tally: StatusTally,
}

/// The remote's answer for the source at place `i`; none where the answers
/// do not reach that far.
pub open spec fn answer_at(answers: Seq<Option<String>>, i: int) -> Option<Seq<char>> {
    if 0 <= i < answers.len() {
        opt_text(answers[i])
    } else {
        None
    }
}

/// The report on `sources`, given the lock table and, for each source in
/// turn, what the remote answered where it was asked.
pub fn status_report(sources: &Vec<Source>, lock: &LockFile, answers: &Vec<Option<String>>) -> (r:
    StatusReport)
    ensures
        r.statuses.len() == sources.len(),
        r.lines.len() == sources.len(),
        forall|i: int|
            0 <= i < sources.len() ==> #[trigger] r.statuses@[i] == source_status_of(
                sources@[i]@,
                lock@,
                answer_at(answers@, i),
            ),
        forall|i: int|
            0 <= i < sources.len() ==> (#[trigger] r.lines@[i])@ == status_line_text(
                r.statuses@[i],
                resolved(sources@[i]@.url).url,
                sources@[i]@.dest,
            ),
        (r.tally.up_to_date as int, r.tally.outdated as int, r.tally.unknown as int) == tally_of(
            r.statuses@,
        ),
{
    let mut statuses: Vec<SyncStatus> = Vec::new();
    let mut lines: Vec<String> = Vec::new();
    let mut i: usize = 0;
    while i < sources.len()
        invariant
            i <= sources.len(),
            statuses.len() == i,
            lines.len() == i,
            forall|k: int|
                0 <= k < i ==> #[trigger] statuses@[k] == source_status_of(
                    sources@[k]@,
                    lock@,
                    answer_at(answers@, k),
                ),
            forall|k: int|
                0 <= k < i ==> (#[trigger] lines@[k])@ == status_line_text(
                    statuses@[k],
                    resolved(sources@[k]@.url).url,
                    sources@[k]@.dest,
                ),
        decreases sources.len() - i,
    {
        let source = &sources[i];
        let answer = if i < answers.len() {
            borrow_opt(&answers[i])
        } else {
            None
        };
        let status = source_status(source, lock, answer);
        let parsed = parse_source(source.url.as_str());
        lines.push(status_line(status, parsed.url.as_str(), borrow_opt(&source.dest)));
        statuses.push(status);
        i += 1;
    }
    let tally = tally(&statuses);
    StatusReport { statuses, lines, tally }
}

} // verus!
