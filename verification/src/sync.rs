//! The sync of one source, as a machine: it names the next piece of work,
//! takes what came of it, and names the next, until the source is placed or
//! has failed. Whoever drives the machine does the work; every decision is
//! made here.

use vstd::prelude::*;
use vstd::string::StringExecFns;
use crate::config::{Source, SourceText};
use crate::error::{ErrorText, RingsideError};
use crate::git::{
    clone_commands, clone_plan, command_texts, git_failure, git_failure_text, GitCommand,
    GitCommandText,
};
use crate::lock::{lock_key, lock_key_text, LockedSource, LockedText};
use crate::outside::{join_path, utc_now_rfc3339};
use crate::source::{parse_source, resolved};
use crate::stamp::is_utc_stamp;
use crate::text::{borrow_opt, copy_opt, opt_text};

verus! {

/// Where the sync of a source stands: at the start, waiting for what came
/// of one piece of work, or at its end.
#[derive(Debug, Clone, Copy, PartialEq, Eq, Structural)]
pub enum SyncStage {
    Ready,
    Commit,
    Scratch,
    Fetch(usize),
    Strip,
    Subpath,
    Destination,
    Remove,
    Create,
    Copy,
    Done,
}

/// What came of a piece of work.
#[derive(Debug, PartialEq, Eq)]
pub enum SyncEvent {
    /// Nothing yet: the sync is to begin.
    Begin,
    /// The commit that the remote ref stands at, if it could be had.
    Commit(Option<String>),
    /// The work was done.
    Done,
    /// The work failed, with this detail.
    Failed(String),
    /// Git ran and left, having written this to its error stream.
    GitExit { success: bool, stderr: String },
    /// Whether what was probed for exists.
    Exists(bool),
}

/// What a [`SyncEvent`] holds, as text.
pub enum EventText {
    Begin,
    Commit(Option<Seq<char>>),
    Done,
    Failed(Seq<char>),
    GitExit { success: bool, stderr: Seq<char> },
    Exists(bool),
}

impl View for SyncEvent {
    type V = EventText;

    open spec fn view(&self) -> EventText {
        match self {
            SyncEvent::Begin => EventText::Begin,
            SyncEvent::Commit(c) => EventText::Commit(opt_text(*c)),
            SyncEvent::Done => EventText::Done,
            SyncEvent::Failed(d) => EventText::Failed(d@),
            SyncEvent::GitExit { success, stderr } => EventText::GitExit {
                success: *success,
                stderr: stderr@,
            },
            SyncEvent::Exists(b) => EventText::Exists(*b),
        }
    }
}

/// How the sync of one source ends: with the key and the entry to record in
/// the lock table, with nothing to record where the commit is not known, or
/// with a failure.
pub type SyncOutcome = Result<Option<(String, LockedSource)>, RingsideError>;

/// What a [`SyncOutcome`] holds, as text.
pub enum OutcomeText {
    Synced(Option<(Seq<char>, LockedText)>),
    Failed(ErrorText),
}

/// The text of an outcome.
pub open spec fn outcome_text(o: SyncOutcome) -> OutcomeText {
    match o {
        Ok(Some((key, entry))) => OutcomeText::Synced(Some((key@, entry@))),
        Ok(None) => OutcomeText::Synced(None),
        Err(e) => OutcomeText::Failed(e@),
    }
}

/// The next piece of work.
#[derive(Debug, PartialEq, Eq)]
pub enum SyncAction {
    /// Ask the remote which commit the ref, or its head, stands at.
    LookUpCommit { url: String, git_ref: Option<String> },
    /// Make a scratch directory for this source alone.
    MakeScratch,
    /// Run git on the scratch directory.
    RunGit(GitCommand),
    /// Take the version-control metadata out of what was fetched.
    StripMetadata,
    /// Probe whether this subpath exists in what was fetched.
    ProbeSubpath(String),
    /// Probe whether the destination exists.
    ProbeDestination(String),
    /// Remove the destination with all that it holds.
    RemoveDestination(String),
    /// Create the destination, and what leads to it.
    CreateDestination(String),
    /// Copy what the subpath of the fetched tree holds, or the whole tree
    /// where there is none, into the destination. With `content_only` the
    /// content lands in the destination itself, not in a directory of the
    /// tree's name under it; with `overwrite` it replaces what stands in
    /// its way.
    CopyContents { subpath: Option<String>, destination: String, overwrite: bool, content_only: bool },
    /// Discard the scratch directory: the sync of this source is over.
    Finish(SyncOutcome),
}

/// What a [`SyncAction`] holds, as text.
pub enum ActionText {
    LookUpCommit { url: Seq<char>, git_ref: Option<Seq<char>> },
    MakeScratch,
    RunGit(GitCommandText),
    StripMetadata,
    ProbeSubpath(Seq<char>),
    ProbeDestination(Seq<char>),
    RemoveDestination(Seq<char>),
    CreateDestination(Seq<char>),
    CopyContents {
        subpath: Option<Seq<char>>,
        destination: Seq<char>,
        overwrite: bool,
        content_only: bool,
    },
    Finish(OutcomeText),
}

impl View for SyncAction {
    type V = ActionText;

    open spec fn view(&self) -> ActionText {
        match self {
            SyncAction::LookUpCommit { url, git_ref } => ActionText::LookUpCommit {
                url: url@,
                git_ref: opt_text(*git_ref),
            },
            SyncAction::MakeScratch => ActionText::MakeScratch,
            SyncAction::RunGit(c) => ActionText::RunGit(c@),
            SyncAction::StripMetadata => ActionText::StripMetadata,
            SyncAction::ProbeSubpath(p) => ActionText::ProbeSubpath(p@),
            SyncAction::ProbeDestination(d) => ActionText::ProbeDestination(d@),
            SyncAction::RemoveDestination(d) => ActionText::RemoveDestination(d@),
            SyncAction::CreateDestination(d) => ActionText::CreateDestination(d@),
            SyncAction::CopyContents {
                subpath,
                destination,
                overwrite,
                content_only,
            } => ActionText::CopyContents {
                subpath: opt_text(*subpath),
                destination: destination@,
                overwrite: *overwrite,
                content_only: *content_only,
            },
            SyncAction::Finish(o) => ActionText::Finish(outcome_text(*o)),
        }
    }
}

/// The sync of one source, as far as it has come.
pub struct TaskText {
    /// The canonical address of the source.
    pub url: Seq<char>,
    /// The subpath that is wanted, if not the whole tree.
    pub subpath: Option<Seq<char>>,
    /// The ref to fetch, if not the head.
    pub git_ref: Option<Seq<char>>,
    /// The declared destination under the root.
    pub dest: Option<Seq<char>>,
    /// The directory that the content goes to.
    pub destination: Seq<char>,
    /// The commit of the remote ref, once it is known.
    pub commit: Option<Seq<char>>,
    /// Where the sync stands.
    pub stage: SyncStage,
}

/// The first of two optional texts that is there: what is declared goes
/// before what is inferred.
pub open spec fn declared_or(declared: Option<Seq<char>>, inferred: Option<Seq<char>>) -> Option<
    Seq<char>,
> {
    if declared is Some {
        declared
    } else {
        inferred
    }
}

/// What path under a root a destination comes to is decided by the file
/// system; only a source without a destination is known to go to the root
/// itself.
pub open spec fn goes_to(root: Seq<char>, dest: Option<Seq<char>>, destination: Seq<char>) -> bool {
    dest is None ==> destination == root
}

/// The sync of `source` under `root`, before it has begun: the address is
/// what the declared address resolves to, subpath and ref are those
/// declared or else those that the address implies, and no commit is known.
pub open spec fn planned(source: SourceText, destination: Seq<char>) -> TaskText {
    let p = resolved(source.url);
    TaskText {
        url: p.url,
        subpath: declared_or(source.path, p.path),
        git_ref: declared_or(source.git_ref, p.git_ref),
        dest: source.dest,
        destination,
        commit: None,
        stage: SyncStage::Ready,
    }
}

/// What came of the work is of the kind that the stage waits for.
pub open spec fn expects(stage: SyncStage, e: EventText) -> bool {
    match stage {
        SyncStage::Ready => e is Begin,
        SyncStage::Commit => e is Commit,
        SyncStage::Fetch(_) => e is GitExit || e is Failed,
        SyncStage::Subpath | SyncStage::Destination => e is Exists,
        SyncStage::Scratch | SyncStage::Strip | SyncStage::Remove | SyncStage::Create
        | SyncStage::Copy => e is Done || e is Failed,
        SyncStage::Done => false,
    }
}

/// What a failure on the destination is reported as: what was tried, the
/// destination, and the detail of the failure.
pub open spec fn destination_detail(tried: Seq<char>, destination: Seq<char>, detail: Seq<char>) -> Seq<
    char,
> {
    tried + destination + ": "@ + detail
}

impl TaskText {
    /// The commands that fetch the source.
    pub open spec fn commands(self) -> Seq<GitCommandText> {
        clone_plan(self.url, self.git_ref, self.subpath)
    }

    /// The same sync, at another stage.
    pub open spec fn at(self, stage: SyncStage) -> TaskText {
        TaskText { stage, ..self }
    }

    /// How far the sync has come, as a number that grows with every step.
    pub open spec fn progress(self) -> int {
        match self.stage {
            SyncStage::Ready => 0,
            SyncStage::Commit => 1,
            SyncStage::Scratch => 2,
            SyncStage::Fetch(k) => 3 + k,
            SyncStage::Strip => 3 + self.commands().len() as int,
            SyncStage::Subpath => 4 + self.commands().len() as int,
            SyncStage::Destination => 5 + self.commands().len() as int,
            SyncStage::Remove => 6 + self.commands().len() as int,
            SyncStage::Create => 7 + self.commands().len() as int,
            SyncStage::Copy => 8 + self.commands().len() as int,
            SyncStage::Done => 9 + self.commands().len() as int,
        }
    }

    /// The sync ends in failure.
    pub open spec fn fail(self, e: ErrorText) -> (TaskText, ActionText) {
        (self.at(SyncStage::Done), ActionText::Finish(OutcomeText::Failed(e)))
    }

    /// The sync goes on to another stage, with the work of that stage.
    pub open spec fn go(self, stage: SyncStage, action: ActionText) -> (TaskText, ActionText) {
        (self.at(stage), action)
    }

    /// The copy into the destination: of what the fetched tree holds, not
    /// of the tree as a directory, and over what is there.
    pub open spec fn copy(self) -> ActionText {
        ActionText::CopyContents {
            subpath: self.subpath,
            destination: self.destination,
            overwrite: true,
            content_only: true,
        }
    }

    /// What is recorded once the source is placed: under the key of address
    /// and destination, the address, the commit and the time; nothing where
    /// the commit is not known.
    pub open spec fn record(self, stamp: Seq<char>) -> Option<(Seq<char>, LockedText)> {
        match self.commit {
            Some(c) => Some(
                (
                    lock_key_text(self.url, self.dest),
                    LockedText { url: self.url, commit: c, synced_at: stamp },
                ),
            ),
            None => None,
        }
    }

    /// The step that the sync takes on what came of the work it waits for,
    /// at the time `stamp`: where it stands afterwards, and the next piece
    /// of work.
    ///
    /// The commit is looked up first, and is not needed for the rest. Then
    /// a scratch directory is made, the source is fetched into it by one git
    /// command after another, and the metadata is taken out. A subpath that
    /// is wanted must exist in what was fetched. A destination that was
    /// declared and exists is removed; the root itself never is. The
    /// destination is created where it is not there, and the content is
    /// copied. Only then is there something to record. Any failure ends the
    /// sync at once.
    pub open spec fn next(self, e: EventText, stamp: Seq<char>) -> (TaskText, ActionText) {
        match (self.stage, e) {
            (SyncStage::Ready, EventText::Begin) => self.go(
                SyncStage::Commit,
                ActionText::LookUpCommit { url: self.url, git_ref: self.git_ref },
            ),
            (SyncStage::Commit, EventText::Commit(c)) => (TaskText { commit: c, ..self }).go(
                SyncStage::Scratch,
                ActionText::MakeScratch,
            ),
            (SyncStage::Scratch, EventText::Done) => self.go(
                SyncStage::Fetch(0),
                ActionText::RunGit(self.commands()[0]),
            ),
            (SyncStage::Fetch(k), EventText::GitExit { success, stderr }) => if !success {
                self.fail(
                    ErrorText::GitError(git_failure_text(self.commands()[k as int].context, stderr)),
                )
            } else if k + 1 < self.commands().len() {
                self.go(
                    SyncStage::Fetch((k + 1) as usize),
                    ActionText::RunGit(self.commands()[k + 1]),
                )
            } else {
                self.go(SyncStage::Strip, ActionText::StripMetadata)
            },
            (SyncStage::Strip, EventText::Done) => match self.subpath {
                Some(p) => self.go(SyncStage::Subpath, ActionText::ProbeSubpath(p)),
                None => self.go(
                    SyncStage::Destination,
                    ActionText::ProbeDestination(self.destination),
                ),
            },
            (SyncStage::Subpath, EventText::Exists(found)) => if found {
                self.go(SyncStage::Destination, ActionText::ProbeDestination(self.destination))
            } else {
                self.fail(ErrorText::SubpathNotFound { url: self.url, path: self.subpath->0 })
            },
            (SyncStage::Destination, EventText::Exists(found)) => if found && self.dest is Some {
                self.go(SyncStage::Remove, ActionText::RemoveDestination(self.destination))
            } else if !found {
                self.go(SyncStage::Create, ActionText::CreateDestination(self.destination))
            } else {
                self.go(SyncStage::Copy, self.copy())
            },
            (SyncStage::Remove, EventText::Done) => self.go(
                SyncStage::Create,
                ActionText::CreateDestination(self.destination),
            ),
            (SyncStage::Create, EventText::Done) => self.go(SyncStage::Copy, self.copy()),
            (SyncStage::Copy, EventText::Done) => self.go(
                SyncStage::Done,
                ActionText::Finish(OutcomeText::Synced(self.record(stamp))),
            ),
            (SyncStage::Scratch, EventText::Failed(d)) => self.fail(ErrorText::Io(d)),
            (SyncStage::Fetch(_), EventText::Failed(d)) => self.fail(ErrorText::Io(d)),
            (SyncStage::Strip, EventText::Failed(d)) => self.fail(ErrorText::Io(d)),
            (SyncStage::Remove, EventText::Failed(d)) => self.fail(
                ErrorText::FileCopy(
                    destination_detail("Failed to remove existing directory "@, self.destination, d),
                ),
            ),
            (SyncStage::Create, EventText::Failed(d)) => self.fail(
                ErrorText::DirectoryCreation(
                    destination_detail("Failed to create "@, self.destination, d),
                ),
            ),
            (SyncStage::Copy, EventText::Failed(d)) => self.fail(
                ErrorText::FileCopy(destination_detail("Failed to copy to "@, self.destination, d)),
            ),
            _ => arbitrary(),
        }
    }
}

/// The action ends the sync with an entry to record.
pub open spec fn records_entry(action: ActionText) -> bool {
    action matches ActionText::Finish(OutcomeText::Synced(Some(_)))
}

/// The time that an action carries: that of the entry it records, if it
/// records one.
pub open spec fn stamp_of(action: ActionText) -> Seq<char> {
    match action {
        ActionText::Finish(OutcomeText::Synced(Some((_, entry)))) => entry.synced_at,
        _ => Seq::empty(),
    }
}

/// The sync of one source.
#[derive(Debug)]
pub struct SyncTask {
    url: String,
    subpath: Option<String>,
    git_ref: Option<String>,
    dest: Option<String>,
    destination: String,
    commands: Vec<GitCommand>,
    commit: Option<String>,
    stage: SyncStage,
}

impl View for SyncTask {
    type V = TaskText;

    closed spec fn view(&self) -> TaskText {
        TaskText {
            url: self.url@,
            subpath: opt_text(self.subpath),
            git_ref: opt_text(self.git_ref),
            dest: opt_text(self.dest),
            destination: self.destination@,
            commit: opt_text(self.commit),
            stage: self.stage,
        }
    }
}

/// What a failure on the destination is reported as.
fn destination_text(tried: &str, destination: &str, detail: &str) -> (r: String)
    ensures
        r@ == destination_detail(tried@, destination@, detail@),
{
    let mut text = String::from_str(tried);
    text.append(destination);
    text.append(": ");
    text.append(detail);
    text
}

/// What a root that cannot be created is reported as.
pub fn root_creation_failure(root: &str, detail: &str) -> (e: RingsideError)
    ensures
        e@ == ErrorText::DirectoryCreation(destination_detail("Failed to create "@, root@, detail@)),
{
    RingsideError::DirectoryCreation(destination_text("Failed to create ", root, detail))
}

impl SyncTask {
    #[verifier::type_invariant]
    spec fn fits(self) -> bool {
        &&& command_texts(self.commands@) == clone_plan(
            self.url@,
            opt_text(self.git_ref),
            opt_text(self.subpath),
        )
        &&& self.stage matches SyncStage::Fetch(k) ==> k < self.commands.len()
        &&& self.stage is Subpath ==> self.subpath is Some
    }

    /// The sync of `source` under the directory `root`, before it has
    /// begun. What is declared overrides what the address implies.
    pub fn new(source: &Source, root: &str) -> (r: SyncTask)
        ensures
            r@ == planned(source@, r@.destination),
            goes_to(root@, source@.dest, r@.destination),
    {
        let parsed = parse_source(source.url.as_str());
        let subpath = if source.path.is_some() {
            copy_opt(&source.path)
        } else {
            parsed.path
        };
        let git_ref = if source.git_ref.is_some() {
            copy_opt(&source.git_ref)
        } else {
            parsed.git_ref
        };
        let destination = match &source.dest {
            Some(d) => join_path(root, d.as_str()),
            None => String::from_str(root),
        };
        let commands = clone_commands(parsed.url.as_str(), borrow_opt(&git_ref), borrow_opt(&subpath));
        SyncTask {
            url: parsed.url,
            subpath,
            git_ref,
            dest: copy_opt(&source.dest),
            destination,
            commands,
            commit: None,
            stage: SyncStage::Ready,
        }
    }

    /// Where the sync stands.
    pub fn stage(&self) -> (r: SyncStage)
        ensures
            r == self@.stage,
    {
        self.stage
    }

    /// Whether the sync waits for an answer of the kind of `event`.
    pub fn awaits(&self, event: &SyncEvent) -> (r: bool)
        ensures
            r == expects(self@.stage, event@),
    {
        match self.stage {
            SyncStage::Ready => matches!(event, SyncEvent::Begin),
            SyncStage::Commit => matches!(event, SyncEvent::Commit(_)),
            SyncStage::Fetch(_) => matches!(event, SyncEvent::GitExit { .. } | SyncEvent::Failed(_)),
            SyncStage::Subpath | SyncStage::Destination => matches!(event, SyncEvent::Exists(_)),
            SyncStage::Scratch | SyncStage::Strip | SyncStage::Remove | SyncStage::Create
            | SyncStage::Copy => matches!(event, SyncEvent::Done | SyncEvent::Failed(_)),
            SyncStage::Done => false,
        }
    }

    /// Ends the sync in failure.
    fn end(&mut self, e: RingsideError) -> (action: SyncAction)
        ensures
            (final(self)@, action@) == old(self)@.fail(e@),
    {
        proof {
            use_type_invariant(&*self);
        }
        self.stage = SyncStage::Done;
        SyncAction::Finish(Err(e))
    }

    /// The copy into the destination.
    fn copy_action(&self) -> (action: SyncAction)
        ensures
            action@ == self@.copy(),
    {
        SyncAction::CopyContents {
            subpath: copy_opt(&self.subpath),
            destination: self.destination.clone(),
            overwrite: true,
            content_only: true,
        }
    }

    /// What is recorded once the source is placed, at the time `now`.
    fn record_at(&self, now: &str) -> (r: Option<(String, LockedSource)>)
        ensures
            outcome_text(Ok(r)) == OutcomeText::Synced(self@.record(now@)),
    {
        match &self.commit {
            Some(c) => {
                let key = lock_key(self.url.as_str(), borrow_opt(&self.dest));
                let entry = LockedSource {
                    url: self.url.clone(),
                    commit: c.clone(),
                    synced_at: String::from_str(now),
                };
                Some((key, entry))
            },
            None => None,
        }
    }

    /// Takes what came of the work that the sync waited for, at the time
    /// `now`, and names the next piece of work.
    pub fn step_at(&mut self, event: SyncEvent, now: &str) -> (action: SyncAction)
        requires
            expects(old(self)@.stage, event@),
        ensures
            (final(self)@, action@) == old(self)@.next(event@, now@),
    {
        proof {
            use_type_invariant(&*self);
        }
        match (self.stage, event) {
            (SyncStage::Ready, SyncEvent::Begin) => {
                self.stage = SyncStage::Commit;
                SyncAction::LookUpCommit {
                    url: self.url.clone(),
                    git_ref: copy_opt(&self.git_ref),
                }
            },
            (SyncStage::Commit, SyncEvent::Commit(c)) => {
                self.commit = c;
                self.stage = SyncStage::Scratch;
                SyncAction::MakeScratch
            },
            (SyncStage::Scratch, SyncEvent::Done) => {
                assert(command_texts(self.commands@).len() == self.commands.len());
                assert(self@.commands().len() >= 1);
                self.stage = SyncStage::Fetch(0);
                SyncAction::RunGit(self.commands[0].copy())
            },
            (SyncStage::Fetch(k), SyncEvent::GitExit { success, stderr }) => {
                if !success {
                    let e = git_failure(self.commands[k].context.as_str(), stderr.as_str());
                    self.end(e)
                } else if k + 1 < self.commands.len() {
                    self.stage = SyncStage::Fetch(k + 1);
                    SyncAction::RunGit(self.commands[k + 1].copy())
                } else {
                    self.stage = SyncStage::Strip;
                    SyncAction::StripMetadata
                }
            },
            (SyncStage::Strip, SyncEvent::Done) => {
                match &self.subpath {
                    Some(p) => {
                        let p = p.clone();
                        self.stage = SyncStage::Subpath;
                        SyncAction::ProbeSubpath(p)
                    },
                    None => {
                        self.stage = SyncStage::Destination;
                        SyncAction::ProbeDestination(self.destination.clone())
                    },
                }
            },
            (SyncStage::Subpath, SyncEvent::Exists(found)) => {
                if found {
                    self.stage = SyncStage::Destination;
                    SyncAction::ProbeDestination(self.destination.clone())
                } else {
                    let path = match &self.subpath {
                        Some(p) => p.clone(),
                        None => unreached(),
                    };
                    let url = self.url.clone();
                    self.end(RingsideError::SubpathNotFound { url, path })
                }
            },
            (SyncStage::Destination, SyncEvent::Exists(found)) => {
                if found && self.dest.is_some() {
                    self.stage = SyncStage::Remove;
                    SyncAction::RemoveDestination(self.destination.clone())
                } else if !found {
                    self.stage = SyncStage::Create;
                    SyncAction::CreateDestination(self.destination.clone())
                } else {
                    self.stage = SyncStage::Copy;
                    self.copy_action()
                }
            },
            (SyncStage::Remove, SyncEvent::Done) => {
                self.stage = SyncStage::Create;
                SyncAction::CreateDestination(self.destination.clone())
            },
            (SyncStage::Create, SyncEvent::Done) => {
                self.stage = SyncStage::Copy;
                self.copy_action()
            },
            (SyncStage::Copy, SyncEvent::Done) => {
                let r = self.record_at(now);
                self.stage = SyncStage::Done;
                SyncAction::Finish(Ok(r))
            },
            (SyncStage::Scratch, SyncEvent::Failed(d)) => self.end(RingsideError::Io(d)),
            (SyncStage::Fetch(_), SyncEvent::Failed(d)) => self.end(RingsideError::Io(d)),
            (SyncStage::Strip, SyncEvent::Failed(d)) => self.end(RingsideError::Io(d)),
            (SyncStage::Remove, SyncEvent::Failed(d)) => {
                let text = destination_text(
                    "Failed to remove existing directory ",
                    self.destination.as_str(),
                    d.as_str(),
                );
                self.end(RingsideError::FileCopy(text))
            },
            (SyncStage::Create, SyncEvent::Failed(d)) => {
                let text = destination_text(
                    "Failed to create ",
                    self.destination.as_str(),
                    d.as_str(),
                );
                self.end(RingsideError::DirectoryCreation(text))
            },
            (SyncStage::Copy, SyncEvent::Failed(d)) => {
                let text = destination_text(
                    "Failed to copy to ",
                    self.destination.as_str(),
                    d.as_str(),
                );
                self.end(RingsideError::FileCopy(text))
            },
            _ => unreached(),
        }
    }

    /// Takes what came of the work that the sync waited for, and names the
    /// next piece of work. An entry that is recorded carries the time at
    /// which the content was placed: a time in UTC, written as RFC 3339 has
    /// it.
    pub fn step(&mut self, event: SyncEvent) -> (action: SyncAction)
        requires
            expects(old(self)@.stage, event@),
        ensures
            (final(self)@, action@) == old(self)@.next(event@, stamp_of(action@)),
            records_entry(action@) ==> is_utc_stamp(stamp_of(action@)),
    {
        let placed = matches!(self.stage, SyncStage::Copy) && matches!(event, SyncEvent::Done);
        if placed {
            let now = utc_now_rfc3339();
            self.step_at(event, now.as_str())
        } else {
            self.step_at(event, "")
        }
    }
}

/// An entry is recorded only by the step that follows the copy into the
/// destination: no sync that failed, and none that has not placed its
/// content, has anything to record. The entry stands under the key of
/// address and destination and holds the address and the commit that was
/// looked up.
pub proof fn law_record_follows_placement(t: TaskText, e: EventText, stamp: Seq<char>)
    requires
        expects(t.stage, e),
    ensures
        t.next(e, stamp).1 matches ActionText::Finish(OutcomeText::Synced(Some((key, entry)))) ==> {
            &&& t.stage is Copy
            &&& e is Done
            &&& t.commit == Some(entry.commit)
            &&& key == lock_key_text(t.url, t.dest)
            &&& entry.url == t.url
            &&& entry.synced_at == stamp
        },
{
}

/// The root itself is never removed: a removal is asked for only where a
/// destination is declared, and then only of a destination that exists.
pub proof fn law_root_is_never_removed(t: TaskText, e: EventText, stamp: Seq<char>)
    requires
        expects(t.stage, e),
    ensures
        t.next(e, stamp).1 is RemoveDestination ==> t.dest is Some && t.stage is Destination && e
            == EventText::Exists(true),
{
}

/// A declared destination that exists is replaced, not merged into: it is
/// removed, then created, and only then copied into.
pub proof fn law_declared_destination_is_replaced(t: TaskText, stamp: Seq<char>)
    requires
        t.stage is Destination,
        t.dest is Some,
    ensures
        ({
            let (t1, a1) = t.next(EventText::Exists(true), stamp);
            let (t2, a2) = t1.next(EventText::Done, stamp);
            let (t3, a3) = t2.next(EventText::Done, stamp);
            &&& a1 == ActionText::RemoveDestination(t.destination)
            &&& a2 == ActionText::CreateDestination(t.destination)
            &&& a3 == (ActionText::CopyContents {
                subpath: t.subpath,
                destination: t.destination,
                overwrite: true,
                content_only: true,
            })
        }),
{
}

/// Content is merged into a root that exists: without a declared
/// destination the copy follows the probe at once.
pub proof fn law_root_is_merged_into(t: TaskText, stamp: Seq<char>)
    requires
        t.stage is Destination,
        t.dest is None,
    ensures
        t.next(EventText::Exists(true), stamp).1 == (ActionText::CopyContents {
            subpath: t.subpath,
            destination: t.destination,
            overwrite: true,
            content_only: true,
        }),
{
}

/// A failure of any piece of work ends the sync of the source at once, in
/// failure.
pub proof fn law_failure_ends_sync(t: TaskText, e: EventText, stamp: Seq<char>)
    requires
        expects(t.stage, e),
        e is Failed || e matches EventText::GitExit { success: false, .. } || e
            == EventText::Exists(false) && t.stage is Subpath,
    ensures
        t.next(e, stamp).0.stage is Done,
        t.next(e, stamp).1 matches ActionText::Finish(OutcomeText::Failed(_)),
{
}

/// The sync goes on whether or not the commit could be looked up.
pub proof fn law_commit_is_not_needed(t: TaskText, commit: Option<Seq<char>>, stamp: Seq<char>)
    requires
        t.stage is Commit,
    ensures
        t.next(EventText::Commit(commit), stamp).1 == ActionText::MakeScratch,
{
}

/// Every step takes the sync forward, in the one order of its stages, and
/// leaves address, subpath, ref and destination as they are.
pub proof fn law_steps_advance(t: TaskText, e: EventText, stamp: Seq<char>)
    requires
        expects(t.stage, e),
        t.stage matches SyncStage::Fetch(k) ==> k < t.commands().len(),
    ensures
        t.next(e, stamp).0.progress() > t.progress(),
        t.next(e, stamp).0.stage matches SyncStage::Fetch(k) ==> k < t.commands().len(),
        t.next(e, stamp).0.url == t.url,
        t.next(e, stamp).0.subpath == t.subpath,
        t.next(e, stamp).0.git_ref == t.git_ref,
        t.next(e, stamp).0.dest == t.dest,
        t.next(e, stamp).0.destination == t.destination,
{
}

/// The sync once the answers `events` have come in, one after another, and
/// the work that it has named on the way.
pub open spec fn run_of(t: TaskText, events: Seq<EventText>, stamp: Seq<char>) -> (
    TaskText,
    Seq<ActionText>,
)
    decreases events.len(),
{
    if events.len() == 0 {
        (t, seq![])
    } else {
        let (before, actions) = run_of(t, events.drop_last(), stamp);
        let (after, action) = before.next(events.last(), stamp);
        (after, actions.push(action))
    }
}

/// Each of the answers is of the kind that the sync waits for when the
/// answer comes in.
pub open spec fn answers_fit(t: TaskText, events: Seq<EventText>, stamp: Seq<char>) -> bool
    decreases events.len(),
{
    events.len() > 0 ==> answers_fit(t, events.drop_last(), stamp) && expects(
        run_of(t, events.drop_last(), stamp).0.stage,
        events.last(),
    )
}

/// The sync of a source ends: from its start it takes no more answers than
/// it has stages, one for each git command among them. It names one piece
/// of work for each answer, and the end of the sync is the last of them:
/// after it the sync waits for nothing.
pub proof fn law_sync_ends(t: TaskText, events: Seq<EventText>, stamp: Seq<char>)
    requires
        t.stage is Ready,
        answers_fit(t, events, stamp),
    ensures
        events.len() <= 9 + t.commands().len(),
        run_of(t, events, stamp).1.len() == events.len(),
        run_of(t, events, stamp).0.progress() >= events.len(),
        run_of(t, events, stamp).0.commands() == t.commands(),
        run_of(t, events, stamp).0.stage matches SyncStage::Fetch(k) ==> k < t.commands().len(),
        forall|i: int|
            0 <= i < events.len() && #[trigger] run_of(t, events, stamp).1[i] is Finish ==> i
                == events.len() - 1 && run_of(t, events, stamp).0.stage is Done,
    decreases events.len(),
{
    if events.len() > 0 {
        let front = events.drop_last();
        law_sync_ends(t, front, stamp);
        let (before, actions) = run_of(t, front, stamp);
        law_steps_advance(before, events.last(), stamp);
        assert forall|i: int|
            0 <= i < events.len() && #[trigger] run_of(t, events, stamp).1[i] is Finish implies i
            == events.len() - 1 && run_of(t, events, stamp).0.stage is Done by {
            if i < front.len() {
                assert(actions[i] is Finish);
            }
        }
    }
}

/// The answer tells of work that failed.
pub open spec fn tells_failure(e: EventText) -> bool {
    e is Failed || e matches EventText::GitExit { success: false, .. }
}

/// The action ends the sync in failure.
pub open spec fn ends_failed(action: ActionText) -> bool {
    action matches ActionText::Finish(OutcomeText::Failed(_))
}

/// The action ends the sync with the content placed.
pub open spec fn ends_placed(action: ActionText) -> bool {
    action matches ActionText::Finish(OutcomeText::Synced(_))
}

/// Nothing is recorded on partial success: where the sync of a source ends
/// with the content placed, and so with something to record where the
/// commit is known, none of its work has failed.
pub proof fn law_record_needs_every_success(t: TaskText, events: Seq<EventText>, stamp: Seq<char>)
    requires
        t.stage is Ready,
        answers_fit(t, events, stamp),
    ensures
        forall|i: int|
            0 <= i < events.len() && tells_failure(#[trigger] events[i]) ==> ends_failed(
                run_of(t, events, stamp).1[i],
            ),
        events.len() > 0 && ends_placed(run_of(t, events, stamp).1.last()) ==> forall|i: int|
            0 <= i < events.len() ==> !tells_failure(#[trigger] events[i]),
    decreases events.len(),
{
    if events.len() > 0 {
        let front = events.drop_last();
        law_record_needs_every_success(t, front, stamp);
        law_sync_ends(t, events, stamp);
        let (before, actions) = run_of(t, front, stamp);
        let after = run_of(t, events, stamp).1;
        if tells_failure(events.last()) {
            law_failure_ends_sync(before, events.last(), stamp);
        }
        assert forall|i: int|
            0 <= i < events.len() && tells_failure(#[trigger] events[i]) implies ends_failed(
            after[i],
        ) by {
            if i < front.len() {
                assert(front[i] == events[i]);
                assert(actions[i] == after[i]);
            }
        }
        if ends_placed(after.last()) {
            assert forall|i: int| 0 <= i < events.len() implies !tells_failure(
                #[trigger] events[i],
            ) by {
                if tells_failure(events[i]) {
                    assert(after[i] is Finish);
                }
            }
        }
    }
}

} // verus!
