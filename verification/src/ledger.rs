//! The ledger of a sync run: the lock table as the run changes it, and the
//! failures of the run. Sources are synced side by side; what comes of each
//! is recorded here, one outcome at a time.

use vstd::prelude::*;
use vstd::string::StringExecFns;
use crate::error::{ErrorText, RingsideError};
use crate::lock::{LockFile, LockedText};
use crate::sync::{outcome_text, OutcomeText, SyncOutcome};
use crate::text::{decimal, decimal_text, texts};

verus! {

/// The lock table and the failures of a run.
#[derive(Debug)]
pub struct SyncLedger {
    /// The lock table, with what the run has recorded so far.
    pub lock: LockFile,
    /// The failures so far, each as it is shown.
    pub errors: Vec<String>,
}

/// What a [`SyncLedger`] holds, as text.
pub struct LedgerText {
    pub table: Map<Seq<char>, LockedText>,
    pub errors: Seq<Seq<char>>,
}

impl View for SyncLedger {
    type V = LedgerText;

    open spec fn view(&self) -> LedgerText {
        LedgerText { table: self.lock@, errors: texts(self.errors@) }
    }
}

/// What a run with `n` failed sources is reported as.
pub open spec fn failed_run_detail(n: nat) -> Seq<char> {
    decimal(n) + " source(s) failed to sync"@
}

impl LedgerText {
    /// The ledger once one more outcome is recorded. An entry goes into the
    /// table under its key, in place of what stood there; a failure is
    /// added to the failures; a sync that has nothing to record leaves the
    /// ledger as it is.
    pub open spec fn with(self, o: OutcomeText) -> LedgerText {
        match o {
            OutcomeText::Synced(Some((key, entry))) => LedgerText {
                table: self.table.insert(key, entry),
                ..self
            },
            OutcomeText::Synced(None) => self,
            OutcomeText::Failed(e) => LedgerText { errors: self.errors.push(e.shown()), ..self },
        }
    }

    /// The ledger once the outcomes are recorded, one after another.
    pub open spec fn with_all(self, outcomes: Seq<OutcomeText>) -> LedgerText
        decreases outcomes.len(),
    {
        if outcomes.len() == 0 {
            self
        } else {
            self.with_all(outcomes.drop_last()).with(outcomes.last())
        }
    }

    /// How the run is judged: it has failed if any source has, and the
    /// failure tells how many.
    pub open spec fn verdict(self) -> Option<ErrorText> {
        if self.errors.len() == 0 {
            None
        } else {
            Some(ErrorText::GitError(failed_run_detail(self.errors.len())))
        }
    }
}

impl SyncLedger {
    /// The ledger at the start of a run: the lock table as it was loaded,
    /// and no failures.
    pub fn new(lock: LockFile) -> (r: SyncLedger)
        ensures
            r@ == (LedgerText { table: lock@, errors: seq![] }),
    {
        let r = SyncLedger { lock, errors: Vec::new() };
        assert(texts(r.errors@) =~= seq![]);
        r
    }

    /// Records what came of the sync of one source.
    pub fn record(&mut self, outcome: SyncOutcome)
        ensures
            final(self)@ == old(self)@.with(outcome_text(outcome)),
    {
        match outcome {
            Ok(Some((key, entry))) => {
                self.lock.set(key, entry);
            },
            Ok(None) => {},
            Err(e) => {
                self.errors.push(e.message());
                assert(texts(self.errors@) =~= texts(old(self).errors@).push(e@.shown()));
            },
        }
    }

    /// Judges the run: a run in which any source failed has failed, though
    /// what the other sources recorded stands.
    pub fn verdict(&self) -> (r: Result<(), RingsideError>)
        ensures
            match r {
                Ok(_) => self@.verdict() is None,
                Err(e) => self@.verdict() == Some(e@),
            },
    {
        if self.errors.len() == 0 {
            Ok(())
        } else {
            let mut detail = decimal_text(self.errors.len());
            detail.append(" source(s) failed to sync");
            Err(RingsideError::GitError(detail))
        }
    }
}

/// How many of the outcomes are failures.
pub open spec fn failures(outcomes: Seq<OutcomeText>) -> nat
    decreases outcomes.len(),
{
    if outcomes.len() == 0 {
        0
    } else {
        failures(outcomes.drop_last()) + if outcomes.last() is Failed {
            1nat
        } else {
            0nat
        }
    }
}

/// The outcome at place `i` records an entry under `key`.
pub open spec fn records_at(outcomes: Seq<OutcomeText>, i: int, key: Seq<char>) -> bool {
    &&& 0 <= i < outcomes.len()
    &&& outcomes[i] matches OutcomeText::Synced(Some((k, _)))
    &&& k == key
}

/// One of the outcomes records an entry under `key`.
pub open spec fn records(outcomes: Seq<OutcomeText>, key: Seq<char>) -> bool {
    exists|i: int| records_at(outcomes, i, key)
}

/// A run in which some sources fail and others succeed: whatever the order
/// in which the outcomes come in, the ledger holds one failure for each
/// source that failed; the table holds an entry under each key that a
/// source has recorded, and under the keys it held before; what the run did
/// not touch is as it was; and the run is judged to have failed exactly if
/// a source has.
pub proof fn law_partial_failure(ledger: LedgerText, outcomes: Seq<OutcomeText>)
    ensures
        ledger.with_all(outcomes).errors.len() == ledger.errors.len() + failures(outcomes),
        forall|key: Seq<char>| #[trigger]
            ledger.with_all(outcomes).table.contains_key(key) <==> ledger.table.contains_key(key)
                || records(outcomes, key),
        forall|key: Seq<char>|
            !records(outcomes, key) && ledger.table.contains_key(key) ==> #[trigger] ledger.with_all(
                outcomes,
            ).table[key] == ledger.table[key],
        ledger.errors.len() == 0 ==> (ledger.with_all(outcomes).verdict() is Some <==> failures(
            outcomes,
        ) > 0),
    decreases outcomes.len(),
{
    if outcomes.len() > 0 {
        let front = outcomes.drop_last();
        let last = outcomes.last();
        law_partial_failure(ledger, front);
        let before = ledger.with_all(front);
        let after = ledger.with_all(outcomes);
        assert forall|key: Seq<char>| records(outcomes, key) <==> records(front, key) || (
        last matches OutcomeText::Synced(Some((k, _))) && k == key) by {
            if records(outcomes, key) {
                let i = choose|i: int| records_at(outcomes, i, key);
                if i < front.len() {
                    assert(records_at(front, i, key));
                }
            }
            if records(front, key) {
                let i = choose|i: int| records_at(front, i, key);
                assert(records_at(outcomes, i, key));
            }
            if last matches OutcomeText::Synced(Some((k, _))) && k == key {
                assert(records_at(outcomes, outcomes.len() - 1, key));
            }
        }
        assert forall|key: Seq<char>| #[trigger]
            after.table.contains_key(key) <==> ledger.table.contains_key(key) || records(
                outcomes,
                key,
            ) by {
            assert(before.table.contains_key(key) <==> ledger.table.contains_key(key) || records(
                front,
                key,
            ));
        }
        assert forall|key: Seq<char>|
            !records(outcomes, key) && ledger.table.contains_key(key) implies #[trigger] after.table[key]
            == ledger.table[key] by {
            assert(before.table[key] == ledger.table[key]);
        }
    } else {
        assert forall|key: Seq<char>| !records(outcomes, key) by {
            if records(outcomes, key) {
                let i = choose|i: int| records_at(outcomes, i, key);
            }
        }
    }
}

/// The entry that the table holds under a key that the run has recorded is
/// the one that was recorded last under it.
pub proof fn law_last_record_stands(
    ledger: LedgerText,
    outcomes: Seq<OutcomeText>,
    i: int,
    key: Seq<char>,
    entry: LockedText,
)
    requires
        0 <= i < outcomes.len(),
        outcomes[i] == OutcomeText::Synced(Some((key, entry))),
        forall|j: int| i < j < outcomes.len() ==> !records_at(outcomes, j, key),
    ensures
        ledger.with_all(outcomes).table.contains_key(key),
        ledger.with_all(outcomes).table[key] == entry,
    decreases outcomes.len(),
{
    let front = outcomes.drop_last();
    if i < outcomes.len() - 1 {
        assert forall|j: int| i < j < front.len() implies !records_at(front, j, key) by {
            assert(!records_at(outcomes, j, key));
        }
        assert(front[i] == outcomes[i]);
        law_last_record_stands(ledger, front, i, key, entry);
        assert(!records_at(outcomes, outcomes.len() - 1, key));
    }
}

/// How many of the outcomes record an entry.
pub open spec fn recordings(outcomes: Seq<OutcomeText>) -> nat
    decreases outcomes.len(),
{
    if outcomes.len() == 0 {
        0
    } else {
        recordings(outcomes.drop_last()) + if outcomes.last() matches OutcomeText::Synced(Some(_)) {
            1nat
        } else {
            0nat
        }
    }
}

/// The keys under which the outcomes record an entry.
pub open spec fn written(outcomes: Seq<OutcomeText>) -> Set<Seq<char>> {
    Set::new(|key: Seq<char>| records(outcomes, key))
}

/// No two of the outcomes record under one key: the sources of a run have
/// keys of their own.
pub open spec fn records_apart(outcomes: Seq<OutcomeText>) -> bool {
    forall|i: int, j: int, key: Seq<char>|
        records_at(outcomes, i, key) && records_at(outcomes, j, key) ==> i == j
}

/// After a run, the keys of the table are those it held before and those
/// that the run has written. Where the sources have keys of their own, the
/// run has written as many keys as it has outcomes that record; so of `N`
/// sources of which `M` fail and the others all record, it has written
/// `N - M`.
pub proof fn law_run_writes_one_key_for_each_success(
    ledger: LedgerText,
    outcomes: Seq<OutcomeText>,
)
    requires
        records_apart(outcomes),
    ensures
        ledger.with_all(outcomes).table.dom() == ledger.table.dom().union(written(outcomes)),
        written(outcomes).finite(),
        written(outcomes).len() == recordings(outcomes),
        recordings(outcomes) + failures(outcomes) <= outcomes.len(),
        (forall|i: int| 0 <= i < outcomes.len() ==> outcomes[i] != OutcomeText::Synced(None))
            ==> recordings(outcomes) == outcomes.len() - failures(outcomes),
    decreases outcomes.len(),
{
    law_partial_failure(ledger, outcomes);
    assert(ledger.with_all(outcomes).table.dom() =~= ledger.table.dom().union(written(outcomes)));
    if outcomes.len() == 0 {
        assert forall|key: Seq<char>| !records(outcomes, key) by {
            if records(outcomes, key) {
                let i = choose|i: int| records_at(outcomes, i, key);
            }
        }
        assert(written(outcomes) =~= Set::empty());
    } else {
        let front = outcomes.drop_last();
        let last = outcomes.last();
        assert(records_apart(front)) by {
            assert forall|i: int, j: int, key: Seq<char>|
                records_at(front, i, key) && records_at(front, j, key) implies i == j by {
                assert(records_at(outcomes, i, key) && records_at(outcomes, j, key));
            }
        }
        law_run_writes_one_key_for_each_success(ledger, front);
        assert forall|i: int| 0 <= i < front.len() implies front[i] == outcomes[i] by {}
        assert forall|key: Seq<char>| records(front, key) implies records(outcomes, key) by {
            let i = choose|i: int| records_at(front, i, key);
            assert(records_at(outcomes, i, key));
        }
        match last {
            OutcomeText::Synced(Some((k, _))) => {
                assert(records_at(outcomes, outcomes.len() - 1, k));
                assert(!records(front, k)) by {
                    if records(front, k) {
                        let i = choose|i: int| records_at(front, i, k);
                        assert(records_at(outcomes, i, k));
                    }
                }
                assert forall|key: Seq<char>| records(outcomes, key) implies records(front, key)
                    || key == k by {
                    let i = choose|i: int| records_at(outcomes, i, key);
                    if i < front.len() {
                        assert(records_at(front, i, key));
                    }
                }
                assert(written(outcomes) =~= written(front).insert(k));
            },
            _ => {
                assert forall|key: Seq<char>| records(outcomes, key) implies records(front, key) by {
                    let i = choose|i: int| records_at(outcomes, i, key);
                    assert(records_at(front, i, key));
                }
                assert(written(outcomes) =~= written(front));
            },
        }
    }
}

/// One of the outcomes records `entry` under `key`.
pub open spec fn holds_record(outcomes: Seq<OutcomeText>, key: Seq<char>, entry: LockedText) -> bool {
    exists|i: int|
        0 <= i < outcomes.len() && #[trigger] outcomes[i] == OutcomeText::Synced(
            Some((key, entry)),
        )
}

/// The table after a run does not depend on the order in which the sources
/// finish: where the sources have keys of their own, two runs that record
/// the same entries under the same keys leave the same table.
pub proof fn law_order_of_outcomes_does_not_matter(
    ledger: LedgerText,
    first: Seq<OutcomeText>,
    second: Seq<OutcomeText>,
)
    requires
        records_apart(first),
        records_apart(second),
        forall|key: Seq<char>, entry: LockedText|
            holds_record(first, key, entry) <==> holds_record(second, key, entry),
    ensures
        ledger.with_all(first).table == ledger.with_all(second).table,
{
    law_partial_failure(ledger, first);
    law_partial_failure(ledger, second);
    let a = ledger.with_all(first).table;
    let b = ledger.with_all(second).table;
    assert forall|key: Seq<char>| records(first, key) implies records(second, key) && a[key]
        == b[key] by {
        let i = choose|i: int| records_at(first, i, key);
        match first[i] {
            OutcomeText::Synced(Some((_, entry))) => {
                assert(holds_record(first, key, entry));
                assert(holds_record(second, key, entry));
                let j = choose|j: int|
                    0 <= j < second.len() && #[trigger] second[j] == OutcomeText::Synced(
                        Some((key, entry)),
                    );
                assert(records_at(second, j, key));
                law_last_record_stands(ledger, first, i, key, entry);
                law_last_record_stands(ledger, second, j, key, entry);
            },
            _ => {},
        }
    }
    assert forall|key: Seq<char>| records(second, key) implies records(first, key) by {
        let j = choose|j: int| records_at(second, j, key);
        match second[j] {
            OutcomeText::Synced(Some((_, entry))) => {
                assert(holds_record(second, key, entry));
                assert(holds_record(first, key, entry));
                let i = choose|i: int|
                    0 <= i < first.len() && #[trigger] first[i] == OutcomeText::Synced(
                        Some((key, entry)),
                    );
                assert(records_at(first, i, key));
            },
            _ => {},
        }
    }
    assert(a =~= b);
}

} // verus!
