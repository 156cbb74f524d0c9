//! The import orchestrator: the end-to-end driver of one invocation.
//!
//! An invocation leaves out the candidates that were imported before, opens a
//! transactional scope if one was asked for, hands what is left to the
//! registry in the order given, and commits the scope when every source was
//! ingested or aborts it when one failed.

use vstd::prelude::*;
use crate::error::fault_error;
use crate::error::ImportError;
use crate::model::imported_set;
use crate::model::ImportRecord;
use crate::model::StatementRecord;
use crate::model::StatementSource;
use crate::phase::successor;
use crate::phase::Event;
use crate::phase::Phase;
use crate::registry::lemma_filter_step;
use crate::registry::ImporterRegistry;
use crate::store::disjoint_fingerprints;
use crate::store::extended;
use crate::store::scope_wf;
use crate::store::Scope;
use crate::store::Store;
use crate::summary::clean_summary;
use crate::summary::failed_with;
use crate::summary::failures_of;
use crate::summary::BatchFailure;
use crate::summary::BatchSummary;
use crate::summary::Failure;

verus! {

/// What one invocation reports: the phase it ended in, the counts, and the
/// first error if there was one.
#[derive(Clone, Debug)]
pub struct ImportReport {
    pub phase: Phase,
    pub summary: BatchSummary,
    pub error: Option<ImportError>,
}

/// How the scope of an invocation ended, as its driver saw it.
#[derive(Clone, Copy, Debug, PartialEq, Eq, Structural)]
pub enum ScopeEnd {
    /// There was no scope.
    Unscoped,
    /// The scope was committed.
    Committed,
    /// The commit failed.
    CommitFailed,
    /// The scope was aborted.
    Aborted,
    /// The scope was to be aborted and the abort failed.
    AbortFailed,
}

/// The candidates that are left after filtering, and how many were left out.
#[derive(Clone, Debug)]
pub struct Filtered {
    pub remaining: Vec<StatementSource>,
    pub skipped: usize,
}

impl ImportReport {
    /// The report of an invocation that ended in `phase` with the batch
    /// result `result`.
    pub fn of_batch(phase: Phase, result: Result<BatchSummary, BatchFailure>) -> (report:
        ImportReport)
        ensures
            report.phase == phase,
            match result {
                Ok(summary) => report.error is None && report.summary == summary,
                Err(failure) => report.error == Some(failure.error) && report.summary
                    == failure.summary,
            },
    {
        match result {
            Ok(summary) => ImportReport { phase, summary, error: None },
            Err(failure) => ImportReport {
                phase,
                summary: failure.summary,
                error: Some(failure.error),
            },
        }
    }
}

/// The test that a source has no import record in `log`.
pub open spec fn not_imported(log: Seq<ImportRecord>) -> spec_fn(StatementSource) -> bool {
    |source: StatementSource| !imported_set(log).contains(source.fingerprint)
}

/// The candidates without an import record in `log`, in the order given.
pub open spec fn unimported(log: Seq<ImportRecord>, candidates: Seq<StatementSource>) -> Seq<
    StatementSource,
> {
    candidates.filter(not_imported(log))
}

/// What `import_statement_files` leaves behind and returns, for a batch of
/// `files` run on the store `before` with the scope `scope`.
///
/// The files that the store has an import record for are left out and
/// counted as skipped. With `k` the index of the first failing file among
/// those left, or their number when none fails: with no file left the batch
/// changes nothing and succeeds. Without a scope the records of the first `k`
/// files left stay in the store, and the batch fails exactly when `k` is not
/// their number. With a scope a failing file leaves the store as it was;
/// otherwise the scope is committed, and the batch fails with `CommitError`,
/// the store as it was, exactly when the store holds a fingerprint that the
/// scope had staged before the batch.
pub open spec fn batch_post(
    registry: ImporterRegistry,
    before: Store,
    scope: Option<Scope>,
    files: Seq<StatementSource>,
    now: u64,
    after: Store,
    result: Result<BatchSummary, BatchFailure>,
) -> bool {
    let left = unimported(before.import_log(), files);
    let skipped = files.len() - left.len();
    let known = before.known(scope);
    let k = registry.first_fault(known, left, 0, now);
    let markers = registry.batch_markers(known, left, k, now);
    let statements = registry.batch_statements(known, left, k, now);
    let error = fault_error(registry.outcome_at(known, left, k, now)->Err_0, left[k]);
    if left.len() == 0 {
        &&& after == before
        &&& result matches Ok(summary)
        &&& clean_summary(summary, 0, skipped)
    } else {
        match scope {
            None => {
                &&& extended(before, None, after, None, markers, statements)
                &&& k == left.len() ==> (result matches Ok(summary) && clean_summary(
                    summary,
                    k,
                    skipped,
                ))
                &&& k != left.len() ==> (result matches Err(failure) && failed_with(
                    failure,
                    error,
                    k,
                    skipped,
                ))
            },
            Some(open) => {
                if k != left.len() {
                    &&& after == before
                    &&& result matches Err(failure)
                    &&& failed_with(failure, error, 0, skipped)
                } else if disjoint_fingerprints(before.import_log(), open.staged_imports()) {
                    &&& after.transactional() == before.transactional()
                    &&& after.import_log() == before.import_log() + (open.staged_imports()
                        + markers)
                    &&& after.ledger() == before.ledger() + (open.staged_statements()
                        + statements)
                    &&& result matches Ok(summary)
                    &&& clean_summary(summary, k, skipped)
                } else {
                    &&& after == before
                    &&& result matches Err(failure)
                    &&& failed_with(failure, ImportError::CommitError, 0, skipped)
                }
            },
        }
    }
}

/// What `run_import` leaves behind and reports, for the candidates
/// `candidates` run on the store `before`.
///
/// The candidates with an import record are skipped. With nothing left the
/// invocation ends in `NoWork` and changes nothing. Where a scope is asked
/// for and the store cannot open one, it fails with `TransactionUnsupported`
/// and changes nothing. Otherwise, with `k` the index of the first failing
/// source among those left, or their number when none fails: when none fails
/// the invocation is `Done` and the records of all of them are in the store;
/// when one fails the invocation is `Failed` with that source's error, and
/// the store is as it was (with a scope) or holds the records of the first
/// `k` sources (without one).
pub open spec fn run_post(
    registry: ImporterRegistry,
    before: Store,
    candidates: Seq<StatementSource>,
    with_transaction: Option<bool>,
    now: u64,
    after: Store,
    report: ImportReport,
) -> bool {
    let remaining = unimported(before.import_log(), candidates);
    let skipped = candidates.len() - remaining.len();
    let known = imported_set(before.import_log());
    let k = registry.first_fault(known, remaining, 0, now);
    let markers = registry.batch_markers(known, remaining, k, now);
    let statements = registry.batch_statements(known, remaining, k, now);
    let scoped = with_transaction == Some(true);
    &&& after.transactional() == before.transactional()
    &&& report.summary.skipped == skipped
    &&& report.summary.failures@ == match report.error {
        Some(error) => failures_of(error),
        None => Seq::empty(),
    }
    &&& if remaining.len() == 0 {
        &&& report.phase == Phase::NoWork
        &&& report.error is None
        &&& report.summary.imported == 0
        &&& after == before
    } else if scoped && !before.transactional() {
        &&& report.phase == Phase::Failed
        &&& report.error == Some(ImportError::TransactionUnsupported)
        &&& report.summary.imported == 0
        &&& after == before
    } else if k == remaining.len() {
        &&& report.phase == Phase::Done
        &&& report.error is None
        &&& report.summary.imported == k
        &&& after.import_log() == before.import_log() + markers
        &&& after.ledger() == before.ledger() + statements
    } else {
        &&& report.phase == Phase::Failed
        &&& report.error == Some(
            fault_error(registry.outcome_at(known, remaining, k, now)->Err_0, remaining[k]),
        )
        &&& if scoped {
            &&& report.summary.imported == 0
            &&& after == before
        } else {
            &&& report.summary.imported == k
            &&& after.import_log() == before.import_log() + markers
            &&& after.ledger() == before.ledger() + statements
        }
    }
}

/// Leaves out the candidates that the store has an import record for. The
/// rest stay in the order given. The store is asked once, for all candidates
/// together.
pub fn filter_unimported(store: &Store, candidates: Vec<StatementSource>) -> (filtered: Filtered)
    ensures
        filtered.remaining@ == unimported(store.import_log(), candidates@),
        filtered.skipped == candidates@.len() - filtered.remaining@.len(),
{
    let total: usize = candidates.len();
    let screening = screen(store, &candidates);
    let found: Vec<bool> = screening.skip;
    let ghost keep = not_imported(store.import_log());
    let mut remaining: Vec<StatementSource> = Vec::new();
    let mut at: usize = 0;
    for source in it: candidates.into_iter()
        invariant
            it.seq() == candidates@,
            at == it.index(),
            total == candidates@.len(),
            found@.len() == total,
            keep == not_imported(store.import_log()),
            forall|j: int| 0 <= j < total ==> #[trigger] found@[j] == !keep(candidates@[j]),
            remaining@ == candidates@.take(at as int).filter(keep),
    {
        proof {
            assert(source == candidates@[at as int]);
            assert(candidates@.take(at + 1) =~= candidates@.take(at as int).push(source));
            candidates@.take(at as int).lemma_filter_push(source, keep);
        }
        if !found[at] {
            remaining.push(source);
        }
        at = at + 1;
    }
    proof {
        assert(candidates@.take(total as int) =~= candidates@);
        candidates@.lemma_filter_len(keep);
    }
    let skipped: usize = total - remaining.len();
    Filtered { remaining, skipped }
}

/// Opens a transactional scope on the store if `with_transaction` asks for
/// one, which it does when it is `Some(true)`. Fails with
/// `TransactionUnsupported` exactly when one is asked for and the store
/// cannot open it.
pub fn maybe_start_transaction(store: &Store, with_transaction: Option<bool>) -> (started: Result<
    Option<Scope>,
    ImportError,
>)
    ensures
        with_transaction != Some(true) ==> (started matches Ok(scope) && scope is None),
        with_transaction == Some(true) && store.transactional() ==> {
            &&& started matches Ok(Some(scope))
            &&& scope.wf()
            &&& scope.staged_imports() == Seq::<ImportRecord>::empty()
            &&& scope.staged_statements() == Seq::<StatementRecord>::empty()
        },
        with_transaction == Some(true) && !store.transactional() ==> started == Err::<
            Option<Scope>,
            ImportError,
        >(ImportError::TransactionUnsupported),
{
    if transaction_requested(with_transaction) {
        match store.begin() {
            Ok(scope) => Ok(Some(scope)),
            Err(error) => Err(error),
        }
    } else {
        Ok(None)
    }
}

/// Which files of a batch the store has an import record for, and how many
/// it has none for.
#[derive(Clone, Debug)]
pub struct Screening {
    pub skip: Vec<bool>,
    pub left: usize,
}

/// `screening` tells of each of `files` whether `log` has an import record
/// for it, and counts those it has none for.
pub open spec fn screens(screening: Screening, log: Seq<ImportRecord>, files: Seq<StatementSource>) -> bool {
    &&& screening.skip@.len() == files.len()
    &&& forall|i: int|
        0 <= i < files.len() ==> #[trigger] screening.skip@[i] == !not_imported(log)(files[i])
    &&& screening.left == unimported(log, files).len()
}

/// Asks the store once, for all of `files` together, which of them it has an
/// import record for.
pub fn screen(store: &Store, files: &Vec<StatementSource>) -> (screening: Screening)
    ensures
        screens(screening, store.import_log(), files@),
{
    let total: usize = files.len();
    let mut fingerprints: Vec<u64> = Vec::new();
    let mut i: usize = 0;
    while i < total
        invariant
            i <= total,
            total == files@.len(),
            fingerprints@.len() == i,
            forall|j: int| 0 <= j < i ==> fingerprints@[j] == files@[j].fingerprint,
        decreases total - i,
    {
        fingerprints.push(files[i].fingerprint);
        i = i + 1;
    }
    let skip: Vec<bool> = store.existing(&fingerprints);
    let ghost keep = not_imported(store.import_log());
    let mut left: usize = 0;
    let mut j: usize = 0;
    proof {
        files@.take(0).lemma_filter_len(keep);
    }
    while j < total
        invariant
            j <= total,
            left <= j,
            total == files@.len(),
            skip@.len() == total,
            keep == not_imported(store.import_log()),
            forall|m: int| 0 <= m < total ==> #[trigger] skip@[m] == !keep(files@[m]),
            left == files@.take(j as int).filter(keep).len(),
        decreases total - j,
    {
        proof {
            lemma_filter_step(files@, keep, j as int);
        }
        if !skip[j] {
            left = left + 1;
        }
        j = j + 1;
    }
    proof {
        assert(files@.take(total as int) =~= files@);
    }
    Screening { skip, left }
}

/// Imports the files of `import_paths` that `screening` leaves, inside
/// `scope` where there is one, and ends the scope.
fn import_screened(
    registry: &ImporterRegistry,
    store: &mut Store,
    scope: Option<Scope>,
    import_paths: &Vec<StatementSource>,
    screening: &Screening,
    now: u64,
) -> (imported: Result<BatchSummary, BatchFailure>)
    requires
        old(store).wf(),
        scope_wf(scope),
        screens(*screening, old(store).import_log(), import_paths@),
    ensures
        final(store).wf(),
        batch_post(*registry, *old(store), scope, import_paths@, now, *final(store), imported),
{
    let ghost log = store.import_log();
    let ghost left = unimported(log, import_paths@);
    proof {
        import_paths@.lemma_filter_len(not_imported(log));
    }
    let skipped: usize = import_paths.len() - screening.left;
    if screening.left == 0 {
        return Ok(BatchSummary::clean(0, skipped));
    }
    let ghost known = store.known(scope);
    let ghost k = registry.first_fault(known, left, 0, now);
    let ghost markers = registry.batch_markers(known, left, k, now);
    let ghost before = *store;
    let mut session = scope;
    let result = registry.import_kept(
        store,
        &mut session,
        import_paths,
        &screening.skip,
        Ghost(not_imported(log)),
        skipped,
        now,
    );
    match session {
        None => result,
        Some(open) => match result {
            Err(failure) => {
                let _ = store.abort(open);
                Err(BatchFailure::new(failure.error, 0, skipped))
            },
            Ok(summary) => {
                proof {
                    lemma_fresh_markers(*registry, before, scope, left, now);
                    lemma_disjoint_join(
                        before.import_log(),
                        scope->Some_0.staged_imports(),
                        markers,
                    );
                }
                match store.commit(open) {
                    Ok(()) => Ok(summary),
                    Err(error) => Err(BatchFailure::new(error, 0, skipped)),
                }
            },
        },
    }
}

/// Imports `import_paths` through the registry, inside `scope` where there is
/// one, and ends the scope: commits it when every file was ingested, aborts
/// it when one failed. Files that the store has an import record for are left
/// out and counted as skipped; with no file left the batch succeeds at once.
pub fn import_statement_files(
    registry: &ImporterRegistry,
    store: &mut Store,
    scope: Option<Scope>,
    import_paths: &Vec<StatementSource>,
    now: u64,
) -> (imported: Result<BatchSummary, BatchFailure>)
    requires
        old(store).wf(),
        scope_wf(scope),
    ensures
        final(store).wf(),
        batch_post(*registry, *old(store), scope, import_paths@, now, *final(store), imported),
{
    let screening = screen(store, import_paths);
    import_screened(registry, store, scope, import_paths, &screening, now)
}

/// Whether `with_transaction` asks for a transactional scope, which it does
/// when it is `Some(true)`.
pub fn transaction_requested(with_transaction: Option<bool>) -> (requested: bool)
    ensures
        requested == (with_transaction == Some(true)),
{
    match with_transaction {
        Some(wanted) => wanted,
        None => false,
    }
}

/// Runs one invocation on `candidates`: filters, opens a scope if asked to,
/// imports, and commits or aborts.
pub fn run_import(
    registry: &ImporterRegistry,
    store: &mut Store,
    candidates: Vec<StatementSource>,
    with_transaction: Option<bool>,
    now: u64,
) -> (report: ImportReport)
    requires
        old(store).wf(),
    ensures
        final(store).wf(),
        run_post(*registry, *old(store), candidates@, with_transaction, now, *final(store), report),
{
    let scoped: bool = transaction_requested(with_transaction);
    let phase = follow(Phase::Start, scoped, Event::Begun);
    let screening = screen(store, &candidates);
    proof {
        candidates@.lemma_filter_len(not_imported(store.import_log()));
    }
    let skipped: usize = candidates.len() - screening.left;
    let phase = follow(phase, scoped, Event::Filtered(screening.left));
    if screening.left == 0 {
        return ImportReport { phase, summary: BatchSummary::clean(0, skipped), error: None };
    }
    let scope: Option<Scope> = match maybe_start_transaction(store, with_transaction) {
        Ok(scope) => scope,
        Err(error) => {
            let phase = follow(phase, scoped, Event::ScopeRefused);
            return ImportReport::of_batch(phase, Err(BatchFailure::new(error, 0, skipped)));
        },
    };
    let phase = if scoped {
        follow(phase, scoped, Event::ScopeOpened)
    } else {
        phase
    };
    proof {
        assert(store.known(scope) =~= imported_set(store.import_log()));
        if scope is Some {
            let open = scope->Some_0;
            let known = imported_set(store.import_log());
            let remaining = unimported(store.import_log(), candidates@);
            let k = registry.first_fault(known, remaining, 0, now);
            assert(open.staged_imports() + registry.batch_markers(known, remaining, k, now)
                =~= registry.batch_markers(known, remaining, k, now));
            assert(open.staged_statements() + registry.batch_statements(
                known,
                remaining,
                k,
                now,
            ) =~= registry.batch_statements(known, remaining, k, now));
        }
    }
    let result = import_screened(registry, store, scope, &candidates, &screening, now);
    let phase = match &result {
        Ok(_) => {
            let phase = follow(phase, scoped, Event::Imported);
            if scoped {
                follow(phase, scoped, Event::Committed)
            } else {
                phase
            }
        },
        Err(_) => {
            let phase = follow(phase, scoped, Event::ImportFailed);
            if scoped {
                follow(phase, scoped, Event::Aborted)
            } else {
                phase
            }
        },
    };
    ImportReport::of_batch(phase, result)
}

/// `report` is that of an invocation that failed with `error` and left
/// nothing of the batch in the store, `skipped` sources having been skipped.
pub open spec fn failed_report(report: ImportReport, error: ImportError, skipped: int) -> bool {
    &&& report.phase == Phase::Failed
    &&& report.error == Some(error)
    &&& report.summary.imported == 0
    &&& report.summary.skipped == skipped
    &&& report.summary.failures@ == failures_of(error)
}

/// What `conclude` makes of `report` once the scope ended as `end`.
///
/// An error that the report carries stands, however the scope ended: an
/// abort that failed does not replace it. A report without an error stands
/// when there was no scope or the scope was committed. When the commit
/// failed the invocation failed with `CommitError`, and when the scope was
/// aborted though no source had failed it was cancelled; neither leaves
/// anything of the batch in the store.
pub open spec fn conclusion(report: ImportReport, end: ScopeEnd, concluded: ImportReport) -> bool {
    if report.error is Some || end == ScopeEnd::Unscoped || end == ScopeEnd::Committed {
        concluded == report
    } else if end == ScopeEnd::CommitFailed {
        failed_report(concluded, ImportError::CommitError, report.summary.skipped as int)
    } else {
        failed_report(concluded, ImportError::Cancelled, report.summary.skipped as int)
    }
}

/// The report of an invocation whose import gave `report` and whose scope
/// then ended as `end`.
pub fn conclude(report: ImportReport, end: ScopeEnd) -> (concluded: ImportReport)
    ensures
        conclusion(report, end, concluded),
        report.error matches Some(first) ==> concluded.error == Some(first),
{
    if report.error.is_some() {
        return report;
    }
    match end {
        ScopeEnd::Unscoped => report,
        ScopeEnd::Committed => report,
        ScopeEnd::CommitFailed => {
            let failure = BatchFailure::new(ImportError::CommitError, 0, report.summary.skipped);
            ImportReport {
                phase: Phase::Failed,
                summary: failure.summary,
                error: Some(failure.error),
            }
        },
        _ => {
            let failure = BatchFailure::new(ImportError::Cancelled, 0, report.summary.skipped);
            ImportReport {
                phase: Phase::Failed,
                summary: failure.summary,
                error: Some(failure.error),
            }
        },
    }
}

/// Cancels an invocation: aborts `scope` if one is open, never commits it,
/// and reports `Cancelled`. With a scope nothing of the batch is in the
/// store; without one the `imported` sources ingested so far stay.
pub fn cancel_import(store: &Store, scope: Option<Scope>, imported: usize, skipped: usize) -> (report:
    ImportReport)
    ensures
        report.phase == Phase::Failed,
        report.error == Some(ImportError::Cancelled),
        report.summary.imported == if scope is Some {
            0
        } else {
            imported as int
        },
        report.summary.skipped == skipped,
        report.summary.failures@ == Seq::<Failure>::empty(),
{
    let kept: usize = match scope {
        Some(open) => {
            let _ = store.abort(open);
            0
        },
        None => imported,
    };
    let failure = BatchFailure::new(ImportError::Cancelled, kept, skipped);
    ImportReport { phase: Phase::Failed, summary: failure.summary, error: Some(failure.error) }
}

/// The phase that follows `phase` on an event that can happen in it.
fn follow(phase: Phase, transactional: bool, event: Event) -> (next: Phase)
    requires
        successor(phase, transactional, event) is Some,
    ensures
        successor(phase, transactional, event) == Some(next),
{
    match phase.advance(transactional, event) {
        Some(next) => next,
        None => phase,
    }
}

/// The import records that a batch writes carry fingerprints that the store
/// did not have before.
pub proof fn lemma_fresh_markers(
    registry: ImporterRegistry,
    store: Store,
    scope: Option<Scope>,
    files: Seq<StatementSource>,
    now: u64,
)
    ensures
        disjoint_fingerprints(
            store.import_log(),
            registry.batch_markers(
                store.known(scope),
                files,
                registry.first_fault(store.known(scope), files, 0, now),
                now,
            ),
        ),
{
    let known = store.known(scope);
    let k = registry.first_fault(known, files, 0, now);
    let markers = registry.batch_markers(known, files, k, now);
    let log = store.import_log();
    registry.lemma_first_fault(known, files, 0, now);
    registry.lemma_batch_markers(known, files, k, now);
    assert forall|i: int, j: int| 0 <= i < log.len() && 0 <= j < markers.len() implies (
    #[trigger] log[i]).fingerprint != (#[trigger] markers[j]).fingerprint by {
        assert(registry.outcome_at(known, files, j, now) is Ok);
        if log[i].fingerprint == markers[j].fingerprint {
            assert(imported_set(log).contains(files[j].fingerprint));
            assert(known.contains(files[j].fingerprint));
        }
    }
}

/// A log that shares no fingerprint with `fresh` shares none with `staged`
/// followed by `fresh` exactly when it shares none with `staged`.
pub proof fn lemma_disjoint_join(
    log: Seq<ImportRecord>,
    staged: Seq<ImportRecord>,
    fresh: Seq<ImportRecord>,
)
    requires
        disjoint_fingerprints(log, fresh),
    ensures
        disjoint_fingerprints(log, staged + fresh) == disjoint_fingerprints(log, staged),
{
    let joined = staged + fresh;
    if disjoint_fingerprints(log, staged) {
        assert forall|i: int, j: int| 0 <= i < log.len() && 0 <= j < joined.len() implies (
        #[trigger] log[i]).fingerprint != (#[trigger] joined[j]).fingerprint by {
            if j < staged.len() {
                assert(joined[j] == staged[j]);
            } else {
                assert(joined[j] == fresh[j - staged.len()]);
            }
        }
    }
    if disjoint_fingerprints(log, joined) {
        assert forall|i: int, j: int| 0 <= i < log.len() && 0 <= j < staged.len() implies (
        #[trigger] log[i]).fingerprint != (#[trigger] staged[j]).fingerprint by {
            assert(joined[j] == staged[j]);
        }
    }
}

} // verus!
