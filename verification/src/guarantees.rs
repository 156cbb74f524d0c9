//! What holds of every invocation, proved from the contracts of the
//! orchestrator and the registry.

use vstd::prelude::*;
use crate::error::Fault;
use crate::model::imported_set;
use crate::model::ImportRecord;
use crate::model::StatementSource;
use crate::orchestrator::batch_post;
use crate::orchestrator::ImportReport;
use crate::orchestrator::lemma_disjoint_join;
use crate::orchestrator::lemma_fresh_markers;
use crate::orchestrator::not_imported;
use crate::orchestrator::run_post;
use crate::orchestrator::unimported;
use crate::phase::Phase;
use crate::registry::ImporterRegistry;
use crate::store::disjoint_fingerprints;
use crate::store::lemma_imported_set_join;
use crate::store::Scope;
use crate::store::Store;
use crate::summary::BatchFailure;
use crate::summary::BatchSummary;
use crate::summary::clean_summary;

verus! {

/// Dedup: a candidate is left after filtering exactly when it is among the
/// candidates and no import record exists for its fingerprint. So a source
/// with an import record is left out wherever it stands among the
/// candidates.
pub proof fn lemma_filter_membership(
    log: Seq<ImportRecord>,
    candidates: Seq<StatementSource>,
    source: StatementSource,
)
    ensures
        unimported(log, candidates).contains(source) <==> candidates.contains(source)
            && !imported_set(log).contains(source.fingerprint),
{
    let keep = not_imported(log);
    let left = unimported(log, candidates);
    if left.contains(source) {
        let i = choose|i: int| 0 <= i < left.len() && left[i] == source;
        candidates.lemma_filter_pred(keep, i);
        candidates.lemma_filter_contains_rev(keep, source);
    }
    if candidates.contains(source) && keep(source) {
        let i = choose|i: int| 0 <= i < candidates.len() && candidates[i] == source;
        candidates.lemma_filter_contains(keep, i);
    }
}

/// Dedup does not depend on the order of the candidates: two candidate lists
/// with the same members leave the same members after filtering.
pub proof fn lemma_filter_ignores_order(
    log: Seq<ImportRecord>,
    first: Seq<StatementSource>,
    second: Seq<StatementSource>,
    source: StatementSource,
)
    requires
        forall|s: StatementSource| first.contains(s) <==> second.contains(s),
    ensures
        unimported(log, first).contains(source) <==> unimported(log, second).contains(source),
{
    lemma_filter_membership(log, first, source);
    lemma_filter_membership(log, second, source);
}

/// After a batch that went through, every file of it has an import record.
pub proof fn lemma_batch_marks_all(
    registry: ImporterRegistry,
    before: Store,
    scope: Option<Scope>,
    files: Seq<StatementSource>,
    now: u64,
    after: Store,
    result: Result<BatchSummary, BatchFailure>,
)
    requires
        batch_post(registry, before, scope, files, now, after, result),
        result is Ok,
    ensures
        forall|i: int|
            0 <= i < files.len() ==> imported_set(after.import_log()).contains(
                (#[trigger] files[i]).fingerprint,
            ),
{
    let log = before.import_log();
    let keep = not_imported(log);
    let left = unimported(log, files);
    let known = before.known(scope);
    let k = registry.first_fault(known, left, 0, now);
    let markers = registry.batch_markers(known, left, k, now);
    assert forall|i: int| 0 <= i < files.len() implies imported_set(after.import_log()).contains(
        (#[trigger] files[i]).fingerprint,
    ) by {
        let f = files[i].fingerprint;
        if keep(files[i]) {
            files.lemma_filter_contains(keep, i);
            let j = choose|j: int| 0 <= j < left.len() && left[j] == files[i];
            registry.lemma_first_fault(known, left, 0, now);
            registry.lemma_batch_markers(known, left, k, now);
            assert(registry.outcome_at(known, left, j, now) is Ok);
            assert(markers[j].fingerprint == f);
            assert(imported_set(markers).contains(f));
            match scope {
                None => {
                    lemma_imported_set_join(log, markers);
                },
                Some(open) => {
                    lemma_imported_set_join(open.staged_imports(), markers);
                    lemma_imported_set_join(log, open.staged_imports() + markers);
                },
            }
        } else {
            if left.len() != 0 {
                match scope {
                    None => {
                        lemma_imported_set_join(log, markers);
                    },
                    Some(open) => {
                        lemma_imported_set_join(log, open.staged_imports() + markers);
                    },
                }
            }
        }
    }
}

/// Idempotence of a batch: when a batch has gone through, the same files run
/// again on the store it left, with any scope or none, succeed with nothing
/// imported and every file skipped, and leave the store as it was.
pub proof fn lemma_batch_rerun_imports_nothing(
    registry: ImporterRegistry,
    before: Store,
    scope: Option<Scope>,
    files: Seq<StatementSource>,
    now: u64,
    between: Store,
    result: Result<BatchSummary, BatchFailure>,
    again_scope: Option<Scope>,
    later: u64,
    after: Store,
    again: Result<BatchSummary, BatchFailure>,
)
    requires
        batch_post(registry, before, scope, files, now, between, result),
        result is Ok,
        batch_post(registry, between, again_scope, files, later, after, again),
    ensures
        again matches Ok(summary) && clean_summary(summary, 0, files.len() as int),
        after == between,
{
    lemma_batch_marks_all(registry, before, scope, files, now, between, result);
    let keep = not_imported(between.import_log());
    assert(files.all(|s: StatementSource| !keep(s))) by {
        assert forall|i: int| 0 <= i < files.len() implies !keep(#[trigger] files[i]) by {
            assert(imported_set(between.import_log()).contains(files[i].fingerprint));
        }
    }
    files.lemma_all_neg_filter_empty(keep);
}

/// Dedup of a batch: no file that the store has an import record for is
/// ingested, wherever it stands among the files; the import records that the
/// store had stay as they were, first in its log; and none of those added
/// carries a fingerprint that the store had.
pub proof fn lemma_batch_keeps_history(
    registry: ImporterRegistry,
    before: Store,
    scope: Option<Scope>,
    files: Seq<StatementSource>,
    now: u64,
    after: Store,
    result: Result<BatchSummary, BatchFailure>,
)
    requires
        batch_post(registry, before, scope, files, now, after, result),
    ensures
        forall|j: int|
            0 <= j < unimported(before.import_log(), files).len() ==> !imported_set(
                before.import_log(),
            ).contains((#[trigger] unimported(before.import_log(), files)[j]).fingerprint),
        before.import_log().len() <= after.import_log().len(),
        after.import_log().take(before.import_log().len() as int) == before.import_log(),
        disjoint_fingerprints(
            before.import_log(),
            after.import_log().skip(before.import_log().len() as int),
        ),
{
    let log = before.import_log();
    let keep = not_imported(log);
    let left = unimported(log, files);
    let known = before.known(scope);
    let k = registry.first_fault(known, left, 0, now);
    let markers = registry.batch_markers(known, left, k, now);
    assert forall|j: int| 0 <= j < left.len() implies !imported_set(log).contains(
        (#[trigger] left[j]).fingerprint,
    ) by {
        files.lemma_filter_pred(keep, j);
    }
    lemma_fresh_markers(registry, before, scope, left, now);
    if after == before {
        assert(after.import_log().take(log.len() as int) =~= log);
        assert(after.import_log().skip(log.len() as int) =~= Seq::<ImportRecord>::empty());
    } else {
        match scope {
            None => {
                assert((log + markers).take(log.len() as int) =~= log);
                assert((log + markers).skip(log.len() as int) =~= markers);
            },
            Some(open) => {
                let added = open.staged_imports() + markers;
                lemma_disjoint_join(log, open.staged_imports(), markers);
                assert((log + added).take(log.len() as int) =~= log);
                assert((log + added).skip(log.len() as int) =~= added);
            },
        }
    }
}

/// After an invocation that ended well, every candidate has an import record.
pub proof fn lemma_done_marks_all(
    registry: ImporterRegistry,
    before: Store,
    candidates: Seq<StatementSource>,
    with_transaction: Option<bool>,
    now: u64,
    after: Store,
    report: ImportReport,
)
    requires
        run_post(registry, before, candidates, with_transaction, now, after, report),
        report.phase == Phase::Done || report.phase == Phase::NoWork,
    ensures
        forall|i: int|
            0 <= i < candidates.len() ==> imported_set(after.import_log()).contains(
                (#[trigger] candidates[i]).fingerprint,
            ),
{
    let log = before.import_log();
    let keep = not_imported(log);
    let remaining = unimported(log, candidates);
    let known = imported_set(log);
    let k = registry.first_fault(known, remaining, 0, now);
    let markers = registry.batch_markers(known, remaining, k, now);
    assert forall|i: int| 0 <= i < candidates.len() implies imported_set(
        after.import_log(),
    ).contains((#[trigger] candidates[i]).fingerprint) by {
        let f = candidates[i].fingerprint;
        if report.phase == Phase::NoWork {
            if keep(candidates[i]) {
                candidates.lemma_filter_contains(keep, i);
            }
        } else {
            lemma_imported_set_join(log, markers);
            if keep(candidates[i]) {
                candidates.lemma_filter_contains(keep, i);
                let j = choose|j: int| 0 <= j < remaining.len() && remaining[j] == candidates[i];
                registry.lemma_first_fault(known, remaining, 0, now);
                registry.lemma_batch_markers(known, remaining, k, now);
                assert(registry.outcome_at(known, remaining, j, now) is Ok);
                assert(markers[j].fingerprint == f);
            }
        }
    }
}

/// Idempotence: when an invocation has ended well, a second one on the same
/// candidates imports nothing, skips every candidate and leaves the store as
/// it was.
pub proof fn lemma_rerun_imports_nothing(
    registry: ImporterRegistry,
    before: Store,
    candidates: Seq<StatementSource>,
    with_transaction: Option<bool>,
    now: u64,
    between: Store,
    report: ImportReport,
    again_with_transaction: Option<bool>,
    later: u64,
    after: Store,
    again: ImportReport,
)
    requires
        run_post(registry, before, candidates, with_transaction, now, between, report),
        report.phase == Phase::Done || report.phase == Phase::NoWork,
        run_post(registry, between, candidates, again_with_transaction, later, after, again),
    ensures
        again.phase == Phase::NoWork,
        again.error is None,
        again.summary.imported == 0,
        again.summary.skipped == candidates.len(),
        after == between,
{
    lemma_done_marks_all(registry, before, candidates, with_transaction, now, between, report);
    let keep = not_imported(between.import_log());
    assert(candidates.all(|s: StatementSource| !keep(s))) by {
        assert forall|i: int| 0 <= i < candidates.len() implies !keep(#[trigger] candidates[i]) by {
            assert(imported_set(between.import_log()).contains(candidates[i].fingerprint));
        }
    }
    candidates.lemma_all_neg_filter_empty(keep);
}

/// Atomicity: when an invocation with a transactional scope fails, whichever
/// source failed and however, the store is as it was before: none of the
/// candidates that lacked an import record has one now, and no statement
/// record was added.
pub proof fn lemma_failed_batch_leaves_no_trace(
    registry: ImporterRegistry,
    before: Store,
    candidates: Seq<StatementSource>,
    now: u64,
    after: Store,
    report: ImportReport,
)
    requires
        run_post(registry, before, candidates, Some(true), now, after, report),
        report.phase == Phase::Failed,
    ensures
        after == before,
        after.import_log() == before.import_log(),
        after.ledger() == before.ledger(),
        report.summary.imported == 0,
        forall|i: int|
            0 <= i < candidates.len() && !imported_set(before.import_log()).contains(
                (#[trigger] candidates[i]).fingerprint,
            ) ==> !imported_set(after.import_log()).contains(candidates[i].fingerprint),
{
}

/// Some importer recognizes `content` at or before index `upto`, so there is
/// a first one that does.
proof fn lemma_first_match_exists(registry: ImporterRegistry, content: Seq<u8>, upto: int) -> (first:
    int)
    requires
        registry.recognizes(upto, content),
    ensures
        0 <= first <= upto,
        registry.first_match(first, content),
    decreases upto,
{
    if exists|j: int| 0 <= j < upto && registry.recognizes(j, content) {
        let j = choose|j: int| 0 <= j < upto && registry.recognizes(j, content);
        lemma_first_match_exists(registry, content, j)
    } else {
        upto
    }
}

/// Deterministic selection: where two importers recognize the same content,
/// first-match selection gives an importer registered no later than the
/// earlier of the two, never the later one; and where none before the
/// earlier one recognizes the content, it gives the earlier one.
pub proof fn lemma_first_registered_wins(
    registry: ImporterRegistry,
    content: Seq<u8>,
    earlier: int,
    later: int,
)
    requires
        !registry.strict,
        earlier < later,
        registry.recognizes(earlier, content),
        registry.recognizes(later, content),
    ensures
        registry.selection(content) matches Ok(chosen) && 0 <= chosen <= earlier && chosen
            != later,
        registry.first_match(earlier, content) ==> registry.selection(content) == Ok::<
            int,
            Fault,
        >(earlier),
{
    let first = lemma_first_match_exists(registry, content, earlier);
    registry.lemma_first_match_is_one(first, content);
    if registry.first_match(earlier, content) {
        registry.lemma_first_match_is_one(earlier, content);
    }
}

/// Under strict selection, content that two importers recognize is refused
/// as ambiguous.
pub proof fn lemma_strict_refuses_overlap(
    registry: ImporterRegistry,
    content: Seq<u8>,
    earlier: int,
    later: int,
)
    requires
        registry.strict,
        earlier < later,
        registry.recognizes(earlier, content),
        registry.recognizes(later, content),
    ensures
        registry.selection(content) == Err::<int, Fault>(Fault::Ambiguous),
{
    let first = lemma_first_match_exists(registry, content, earlier);
    registry.lemma_first_match_is_one(first, content);
    assert(later != first && registry.recognizes(later, content));
}

} // verus!
