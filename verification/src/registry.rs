//! The importer registry: which importer handles a source, and the fail-fast
//! batch over the sources that are left to import.
//!
//! Importers are tried in the order they were registered and the first one
//! that recognizes a source handles it. Under strict selection a source that
//! more than one importer recognizes is refused instead.

use vstd::prelude::*;
use crate::error::fault_error;
use crate::error::Fault;
use crate::error::ImportError;
use crate::importer::has_signature;
use crate::importer::Importer;
use crate::model::imported_set;
use crate::model::ImportRecord;
use crate::model::StatementRecord;
use crate::model::StatementSource;
use crate::store::extended;
use crate::store::lemma_extended_chain;
use crate::store::lemma_extended_knows;
use crate::store::scope_wf;
use crate::store::Scope;
use crate::store::Store;
use crate::summary::clean_summary;
use crate::summary::failed_with;
use crate::summary::BatchFailure;
use crate::summary::BatchSummary;
use crate::summary::ImportSummary;

verus! {

/// The registered importers, in registration order, and the selection policy.
#[derive(Clone, Debug)]
pub struct ImporterRegistry {
    pub importers: Vec<Importer>,
    pub strict: bool,
}

/// An earlier source of `sources` has the fingerprint of source `i`.
pub open spec fn repeated(sources: Seq<StatementSource>, i: int) -> bool {
    exists|j: int| 0 <= j < i && (#[trigger] sources[j]).fingerprint == sources[i].fingerprint
}

impl ImporterRegistry {
    /// Importer `i` recognizes `content`.
    pub open spec fn recognizes(self, i: int, content: Seq<u8>) -> bool {
        0 <= i < self.importers@.len() && has_signature(self.importers@[i].signature@, content)
    }

    /// Importer `i` recognizes `content` and none registered before it does.
    pub open spec fn first_match(self, i: int, content: Seq<u8>) -> bool {
        self.recognizes(i, content) && forall|j: int| 0 <= j < i ==> !self.recognizes(j, content)
    }

    /// The importer that handles `content`: the first registered one that
    /// recognizes it. No importer is selected where none recognizes it, nor,
    /// under strict selection, where more than one does.
    pub open spec fn selection(self, content: Seq<u8>) -> Result<int, Fault> {
        if !(exists|i: int| self.recognizes(i, content)) {
            Err(Fault::NoImporter)
        } else {
            let first = choose|i: int| self.first_match(i, content);
            if self.strict && exists|j: int| j != first && self.recognizes(j, content) {
                Err(Fault::Ambiguous)
            } else {
                Ok(first)
            }
        }
    }

    /// What ingesting `source` gives, where `known` says whether an import
    /// record for its fingerprint exists already: the statement records and
    /// the import record to write, or the fault. Selection is tried first,
    /// then parsing, then the write.
    pub open spec fn outcome(self, source: StatementSource, known: bool, now: u64) -> Result<
        (Seq<StatementRecord>, ImportRecord),
        Fault,
    > {
        match self.selection(source.content@) {
            Err(fault) => Err(fault),
            Ok(i) => match self.importers@[i].outcome(source.content@, source.fingerprint) {
                Err(location) => Err(Fault::Parse(location as usize)),
                Ok(records) => if known {
                    Err(Fault::Storage)
                } else {
                    Ok(
                        (
                            records,
                            ImportRecord {
                                fingerprint: source.fingerprint,
                                importer: self.importers@[i].id,
                                timestamp: now,
                            },
                        ),
                    )
                },
            },
        }
    }

    /// What ingesting source `i` of a batch gives, when import records for the
    /// fingerprints in `known` existed before the batch and the sources before
    /// source `i` were ingested.
    pub open spec fn outcome_at(
        self,
        known: Set<u64>,
        sources: Seq<StatementSource>,
        i: int,
        now: u64,
    ) -> Result<(Seq<StatementRecord>, ImportRecord), Fault> {
        self.outcome(
            sources[i],
            known.contains(sources[i].fingerprint) || repeated(sources, i),
            now,
        )
    }

    /// The index of the first source from `from` on whose ingestion fails, or
    /// the number of sources where none does.
    pub open spec fn first_fault(
        self,
        known: Set<u64>,
        sources: Seq<StatementSource>,
        from: int,
        now: u64,
    ) -> int
        decreases sources.len() - from,
    {
        if from < 0 || from >= sources.len() {
            sources.len() as int
        } else if self.outcome_at(known, sources, from, now) is Err {
            from
        } else {
            self.first_fault(known, sources, from + 1, now)
        }
    }

    /// The import records that ingesting the first `n` sources writes.
    pub open spec fn batch_markers(
        self,
        known: Set<u64>,
        sources: Seq<StatementSource>,
        n: int,
        now: u64,
    ) -> Seq<ImportRecord>
        decreases n,
    {
        if n <= 0 {
            Seq::empty()
        } else {
            self.batch_markers(known, sources, n - 1, now).push(
                self.outcome_at(known, sources, n - 1, now)->Ok_0.1,
            )
        }
    }

    /// The statement records that ingesting the first `n` sources writes.
    pub open spec fn batch_statements(
        self,
        known: Set<u64>,
        sources: Seq<StatementSource>,
        n: int,
        now: u64,
    ) -> Seq<StatementRecord>
        decreases n,
    {
        if n <= 0 {
            Seq::empty()
        } else {
            self.batch_statements(known, sources, n - 1, now) + self.outcome_at(
                known,
                sources,
                n - 1,
                now,
            )->Ok_0.0
        }
    }

    /// A registry without importers that selects by first match.
    pub fn new() -> (registry: ImporterRegistry)
        ensures
            registry.importers@ == Seq::<Importer>::empty(),
            !registry.strict,
    {
        ImporterRegistry { importers: Vec::new(), strict: false }
    }

    /// A registry without importers that selects by first match, or strictly
    /// if `strict`.
    pub fn with_policy(strict: bool) -> (registry: ImporterRegistry)
        ensures
            registry.importers@ == Seq::<Importer>::empty(),
            registry.strict == strict,
    {
        ImporterRegistry { importers: Vec::new(), strict }
    }

    /// Registers `importer` after those registered before.
    pub fn register_importer(&mut self, importer: Importer)
        ensures
            final(self).importers@ == old(self).importers@.push(importer),
            final(self).strict == old(self).strict,
    {
        self.importers.push(importer);
    }

    /// The number of registered importers.
    pub fn len(&self) -> (count: usize)
        ensures
            count == self.importers@.len(),
    {
        self.importers.len()
    }

    /// The index of the importer that handles `content`.
    pub fn select(&self, content: &Vec<u8>) -> (chosen: Result<usize, Fault>)
        ensures
            chosen matches Ok(i) ==> self.selection(content@) == Ok::<int, Fault>(i as int)
                && self.first_match(i as int, content@),
            chosen matches Err(fault) ==> self.selection(content@) == Err::<int, Fault>(fault),
    {
        let n: usize = self.importers.len();
        let mut first: usize = 0;
        while first < n && !self.importers[first].detect(content)
            invariant
                first <= n,
                n == self.importers@.len(),
                forall|j: int| 0 <= j < first ==> !self.recognizes(j, content@),
            decreases n - first,
        {
            first = first + 1;
        }
        if first == n {
            assert(!(exists|i: int| self.recognizes(i, content@)));
            return Err(Fault::NoImporter);
        }
        assert(self.first_match(first as int, content@));
        proof {
            self.lemma_first_match_is_one(first as int, content@);
        }
        if self.strict {
            let mut other: usize = first + 1;
            while other < n
                invariant
                    first < other <= n,
                    n == self.importers@.len(),
                    self.strict,
                    self.first_match(first as int, content@),
                    forall|j: int| first < j < other ==> !self.recognizes(j, content@),
                decreases n - other,
            {
                if self.importers[other].detect(content) {
                    assert(other != first && self.recognizes(other as int, content@));
                    return Err(Fault::Ambiguous);
                }
                other = other + 1;
            }
            assert(!(exists|j: int| j != first && self.recognizes(j, content@)));
        }
        Ok(first)
    }

    /// Ingests one source: selects its importer, parses the content and
    /// writes the statement records and then the import record, into `scope`
    /// where there is one, else into the store. On a fault nothing is written.
    pub fn ingest(
        &self,
        store: &mut Store,
        scope: &mut Option<Scope>,
        source: &StatementSource,
        now: u64,
    ) -> (ingested: Result<ImportSummary, Fault>)
        requires
            old(store).wf(),
            scope_wf(*old(scope)),
        ensures
            final(store).wf(),
            scope_wf(*final(scope)),
            match self.outcome(
                *source,
                old(store).knows(*old(scope), source.fingerprint),
                now,
            ) {
                Ok((records, marker)) => {
                    &&& ingested == Ok::<ImportSummary, Fault>(
                        ImportSummary { records: records.len() as usize, importer: marker.importer },
                    )
                    &&& extended(
                        *old(store),
                        *old(scope),
                        *final(store),
                        *final(scope),
                        seq![marker],
                        records,
                    )
                },
                Err(fault) => {
                    &&& ingested == Err::<ImportSummary, Fault>(fault)
                    &&& *final(store) == *old(store)
                    &&& *final(scope) == *old(scope)
                },
            },
    {
        let i: usize = match self.select(&source.content) {
            Ok(i) => i,
            Err(fault) => {
                return Err(fault);
            },
        };
        let records: Vec<StatementRecord> = match self.importers[i].parse(
            &source.content,
            source.fingerprint,
        ) {
            Ok(records) => records,
            Err(location) => {
                return Err(Fault::Parse(location));
            },
        };
        let count: usize = records.len();
        let importer: u64 = self.importers[i].id;
        let marker = ImportRecord { fingerprint: source.fingerprint, importer, timestamp: now };
        if store.write(scope, records, marker) {
            Ok(ImportSummary { records: count, importer })
        } else {
            Err(Fault::Storage)
        }
    }

    /// Ingests `files` in order and stops at the first that fails.
    ///
    /// With `k` the index of the first failing file, or the number of files
    /// when none fails, exactly the records of the first `k` files are
    /// written. The batch succeeds when no file fails; otherwise the failure
    /// names the failing file and its fault, and counts the `k` files
    /// ingested before it.
    pub fn import_statement_files(
        &self,
        store: &mut Store,
        scope: &mut Option<Scope>,
        files: &Vec<StatementSource>,
        now: u64,
    ) -> (imported: Result<BatchSummary, BatchFailure>)
        requires
            old(store).wf(),
            scope_wf(*old(scope)),
        ensures
            final(store).wf(),
            scope_wf(*final(scope)),
            self.batch_result(
                *old(store),
                *old(scope),
                files@,
                0,
                now,
                *final(store),
                *final(scope),
                imported,
            ),
    {
        let mut skip: Vec<bool> = Vec::new();
        let mut i: usize = 0;
        while i < files.len()
            invariant
                i <= files@.len(),
                skip@.len() == i,
                forall|j: int| 0 <= j < i ==> !(#[trigger] skip@[j]),
            decreases files@.len() - i,
        {
            skip.push(false);
            i = i + 1;
        }
        proof {
            lemma_filter_keeps_all(files@);
        }
        self.import_kept(store, scope, files, &skip, Ghost(every_source()), 0, now)
    }

    /// What a batch leaves behind and returns, for the files `left` run on
    /// the store `before` and the scope `scope`, with `skipped` files left
    /// out beforehand.
    pub open spec fn batch_result(
        self,
        before: Store,
        scope: Option<Scope>,
        left: Seq<StatementSource>,
        skipped: int,
        now: u64,
        after: Store,
        after_scope: Option<Scope>,
        imported: Result<BatchSummary, BatchFailure>,
    ) -> bool {
        let known = before.known(scope);
        let k = self.first_fault(known, left, 0, now);
        &&& 0 <= k <= left.len()
        &&& extended(
            before,
            scope,
            after,
            after_scope,
            self.batch_markers(known, left, k, now),
            self.batch_statements(known, left, k, now),
        )
        &&& imported is Ok <==> k == left.len()
        &&& imported matches Ok(summary) ==> clean_summary(summary, k, skipped)
        &&& imported matches Err(failure) ==> failed_with(
            failure,
            fault_error(self.outcome_at(known, left, k, now)->Err_0, left[k]),
            k,
            skipped,
        )
    }

    /// Ingests, in order, the files that `skip` does not mark, and stops at
    /// the first that fails. `keep` is the test that `skip` stands for, and
    /// `skipped` the count that the summary is to carry.
    pub(crate) fn import_kept(
        &self,
        store: &mut Store,
        scope: &mut Option<Scope>,
        files: &Vec<StatementSource>,
        skip: &Vec<bool>,
        Ghost(keep): Ghost<spec_fn(StatementSource) -> bool>,
        skipped: usize,
        now: u64,
    ) -> (imported: Result<BatchSummary, BatchFailure>)
        requires
            old(store).wf(),
            scope_wf(*old(scope)),
            skip@.len() == files@.len(),
            forall|i: int| 0 <= i < files@.len() ==> #[trigger] skip@[i] == !keep(files@[i]),
        ensures
            final(store).wf(),
            scope_wf(*final(scope)),
            self.batch_result(
                *old(store),
                *old(scope),
                files@.filter(keep),
                skipped as int,
                now,
                *final(store),
                *final(scope),
                imported,
            ),
    {
        let ghost store0 = *store;
        let ghost scope0 = *scope;
        let ghost known0 = store0.known(scope0);
        let ghost left = files@.filter(keep);
        let mut i: usize = 0;
        let mut done: usize = 0;
        proof {
            lemma_extended_empty(store0, scope0);
            files@.take(0).lemma_filter_len(keep);
            assert(files@.take(0).filter(keep) =~= left.take(0));
        }
        while i < files.len()
            invariant
                i <= files@.len(),
                done <= i,
                done <= left.len(),
                skip@.len() == files@.len(),
                forall|j: int| 0 <= j < files@.len() ==> #[trigger] skip@[j] == !keep(files@[j]),
                left == files@.filter(keep),
                files@.take(i as int).filter(keep) == left.take(done as int),
                store0 == *old(store),
                scope0 == *old(scope),
                known0 == store0.known(scope0),
                store.wf(),
                scope_wf(*scope),
                self.first_fault(known0, left, done as int, now) == self.first_fault(
                    known0,
                    left,
                    0,
                    now,
                ),
                extended(
                    store0,
                    scope0,
                    *store,
                    *scope,
                    self.batch_markers(known0, left, done as int, now),
                    self.batch_statements(known0, left, done as int, now),
                ),
                self.batch_markers(known0, left, done as int, now).len() == done,
                forall|j: int|
                    0 <= j < done ==> (#[trigger] self.batch_markers(
                        known0,
                        left,
                        done as int,
                        now,
                    )[j]).fingerprint == left[j].fingerprint,
            decreases files@.len() - i,
        {
            proof {
                lemma_filter_step(files@, keep, i as int);
            }
            if !skip[i] {
                let ghost markers = self.batch_markers(known0, left, done as int, now);
                let ghost statements = self.batch_statements(known0, left, done as int, now);
                let ghost store1 = *store;
                let ghost scope1 = *scope;
                proof {
                    assert(left.take(done + 1)[done as int] == files@[i as int]);
                    assert(left[done as int] == files@[i as int]);
                    lemma_extended_knows(store0, scope0, store1, scope1, markers, statements);
                    let f = left[done as int].fingerprint;
                    if imported_set(markers).contains(f) {
                        let j = choose|j: int|
                            0 <= j < markers.len() && #[trigger] markers[j].fingerprint == f;
                        assert(left[j].fingerprint == f);
                    }
                    if repeated(left, done as int) {
                        let j = choose|j: int|
                            0 <= j < done && (#[trigger] left[j]).fingerprint
                                == left[done as int].fingerprint;
                        assert(markers[j].fingerprint == f);
                    }
                    assert(store1.knows(scope1, f) == (known0.contains(f) || repeated(
                        left,
                        done as int,
                    )));
                }
                match self.ingest(store, scope, &files[i], now) {
                    Err(fault) => {
                        assert(self.outcome_at(known0, left, done as int, now) == Err::<
                            (Seq<StatementRecord>, ImportRecord),
                            Fault,
                        >(fault));
                        let error = ImportError::from_fault(fault, &files[i]);
                        return Err(BatchFailure::new(error, done, skipped));
                    },
                    Ok(_) => {
                        proof {
                            let written = self.outcome_at(known0, left, done as int, now)->Ok_0;
                            lemma_extended_chain(
                                store0,
                                scope0,
                                store1,
                                scope1,
                                *store,
                                *scope,
                                markers,
                                statements,
                                seq![written.1],
                                written.0,
                            );
                            assert(markers + seq![written.1] =~= markers.push(written.1));
                        }
                    },
                }
                done = done + 1;
            }
            i = i + 1;
        }
        proof {
            assert(files@.take(files@.len() as int) =~= files@);
            assert(left.take(done as int).len() == done);
        }
        Ok(BatchSummary::clean(done, skipped))
    }

    /// The first fault from `from` on lies at or after `from`, and every
    /// source between the two is ingested without a fault.
    pub proof fn lemma_first_fault(
        self,
        known: Set<u64>,
        sources: Seq<StatementSource>,
        from: int,
        now: u64,
    )
        requires
            0 <= from <= sources.len(),
        ensures
            from <= self.first_fault(known, sources, from, now) <= sources.len(),
            forall|j: int|
                from <= j < self.first_fault(known, sources, from, now) ==> (
                #[trigger] self.outcome_at(known, sources, j, now)) is Ok,
            self.first_fault(known, sources, from, now) < sources.len() ==> self.outcome_at(
                known,
                sources,
                self.first_fault(known, sources, from, now),
                now,
            ) is Err,
        decreases sources.len() - from,
    {
        if from < sources.len() && self.outcome_at(known, sources, from, now) is Ok {
            self.lemma_first_fault(known, sources, from + 1, now);
        }
    }

    /// The import records of the first `n` sources are as many, one for each
    /// source in order.
    pub proof fn lemma_batch_markers(
        self,
        known: Set<u64>,
        sources: Seq<StatementSource>,
        n: int,
        now: u64,
    )
        requires
            0 <= n,
        ensures
            self.batch_markers(known, sources, n, now).len() == n,
            forall|j: int|
                0 <= j < n ==> #[trigger] self.batch_markers(known, sources, n, now)[j]
                    == self.outcome_at(known, sources, j, now)->Ok_0.1,
        decreases n,
    {
        if n > 0 {
            self.lemma_batch_markers(known, sources, n - 1, now);
        }
    }

    /// A first match is the importer that non-strict selection gives, and the
    /// only first match there is.
    pub proof fn lemma_first_match_is_one(self, i: int, content: Seq<u8>)
        requires
            self.first_match(i, content),
        ensures
            (choose|k: int| self.first_match(k, content)) == i,
            !self.strict ==> self.selection(content) == Ok::<int, Fault>(i),
    {
        let k = choose|k: int| self.first_match(k, content);
        assert(self.first_match(k, content));
        if k < i {
            assert(!self.recognizes(k, content));
        }
        if i < k {
            assert(!self.recognizes(i, content));
        }
    }
}

/// The test that every source passes.
pub open spec fn every_source() -> spec_fn(StatementSource) -> bool {
    |source: StatementSource| true
}

/// Filtering by a test that every source passes leaves the sources as they
/// are.
pub proof fn lemma_filter_keeps_all(sources: Seq<StatementSource>)
    ensures
        sources.filter(every_source()) == sources,
    decreases sources.len(),
{
    reveal(Seq::filter);
    if sources.len() > 0 {
        lemma_filter_keeps_all(sources.drop_last());
        assert(sources.drop_last().push(sources.last()) =~= sources);
    }
}

/// Filtering one source more of `sources` appends that source or nothing,
/// and what the first sources leave is the start of what all of them leave.
pub proof fn lemma_filter_step(
    sources: Seq<StatementSource>,
    keep: spec_fn(StatementSource) -> bool,
    i: int,
)
    requires
        0 <= i < sources.len(),
    ensures
        sources.take(i + 1).filter(keep) == if keep(sources[i]) {
            sources.take(i).filter(keep).push(sources[i])
        } else {
            sources.take(i).filter(keep)
        },
        sources.take(i + 1).filter(keep).len() <= sources.filter(keep).len(),
        sources.take(i + 1).filter(keep) == sources.filter(keep).take(
            sources.take(i + 1).filter(keep).len() as int,
        ),
{
    let head = sources.take(i + 1);
    let tail = sources.skip(i + 1);
    assert(head =~= sources.take(i).push(sources[i]));
    sources.take(i).lemma_filter_push(sources[i], keep);
    assert(head + tail =~= sources);
    Seq::filter_distributes_over_add(head, tail, keep);
    assert((head.filter(keep) + tail.filter(keep)).take(head.filter(keep).len() as int)
        =~= head.filter(keep));
}

/// Writing nothing leaves the store and the scope as they were.
pub proof fn lemma_extended_empty(store: Store, scope: Option<Scope>)
    ensures
        extended(
            store,
            scope,
            store,
            scope,
            Seq::<ImportRecord>::empty(),
            Seq::<StatementRecord>::empty(),
        ),
{
    match scope {
        Some(open) => {
            assert(open.staged_imports() + Seq::<ImportRecord>::empty() =~= open.staged_imports());
            assert(open.staged_statements() + Seq::<StatementRecord>::empty()
                =~= open.staged_statements());
        },
        None => {
            assert(store.import_log() + Seq::<ImportRecord>::empty() =~= store.import_log());
            assert(store.ledger() + Seq::<StatementRecord>::empty() =~= store.ledger());
        },
    }
}

} // verus!
