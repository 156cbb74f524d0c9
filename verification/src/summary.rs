//! What a batch reports back.

use vstd::prelude::*;
use crate::error::ErrorKind;
use crate::error::ImportError;
use crate::error::SourceRef;

verus! {

/// What ingesting one source wrote.
#[derive(Clone, Copy, Debug, PartialEq, Eq, Structural)]
pub struct ImportSummary {
    /// The number of statement records written.
    pub records: usize,
    /// The identifier of the importer that handled the source.
    pub importer: u64,
}

/// One source that failed, and how.
#[derive(Clone, Debug)]
pub struct Failure {
    pub source: SourceRef,
    pub kind: ErrorKind,
}

/// The counts of one batch.
#[derive(Clone, Debug)]
pub struct BatchSummary {
    /// The sources whose records the batch left in the store.
    pub imported: usize,
    /// The sources left out because they were imported before.
    pub skipped: usize,
    /// The sources that failed.
    pub failures: Vec<Failure>,
}

/// A failed batch: the first error, and the counts up to it.
#[derive(Clone, Debug)]
pub struct BatchFailure {
    pub error: ImportError,
    pub summary: BatchSummary,
}

/// The failure list that reports `error`: one entry where the error is about
/// a source, none where it is about the batch as a whole.
pub open spec fn failures_of(error: ImportError) -> Seq<Failure> {
    match error.source_spec() {
        Some(source) => seq![Failure { source, kind: error.kind_spec() }],
        None => Seq::empty(),
    }
}

/// The summary of a batch that imported `imported` sources, skipped `skipped`
/// and had no failure.
pub open spec fn clean_summary(summary: BatchSummary, imported: int, skipped: int) -> bool {
    &&& summary.imported == imported
    &&& summary.skipped == skipped
    &&& summary.failures@ == Seq::<Failure>::empty()
}

/// The report of a batch that failed with `error` after `imported` sources
/// were left in the store and `skipped` were skipped.
pub open spec fn failed_with(
    failure: BatchFailure,
    error: ImportError,
    imported: int,
    skipped: int,
) -> bool {
    &&& failure.error == error
    &&& failure.summary.imported == imported
    &&& failure.summary.skipped == skipped
    &&& failure.summary.failures@ == failures_of(error)
}

impl BatchSummary {
    /// The summary of a batch without failures.
    pub fn clean(imported: usize, skipped: usize) -> (summary: BatchSummary)
        ensures
            clean_summary(summary, imported as int, skipped as int),
    {
        BatchSummary { imported, skipped, failures: Vec::new() }
    }
}

impl BatchFailure {
    /// The report of a batch that failed with `error`.
    pub fn new(error: ImportError, imported: usize, skipped: usize) -> (failure: BatchFailure)
        ensures
            failed_with(failure, error, imported as int, skipped as int),
    {
        let mut failures: Vec<Failure> = Vec::new();
        let kind = error.kind();
        match &error {
            ImportError::NoImporterFound(source) => {
                failures.push(Failure { source: source.duplicate(), kind });
            },
            ImportError::AmbiguousImporter(source) => {
                failures.push(Failure { source: source.duplicate(), kind });
            },
            ImportError::ParseError(source, _) => {
                failures.push(Failure { source: source.duplicate(), kind });
            },
            ImportError::StorageError(source) => {
                failures.push(Failure { source: source.duplicate(), kind });
            },
            _ => {},
        }
        assert(failures@ =~= failures_of(error));
        BatchFailure { error, summary: BatchSummary { imported, skipped, failures } }
    }
}

} // verus!
