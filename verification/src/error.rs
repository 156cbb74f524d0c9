//! Why an import fails.

use vstd::prelude::*;
use crate::model::StatementSource;

verus! {

/// The identity of a statement source, as carried by an error.
#[derive(Clone, Debug)]
pub struct SourceRef {
    pub path: String,
    pub fingerprint: u64,
}

/// What can go wrong with one statement source.
#[derive(Clone, Copy, Debug, PartialEq, Eq, Structural)]
pub enum Fault {
    /// No registered importer recognizes the source.
    NoImporter,
    /// Under strict selection, more than one importer recognizes the source.
    Ambiguous,
    /// The content cannot be parsed; the byte offset of the fault.
    Parse(usize),
    /// The store refused the write.
    Storage,
}

/// An import error.
#[derive(Clone, Debug)]
pub enum ImportError {
    NoImporterFound(SourceRef),
    AmbiguousImporter(SourceRef),
    ParseError(SourceRef, usize),
    StorageError(SourceRef),
    TransactionUnsupported,
    CommitError,
    Cancelled,
}

/// The kind of an import error, without the source it is about.
#[derive(Clone, Copy, Debug, PartialEq, Eq, Structural)]
pub enum ErrorKind {
    NoImporterFound,
    AmbiguousImporter,
    ParseError,
    StorageError,
    TransactionUnsupported,
    CommitError,
    Cancelled,
}

/// The identity of `source`.
pub open spec fn source_ref(source: StatementSource) -> SourceRef {
    SourceRef { path: source.path, fingerprint: source.fingerprint }
}

/// The error that reports `fault` on `source`.
pub open spec fn fault_error(fault: Fault, source: StatementSource) -> ImportError {
    match fault {
        Fault::NoImporter => ImportError::NoImporterFound(source_ref(source)),
        Fault::Ambiguous => ImportError::AmbiguousImporter(source_ref(source)),
        Fault::Parse(location) => ImportError::ParseError(source_ref(source), location),
        Fault::Storage => ImportError::StorageError(source_ref(source)),
    }
}

impl SourceRef {
    /// A copy of this identity, equal to it.
    pub fn duplicate(&self) -> (copy: SourceRef)
        ensures
            copy == *self,
    {
        SourceRef { path: self.path.clone(), fingerprint: self.fingerprint }
    }
}

impl ImportError {
    /// The kind of this error.
    pub open spec fn kind_spec(self) -> ErrorKind {
        match self {
            ImportError::NoImporterFound(_) => ErrorKind::NoImporterFound,
            ImportError::AmbiguousImporter(_) => ErrorKind::AmbiguousImporter,
            ImportError::ParseError(_, _) => ErrorKind::ParseError,
            ImportError::StorageError(_) => ErrorKind::StorageError,
            ImportError::TransactionUnsupported => ErrorKind::TransactionUnsupported,
            ImportError::CommitError => ErrorKind::CommitError,
            ImportError::Cancelled => ErrorKind::Cancelled,
        }
    }

    /// The source that this error is about, if it is about one.
    pub open spec fn source_spec(self) -> Option<SourceRef> {
        match self {
            ImportError::NoImporterFound(source) => Some(source),
            ImportError::AmbiguousImporter(source) => Some(source),
            ImportError::ParseError(source, _) => Some(source),
            ImportError::StorageError(source) => Some(source),
            _ => None,
        }
    }

    /// The error that reports `fault` on `source`.
    pub fn from_fault(fault: Fault, source: &StatementSource) -> (error: ImportError)
        ensures
            error == fault_error(fault, *source),
    {
        let at = SourceRef { path: source.path.clone(), fingerprint: source.fingerprint };
        match fault {
            Fault::NoImporter => ImportError::NoImporterFound(at),
            Fault::Ambiguous => ImportError::AmbiguousImporter(at),
            Fault::Parse(location) => ImportError::ParseError(at, location),
            Fault::Storage => ImportError::StorageError(at),
        }
    }

    /// The kind of this error.
    pub fn kind(&self) -> (kind: ErrorKind)
        ensures
            kind == self.kind_spec(),
    {
        match self {
            ImportError::NoImporterFound(_) => ErrorKind::NoImporterFound,
            ImportError::AmbiguousImporter(_) => ErrorKind::AmbiguousImporter,
            ImportError::ParseError(_, _) => ErrorKind::ParseError,
            ImportError::StorageError(_) => ErrorKind::StorageError,
            ImportError::TransactionUnsupported => ErrorKind::TransactionUnsupported,
            ImportError::CommitError => ErrorKind::CommitError,
            ImportError::Cancelled => ErrorKind::Cancelled,
        }
    }

    /// The path of the source that this error is about, if it is about one.
    pub fn source_path(&self) -> (path: Option<String>)
        ensures
            match self.source_spec() {
                Some(source) => path == Some(source.path),
                None => path is None,
            },
    {
        match self {
            ImportError::NoImporterFound(source) => Some(source.path.clone()),
            ImportError::AmbiguousImporter(source) => Some(source.path.clone()),
            ImportError::ParseError(source, _) => Some(source.path.clone()),
            ImportError::StorageError(source) => Some(source.path.clone()),
            _ => None,
        }
    }
}

} // verus!
