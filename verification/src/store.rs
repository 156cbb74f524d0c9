//! The ledger store and the transactional scope over it.
//!
//! The store keeps two append-only logs: the statement records, and one import
//! record for each source that was imported in full. Writes go to the store
//! directly or are staged in a scope, which reaches the store as a unit when
//! it is committed and leaves no trace when it is aborted.

use vstd::prelude::*;
use crate::error::ImportError;
use crate::model::imported_set;
use crate::model::unique_fingerprints;
use crate::model::ImportRecord;
use crate::model::StatementRecord;

verus! {

/// The writes of one open transaction, not yet visible in the store.
#[derive(Debug)]
pub struct Scope {
    imports: Vec<ImportRecord>,
    statements: Vec<StatementRecord>,
}

/// The ledger store.
#[derive(Debug)]
pub struct Store {
    transactional: bool,
    imports: Vec<ImportRecord>,
    statements: Vec<StatementRecord>,
}

/// The fingerprints that `scope` has staged import records for.
pub open spec fn staged_set(scope: Option<Scope>) -> Set<u64> {
    match scope {
        Some(open) => imported_set(open.staged_imports()),
        None => Set::empty(),
    }
}

/// `scope`, if there is one, is well formed.
pub open spec fn scope_wf(scope: Option<Scope>) -> bool {
    scope matches Some(open) ==> open.wf()
}

/// Between (`store0`, `scope0`) and (`store1`, `scope1`) exactly `markers` and
/// `statements` were written, in that order: staged in the scope where there
/// is one, else appended to the store.
pub open spec fn extended(
    store0: Store,
    scope0: Option<Scope>,
    store1: Store,
    scope1: Option<Scope>,
    markers: Seq<ImportRecord>,
    statements: Seq<StatementRecord>,
) -> bool {
    &&& store1.transactional() == store0.transactional()
    &&& match scope0 {
        Some(before) => {
            &&& store1 == store0
            &&& scope1 matches Some(after)
            &&& after.staged_imports() == before.staged_imports() + markers
            &&& after.staged_statements() == before.staged_statements() + statements
        },
        None => {
            &&& scope1 is None
            &&& store1.import_log() == store0.import_log() + markers
            &&& store1.ledger() == store0.ledger() + statements
        },
    }
}

/// Writes made one after the other add up.
pub proof fn lemma_extended_chain(
    store0: Store,
    scope0: Option<Scope>,
    store1: Store,
    scope1: Option<Scope>,
    store2: Store,
    scope2: Option<Scope>,
    markers1: Seq<ImportRecord>,
    statements1: Seq<StatementRecord>,
    markers2: Seq<ImportRecord>,
    statements2: Seq<StatementRecord>,
)
    requires
        extended(store0, scope0, store1, scope1, markers1, statements1),
        extended(store1, scope1, store2, scope2, markers2, statements2),
    ensures
        extended(store0, scope0, store2, scope2, markers1 + markers2, statements1 + statements2),
{
    match scope0 {
        Some(before) => {
            let after = scope2->Some_0;
            assert(after.staged_imports() =~= before.staged_imports() + (markers1 + markers2));
            assert(after.staged_statements() =~= before.staged_statements() + (statements1
                + statements2));
        },
        None => {
            assert(store2.import_log() =~= store0.import_log() + (markers1 + markers2));
            assert(store2.ledger() =~= store0.ledger() + (statements1 + statements2));
        },
    }
}

/// After writes, the store and the scope together know the fingerprints they
/// knew before and those of the import records written.
pub proof fn lemma_extended_knows(
    store0: Store,
    scope0: Option<Scope>,
    store1: Store,
    scope1: Option<Scope>,
    markers: Seq<ImportRecord>,
    statements: Seq<StatementRecord>,
)
    requires
        extended(store0, scope0, store1, scope1, markers, statements),
    ensures
        forall|f: u64| #[trigger]
            store1.knows(scope1, f) <==> store0.knows(scope0, f) || imported_set(markers).contains(
                f,
            ),
{
    match scope0 {
        Some(before) => {
            lemma_imported_set_join(before.staged_imports(), markers);
        },
        None => {
            lemma_imported_set_join(store0.import_log(), markers);
        },
    }
}

/// No fingerprint is marked both in `first` and in `second`.
pub open spec fn disjoint_fingerprints(first: Seq<ImportRecord>, second: Seq<ImportRecord>) -> bool {
    forall|i: int, j: int|
        0 <= i < first.len() && 0 <= j < second.len() ==> #[trigger] first[i].fingerprint
            != #[trigger] second[j].fingerprint
}

/// Two logs without repeated fingerprints, and none in common, join into one
/// without repeated fingerprints.
pub proof fn lemma_join_unique(first: Seq<ImportRecord>, second: Seq<ImportRecord>)
    requires
        unique_fingerprints(first),
        unique_fingerprints(second),
        disjoint_fingerprints(first, second),
    ensures
        unique_fingerprints(first + second),
{
    let joined = first + second;
    assert forall|i: int, j: int| 0 <= i < j < joined.len() implies #[trigger] joined[i].fingerprint
        != #[trigger] joined[j].fingerprint by {
        if j < first.len() {
            assert(joined[i] == first[i] && joined[j] == first[j]);
        } else if i < first.len() {
            assert(joined[i] == first[i] && joined[j] == second[j - first.len()]);
        } else {
            assert(joined[i] == second[i - first.len()] && joined[j] == second[j - first.len()]);
        }
    }
}

/// The fingerprints marked by two logs joined are those marked by either.
pub proof fn lemma_imported_set_join(first: Seq<ImportRecord>, second: Seq<ImportRecord>)
    ensures
        imported_set(first + second) == imported_set(first).union(imported_set(second)),
{
    let joined = first + second;
    assert forall|f: u64| imported_set(joined).contains(f) <==> imported_set(first).union(
        imported_set(second),
    ).contains(f) by {
        if imported_set(joined).contains(f) {
            let i = choose|i: int| 0 <= i < joined.len() && #[trigger] joined[i].fingerprint == f;
            if i < first.len() {
                assert(first[i].fingerprint == f);
            } else {
                assert(second[i - first.len()].fingerprint == f);
            }
        }
        if imported_set(first).contains(f) {
            let i = choose|i: int| 0 <= i < first.len() && #[trigger] first[i].fingerprint == f;
            assert(joined[i].fingerprint == f);
        }
        if imported_set(second).contains(f) {
            let i = choose|i: int| 0 <= i < second.len() && #[trigger] second[i].fingerprint == f;
            assert(joined[first.len() + i].fingerprint == f);
        }
    }
    assert(imported_set(joined) =~= imported_set(first).union(imported_set(second)));
}

/// Whether one of `log` carries the fingerprint `fingerprint`.
fn marks(log: &Vec<ImportRecord>, fingerprint: u64) -> (found: bool)
    ensures
        found == imported_set(log@).contains(fingerprint),
{
    let mut i: usize = 0;
    while i < log.len()
        invariant
            i <= log.len(),
            forall|j: int| 0 <= j < i ==> (#[trigger] log@[j]).fingerprint != fingerprint,
        decreases log.len() - i,
    {
        if log[i].fingerprint == fingerprint {
            return true;
        }
        i = i + 1;
    }
    false
}

impl Scope {
    /// The import records staged so far, in the order they were written.
    pub closed spec fn staged_imports(self) -> Seq<ImportRecord> {
        self.imports@
    }

    /// The statement records staged so far, in the order they were written.
    pub closed spec fn staged_statements(self) -> Seq<StatementRecord> {
        self.statements@
    }

    /// No fingerprint is staged twice.
    pub open spec fn wf(self) -> bool {
        unique_fingerprints(self.staged_imports())
    }

    /// The number of import records staged so far.
    pub fn staged_count(&self) -> (count: usize)
        ensures
            count == self.staged_imports().len(),
    {
        self.imports.len()
    }
}

impl Store {
    /// The import records visible in the store, oldest first.
    pub closed spec fn import_log(self) -> Seq<ImportRecord> {
        self.imports@
    }

    /// The statement records visible in the store, oldest first.
    pub closed spec fn ledger(self) -> Seq<StatementRecord> {
        self.statements@
    }

    /// Whether the store can open transactional scopes.
    pub closed spec fn transactional(self) -> bool {
        self.transactional
    }

    /// At most one import record for each fingerprint.
    pub open spec fn wf(self) -> bool {
        unique_fingerprints(self.import_log())
    }

    /// Whether the store or `scope` has an import record for `fingerprint`.
    pub open spec fn knows(self, scope: Option<Scope>, fingerprint: u64) -> bool {
        imported_set(self.import_log()).contains(fingerprint) || staged_set(scope).contains(
            fingerprint,
        )
    }

    /// The fingerprints that the store or `scope` has an import record for.
    pub open spec fn known(self, scope: Option<Scope>) -> Set<u64> {
        Set::new(|fingerprint: u64| self.knows(scope, fingerprint))
    }

    /// An empty store, which opens transactional scopes if `transactional`.
    pub fn new(transactional: bool) -> (store: Store)
        ensures
            store.wf(),
            store.transactional() == transactional,
            store.import_log() == Seq::<ImportRecord>::empty(),
            store.ledger() == Seq::<StatementRecord>::empty(),
    {
        Store { transactional, imports: Vec::new(), statements: Vec::new() }
    }

    /// A store that holds `imports` and `statements`, oldest first; `None`
    /// exactly when two of the import records carry the same fingerprint.
    pub fn restore(
        transactional: bool,
        imports: Vec<ImportRecord>,
        statements: Vec<StatementRecord>,
    ) -> (restored: Option<Store>)
        ensures
            restored is Some <==> unique_fingerprints(imports@),
            restored matches Some(store) ==> {
                &&& store.wf()
                &&& store.transactional() == transactional
                &&& store.import_log() == imports@
                &&& store.ledger() == statements@
            },
    {
        let mut j: usize = 0;
        while j < imports.len()
            invariant
                j <= imports.len(),
                forall|a: int, b: int|
                    0 <= a < b < j ==> (#[trigger] imports@[a]).fingerprint != (
                    #[trigger] imports@[b]).fingerprint,
            decreases imports.len() - j,
        {
            let mut i: usize = 0;
            while i < j
                invariant
                    i <= j,
                    j < imports.len(),
                    forall|a: int|
                        0 <= a < i ==> (#[trigger] imports@[a]).fingerprint
                            != imports@[j as int].fingerprint,
                decreases j - i,
            {
                if imports[i].fingerprint == imports[j].fingerprint {
                    return None;
                }
                i = i + 1;
            }
            j = j + 1;
        }
        Some(Store { transactional, imports, statements })
    }

    /// Whether the store can open transactional scopes.
    pub fn supports_transactions(&self) -> (supported: bool)
        ensures
            supported == self.transactional(),
    {
        self.transactional
    }

    /// The import records visible in the store, oldest first.
    pub fn import_records(&self) -> (records: &Vec<ImportRecord>)
        ensures
            records@ == self.import_log(),
    {
        &self.imports
    }

    /// The statement records visible in the store, oldest first.
    pub fn statement_records(&self) -> (records: &Vec<StatementRecord>)
        ensures
            records@ == self.ledger(),
    {
        &self.statements
    }

    /// Whether an import record for `fingerprint` is visible in the store.
    pub fn is_imported(&self, fingerprint: u64) -> (found: bool)
        ensures
            found == imported_set(self.import_log()).contains(fingerprint),
    {
        marks(&self.imports, fingerprint)
    }

    /// For each of `fingerprints`, in order, whether an import record for it
    /// is visible in the store.
    pub fn existing(&self, fingerprints: &Vec<u64>) -> (found: Vec<bool>)
        ensures
            found@.len() == fingerprints@.len(),
            forall|i: int|
                0 <= i < fingerprints@.len() ==> #[trigger] found@[i] == imported_set(
                    self.import_log(),
                ).contains(fingerprints@[i]),
    {
        let mut found: Vec<bool> = Vec::new();
        let mut i: usize = 0;
        while i < fingerprints.len()
            invariant
                i <= fingerprints.len(),
                found@.len() == i,
                forall|j: int|
                    0 <= j < i ==> #[trigger] found@[j] == imported_set(self.import_log()).contains(
                        fingerprints@[j],
                    ),
            decreases fingerprints.len() - i,
        {
            found.push(marks(&self.imports, fingerprints[i]));
            i = i + 1;
        }
        found
    }

    /// Opens a transactional scope with nothing staged. Fails with
    /// `TransactionUnsupported` exactly when the store cannot open scopes.
    pub fn begin(&self) -> (opened: Result<Scope, ImportError>)
        ensures
            self.transactional() ==> opened is Ok,
            !self.transactional() ==> opened == Err::<Scope, ImportError>(
                ImportError::TransactionUnsupported,
            ),
            opened matches Ok(scope) ==> scope.wf() && scope.staged_imports() == Seq::<
                ImportRecord,
            >::empty() && scope.staged_statements() == Seq::<StatementRecord>::empty(),
    {
        if self.transactional {
            Ok(Scope { imports: Vec::new(), statements: Vec::new() })
        } else {
            Err(ImportError::TransactionUnsupported)
        }
    }

    /// Writes the statement records of one source and then its import record:
    /// into `scope` where there is one, else into the store. The write is
    /// refused, and nothing changes, exactly when the store or the scope
    /// already has an import record for the marker's fingerprint.
    pub fn write(
        &mut self,
        scope: &mut Option<Scope>,
        records: Vec<StatementRecord>,
        marker: ImportRecord,
    ) -> (written: bool)
        requires
            old(self).wf(),
            scope_wf(*old(scope)),
        ensures
            final(self).wf(),
            scope_wf(*final(scope)),
            final(self).transactional() == old(self).transactional(),
            written == !old(self).knows(*old(scope), marker.fingerprint),
            !written ==> *final(self) == *old(self) && *final(scope) == *old(scope),
            written ==> extended(
                *old(self),
                *old(scope),
                *final(self),
                *final(scope),
                seq![marker],
                records@,
            ),
    {
        let mut records = records;
        if marks(&self.imports, marker.fingerprint) {
            return false;
        }
        match scope {
            Some(open) => {
                if marks(&open.imports, marker.fingerprint) {
                    return false;
                }
                open.statements.append(&mut records);
                open.imports.push(marker);
                assert(open.imports@ =~= old(scope)->Some_0.imports@ + seq![marker]);
            },
            None => {
                self.statements.append(&mut records);
                self.imports.push(marker);
                assert(self.imports@ =~= old(self).imports@ + seq![marker]);
            },
        }
        true
    }

    /// Makes the staged writes of `scope` visible, all at once, after what the
    /// store already holds. Fails with `CommitError`, and changes nothing,
    /// exactly when the store has meanwhile got an import record for a
    /// fingerprint that the scope has staged.
    pub fn commit(&mut self, scope: Scope) -> (committed: Result<(), ImportError>)
        requires
            old(self).wf(),
            scope.wf(),
        ensures
            final(self).wf(),
            final(self).transactional() == old(self).transactional(),
            committed is Ok <==> disjoint_fingerprints(
                old(self).import_log(),
                scope.staged_imports(),
            ),
            committed is Ok ==> final(self).import_log() == old(self).import_log()
                + scope.staged_imports() && final(self).ledger() == old(self).ledger()
                + scope.staged_statements(),
            committed matches Err(error) ==> error == ImportError::CommitError && *final(self)
                == *old(self),
    {
        let mut staged = scope;
        let mut k: usize = 0;
        while k < staged.imports.len()
            invariant
                k <= staged.imports.len(),
                staged == scope,
                *self == *old(self),
                self.wf(),
                forall|i: int, j: int|
                    0 <= i < self.imports@.len() && 0 <= j < k ==> (
                    #[trigger] self.imports@[i]).fingerprint != (
                    #[trigger] staged.imports@[j]).fingerprint,
            decreases staged.imports.len() - k,
        {
            if marks(&self.imports, staged.imports[k].fingerprint) {
                proof {
                    let f = staged.imports@[k as int].fingerprint;
                    let i = choose|i: int|
                        0 <= i < self.imports@.len() && (#[trigger] self.imports@[i]).fingerprint
                            == f;
                    assert(self.imports@[i].fingerprint == staged.imports@[k as int].fingerprint);
                }
                return Err(ImportError::CommitError);
            }
            proof {
                let f = staged.imports@[k as int].fingerprint;
                assert forall|i: int| 0 <= i < self.imports@.len() implies (
                #[trigger] self.imports@[i]).fingerprint != f by {
                    if self.imports@[i].fingerprint == f {
                        assert(imported_set(self.imports@).contains(f));
                    }
                }
            }
            k = k + 1;
        }
        proof {
            lemma_join_unique(self.imports@, staged.imports@);
        }
        self.imports.append(&mut staged.imports);
        self.statements.append(&mut staged.statements);
        Ok(())
    }

    /// Drops the staged writes of `scope`. The store keeps what it had.
    pub fn abort(&self, scope: Scope) -> (dropped: usize)
        ensures
            dropped == scope.staged_imports().len(),
    {
        scope.imports.len()
    }
}

} // verus!
