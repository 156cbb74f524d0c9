use statement_import::error::ErrorKind;
use statement_import::error::Fault;
use statement_import::error::ImportError;
use statement_import::error::SourceRef;
use statement_import::importer::Importer;
use statement_import::model::Activity;
use statement_import::model::ImportRecord;
use statement_import::model::StatementRecord;
use statement_import::model::StatementSource;
use statement_import::orchestrator::cancel_import;
use statement_import::orchestrator::conclude;
use statement_import::orchestrator::filter_unimported;
use statement_import::orchestrator::import_statement_files;
use statement_import::orchestrator::maybe_start_transaction;
use statement_import::orchestrator::run_import;
use statement_import::orchestrator::screen;
use statement_import::orchestrator::transaction_requested;
use statement_import::orchestrator::ImportReport;
use statement_import::orchestrator::ScopeEnd;
use statement_import::phase::Phase;
use statement_import::registry::ImporterRegistry;
use statement_import::store::Scope;
use statement_import::store::Store;
use statement_import::summary::BatchFailure;
use statement_import::summary::BatchSummary;
use statement_import::summary::ImportSummary;

const NOW: u64 = 1_700_000_000;

fn record_bytes(account: u64, amount: i64, activity: u8) -> Vec<u8> {
    let mut bytes: Vec<u8> = Vec::new();
    bytes.extend_from_slice(&account.to_le_bytes());
    bytes.extend_from_slice(&7u64.to_le_bytes());
    bytes.extend_from_slice(&1_600_000_000u64.to_le_bytes());
    bytes.extend_from_slice(&amount.to_le_bytes());
    bytes.extend_from_slice(&840u16.to_le_bytes());
    bytes.push(2);
    bytes.push(activity);
    bytes
}

fn expected_record(account: u64, amount: i64, activity: Activity, source: u64) -> StatementRecord {
    StatementRecord {
        account,
        instrument: 7,
        timestamp: 1_600_000_000,
        amount,
        currency: 840,
        precision: 2,
        activity,
        source,
    }
}

/// A well-formed statement with the signature `FLEX` and `count` records for
/// the account `account`.
fn valid(path: &str, account: u64, count: u64) -> StatementSource {
    let mut content: Vec<u8> = b"FLEX".to_vec();
    for k in 0..count {
        content.extend_from_slice(&record_bytes(account, k as i64 + 1, 0));
    }
    StatementSource::from_content(String::from(path), content)
}

/// A statement with the signature `FLEX` whose second record has an unknown
/// activity code.
fn corrupt(path: &str) -> StatementSource {
    let mut content: Vec<u8> = b"FLEX".to_vec();
    content.extend_from_slice(&record_bytes(66, 1, 0));
    content.extend_from_slice(&record_bytes(66, 2, 77));
    StatementSource::from_content(String::from(path), content)
}

fn flex_registry() -> ImporterRegistry {
    let mut registry = ImporterRegistry::new();
    registry.register_importer(Importer::ledger(1, b"FLEX".to_vec()));
    registry
}

fn fingerprints(records: &Vec<ImportRecord>) -> Vec<u64> {
    records.iter().map(|record| record.fingerprint).collect()
}

#[test]
fn fresh_import_of_three_files() {
    let registry = flex_registry();
    let mut store = Store::new(true);
    let a = valid("a.flex", 1, 2);
    let b = valid("b.flex", 2, 1);
    let c = valid("c.flex", 3, 3);
    let expected = vec![a.fingerprint, b.fingerprint, c.fingerprint];
    let report = run_import(&registry, &mut store, vec![a, b, c], Some(true), NOW);
    assert_eq!(report.phase, Phase::Done);
    assert!(report.error.is_none());
    assert_eq!(report.summary.imported, 3);
    assert_eq!(report.summary.skipped, 0);
    assert_eq!(report.summary.failures.len(), 0);
    assert_eq!(store.import_records().len(), 3);
    assert_eq!(fingerprints(store.import_records()), expected);
    assert_eq!(store.statement_records().len(), 6);
    for record in store.import_records() {
        assert_eq!(record.importer, 1);
        assert_eq!(record.timestamp, NOW);
    }
}

#[test]
fn fresh_import_writes_records_in_file_order() {
    let registry = flex_registry();
    let mut store = Store::new(false);
    let a = valid("a.flex", 1, 2);
    let b = valid("b.flex", 2, 1);
    let (fa, fb) = (a.fingerprint, b.fingerprint);
    let report = run_import(&registry, &mut store, vec![a, b], None, NOW);
    assert_eq!(report.phase, Phase::Done);
    assert_eq!(
        store.statement_records(),
        &vec![
            expected_record(1, 1, Activity::Trade, fa),
            expected_record(1, 2, Activity::Trade, fa),
            expected_record(2, 1, Activity::Trade, fb),
        ]
    );
    assert_eq!(
        store.import_records(),
        &vec![
            ImportRecord { fingerprint: fa, importer: 1, timestamp: NOW },
            ImportRecord { fingerprint: fb, importer: 1, timestamp: NOW },
        ]
    );
}

#[test]
fn partial_repeat_imports_only_new_file() {
    let registry = flex_registry();
    let mut store = Store::new(true);
    let first = run_import(&registry, &mut store, vec![valid("a.flex", 1, 2)], Some(true), NOW);
    assert_eq!(first.summary.imported, 1);

    let a = valid("a.flex", 1, 2);
    let b = valid("b.flex", 2, 1);
    let fb = b.fingerprint;
    let filtered = filter_unimported(&store, vec![a.clone(), b.clone()]);
    assert_eq!(filtered.skipped, 1);
    assert_eq!(filtered.remaining.len(), 1);
    assert_eq!(filtered.remaining[0].path, "b.flex");
    assert_eq!(filtered.remaining[0].fingerprint, fb);

    let report = run_import(&registry, &mut store, vec![a, b], Some(true), NOW + 1);
    assert_eq!(report.phase, Phase::Done);
    assert_eq!(report.summary.imported, 1);
    assert_eq!(report.summary.skipped, 1);
    assert_eq!(report.summary.failures.len(), 0);
    assert_eq!(store.import_records().len(), 2);
    assert_eq!(store.import_records()[1].fingerprint, fb);
    assert_eq!(store.import_records()[1].timestamp, NOW + 1);
    assert_eq!(store.statement_records().len(), 3);
}

#[test]
fn mid_batch_parse_failure_rolls_back() {
    let registry = flex_registry();
    let mut store = Store::new(true);
    let bad = corrupt("bad.flex");
    let bad_fingerprint = bad.fingerprint;
    let batch = vec![valid("a.flex", 1, 2), bad, valid("c.flex", 3, 1)];
    let report = run_import(&registry, &mut store, batch, Some(true), NOW);
    assert_eq!(report.phase, Phase::Failed);
    assert_eq!(report.summary.imported, 0);
    assert_eq!(report.summary.skipped, 0);
    match report.error {
        Some(ImportError::ParseError(source, location)) => {
            assert_eq!(source.path, "bad.flex");
            assert_eq!(source.fingerprint, bad_fingerprint);
            assert_eq!(location, 4 + 36);
        },
        other => panic!("expected a parse error, got {:?}", other),
    }
    assert_eq!(report.summary.failures.len(), 1);
    assert_eq!(report.summary.failures[0].source.path, "bad.flex");
    assert_eq!(report.summary.failures[0].kind, ErrorKind::ParseError);
    assert_eq!(store.import_records().len(), 0);
    assert_eq!(store.statement_records().len(), 0);
}

#[test]
fn no_matching_importer_is_reported() {
    let registry = flex_registry();
    let mut store = Store::new(true);
    let stranger = StatementSource::from_content(String::from("x.csv"), b"date,amount".to_vec());
    let fingerprint = stranger.fingerprint;
    let report = run_import(&registry, &mut store, vec![stranger], Some(true), NOW);
    assert_eq!(report.phase, Phase::Failed);
    match report.error {
        Some(ImportError::NoImporterFound(source)) => {
            assert_eq!(source.path, "x.csv");
            assert_eq!(source.fingerprint, fingerprint);
        },
        other => panic!("expected no importer, got {:?}", other),
    }
    assert_eq!(report.summary.imported, 0);
    assert_eq!(report.summary.failures[0].kind, ErrorKind::NoImporterFound);
    assert_eq!(store.import_records().len(), 0);
    assert_eq!(store.statement_records().len(), 0);
}

#[test]
fn no_matching_importer_writes_nothing_without_scope() {
    let registry = ImporterRegistry::new();
    let mut store = Store::new(false);
    let report = run_import(&registry, &mut store, vec![valid("a.flex", 1, 1)], None, NOW);
    assert_eq!(report.phase, Phase::Failed);
    assert!(matches!(report.error, Some(ImportError::NoImporterFound(_))));
    assert_eq!(store.import_records().len(), 0);
    assert_eq!(store.statement_records().len(), 0);
}

#[test]
fn second_run_imports_nothing() {
    let registry = flex_registry();
    let mut store = Store::new(true);
    let batch = vec![valid("a.flex", 1, 2), valid("b.flex", 2, 1), valid("c.flex", 3, 3)];
    let first = run_import(&registry, &mut store, batch.clone(), Some(true), NOW);
    assert_eq!(first.phase, Phase::Done);
    let imports = store.import_records().clone();
    let statements = store.statement_records().clone();

    let second = run_import(&registry, &mut store, batch.clone(), Some(true), NOW + 5);
    assert_eq!(second.phase, Phase::NoWork);
    assert!(second.error.is_none());
    assert_eq!(second.summary.imported, 0);
    assert_eq!(second.summary.skipped, 3);
    assert_eq!(store.import_records(), &imports);
    assert_eq!(store.statement_records(), &statements);

    let third = run_import(&registry, &mut store, batch, None, NOW + 9);
    assert_eq!(third.phase, Phase::NoWork);
    assert_eq!(third.summary.skipped, 3);
    assert_eq!(store.import_records(), &imports);
}

#[test]
fn first_registered_importer_wins() {
    let mut registry = ImporterRegistry::new();
    registry.register_importer(Importer::ledger(10, b"OTHER".to_vec()));
    registry.register_importer(Importer::ledger(20, b"FL".to_vec()));
    registry.register_importer(Importer::ledger(30, b"FLEX".to_vec()));
    let source = valid("a.flex", 1, 0);
    for _ in 0..5 {
        assert_eq!(registry.select(&source.content), Ok(1));
    }
    let mut store = Store::new(false);
    let mut scope: Option<Scope> = None;
    let summary = registry.ingest(&mut store, &mut scope, &source, NOW);
    assert_eq!(summary, Err(Fault::Parse(2 + 0)));

    let mut swapped = ImporterRegistry::new();
    swapped.register_importer(Importer::ledger(30, b"FLEX".to_vec()));
    swapped.register_importer(Importer::ledger(20, b"FL".to_vec()));
    assert_eq!(swapped.select(&source.content), Ok(0));
    let summary = swapped.ingest(&mut store, &mut scope, &source, NOW);
    assert_eq!(summary, Ok(ImportSummary { records: 0, importer: 30 }));
    assert_eq!(store.import_records()[0].importer, 30);
}

#[test]
fn selection_without_match_finds_no_importer() {
    let registry = flex_registry();
    assert_eq!(registry.select(&b"FLE".to_vec()), Err(Fault::NoImporter));
    assert_eq!(ImporterRegistry::new().select(&b"FLEX".to_vec()), Err(Fault::NoImporter));
    assert_eq!(ImporterRegistry::new().len(), 0);
    assert_eq!(registry.len(), 1);
}

#[test]
fn strict_selection_refuses_overlap() {
    let mut registry = ImporterRegistry::with_policy(true);
    registry.register_importer(Importer::ledger(20, b"FL".to_vec()));
    registry.register_importer(Importer::ledger(30, b"FLEX".to_vec()));
    assert_eq!(registry.select(&b"FLEX".to_vec()), Err(Fault::Ambiguous));
    assert_eq!(registry.select(&b"FLAT".to_vec()), Ok(0));

    let mut store = Store::new(true);
    let report = run_import(&registry, &mut store, vec![valid("a.flex", 1, 1)], Some(true), NOW);
    assert_eq!(report.phase, Phase::Failed);
    match report.error {
        Some(ImportError::AmbiguousImporter(source)) => assert_eq!(source.path, "a.flex"),
        other => panic!("expected an ambiguous importer, got {:?}", other),
    }
    assert_eq!(store.import_records().len(), 0);
}

#[test]
fn filter_excludes_imported_in_any_order() {
    let a = valid("a.flex", 1, 1);
    let b = valid("b.flex", 2, 1);
    let c = valid("c.flex", 3, 1);
    let d = valid("d.flex", 4, 1);
    let imports = vec![
        ImportRecord { fingerprint: c.fingerprint, importer: 1, timestamp: 1 },
        ImportRecord { fingerprint: a.fingerprint, importer: 1, timestamp: 2 },
    ];
    let store = Store::restore(true, imports, Vec::new()).expect("distinct fingerprints");

    let forward = filter_unimported(&store, vec![a.clone(), b.clone(), c.clone(), d.clone()]);
    let paths: Vec<&str> = forward.remaining.iter().map(|s| s.path.as_str()).collect();
    assert_eq!(paths, vec!["b.flex", "d.flex"]);
    assert_eq!(forward.skipped, 2);

    let backward = filter_unimported(&store, vec![d.clone(), c.clone(), b.clone(), a.clone()]);
    let paths: Vec<&str> = backward.remaining.iter().map(|s| s.path.as_str()).collect();
    assert_eq!(paths, vec!["d.flex", "b.flex"]);
    assert_eq!(backward.skipped, 2);

    let repeated = filter_unimported(&store, vec![a.clone(), a, b.clone(), c, b]);
    let paths: Vec<&str> = repeated.remaining.iter().map(|s| s.path.as_str()).collect();
    assert_eq!(paths, vec!["b.flex", "b.flex"]);
    assert_eq!(repeated.skipped, 3);
}

#[test]
fn filter_of_nothing_is_nothing() {
    let store = Store::new(false);
    let filtered = filter_unimported(&store, Vec::new());
    assert_eq!(filtered.remaining.len(), 0);
    assert_eq!(filtered.skipped, 0);
}

#[test]
fn failure_without_scope_keeps_earlier_files() {
    let registry = flex_registry();
    let mut store = Store::new(false);
    let a = valid("a.flex", 1, 2);
    let fa = a.fingerprint;
    let batch = vec![a, corrupt("bad.flex"), valid("c.flex", 3, 1)];
    let report = run_import(&registry, &mut store, batch, None, NOW);
    assert_eq!(report.phase, Phase::Failed);
    assert_eq!(report.summary.imported, 1);
    assert!(matches!(report.error, Some(ImportError::ParseError(_, 40))));
    assert_eq!(fingerprints(store.import_records()), vec![fa]);
    assert_eq!(store.statement_records().len(), 2);

    let batch = vec![valid("a.flex", 1, 2), valid("c.flex", 3, 1)];
    let retry = run_import(&registry, &mut store, batch, Some(false), NOW);
    assert_eq!(retry.phase, Phase::Done);
    assert_eq!(retry.summary.imported, 1);
    assert_eq!(retry.summary.skipped, 1);
    assert_eq!(store.import_records().len(), 2);
}

#[test]
fn unsupported_transaction_fails_before_any_write() {
    let registry = flex_registry();
    let mut store = Store::new(false);
    let report = run_import(&registry, &mut store, vec![valid("a.flex", 1, 1)], Some(true), NOW);
    assert_eq!(report.phase, Phase::Failed);
    assert!(matches!(report.error, Some(ImportError::TransactionUnsupported)));
    assert_eq!(report.summary.imported, 0);
    assert_eq!(report.summary.failures.len(), 0);
    assert_eq!(store.import_records().len(), 0);
    assert_eq!(store.statement_records().len(), 0);
}

#[test]
fn nothing_to_import_opens_no_scope() {
    let registry = flex_registry();
    let mut store = Store::new(false);
    let report = run_import(&registry, &mut store, Vec::new(), Some(true), NOW);
    assert_eq!(report.phase, Phase::NoWork);
    assert!(report.error.is_none());
    assert_eq!(report.summary.imported, 0);
    assert_eq!(report.summary.skipped, 0);
}

#[test]
fn repeated_fingerprint_in_batch_is_a_storage_error() {
    let registry = flex_registry();
    let mut store = Store::new(true);
    let batch = vec![valid("a.flex", 1, 1), valid("copy-of-a.flex", 1, 1)];
    let report = run_import(&registry, &mut store, batch.clone(), Some(true), NOW);
    assert_eq!(report.phase, Phase::Failed);
    match report.error {
        Some(ImportError::StorageError(source)) => assert_eq!(source.path, "copy-of-a.flex"),
        other => panic!("expected a storage error, got {:?}", other),
    }
    assert_eq!(report.summary.failures[0].kind, ErrorKind::StorageError);
    assert_eq!(store.import_records().len(), 0);

    let mut plain = Store::new(false);
    let report = run_import(&registry, &mut plain, batch, None, NOW);
    assert_eq!(report.summary.imported, 1);
    assert_eq!(plain.import_records().len(), 1);
    assert_eq!(plain.statement_records().len(), 1);
}

#[test]
fn maybe_start_transaction_follows_the_flag() {
    let transactional = Store::new(true);
    let plain = Store::new(false);
    assert!(matches!(maybe_start_transaction(&transactional, None), Ok(None)));
    assert!(matches!(maybe_start_transaction(&transactional, Some(false)), Ok(None)));
    assert!(matches!(maybe_start_transaction(&plain, None), Ok(None)));
    assert!(matches!(maybe_start_transaction(&plain, Some(false)), Ok(None)));
    match maybe_start_transaction(&transactional, Some(true)) {
        Ok(Some(scope)) => assert_eq!(scope.staged_count(), 0),
        other => panic!("expected an open scope, got {:?}", other),
    }
    assert!(matches!(
        maybe_start_transaction(&plain, Some(true)),
        Err(ImportError::TransactionUnsupported)
    ));
}

#[test]
fn empty_batch_succeeds_and_leaves_scope_uncommitted() {
    let registry = flex_registry();
    let mut store = Store::new(true);
    let mut scope = Some(store.begin().expect("transactional store"));
    let marker = ImportRecord { fingerprint: 5, importer: 1, timestamp: NOW };
    assert!(store.write(&mut scope, Vec::new(), marker));
    let result = import_statement_files(&registry, &mut store, scope, &Vec::new(), NOW);
    let summary = result.expect("an empty batch succeeds");
    assert_eq!(summary.imported, 0);
    assert_eq!(store.import_records().len(), 0);
}

#[test]
fn batch_with_scope_commits_staged_and_new_records() {
    let registry = flex_registry();
    let mut store = Store::new(true);
    let mut scope = Some(store.begin().expect("transactional store"));
    let marker = ImportRecord { fingerprint: 5, importer: 9, timestamp: 3 };
    let staged = expected_record(8, 8, Activity::Cash, 5);
    assert!(store.write(&mut scope, vec![staged], marker));
    assert_eq!(store.import_records().len(), 0);

    let a = valid("a.flex", 1, 1);
    let fa = a.fingerprint;
    let result = import_statement_files(&registry, &mut store, scope, &vec![a], NOW);
    let summary = result.expect("the batch commits");
    assert_eq!(summary.imported, 1);
    assert_eq!(summary.skipped, 0);
    assert_eq!(fingerprints(store.import_records()), vec![5, fa]);
    assert_eq!(
        store.statement_records(),
        &vec![staged, expected_record(1, 1, Activity::Trade, fa)]
    );
}

#[test]
fn batch_with_scope_aborts_on_failure() {
    let registry = flex_registry();
    let mut store = Store::new(true);
    let scope = Some(store.begin().expect("transactional store"));
    let batch = vec![valid("a.flex", 1, 1), corrupt("bad.flex")];
    let failure = import_statement_files(&registry, &mut store, scope, &batch, NOW)
        .expect_err("the corrupt file fails the batch");
    assert_eq!(failure.summary.imported, 0);
    assert!(matches!(failure.error, ImportError::ParseError(_, 40)));
    assert_eq!(store.import_records().len(), 0);
    assert_eq!(store.statement_records().len(), 0);
}

#[test]
fn commit_fails_when_store_got_the_fingerprint_meanwhile() {
    let registry = flex_registry();
    let mut store = Store::new(true);
    let mut scope = Some(store.begin().expect("transactional store"));
    let marker = ImportRecord { fingerprint: 5, importer: 1, timestamp: NOW };
    assert!(store.write(&mut scope, Vec::new(), marker));
    let mut direct: Option<Scope> = None;
    assert!(store.write(&mut direct, Vec::new(), marker));
    assert_eq!(store.import_records().len(), 1);

    let batch = vec![valid("a.flex", 1, 1)];
    let failure = import_statement_files(&registry, &mut store, scope, &batch, NOW)
        .expect_err("the commit collides");
    assert!(matches!(failure.error, ImportError::CommitError));
    assert_eq!(failure.error.kind(), ErrorKind::CommitError);
    assert_eq!(failure.summary.imported, 0);
    assert_eq!(failure.summary.failures.len(), 0);
    assert_eq!(store.import_records().len(), 1);
    assert_eq!(store.statement_records().len(), 0);
}

#[test]
fn registry_batch_counts_files_before_the_failure() {
    let registry = flex_registry();
    let mut store = Store::new(false);
    let mut scope: Option<Scope> = None;
    let batch = vec![valid("a.flex", 1, 1), valid("b.flex", 2, 1), corrupt("bad.flex")];
    let failure = registry
        .import_statement_files(&mut store, &mut scope, &batch, NOW)
        .expect_err("the corrupt file fails the batch");
    assert_eq!(failure.summary.imported, 2);
    assert_eq!(failure.summary.skipped, 0);
    assert_eq!(failure.summary.failures.len(), 1);
    assert_eq!(failure.summary.failures[0].source.path, "bad.flex");
    assert_eq!(store.import_records().len(), 2);
}

#[test]
fn registry_batch_stages_into_scope() {
    let registry = flex_registry();
    let mut store = Store::new(true);
    let mut scope = Some(store.begin().expect("transactional store"));
    let batch = vec![valid("a.flex", 1, 1), valid("b.flex", 2, 2)];
    let summary = registry
        .import_statement_files(&mut store, &mut scope, &batch, NOW)
        .expect("both files are ingested");
    assert_eq!(summary.imported, 2);
    assert_eq!(summary.failures.len(), 0);
    assert_eq!(store.import_records().len(), 0);
    assert_eq!(store.statement_records().len(), 0);
    let scope = scope.expect("the scope stays open");
    assert_eq!(scope.staged_count(), 2);
    assert_eq!(store.abort(scope), 2);
    assert_eq!(store.import_records().len(), 0);
}

#[test]
fn ingest_reports_records_and_importer() {
    let registry = flex_registry();
    let mut store = Store::new(false);
    let mut scope: Option<Scope> = None;
    let a = valid("a.flex", 1, 3);
    assert_eq!(
        registry.ingest(&mut store, &mut scope, &a, NOW),
        Ok(ImportSummary { records: 3, importer: 1 })
    );
    assert_eq!(registry.ingest(&mut store, &mut scope, &a, NOW), Err(Fault::Storage));
    assert_eq!(registry.ingest(&mut store, &mut scope, &corrupt("bad"), NOW), Err(Fault::Parse(40)));
    assert_eq!(store.import_records().len(), 1);
    assert_eq!(store.statement_records().len(), 3);
}

#[test]
fn store_write_refuses_known_fingerprint() {
    let mut store = Store::new(true);
    let mut none: Option<Scope> = None;
    let marker = ImportRecord { fingerprint: 5, importer: 1, timestamp: NOW };
    let record = expected_record(1, 1, Activity::Cash, 5);
    assert!(store.write(&mut none, vec![record], marker));
    assert!(!store.write(&mut none, vec![record], marker));
    assert_eq!(store.import_records(), &vec![marker]);
    assert_eq!(store.statement_records(), &vec![record]);

    let mut scope = Some(store.begin().expect("transactional store"));
    assert!(!store.write(&mut scope, vec![record], marker));
    let other = ImportRecord { fingerprint: 6, importer: 1, timestamp: NOW };
    assert!(store.write(&mut scope, vec![record], other));
    assert!(!store.write(&mut scope, vec![record], other));
    assert_eq!(scope.as_ref().map(|open| open.staged_count()), Some(1));
    assert_eq!(store.import_records().len(), 1);
}

#[test]
fn store_commit_appends_staged_records() {
    let mut store = Store::new(true);
    let mut none: Option<Scope> = None;
    let first = ImportRecord { fingerprint: 1, importer: 1, timestamp: NOW };
    assert!(store.write(&mut none, Vec::new(), first));
    let mut scope = Some(store.begin().expect("transactional store"));
    let second = ImportRecord { fingerprint: 2, importer: 1, timestamp: NOW };
    let third = ImportRecord { fingerprint: 3, importer: 1, timestamp: NOW };
    let record = expected_record(1, 1, Activity::Position, 2);
    assert!(store.write(&mut scope, vec![record], second));
    assert!(store.write(&mut scope, Vec::new(), third));
    assert!(store.commit(scope.expect("open scope")).is_ok());
    assert_eq!(store.import_records(), &vec![first, second, third]);
    assert_eq!(store.statement_records(), &vec![record]);
}

#[test]
fn store_lookups() {
    let imports = vec![
        ImportRecord { fingerprint: 10, importer: 1, timestamp: 1 },
        ImportRecord { fingerprint: 20, importer: 1, timestamp: 2 },
    ];
    let store = Store::restore(false, imports, Vec::new()).expect("distinct fingerprints");
    assert!(!store.supports_transactions());
    assert!(store.is_imported(10));
    assert!(store.is_imported(20));
    assert!(!store.is_imported(30));
    assert_eq!(store.existing(&vec![30, 20, 10, 10, 0]), vec![false, true, true, true, false]);
    assert_eq!(store.existing(&Vec::new()), Vec::<bool>::new());
    assert!(matches!(store.begin(), Err(ImportError::TransactionUnsupported)));
    assert!(Store::new(true).supports_transactions());
}

#[test]
fn store_restore_refuses_repeated_fingerprint() {
    let imports = vec![
        ImportRecord { fingerprint: 10, importer: 1, timestamp: 1 },
        ImportRecord { fingerprint: 20, importer: 1, timestamp: 2 },
        ImportRecord { fingerprint: 10, importer: 2, timestamp: 3 },
    ];
    assert!(Store::restore(true, imports, Vec::new()).is_none());
    assert!(Store::restore(true, Vec::new(), Vec::new()).is_some());
}

#[test]
fn errors_name_their_source_and_kind() {
    let source = StatementSource::new(String::from("a.flex"), 9, Vec::new());
    let cases = [
        (Fault::NoImporter, ErrorKind::NoImporterFound),
        (Fault::Ambiguous, ErrorKind::AmbiguousImporter),
        (Fault::Parse(12), ErrorKind::ParseError),
        (Fault::Storage, ErrorKind::StorageError),
    ];
    for (fault, kind) in cases {
        let error = ImportError::from_fault(fault, &source);
        assert_eq!(error.kind(), kind);
        assert_eq!(error.source_path(), Some(String::from("a.flex")));
    }
    assert!(matches!(
        ImportError::from_fault(Fault::Parse(12), &source),
        ImportError::ParseError(SourceRef { fingerprint: 9, .. }, 12)
    ));
    assert_eq!(ImportError::TransactionUnsupported.kind(), ErrorKind::TransactionUnsupported);
    assert_eq!(ImportError::Cancelled.kind(), ErrorKind::Cancelled);
    assert_eq!(ImportError::CommitError.source_path(), None);
    assert_eq!(ImportError::Cancelled.source_path(), None);
}

#[test]
fn batch_failure_lists_the_failing_source() {
    let at = SourceRef { path: String::from("a.flex"), fingerprint: 9 };
    let failure = BatchFailure::new(ImportError::StorageError(at.duplicate()), 2, 1);
    assert_eq!(failure.summary.imported, 2);
    assert_eq!(failure.summary.skipped, 1);
    assert_eq!(failure.summary.failures.len(), 1);
    assert_eq!(failure.summary.failures[0].source.path, "a.flex");
    assert_eq!(failure.summary.failures[0].source.fingerprint, 9);
    assert_eq!(failure.summary.failures[0].kind, ErrorKind::StorageError);

    let cancelled = BatchFailure::new(ImportError::Cancelled, 0, 0);
    assert_eq!(cancelled.summary.failures.len(), 0);
    let clean = BatchSummary::clean(3, 4);
    assert_eq!(clean.imported, 3);
    assert_eq!(clean.skipped, 4);
    assert_eq!(clean.failures.len(), 0);
}

#[test]
fn batch_run_again_skips_every_file() {
    let registry = flex_registry();
    for transactional in [false, true] {
        let mut store = Store::new(true);
        let batch = vec![valid("a.flex", 1, 2), valid("b.flex", 2, 1), valid("c.flex", 3, 3)];
        let scope = maybe_start_transaction(&store, Some(transactional)).expect("scope");
        let first = import_statement_files(&registry, &mut store, scope, &batch, NOW)
            .expect("the first run goes through");
        assert_eq!(first.imported, 3);
        assert_eq!(first.skipped, 0);
        let imports = store.import_records().clone();
        let statements = store.statement_records().clone();
        assert_eq!(imports.len(), 3);

        let scope = maybe_start_transaction(&store, Some(transactional)).expect("scope");
        let second = import_statement_files(&registry, &mut store, scope, &batch, NOW + 1)
            .expect("the second run goes through");
        assert_eq!(second.imported, 0);
        assert_eq!(second.skipped, 3);
        assert_eq!(second.failures.len(), 0);
        assert_eq!(store.import_records(), &imports);
        assert_eq!(store.statement_records(), &statements);
    }
}

#[test]
fn batch_partial_repeat_imports_only_new_file() {
    let registry = flex_registry();
    let a = valid("a.flex", 1, 2);
    let b = valid("b.flex", 2, 1);
    let history = vec![ImportRecord { fingerprint: a.fingerprint, importer: 1, timestamp: 5 }];
    let mut store = Store::restore(false, history.clone(), Vec::new()).expect("one record");
    let batch = vec![a, b.clone()];
    let summary = import_statement_files(&registry, &mut store, None, &batch, NOW)
        .expect("only the new file is ingested");
    assert_eq!(summary.imported, 1);
    assert_eq!(summary.skipped, 1);
    assert_eq!(summary.failures.len(), 0);
    assert_eq!(
        store.import_records(),
        &vec![history[0], ImportRecord { fingerprint: b.fingerprint, importer: 1, timestamp: NOW }]
    );
    assert_eq!(
        store.statement_records(),
        &vec![expected_record(2, 1, Activity::Trade, b.fingerprint)]
    );
}

#[test]
fn batch_leaves_out_imported_files_in_any_order() {
    let registry = flex_registry();
    let a = valid("a.flex", 1, 1);
    let b = valid("b.flex", 2, 1);
    let c = valid("c.flex", 3, 1);
    let d = valid("d.flex", 4, 1);
    let history = vec![
        ImportRecord { fingerprint: c.fingerprint, importer: 1, timestamp: 1 },
        ImportRecord { fingerprint: a.fingerprint, importer: 1, timestamp: 2 },
    ];
    let orders = [
        vec![a.clone(), b.clone(), c.clone(), d.clone()],
        vec![d.clone(), c.clone(), b.clone(), a.clone()],
        vec![c.clone(), a.clone(), d.clone(), b.clone()],
    ];
    for batch in orders {
        for transactional in [false, true] {
            let mut store = Store::restore(true, history.clone(), Vec::new()).expect("history");
            let scope = maybe_start_transaction(&store, Some(transactional)).expect("scope");
            let summary = import_statement_files(&registry, &mut store, scope, &batch, NOW)
                .expect("the new files are ingested");
            assert_eq!(summary.imported, 2);
            assert_eq!(summary.skipped, 2);
            assert_eq!(store.import_records().len(), 4);
            assert_eq!(store.import_records()[0], history[0]);
            assert_eq!(store.import_records()[1], history[1]);
            let mut added = fingerprints(store.import_records()).split_off(2);
            added.sort();
            let mut expected = vec![b.fingerprint, d.fingerprint];
            expected.sort();
            assert_eq!(added, expected);
            assert_eq!(store.statement_records().len(), 2);
        }
    }
}

#[test]
fn batch_failure_counts_skipped_files() {
    let registry = flex_registry();
    let a = valid("a.flex", 1, 1);
    let history = vec![ImportRecord { fingerprint: a.fingerprint, importer: 1, timestamp: 1 }];
    let batch = vec![a, valid("b.flex", 2, 1), corrupt("bad.flex")];

    let mut plain = Store::restore(false, history.clone(), Vec::new()).expect("history");
    let failure = import_statement_files(&registry, &mut plain, None, &batch, NOW)
        .expect_err("the corrupt file fails");
    assert_eq!(failure.summary.imported, 1);
    assert_eq!(failure.summary.skipped, 1);
    assert_eq!(failure.summary.failures[0].source.path, "bad.flex");
    assert_eq!(plain.import_records().len(), 2);

    let mut scoped = Store::restore(true, history, Vec::new()).expect("history");
    let scope = Some(scoped.begin().expect("transactional store"));
    let failure = import_statement_files(&registry, &mut scoped, scope, &batch, NOW)
        .expect_err("the corrupt file fails");
    assert_eq!(failure.summary.imported, 0);
    assert_eq!(failure.summary.skipped, 1);
    assert!(matches!(failure.error, ImportError::ParseError(_, 40)));
    assert_eq!(scoped.import_records().len(), 1);
    assert_eq!(scoped.statement_records().len(), 0);
}

#[test]
fn screen_marks_imported_files() {
    let a = valid("a.flex", 1, 1);
    let b = valid("b.flex", 2, 1);
    let history = vec![ImportRecord { fingerprint: b.fingerprint, importer: 1, timestamp: 1 }];
    let store = Store::restore(false, history, Vec::new()).expect("history");
    let screening = screen(&store, &vec![a.clone(), b.clone(), a, b]);
    assert_eq!(screening.skip, vec![false, true, false, true]);
    assert_eq!(screening.left, 2);
    let nothing = screen(&store, &Vec::new());
    assert_eq!(nothing.skip, Vec::<bool>::new());
    assert_eq!(nothing.left, 0);
}

#[test]
fn registry_holds_importers_of_both_formats() {
    let mut registry = ImporterRegistry::new();
    registry.register_importer(Importer::ledger(1, b"FLEX".to_vec()));
    registry.register_importer(Importer::journal(2, b"JRNL".to_vec()));
    let mut journal: Vec<u8> = b"JRNL".to_vec();
    journal.extend_from_slice(&3u64.to_le_bytes());
    journal.extend_from_slice(&4u64.to_le_bytes());
    journal.extend_from_slice(&(-5i64).to_le_bytes());
    journal.extend_from_slice(&756u16.to_le_bytes());
    let journal = StatementSource::from_content(String::from("cash.jrnl"), journal);
    let ledger = valid("a.flex", 1, 1);
    assert_eq!(registry.select(&journal.content), Ok(1));
    assert_eq!(registry.select(&ledger.content), Ok(0));

    let mut store = Store::new(true);
    let (fl, fj) = (ledger.fingerprint, journal.fingerprint);
    let report = run_import(&registry, &mut store, vec![ledger, journal], Some(true), NOW);
    assert_eq!(report.phase, Phase::Done);
    assert_eq!(report.summary.imported, 2);
    assert_eq!(
        store.import_records(),
        &vec![
            ImportRecord { fingerprint: fl, importer: 1, timestamp: NOW },
            ImportRecord { fingerprint: fj, importer: 2, timestamp: NOW },
        ]
    );
    assert_eq!(
        store.statement_records()[1],
        StatementRecord {
            account: 3,
            instrument: 0,
            timestamp: 4,
            amount: -5,
            currency: 756,
            precision: 2,
            activity: Activity::Cash,
            source: fj,
        }
    );
}

#[test]
fn transaction_is_requested_only_by_some_true() {
    assert!(transaction_requested(Some(true)));
    assert!(!transaction_requested(Some(false)));
    assert!(!transaction_requested(None));
}

fn failed_parse_report() -> ImportReport {
    let at = SourceRef { path: String::from("bad.flex"), fingerprint: 9 };
    ImportReport::of_batch(
        Phase::Failed,
        Err(BatchFailure::new(ImportError::ParseError(at, 40), 0, 2)),
    )
}

#[test]
fn failed_abort_does_not_hide_the_first_error() {
    for end in [
        ScopeEnd::AbortFailed,
        ScopeEnd::Aborted,
        ScopeEnd::Unscoped,
        ScopeEnd::Committed,
        ScopeEnd::CommitFailed,
    ] {
        let concluded = conclude(failed_parse_report(), end);
        assert_eq!(concluded.phase, Phase::Failed);
        match concluded.error {
            Some(ImportError::ParseError(source, 40)) => assert_eq!(source.path, "bad.flex"),
            other => panic!("expected the parse error, got {:?}", other),
        }
        assert_eq!(concluded.summary.imported, 0);
        assert_eq!(concluded.summary.skipped, 2);
        assert_eq!(concluded.summary.failures.len(), 1);
        assert_eq!(concluded.summary.failures[0].kind, ErrorKind::ParseError);
    }
}

#[test]
fn failed_commit_is_a_commit_error() {
    let done = ImportReport::of_batch(Phase::Done, Ok(BatchSummary::clean(3, 1)));
    let concluded = conclude(done, ScopeEnd::CommitFailed);
    assert_eq!(concluded.phase, Phase::Failed);
    assert!(matches!(concluded.error, Some(ImportError::CommitError)));
    assert_eq!(concluded.summary.imported, 0);
    assert_eq!(concluded.summary.skipped, 1);
    assert_eq!(concluded.summary.failures.len(), 0);
}

#[test]
fn clean_end_keeps_the_report() {
    for end in [ScopeEnd::Unscoped, ScopeEnd::Committed] {
        let done = ImportReport::of_batch(Phase::Done, Ok(BatchSummary::clean(3, 1)));
        let concluded = conclude(done, end);
        assert_eq!(concluded.phase, Phase::Done);
        assert!(concluded.error.is_none());
        assert_eq!(concluded.summary.imported, 3);
        assert_eq!(concluded.summary.skipped, 1);
    }
}

#[test]
fn abort_without_error_is_a_cancellation() {
    for end in [ScopeEnd::Aborted, ScopeEnd::AbortFailed] {
        let done = ImportReport::of_batch(Phase::Done, Ok(BatchSummary::clean(3, 1)));
        let concluded = conclude(done, end);
        assert_eq!(concluded.phase, Phase::Failed);
        assert!(matches!(concluded.error, Some(ImportError::Cancelled)));
        assert_eq!(concluded.summary.imported, 0);
        assert_eq!(concluded.summary.skipped, 1);
        assert_eq!(concluded.summary.failures.len(), 0);
    }
}

#[test]
fn cancelled_invocation_aborts_and_reports_cancelled() {
    let registry = flex_registry();
    let mut store = Store::new(true);
    let mut scope = Some(store.begin().expect("transactional store"));
    let batch = vec![valid("a.flex", 1, 1), valid("b.flex", 2, 1)];
    registry
        .import_statement_files(&mut store, &mut scope, &batch, NOW)
        .expect("both files are staged");
    let report = cancel_import(&store, scope, 2, 1);
    assert_eq!(report.phase, Phase::Failed);
    assert!(matches!(report.error, Some(ImportError::Cancelled)));
    assert_eq!(report.summary.imported, 0);
    assert_eq!(report.summary.skipped, 1);
    assert_eq!(report.summary.failures.len(), 0);
    assert_eq!(store.import_records().len(), 0);
    assert_eq!(store.statement_records().len(), 0);

    let plain = cancel_import(&store, None, 2, 1);
    assert!(matches!(plain.error, Some(ImportError::Cancelled)));
    assert_eq!(plain.summary.imported, 2);
    assert_eq!(plain.summary.skipped, 1);
}
