use mithka_tdlib::database::{database_verdict, DatabaseProbe};

fn probe(has_binlog: bool, has_files_dir: bool, entries: &[(&str, bool)]) -> DatabaseProbe {
    DatabaseProbe {
        exists: true,
        is_dir: true,
        has_binlog,
        has_files_dir,
        entries: entries.iter().map(|(n, d)| (n.to_string(), *d)).collect(),
    }
}

#[test]
fn missing_directory_is_an_error() {
    let mut p = probe(false, false, &[]);
    p.exists = false;
    let err = database_verdict("/no/such/mithka-tdlib-dir", &p).unwrap_err();
    assert!(err.contains("does not exist"));
}

#[test]
fn parent_with_accounts_is_refused() {
    let err = database_verdict("/tmp/parent", &probe(false, false, &[("account-1", true)])).unwrap_err();
    assert!(err.contains("account-1"));
    assert!(err.contains("td.binlog"));
}

#[test]
fn slot_directory_with_binlog_is_accepted() {
    let warnings = database_verdict("/tmp/slot", &probe(true, true, &[("files", true)])).unwrap();
    assert!(warnings.is_empty(), "{warnings:?}");
}

#[test]
fn accounts_are_listed_in_order() {
    let p = probe(false, false, &[("account-2", true), ("notes", true), ("account-1", true), ("account-3", false)]);
    let err = database_verdict("/tmp/parent", &p).unwrap_err();
    assert!(err.contains("(account-1, account-2)"), "{err}");
}

#[test]
fn other_verdicts() {
    let mut p = probe(false, false, &[]);
    p.is_dir = false;
    assert!(database_verdict("/x", &p).unwrap_err().contains("not a directory"));
    let warnings = database_verdict("/x", &probe(true, false, &[])).unwrap();
    assert_eq!(warnings.len(), 1);
    assert!(warnings[0].starts_with("no files/ directory in /x."));
    let fresh = database_verdict("/x", &probe(false, false, &[("other", true)])).unwrap();
    assert!(fresh[0].contains("TDLib will create a new empty database"));
}
