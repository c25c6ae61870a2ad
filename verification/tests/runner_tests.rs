use migration_core::ledger::{Ledger, LedgerEntry};
use migration_core::migrations::Migration;
use migration_core::runner::{execution_error, MigrationRunner, RunSession};

fn users_batch() -> Vec<Migration> {
    vec![
        Migration::new("users", 1, "create_users_table", "CREATE TABLE users;"),
        Migration::new("users", 2, "add_email", "ALTER TABLE users ADD email;"),
        Migration::new("users", 3, "add_age", "ALTER TABLE users ADD age;"),
    ]
}

#[test]
fn run_applies_once_then_skips() {
    // Three descriptors: first run applies all three, the second run
    // applies none and skips all three; the ledger is unchanged by it.
    let migs = users_batch();
    let mut runner = MigrationRunner::new();

    let first = runner.run_migrations(&migs);
    assert_eq!(first.applied, 3);
    assert_eq!(first.skipped, 0);
    let after_first: Vec<String> = runner
        .ledger()
        .entries()
        .iter()
        .map(|e| format!("{}:{}", e.module, e.version))
        .collect();

    let second = runner.run_migrations(&migs);
    assert_eq!(second.applied, 0);
    assert_eq!(second.skipped, 3);
    let after_second: Vec<String> = runner
        .ledger()
        .entries()
        .iter()
        .map(|e| format!("{}:{}", e.module, e.version))
        .collect();
    assert_eq!(after_first, after_second);

    let statuses = runner.get_status();
    assert_eq!(statuses.len(), 3);
    for (i, st) in statuses.iter().enumerate() {
        assert_eq!(st.module, "users");
        assert_eq!(st.version, (i + 1) as i32);
    }
}

#[test]
fn run_orders_versions_supplied_out_of_order() {
    // Versions [2, 1] out of order: version 1 executes before version 2.
    let migs = vec![
        Migration::new("users", 2, "second", "ALTER TABLE users;"),
        Migration::new("users", 1, "first", "CREATE TABLE users;"),
    ];
    let session = RunSession::begin(&migs, Ledger::new());
    let next = session.next_pending().expect("two migrations are pending");
    assert_eq!(next.version, 1);
    assert_eq!(next.name, "first");

    let mut runner = MigrationRunner::new();
    runner.run_migrations(&migs);
    let entries = runner.ledger().entries();
    assert_eq!(entries.len(), 2);
    assert_eq!(entries[0].version, 1);
    assert_eq!(entries[1].version, 2);
}

#[test]
fn run_interleaves_modules_by_version() {
    let migs = vec![
        Migration::new("orders", 2, "o2", "ALTER TABLE orders;"),
        Migration::new("users", 1, "u1", "CREATE TABLE users;"),
        Migration::new("orders", 1, "o1", "CREATE TABLE orders;"),
    ];
    let mut runner = MigrationRunner::new();
    let report = runner.run_migrations(&migs);
    assert_eq!(report.applied, 3);
    let entries = runner.ledger().entries();
    let orders: Vec<i32> = entries
        .iter()
        .filter(|e| e.module == "orders")
        .map(|e| e.version)
        .collect();
    assert_eq!(orders, vec![1, 2]);
}

#[test]
fn resume_after_failed_migration() {
    // Version 2 fails mid-run. Re-invoking afterwards skips version 1,
    // re-attempts version 2, and carries on to version 3.
    let migs = users_batch();

    let mut session = RunSession::begin(&migs, Ledger::new());
    let first = session.next_pending().expect("pending").version;
    assert_eq!(first, 1);
    session.record_success(12, String::from("2024-01-01 00:00:00"));

    let failing = session.next_pending().expect("pending");
    assert_eq!(failing.version, 2);
    let error = execution_error(failing, "syntax error at or near \"ADD\"");
    assert_eq!(
        error.message(),
        "Migration users:version_2 failed: syntax error at or near \"ADD\""
    );
    let report = session.report();
    assert_eq!(report.applied, 1);
    assert_eq!(report.skipped, 0);
    let ledger = session.into_ledger();
    assert_eq!(ledger.len(), 1);

    // The operator fixes the SQL and runs again.
    let mut retry = RunSession::begin(&migs, ledger);
    let reattempt = retry.next_pending().expect("pending");
    assert_eq!(reattempt.version, 2);
    retry.record_success(3, String::from("2024-01-01 00:01:00"));
    let third = retry.next_pending().expect("pending");
    assert_eq!(third.version, 3);
    retry.record_success(4, String::from("2024-01-01 00:02:00"));
    assert!(retry.next_pending().is_none());
    let report = retry.report();
    assert_eq!(report.applied, 2);
    assert_eq!(report.skipped, 1);
    assert_eq!(retry.into_ledger().len(), 3);
}

#[test]
fn status_on_fresh_ledger_is_empty() {
    let runner = MigrationRunner::new();
    let statuses = runner.get_status();
    assert!(statuses.is_empty());
}

#[test]
fn status_carries_entry_fields() {
    let migs = vec![Migration::new("users", 1, "create_users_table", "CREATE TABLE users;")];
    let ledger = Ledger::new();
    let mut session = RunSession::begin(&migs, ledger);
    session.record_success(57, String::from("2024-06-30 12:00:00"));
    let runner = MigrationRunner::with_ledger(session.into_ledger());
    let statuses = runner.get_status();
    assert_eq!(statuses.len(), 1);
    assert_eq!(statuses[0].module, "users");
    assert_eq!(statuses[0].version, 1);
    assert_eq!(statuses[0].name, "create_users_table");
    assert_eq!(statuses[0].applied_at, "2024-06-30 12:00:00");
    assert_eq!(statuses[0].execution_time_ms, 57);
}

#[test]
fn recorded_entry_carries_checksum() {
    let migs = vec![Migration::new("users", 1, "create_users_table", "CREATE TABLE users;")];
    let mut session = RunSession::begin(&migs, Ledger::new());
    session.record_success(1, String::new());
    let ledger = session.into_ledger();
    let entry = &ledger.entries()[0];
    assert_eq!(entry.checksum, migs[0].checksum());
}

#[test]
fn ledger_rejects_duplicate_rows() {
    let row = |version: i32| LedgerEntry {
        module: String::from("users"),
        version,
        name: String::from("x"),
        checksum: String::from("1-1-1"),
        applied_at: String::new(),
        execution_time_ms: 0,
    };
    assert!(Ledger::from_entries(vec![row(1), row(2)]).is_some());
    assert!(Ledger::from_entries(vec![row(1), row(1)]).is_none());
}

#[test]
fn ledger_contains_tracks_inserts() {
    let mut ledger = Ledger::new();
    assert!(!ledger.contains(&String::from("users"), 1));
    ledger.insert(LedgerEntry {
        module: String::from("users"),
        version: 1,
        name: String::from("create_users_table"),
        checksum: String::from("19-67-59"),
        applied_at: String::new(),
        execution_time_ms: 5,
    });
    assert!(ledger.contains(&String::from("users"), 1));
    assert!(!ledger.contains(&String::from("users"), 2));
    assert!(!ledger.contains(&String::from("orders"), 1));
}

#[test]
fn database_error_message_wraps_text() {
    let error = migration_core::runner::MigrationError::DatabaseError(String::from(
        "connection refused",
    ));
    assert_eq!(error.message(), "Database error: connection refused");
}

#[test]
fn is_applied_follows_the_ledger() {
    let migs = vec![Migration::new("users", 1, "create_users_table", "CREATE TABLE users;")];
    let mut runner = MigrationRunner::new();
    assert!(!runner.is_applied(&migs[0]));
    runner.run_migrations(&migs);
    assert!(runner.is_applied(&migs[0]));
    assert!(!runner.is_applied(&Migration::new("users", 2, "later", "ALTER TABLE users;")));
}
