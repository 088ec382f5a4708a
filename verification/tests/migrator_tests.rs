use cetane::backend::Sqlite;
use cetane::field::{Field, FieldType};
use cetane::migration::{Migration, MigrationError, MigrationRegistry};
use cetane::migrator::{InMemoryState, MigrationStateStore, Migrator, SqlExecutor, TransactionControl};
use cetane::operation::{AddField, CreateTable, DropTable};

/// Records every statement handed to it; fails on statements containing a
/// chosen fragment, or from a chosen call count on.
struct Recorder {
    executed: Vec<String>,
    fail_on: Option<&'static str>,
    fail_from_call: Option<usize>,
    calls: usize,
}

impl Recorder {
    fn new() -> Self {
        Recorder { executed: Vec::new(), fail_on: None, fail_from_call: None, calls: 0 }
    }

    fn failing_on(fragment: &'static str) -> Self {
        Recorder { executed: Vec::new(), fail_on: Some(fragment), fail_from_call: None, calls: 0 }
    }

    fn failing_from_call(call: usize) -> Self {
        Recorder { executed: Vec::new(), fail_on: None, fail_from_call: Some(call), calls: 0 }
    }
}

impl SqlExecutor for Recorder {
    fn execute(&mut self, sql: &str) -> Result<(), String> {
        self.executed.push(sql.to_string());
        self.calls += 1;
        if let Some(fragment) = self.fail_on {
            if sql.contains(fragment) {
                return Err("simulated failure".to_string());
            }
        }
        if let Some(call) = self.fail_from_call {
            if self.calls > call {
                return Err("rollback failed".to_string());
            }
        }
        Ok(())
    }
}

/// Counts transaction-control calls; optionally fails commits.
struct TxCounter {
    begins: usize,
    commits: usize,
    rollbacks: usize,
    fail_commit: bool,
}

impl TxCounter {
    fn new() -> Self {
        TxCounter { begins: 0, commits: 0, rollbacks: 0, fail_commit: false }
    }
}

impl TransactionControl for TxCounter {
    fn begin(&mut self) -> Result<(), String> {
        self.begins += 1;
        Ok(())
    }

    fn commit(&mut self) -> Result<(), String> {
        self.commits += 1;
        if self.fail_commit {
            Err("commit refused".to_string())
        } else {
            Ok(())
        }
    }

    fn rollback(&mut self) -> Result<(), String> {
        self.rollbacks += 1;
        Ok(())
    }
}

fn setup_registry() -> MigrationRegistry {
    let mut registry = MigrationRegistry::new();

    registry.register(
        Migration::new("0001_create_users").operation(
            CreateTable::new("users")
                .add_field(Field::new("id", FieldType::Serial).primary_key())
                .add_field(Field::new("email", FieldType::Text).not_null())
                .into_op(),
        ),
    );

    registry.register(
        Migration::new("0002_add_name")
            .depends_on(&["0001_create_users"])
            .operation(AddField::new("users", Field::new("name", FieldType::Text)).into_op()),
    );

    registry
}

#[test]
fn plan_forward_empty_state() {
    let registry = setup_registry();
    let state = InMemoryState::new();
    let mut migrator = Migrator::new(&registry, &Sqlite, state);

    let plan = migrator.plan_forward().unwrap();
    assert_eq!(plan, vec!["0001_create_users", "0002_add_name"]);
}

#[test]
fn plan_forward_partial_state() {
    let registry = setup_registry();
    let state = InMemoryState::with_applied(vec!["0001_create_users".to_string()]);
    let mut migrator = Migrator::new(&registry, &Sqlite, state);

    let plan = migrator.plan_forward().unwrap();
    assert_eq!(plan, vec!["0002_add_name"]);
}

#[test]
fn plan_backward_all() {
    let registry = setup_registry();
    let state = InMemoryState::with_applied(vec![
        "0001_create_users".to_string(),
        "0002_add_name".to_string(),
    ]);
    let mut migrator = Migrator::new(&registry, &Sqlite, state);

    let plan = migrator.plan_backward(None).unwrap();
    assert_eq!(plan, vec!["0002_add_name", "0001_create_users"]);
}

#[test]
fn plan_backward_to_target() {
    let registry = setup_registry();
    let state = InMemoryState::with_applied(vec![
        "0001_create_users".to_string(),
        "0002_add_name".to_string(),
    ]);
    let mut migrator = Migrator::new(&registry, &Sqlite, state);

    let plan = migrator.plan_backward(Some("0002_add_name")).unwrap();
    assert_eq!(plan, vec!["0002_add_name"]);
}

#[test]
fn generate_forward_sql() {
    let registry = setup_registry();
    let state = InMemoryState::new();
    let mut migrator = Migrator::new(&registry, &Sqlite, state);

    let sqls = migrator.generate_forward_sql().unwrap();
    assert_eq!(sqls.len(), 2);
    assert!(sqls[0].1[0].contains("CREATE TABLE"));
    assert!(sqls[1].1[0].contains("ADD COLUMN"));
}

#[test]
fn generate_backward_sql() {
    let registry = setup_registry();
    let state = InMemoryState::with_applied(vec![
        "0001_create_users".to_string(),
        "0002_add_name".to_string(),
    ]);
    let mut migrator = Migrator::new(&registry, &Sqlite, state);

    let sqls = migrator.generate_backward_sql(None).unwrap();
    assert_eq!(sqls.len(), 2);
    assert!(sqls[0].1[0].contains("DROP COLUMN"));
    assert!(sqls[1].1[0].contains("DROP TABLE"));
}

#[test]
fn migrate_forward_executes_and_tracks() {
    let registry = setup_registry();
    let state = InMemoryState::new();
    let mut migrator = Migrator::new(&registry, &Sqlite, state);

    let mut executor = Recorder::new();
    let applied = migrator.migrate_forward(&mut executor).unwrap();

    assert_eq!(applied.len(), 2);
    assert!(executor.executed.iter().any(|s| s.contains("CREATE TABLE")));
    assert!(executor.executed.iter().any(|s| s.contains("ADD COLUMN")));
}

#[test]
fn migrate_backward_executes_and_tracks() {
    let registry = setup_registry();
    let state = InMemoryState::with_applied(vec![
        "0001_create_users".to_string(),
        "0002_add_name".to_string(),
    ]);
    let mut migrator = Migrator::new(&registry, &Sqlite, state);

    let mut executor = Recorder::new();
    let unapplied = migrator.migrate_backward(None, &mut executor).unwrap();

    assert_eq!(unapplied.len(), 2);
    assert!(executor.executed.iter().any(|s| s.contains("DROP COLUMN")));
    assert!(executor.executed.iter().any(|s| s.contains("DROP TABLE")));
}

#[test]
fn non_reversible_migration_fails_backward_plan() {
    let mut registry = MigrationRegistry::new();
    registry.register(
        Migration::new("0001_irreversible").operation(DropTable::new("legacy_table").into_op()),
    );

    let state = InMemoryState::with_applied(vec!["0001_irreversible".to_string()]);
    let mut migrator = Migrator::new(&registry, &Sqlite, state);

    let result = migrator.plan_backward(None);
    assert!(matches!(result, Err(MigrationError::NotReversible(_))));
}

#[test]
fn state_accessor() {
    let registry = setup_registry();
    let state = InMemoryState::with_applied(vec!["0001_create_users".to_string()]);
    let mut migrator = Migrator::new(&registry, &Sqlite, state);

    let applied = migrator.state_mut().applied_migrations().unwrap();
    assert_eq!(applied, vec!["0001_create_users"]);
}

#[test]
fn state_mut_accessor() {
    let registry = setup_registry();
    let state = InMemoryState::new();
    let mut migrator = Migrator::new(&registry, &Sqlite, state);

    migrator.state_mut().mark_applied("manual").unwrap();
    let applied = migrator.state_mut().applied_migrations().unwrap();
    assert!(applied.contains(&"manual".to_string()));
}

#[test]
fn into_state_consumes_migrator() {
    let registry = setup_registry();
    let state = InMemoryState::with_applied(vec!["test".to_string()]);
    let migrator = Migrator::new(&registry, &Sqlite, state);

    let mut recovered_state = migrator.into_state();
    assert_eq!(recovered_state.applied_migrations().unwrap(), vec!["test".to_string()]);
}

#[test]
fn migrate_forward_with_transactions_calls_begin_commit() {
    let registry = setup_registry();
    let state = InMemoryState::new();
    let mut migrator = Migrator::new(&registry, &Sqlite, state);

    let mut executor = Recorder::new();
    let mut tx = TxCounter::new();

    let applied = migrator.migrate_forward_with_transactions(&mut executor, &mut tx).unwrap();

    assert_eq!(applied.len(), 2);
    assert_eq!(tx.begins, 2);
    assert_eq!(tx.commits, 2);
    assert_eq!(tx.rollbacks, 0);
}

#[test]
fn migrate_forward_failure_calls_rollback() {
    let registry = setup_registry();
    let state = InMemoryState::new();
    let mut migrator = Migrator::new(&registry, &Sqlite, state);

    let mut executor = Recorder::failing_on("ADD COLUMN");
    let mut tx = TxCounter::new();

    let result = migrator.migrate_forward_with_transactions(&mut executor, &mut tx);

    assert!(result.is_err());
    assert_eq!(tx.rollbacks, 1);

    if let Err(MigrationError::ExecutionFailed { migration, completed, .. }) = result {
        assert_eq!(migration, "0002_add_name");
        assert_eq!(completed, vec!["0001_create_users"]);
    } else {
        panic!("Expected ExecutionFailed error");
    }
}

#[test]
fn migrate_forward_failure_reports_completed() {
    let registry = setup_registry();
    let state = InMemoryState::new();
    let mut migrator = Migrator::new(&registry, &Sqlite, state);

    let mut executor = Recorder::failing_on("ADD COLUMN");
    let result = migrator.migrate_forward(&mut executor);

    match result {
        Err(MigrationError::ExecutionFailed { migration, completed, .. }) => {
            assert_eq!(migration, "0002_add_name");
            assert_eq!(completed, vec!["0001_create_users"]);
        }
        _ => panic!("Expected ExecutionFailed error"),
    }
}

#[test]
fn non_atomic_migration_skips_transaction() {
    let mut registry = MigrationRegistry::new();
    registry.register(
        Migration::new("0001_create_users").atomic(false).operation(
            CreateTable::new("users")
                .add_field(Field::new("id", FieldType::Serial).primary_key())
                .into_op(),
        ),
    );

    let state = InMemoryState::new();
    let mut migrator = Migrator::new(&registry, &Sqlite, state);

    let mut executor = Recorder::new();
    let mut tx = TxCounter::new();

    let applied = migrator.migrate_forward_with_transactions(&mut executor, &mut tx).unwrap();

    assert_eq!(applied.len(), 1);
    assert_eq!(tx.begins, 0);
}

#[test]
fn migrate_forward_failure_on_first_migration() {
    let registry = setup_registry();
    let state = InMemoryState::new();
    let mut migrator = Migrator::new(&registry, &Sqlite, state);

    let mut executor = Recorder::failing_on("CREATE TABLE");
    let result = migrator.migrate_forward(&mut executor);

    match result {
        Err(MigrationError::ExecutionFailed { migration, completed, error }) => {
            assert_eq!(migration, "0001_create_users");
            assert!(completed.is_empty());
            assert!(error.contains("simulated failure"));
        }
        _ => panic!("Expected ExecutionFailed error"),
    }
}

#[test]
fn empty_migration_executes_successfully() {
    let mut registry = MigrationRegistry::new();
    registry.register(Migration::new("0001_placeholder"));

    let state = InMemoryState::new();
    let mut migrator = Migrator::new(&registry, &Sqlite, state);

    let mut executor = Recorder::new();
    let applied = migrator.migrate_forward(&mut executor).unwrap();

    assert_eq!(applied, vec!["0001_placeholder"]);
    assert_eq!(executor.executed.len(), 0);
}

#[test]
fn backward_migration_failure_mid_way() {
    let mut registry = MigrationRegistry::new();
    registry.register(
        Migration::new("0001_create_users").operation(
            CreateTable::new("users")
                .add_field(Field::new("id", FieldType::Serial).primary_key())
                .into_op(),
        ),
    );
    registry.register(
        Migration::new("0002_create_posts")
            .depends_on(&["0001_create_users"])
            .operation(
                CreateTable::new("posts")
                    .add_field(Field::new("id", FieldType::Serial).primary_key())
                    .into_op(),
            ),
    );

    let state = InMemoryState::with_applied(vec![
        "0001_create_users".to_string(),
        "0002_create_posts".to_string(),
    ]);
    let mut migrator = Migrator::new(&registry, &Sqlite, state);

    let mut executor = Recorder::failing_from_call(1);
    let result = migrator.migrate_backward(None, &mut executor);

    match result {
        Err(MigrationError::ExecutionFailed { migration, completed, .. }) => {
            assert_eq!(migration, "0001_create_users");
            assert_eq!(completed, vec!["0002_create_posts"]);
        }
        _ => panic!("Expected ExecutionFailed error"),
    }
}

#[test]
fn already_applied_migrations_skipped() {
    let registry = setup_registry();
    let state = InMemoryState::with_applied(vec![
        "0001_create_users".to_string(),
        "0002_add_name".to_string(),
    ]);
    let mut migrator = Migrator::new(&registry, &Sqlite, state);

    let mut executor = Recorder::new();
    let applied = migrator.migrate_forward(&mut executor).unwrap();

    assert!(applied.is_empty());
}

#[test]
fn no_applied_migrations_nothing_to_rollback() {
    let registry = setup_registry();
    let state = InMemoryState::new();
    let mut migrator = Migrator::new(&registry, &Sqlite, state);

    let mut executor = Recorder::new();
    let unapplied = migrator.migrate_backward(None, &mut executor).unwrap();

    assert!(unapplied.is_empty());
}

#[test]
fn backward_target_not_applied_rolls_back_all() {
    let registry = setup_registry();
    let state = InMemoryState::with_applied(vec!["0001_create_users".to_string()]);
    let mut migrator = Migrator::new(&registry, &Sqlite, state);

    // Target 0002 is not applied, so every applied migration is rolled back:
    // the target acts as a filter, not a stopping point.
    let mut executor = Recorder::new();
    let unapplied = migrator.migrate_backward(Some("0002_add_name"), &mut executor).unwrap();

    assert_eq!(unapplied, vec!["0001_create_users"]);
}

#[test]
fn generate_backward_sql_for_non_reversible_fails() {
    let mut registry = MigrationRegistry::new();
    registry.register(Migration::new("0001_drop").operation(DropTable::new("legacy").into_op()));

    let state = InMemoryState::with_applied(vec!["0001_drop".to_string()]);
    let mut migrator = Migrator::new(&registry, &Sqlite, state);

    let result = migrator.generate_backward_sql(None);
    assert!(matches!(result, Err(MigrationError::NotReversible(_))));
}

#[test]
fn multiple_sql_statements_per_migration() {
    let mut registry = MigrationRegistry::new();
    registry.register(
        Migration::new("0001_complex").operation(
            CreateTable::new("users")
                .add_field(Field::new("id", FieldType::Serial).primary_key())
                .add_field(
                    Field::new("org_id", FieldType::Integer).not_null().references("orgs", "id"),
                )
                .into_op(),
        ),
    );

    let state = InMemoryState::new();
    let mut migrator = Migrator::new(&registry, &Sqlite, state);

    let sql = migrator.generate_forward_sql().unwrap();
    assert_eq!(sql.len(), 1);
    assert!(sql[0].1[0].contains("CREATE TABLE"));
}

#[test]
fn second_forward_run_applies_nothing() {
    let registry = setup_registry();
    let state = InMemoryState::new();
    let mut migrator = Migrator::new(&registry, &Sqlite, state);

    let mut executor = Recorder::new();
    let first = migrator.migrate_forward(&mut executor).unwrap();
    assert_eq!(first.len(), 2);
    let statements_after_first = executor.executed.len();

    let second = migrator.migrate_forward(&mut executor).unwrap();
    assert!(second.is_empty());
    assert_eq!(executor.executed.len(), statements_after_first);
}

#[test]
fn mysql_backend_never_touches_transactions() {
    let registry = setup_registry();
    let state = InMemoryState::new();
    let backend = cetane::backend::MySql;
    let mut migrator = Migrator::new(&registry, &backend, state);

    let mut executor = Recorder::new();
    let mut tx = TxCounter::new();
    let applied = migrator.migrate_forward_with_transactions(&mut executor, &mut tx).unwrap();

    assert_eq!(applied.len(), 2);
    assert_eq!(tx.begins, 0);
    assert_eq!(tx.commits, 0);
    assert_eq!(tx.rollbacks, 0);
}

#[test]
fn commit_failure_rolls_back_and_reports() {
    let registry = setup_registry();
    let state = InMemoryState::new();
    let mut migrator = Migrator::new(&registry, &Sqlite, state);

    let mut executor = Recorder::new();
    let mut tx = TxCounter::new();
    tx.fail_commit = true;

    let result = migrator.migrate_forward_with_transactions(&mut executor, &mut tx);
    match result {
        Err(MigrationError::ExecutionFailed { migration, completed, error }) => {
            assert_eq!(migration, "0001_create_users");
            assert!(completed.is_empty());
            assert!(error.contains("commit transaction:"));
        }
        _ => panic!("Expected ExecutionFailed error"),
    }
    assert_eq!(tx.rollbacks, 1);
}

#[test]
fn in_memory_state_mark_and_unmark() {
    let mut state = InMemoryState::new();
    state.mark_applied("a").unwrap();
    state.mark_applied("b").unwrap();
    state.mark_applied("a").unwrap();
    assert_eq!(state.applied_migrations().unwrap(), vec!["a", "b"]);

    state.mark_unapplied("a").unwrap();
    assert_eq!(state.applied_migrations().unwrap(), vec!["b"]);

    state.mark_unapplied("a").unwrap();
    assert_eq!(state.applied_migrations().unwrap(), vec!["b"]);
}

#[test]
fn mixed_plan_wraps_only_atomic_migrations() {
    let mut registry = MigrationRegistry::new();
    registry.register(
        Migration::new("0001_atomic").operation(
            CreateTable::new("users")
                .add_field(Field::new("id", FieldType::Serial).primary_key())
                .into_op(),
        ),
    );
    registry.register(
        Migration::new("0002_concurrent")
            .depends_on(&["0001_atomic"])
            .atomic(false)
            .operation(
                CreateTable::new("posts")
                    .add_field(Field::new("id", FieldType::Serial).primary_key())
                    .into_op(),
            ),
    );

    let state = InMemoryState::new();
    let mut migrator = Migrator::new(&registry, &Sqlite, state);

    let mut executor = Recorder::new();
    let mut tx = TxCounter::new();
    let applied = migrator.migrate_forward_with_transactions(&mut executor, &mut tx).unwrap();

    assert_eq!(applied.len(), 2);
    // Only the atomic migration is wrapped, though the backend supports
    // transactional DDL.
    assert_eq!(tx.begins, 1);
    assert_eq!(tx.commits, 1);
    assert_eq!(tx.rollbacks, 0);
}

#[test]
fn begin_failure_reports_prefixed_error() {
    struct RefusingTx {
        begins: usize,
    }

    impl TransactionControl for RefusingTx {
        fn begin(&mut self) -> Result<(), String> {
            self.begins += 1;
            Err("no transaction slot".to_string())
        }

        fn commit(&mut self) -> Result<(), String> {
            Ok(())
        }

        fn rollback(&mut self) -> Result<(), String> {
            Ok(())
        }
    }

    let registry = setup_registry();
    let state = InMemoryState::new();
    let mut migrator = Migrator::new(&registry, &Sqlite, state);

    let mut executor = Recorder::new();
    let mut tx = RefusingTx { begins: 0 };
    let result = migrator.migrate_forward_with_transactions(&mut executor, &mut tx);

    match result {
        Err(MigrationError::ExecutionFailed { migration, completed, error }) => {
            assert_eq!(migration, "0001_create_users");
            assert!(completed.is_empty());
            assert_eq!(error, "begin transaction: no transaction slot");
        }
        _ => panic!("Expected ExecutionFailed error"),
    }
    assert_eq!(tx.begins, 1);
    assert!(executor.executed.is_empty());
}
