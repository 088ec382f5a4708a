use cetane::backend::Sqlite;
use cetane::field::{Field, FieldType, ReferentialAction};
use cetane::migration::{Migration, MigrationRegistry};
use cetane::migrator::{InMemoryState, MigrationStateStore, Migrator, SqlExecutor};
use cetane::operation::{AddField, AddIndex, CreateTable, Index};

struct Collector {
    executed: Vec<String>,
}

impl SqlExecutor for Collector {
    fn execute(&mut self, sql: &str) -> Result<(), String> {
        self.executed.push(sql.to_string());
        Ok(())
    }
}

#[test]
fn full_migration_workflow() {
    let mut registry = MigrationRegistry::new();

    registry.register(
        Migration::new("0001_create_users")
            .operation(
                CreateTable::new("users")
                    .add_field(Field::new("id", FieldType::Serial).primary_key())
                    .add_field(Field::new("email", FieldType::Text).not_null().unique())
                    .add_field(Field::new("created_at", FieldType::Timestamp).not_null())
                    .into_op(),
            )
            .operation(
                AddIndex::new("users", Index::new("idx_users_email").column("email").unique())
                    .into_op(),
            ),
    );

    registry.register(
        Migration::new("0002_create_posts")
            .depends_on(&["0001_create_users"])
            .operation(
                CreateTable::new("posts")
                    .add_field(Field::new("id", FieldType::Serial).primary_key())
                    .add_field(
                        Field::new("user_id", FieldType::Integer)
                            .not_null()
                            .references("users", "id")
                            .on_delete(ReferentialAction::Cascade),
                    )
                    .add_field(Field::new("title", FieldType::Text).not_null())
                    .add_field(Field::new("body", FieldType::Text))
                    .into_op(),
            ),
    );

    registry.register(
        Migration::new("0003_add_user_name")
            .depends_on(&["0001_create_users"])
            .operation(
                AddField::new("users", Field::new("name", FieldType::VarChar(255))).into_op(),
            ),
    );

    let state = InMemoryState::new();
    let mut migrator = Migrator::new(&registry, &Sqlite, state);

    let forward_sql = migrator.generate_forward_sql().unwrap();
    assert_eq!(forward_sql.len(), 3);

    let mut collector = Collector { executed: Vec::new() };
    let applied = migrator.migrate_forward(&mut collector).unwrap();

    assert_eq!(applied.len(), 3);
    assert!(collector.executed.iter().any(|s| s.contains("CREATE TABLE \"users\"")));
    assert!(collector.executed.iter().any(|s| s.contains("CREATE TABLE \"posts\"")));
    assert!(collector.executed.iter().any(|s| s.contains("ADD COLUMN \"name\"")));
}

#[test]
fn migration_rollback() {
    let mut registry = MigrationRegistry::new();

    let users_fields = [
        Field::new("id", FieldType::Serial).primary_key(),
        Field::new("email", FieldType::Text).not_null(),
    ];

    registry.register(
        Migration::new("0001_create_users").operation(
            CreateTable::new("users")
                .add_field(users_fields[0].clone())
                .add_field(users_fields[1].clone())
                .into_op(),
        ),
    );

    registry.register(
        Migration::new("0002_add_name")
            .depends_on(&["0001_create_users"])
            .operation(AddField::new("users", Field::new("name", FieldType::Text)).into_op()),
    );

    let state = InMemoryState::with_applied(vec![
        "0001_create_users".to_string(),
        "0002_add_name".to_string(),
    ]);
    let mut migrator = Migrator::new(&registry, &Sqlite, state);

    let backward_sql = migrator.generate_backward_sql(None).unwrap();
    assert_eq!(backward_sql.len(), 2);
    assert_eq!(backward_sql[0].0, "0002_add_name");
    assert_eq!(backward_sql[1].0, "0001_create_users");

    let mut collector = Collector { executed: Vec::new() };
    let unapplied = migrator.migrate_backward(Some("0002_add_name"), &mut collector).unwrap();

    assert_eq!(unapplied.len(), 1);
    assert!(collector.executed[0].contains("DROP COLUMN"));
}

#[test]
fn roundtrip_restores_empty_applied_set() {
    let mut registry = MigrationRegistry::new();
    registry.register(
        Migration::new("0001_create_users").operation(
            CreateTable::new("users")
                .add_field(Field::new("id", FieldType::Serial).primary_key())
                .add_field(Field::new("email", FieldType::Text).not_null())
                .into_op(),
        ),
    );
    registry.register(
        Migration::new("0002_add_name")
            .depends_on(&["0001_create_users"])
            .operation(AddField::new("users", Field::new("name", FieldType::Text)).into_op()),
    );

    let state = InMemoryState::new();
    let mut migrator = Migrator::new(&registry, &Sqlite, state);

    let mut collector = Collector { executed: Vec::new() };
    let plan = migrator.plan_forward().unwrap();
    assert_eq!(plan, vec!["0001_create_users", "0002_add_name"]);

    let applied = migrator.migrate_forward(&mut collector).unwrap();
    assert_eq!(applied, vec!["0001_create_users", "0002_add_name"]);

    let backward_plan = migrator.plan_backward(None).unwrap();
    assert_eq!(backward_plan, vec!["0002_add_name", "0001_create_users"]);

    let unapplied = migrator.migrate_backward(None, &mut collector).unwrap();
    assert_eq!(unapplied, vec!["0002_add_name", "0001_create_users"]);

    let mut state = migrator.into_state();
    assert!(state.applied_migrations().unwrap().is_empty());
}
