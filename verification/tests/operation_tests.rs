use cetane::backend::{Backend, FieldChanges, Postgres, Sqlite};
use cetane::field::{Field, FieldType, ReferentialAction};
use cetane::operation::{
    AddConstraint, AddField, AddIndex, AlterField, Constraint, CreateTable, DropTable, Index,
    RemoveConstraint, RemoveField, RemoveIndex, RenameField, RenameTable, RunSql,
};

#[test]
fn create_table_generates_valid_sql() {
    let op = CreateTable::new("users")
        .add_field(Field::new("id", FieldType::Serial).primary_key())
        .add_field(Field::new("email", FieldType::Text).not_null());

    let sql = op.forward(&Sqlite);
    assert!(sql[0].contains("CREATE TABLE"));
    assert!(sql[0].contains("\"users\""));
    assert!(sql[0].contains("\"id\""));
    assert!(sql[0].contains("PRIMARY KEY"));
    assert!(sql[0].contains("AUTOINCREMENT"));
    assert!(sql[0].contains("\"email\""));
    assert!(sql[0].contains("NOT NULL"));
}

#[test]
fn create_table_is_reversible() {
    let op = CreateTable::new("users");
    let reverse = op.backward(&Sqlite);
    assert_eq!(reverse, Some(vec!["DROP TABLE \"users\"".to_string()]));
}

#[test]
fn drop_table_without_fields_is_not_reversible() {
    let op = DropTable::new("users");
    assert!(!op.is_reversible());
    assert!(op.backward(&Sqlite).is_none());
}

#[test]
fn drop_table_with_fields_is_reversible() {
    let fields = vec![
        Field::new("id", FieldType::Serial).primary_key(),
        Field::new("name", FieldType::Text),
    ];
    let op = DropTable::new("users").with_fields(fields);

    assert!(op.is_reversible());
    let reverse = op.backward(&Sqlite).unwrap();
    assert!(reverse[0].contains("CREATE TABLE"));
}

#[test]
fn rename_table_is_reversible() {
    let op = RenameTable::new("old_users", "users");

    let forward = op.forward(&Sqlite);
    assert_eq!(forward[0], "ALTER TABLE \"old_users\" RENAME TO \"users\"");

    let backward = op.backward(&Sqlite).unwrap();
    assert_eq!(backward[0], "ALTER TABLE \"users\" RENAME TO \"old_users\"");
}

#[test]
fn create_table_describe() {
    let op = CreateTable::new("users");
    assert_eq!(op.describe(), "Create table users");
}

#[test]
fn create_table_field_builder() {
    let op = CreateTable::new("users").field("id", FieldType::Serial).field("email", FieldType::Text);

    let sql = op.forward(&Sqlite);
    assert!(sql[0].contains("\"id\""));
    assert!(sql[0].contains("\"email\""));
}

#[test]
fn drop_table_describe() {
    let op = DropTable::new("users");
    assert_eq!(op.describe(), "Drop table users");
}

#[test]
fn rename_table_describe() {
    let op = RenameTable::new("old", "new");
    assert_eq!(op.describe(), "Rename table old to new");
}

#[test]
fn drop_table_forward() {
    let op = DropTable::new("users");
    let sql = op.forward(&Sqlite);
    assert_eq!(sql[0], "DROP TABLE \"users\"");
}

#[test]
fn add_field_generates_sql() {
    let field = Field::new("email", FieldType::Text).not_null().unique();
    let op = AddField::new("users", field);

    let sql = op.forward(&Sqlite);
    assert!(sql[0].contains("ALTER TABLE"));
    assert!(sql[0].contains("\"users\""));
    assert!(sql[0].contains("ADD COLUMN"));
    assert!(sql[0].contains("\"email\""));
    assert!(sql[0].contains("NOT NULL"));
    assert!(sql[0].contains("UNIQUE"));
}

#[test]
fn add_field_is_reversible() {
    let field = Field::new("email", FieldType::Text);
    let op = AddField::new("users", field);

    let reverse = op.backward(&Sqlite).unwrap();
    assert_eq!(reverse[0], "ALTER TABLE \"users\" DROP COLUMN \"email\"");
}

#[test]
fn remove_field_generates_sql() {
    let op = RemoveField::new("users", "email");

    let sql = op.forward(&Sqlite);
    assert_eq!(sql[0], "ALTER TABLE \"users\" DROP COLUMN \"email\"");
}

#[test]
fn remove_field_without_definition_not_reversible() {
    let op = RemoveField::new("users", "email");
    assert!(!op.is_reversible());
}

#[test]
fn remove_field_with_definition_is_reversible() {
    let field = Field::new("email", FieldType::Text).not_null();
    let op = RemoveField::new("users", "email").with_definition(field);

    assert!(op.is_reversible());
    let reverse = op.backward(&Sqlite).unwrap();
    assert!(reverse[0].contains("ADD COLUMN"));
}

#[test]
fn rename_field_is_reversible() {
    let op = RenameField::new("users", "email", "email_address");

    let forward = op.forward(&Sqlite);
    assert_eq!(forward[0], "ALTER TABLE \"users\" RENAME COLUMN \"email\" TO \"email_address\"");

    let backward = op.backward(&Sqlite).unwrap();
    assert_eq!(backward[0], "ALTER TABLE \"users\" RENAME COLUMN \"email_address\" TO \"email\"");
}

#[test]
fn add_field_describe() {
    let field = Field::new("email", FieldType::Text);
    let op = AddField::new("users", field);
    assert_eq!(op.describe(), "Add field email to users");
}

#[test]
fn alter_field_change_type() {
    let op = AlterField::new("users", "age").set_type(FieldType::BigInt);

    let sql = op.forward(&Postgres);
    assert!(sql[0].contains("ALTER TABLE"));
    assert!(sql[0].contains("\"users\""));
    assert!(sql[0].contains("\"age\""));
}

#[test]
fn alter_field_set_not_null() {
    let op = AlterField::new("users", "email").set_nullable(false);

    let sql = op.forward(&Postgres);
    assert!(sql[0].contains("ALTER TABLE"));
    assert!(sql[0].contains("\"email\""));
    assert!(sql[0].contains("NOT NULL"));
}

#[test]
fn alter_field_set_nullable() {
    let op = AlterField::new("users", "bio").set_nullable(true);

    let sql = op.forward(&Postgres);
    assert!(sql[0].contains("ALTER TABLE"));
    assert!(sql[0].contains("\"bio\""));
    assert!(sql[0].contains("NULL"));
}

#[test]
fn alter_field_set_default() {
    let op = AlterField::new("users", "status").set_default(Some("'active'".to_string()));

    let sql = op.forward(&Postgres);
    assert!(sql[0].contains("ALTER TABLE"));
    assert!(sql[0].contains("\"status\""));
    assert!(sql[0].contains("DEFAULT"));
    assert!(sql[0].contains("'active'"));
}

#[test]
fn alter_field_without_reverse_not_reversible() {
    let op = AlterField::new("users", "email").set_nullable(false);
    assert!(!op.is_reversible());
    assert!(op.backward(&Postgres).is_none());
}

#[test]
fn alter_field_with_reverse_is_reversible() {
    let reverse = FieldChanges::new().set_nullable(true);
    let op = AlterField::new("users", "email").set_nullable(false).with_reverse(reverse);

    assert!(op.is_reversible());
    let backward = op.backward(&Postgres).unwrap();
    assert!(backward[0].contains("NULL"));
}

#[test]
fn alter_field_describe() {
    let op = AlterField::new("users", "email").set_nullable(false);
    assert_eq!(op.describe(), "Alter field email on users");
}

#[test]
fn alter_field_multiple_changes() {
    let op = AlterField::new("users", "score")
        .set_type(FieldType::BigInt)
        .set_nullable(false)
        .set_default(Some("0".to_string()));

    let sql = op.forward(&Postgres);
    assert!(sql[0].contains("\"score\""));
    assert!(sql[0].contains("NOT NULL"));
    assert!(sql[0].contains("DEFAULT"));
}

#[test]
fn alter_field_not_supported_on_sqlite() {
    assert!(!Sqlite.supports_alter_column());
    assert!(Postgres.supports_alter_column());
}

#[test]
fn add_index_generates_sql() {
    let index = Index::new("idx_users_email").column("email");
    let op = AddIndex::new("users", index);

    let sql = op.forward(&Sqlite);
    assert_eq!(sql[0], "CREATE INDEX \"idx_users_email\" ON \"users\" (\"email\")");
}

#[test]
fn add_unique_index_generates_sql() {
    let index = Index::new("idx_users_email").column("email").unique();
    let op = AddIndex::new("users", index);

    let sql = op.forward(&Sqlite);
    assert_eq!(sql[0], "CREATE UNIQUE INDEX \"idx_users_email\" ON \"users\" (\"email\")");
}

#[test]
fn add_composite_index_generates_sql() {
    let index = Index::new("idx_users_name").column("first_name").column("last_name");
    let op = AddIndex::new("users", index);

    let sql = op.forward(&Sqlite);
    assert_eq!(sql[0], "CREATE INDEX \"idx_users_name\" ON \"users\" (\"first_name\", \"last_name\")");
}

#[test]
fn add_index_is_reversible() {
    let index = Index::new("idx_users_email").column("email");
    let op = AddIndex::new("users", index);

    let reverse = op.backward(&Sqlite).unwrap();
    assert!(reverse[0].contains("DROP INDEX"));
    assert!(reverse[0].contains("\"idx_users_email\""));
}

#[test]
fn remove_index_generates_sql() {
    let op = RemoveIndex::new("users", "idx_users_email");

    let sql = op.forward(&Sqlite);
    assert!(sql[0].contains("DROP INDEX"));
    assert!(sql[0].contains("\"idx_users_email\""));
}

#[test]
fn remove_index_without_definition_not_reversible() {
    let op = RemoveIndex::new("users", "idx_users_email");
    assert!(!op.is_reversible());
}

#[test]
fn remove_index_with_definition_is_reversible() {
    let index = Index::new("idx_users_email").column("email");
    let op = RemoveIndex::new("users", "idx_users_email").with_definition(index);

    assert!(op.is_reversible());
    let reverse = op.backward(&Sqlite).unwrap();
    assert!(reverse[0].contains("CREATE INDEX"));
}

#[test]
fn index_with_descending_column() {
    let index = Index::new("idx_created_at").column_desc("created_at");
    let op = AddIndex::new("posts", index);

    let sql = op.forward(&Sqlite);
    assert!(sql[0].contains("\"created_at\" DESC"));
}

#[test]
fn index_mixed_order() {
    let index = Index::new("idx_mixed").column("user_id").column_desc("created_at");
    let op = AddIndex::new("posts", index);

    let sql = op.forward(&Sqlite);
    assert!(sql[0].contains("\"user_id\""));
    assert!(sql[0].contains("\"created_at\" DESC"));
}

#[test]
fn add_index_describe() {
    let index = Index::new("idx_email").column("email");
    let op = AddIndex::new("users", index);
    assert_eq!(op.describe(), "Add index idx_email on users");
}

#[test]
fn remove_index_describe() {
    let op = RemoveIndex::new("users", "idx_email");
    assert_eq!(op.describe(), "Remove index idx_email from users");
}

#[test]
fn partial_index_with_filter() {
    let index = Index::new("idx_active_users").column("email").filter("status = 'active'");
    let op = AddIndex::new("users", index);

    let sql = op.forward(&Sqlite);
    assert!(sql[0].contains("CREATE INDEX"));
    assert!(sql[0].contains("WHERE status = 'active'"));
}

#[test]
fn partial_unique_index() {
    let index = Index::new("idx_unique_active_email")
        .column("email")
        .unique()
        .filter("deleted_at IS NULL");
    let op = AddIndex::new("users", index);

    let sql = op.forward(&Sqlite);
    assert!(sql[0].contains("CREATE UNIQUE INDEX"));
    assert!(sql[0].contains("WHERE deleted_at IS NULL"));
}

#[test]
fn add_check_constraint() {
    let constraint = Constraint::check("chk_age", "age >= 0");
    let op = AddConstraint::new("users", constraint);

    let sql = op.forward(&Sqlite);
    assert!(sql[0].contains("CHECK"));
    assert!(sql[0].contains("age >= 0"));
}

#[test]
fn add_unique_constraint_generates_index() {
    let constraint = Constraint::unique("uq_email", vec!["email".to_string()]);
    let op = AddConstraint::new("users", constraint);

    let sql = op.forward(&Sqlite);
    assert!(sql[0].contains("UNIQUE INDEX"));
}

#[test]
fn add_constraint_is_reversible() {
    let constraint = Constraint::unique("uq_email", vec!["email".to_string()]);
    let op = AddConstraint::new("users", constraint);

    let reverse = op.backward(&Sqlite).unwrap();
    assert!(reverse[0].contains("DROP INDEX"));
}

#[test]
fn remove_constraint_without_definition_not_reversible() {
    let op = RemoveConstraint::new("users", "uq_email");
    assert!(!op.is_reversible());
}

#[test]
fn remove_constraint_with_definition_is_reversible() {
    let constraint = Constraint::unique("uq_email", vec!["email".to_string()]);
    let op = RemoveConstraint::new("users", "uq_email").with_definition(constraint);

    assert!(op.is_reversible());
}

#[test]
fn foreign_key_constraint() {
    let constraint = Constraint::foreign_key(
        "fk_posts_user",
        vec!["user_id".to_string()],
        "users",
        vec!["id".to_string()],
    )
    .on_delete(ReferentialAction::Cascade)
    .on_update(ReferentialAction::SetNull);

    let op = AddConstraint::new("posts", constraint);
    let sql = op.forward(&Sqlite);

    assert!(sql[0].contains("FOREIGN KEY"));
    assert!(sql[0].contains("REFERENCES"));
    assert!(sql[0].contains("ON DELETE CASCADE"));
    assert!(sql[0].contains("ON UPDATE SET NULL"));
}

#[test]
fn constraint_name_accessor() {
    let check = Constraint::check("chk_age", "age >= 0");
    assert_eq!(check.name(), "chk_age");

    let unique = Constraint::unique("uq_email", vec!["email".to_string()]);
    assert_eq!(unique.name(), "uq_email");

    let fk = Constraint::foreign_key(
        "fk_user",
        vec!["user_id".to_string()],
        "users",
        vec!["id".to_string()],
    );
    assert_eq!(fk.name(), "fk_user");
}

#[test]
fn on_delete_on_non_fk_is_noop() {
    let constraint = Constraint::check("chk", "x > 0").on_delete(ReferentialAction::Cascade);
    if let Constraint::Check { name, .. } = constraint {
        assert_eq!(name, "chk");
    } else {
        panic!("Expected Check constraint");
    }
}

#[test]
fn on_update_on_non_fk_is_noop() {
    let constraint = Constraint::unique("uq", vec![]).on_update(ReferentialAction::Cascade);
    if let Constraint::Unique { name, .. } = constraint {
        assert_eq!(name, "uq");
    } else {
        panic!("Expected Unique constraint");
    }
}

#[test]
fn add_constraint_describe() {
    let constraint = Constraint::check("chk_age", "age >= 0");
    let op = AddConstraint::new("users", constraint);
    assert_eq!(op.describe(), "Add constraint chk_age to users");
}

#[test]
fn remove_constraint_describe() {
    let op = RemoveConstraint::new("users", "chk_age");
    assert_eq!(op.describe(), "Remove constraint chk_age from users");
}

#[test]
fn remove_constraint_backward() {
    let constraint = Constraint::check("chk_age", "age >= 0");
    let op = RemoveConstraint::new("users", "chk_age").with_definition(constraint);

    let backward = op.backward(&Sqlite).unwrap();
    assert!(backward[0].contains("CHECK"));
}

#[test]
fn run_sql_forward() {
    let op = RunSql::new("INSERT INTO config (key, value) VALUES ('version', '1')");

    let sql = op.forward(&Sqlite);
    assert_eq!(sql.len(), 1);
    assert!(sql[0].contains("INSERT INTO config"));
}

#[test]
fn run_sql_without_reverse_not_reversible() {
    let op = RunSql::new("DELETE FROM users");
    assert!(!op.is_reversible());
    assert!(op.backward(&Sqlite).is_none());
}

#[test]
fn run_sql_with_reverse_is_reversible() {
    let op = RunSql::reversible(
        "INSERT INTO config (key, value) VALUES ('version', '1')",
        "DELETE FROM config WHERE key = 'version'",
    );

    assert!(op.is_reversible());
    let reverse = op.backward(&Sqlite).unwrap();
    assert!(reverse[0].contains("DELETE FROM config"));
}

#[test]
fn run_sql_multiple_statements() {
    let op = RunSql::multiple(vec![
        "INSERT INTO a VALUES (1)".to_string(),
        "INSERT INTO b VALUES (2)".to_string(),
    ]);

    let sql = op.forward(&Sqlite);
    assert_eq!(sql.len(), 2);
}

#[test]
fn run_sql_custom_description() {
    let op = RunSql::new("SELECT 1").with_description("Test query");
    assert_eq!(op.describe(), "Test query");
}

#[test]
fn run_sql_only_for_matching_backend() {
    let op = RunSql::new("VACUUM").only_for(&["sqlite"]);

    let sql = op.forward(&Sqlite);
    assert_eq!(sql.len(), 1);
    assert_eq!(sql[0], "VACUUM");
}

#[test]
fn run_sql_only_for_non_matching_backend_skipped() {
    let op = RunSql::new("CLUSTER users").only_for(&["postgres"]);

    let sql = op.forward(&Sqlite);
    assert!(sql.is_empty());
}

#[test]
fn run_sql_only_for_with_reverse() {
    let op = RunSql::new("PRAGMA optimize").only_for(&["sqlite"]).with_reverse("SELECT 1");

    assert!(op.is_reversible());
    let forward = op.forward(&Sqlite);
    assert_eq!(forward.len(), 1);

    let backward = op.backward(&Sqlite).unwrap();
    assert_eq!(backward.len(), 1);
}

#[test]
fn run_sql_portable_matching_backend() {
    let op = RunSql::portable()
        .for_backend("sqlite", "CREATE INDEX idx ON t(c)")
        .for_backend("postgres", "CREATE INDEX CONCURRENTLY idx ON t(c)");

    let sql = op.forward(&Sqlite);
    assert_eq!(sql[0], "CREATE INDEX idx ON t(c)");
}

#[test]
fn run_sql_portable_reversible() {
    let op = RunSql::portable()
        .for_backend_reversible("sqlite", "CREATE INDEX idx ON t(c)", "DROP INDEX idx")
        .for_backend_reversible(
            "postgres",
            "CREATE INDEX CONCURRENTLY idx ON t(c)",
            "DROP INDEX CONCURRENTLY idx",
        );

    assert!(op.is_reversible());

    let forward = op.forward(&Sqlite);
    assert!(forward[0].contains("CREATE INDEX"));

    let backward = op.backward(&Sqlite).unwrap();
    assert!(backward[0].contains("DROP INDEX"));
}

#[test]
fn run_sql_with_reverse_multiple() {
    let op = RunSql::new("DROP TABLE a; DROP TABLE b").with_reverse_multiple(vec![
        "CREATE TABLE a (id INT)".to_string(),
        "CREATE TABLE b (id INT)".to_string(),
    ]);

    let backward = op.backward(&Sqlite).unwrap();
    assert_eq!(backward.len(), 2);
}
