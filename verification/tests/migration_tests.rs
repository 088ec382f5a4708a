use cetane::backend::Sqlite;
use cetane::field::{Field, FieldType};
use cetane::migration::{Migration, MigrationError, MigrationRegistry};
use cetane::operation::{CreateTable, DropTable, Operation, RunSql};

#[test]
fn migration_builder() {
    let migration = Migration::new("0001_initial")
        .depends_on(&[])
        .operation(CreateTable::new("users").field("id", FieldType::Serial).into_op());

    assert_eq!(migration.name, "0001_initial");
    assert!(migration.dependencies.is_empty());
    assert_eq!(migration.forward_operations().len(), 1);
}

#[test]
fn migration_auto_reverse() {
    let migration = Migration::new("0001_create_users").operation(
        CreateTable::new("users")
            .add_field(Field::new("id", FieldType::Serial).primary_key())
            .into_op(),
    );

    assert!(migration.is_reversible());

    let forward = migration.forward_sql(&Sqlite);
    assert!(forward[0].contains("CREATE TABLE"));

    let backward = migration.backward_sql(&Sqlite).unwrap();
    assert!(backward[0].contains("DROP TABLE"));
}

#[test]
fn migration_explicit_backward_ops() {
    let migration = Migration::new("0001_migrate_data")
        .forward_ops(vec![
            CreateTable::new("new_users")
                .add_field(Field::new("id", FieldType::Serial).primary_key())
                .into_op(),
            RunSql::new("INSERT INTO new_users SELECT * FROM users").into_op(),
            DropTable::new("users").into_op(),
        ])
        .backward_ops(vec![
            CreateTable::new("users")
                .add_field(Field::new("id", FieldType::Serial).primary_key())
                .into_op(),
            RunSql::new("INSERT INTO users SELECT * FROM new_users").into_op(),
            // intentionally not dropping new_users
        ]);

    assert!(migration.is_reversible());

    let forward = migration.forward_sql(&Sqlite);
    assert_eq!(forward.len(), 3);
    assert!(forward[0].contains("CREATE TABLE \"new_users\""));
    assert!(forward[1].contains("INSERT INTO new_users"));
    assert!(forward[2].contains("DROP TABLE \"users\""));

    let backward = migration.backward_sql(&Sqlite).unwrap();
    assert_eq!(backward.len(), 2);
    assert!(backward[0].contains("CREATE TABLE \"users\""));
    assert!(backward[1].contains("INSERT INTO users"));
}

#[test]
fn migration_not_reversible_without_backward() {
    let migration = Migration::new("0001_destructive").operation(
        DropTable::new("legacy_table").into_op(),
    );

    assert!(!migration.is_reversible());
    assert!(migration.backward_sql(&Sqlite).is_none());
}

#[test]
fn registry_register_and_get() {
    let mut registry = MigrationRegistry::new();
    registry.register(Migration::new("0001_initial"));

    assert!(registry.get("0001_initial").is_some());
    assert!(registry.get("nonexistent").is_none());
}

#[test]
fn registry_resolve_order_no_deps() {
    let mut registry = MigrationRegistry::new();
    registry.register(Migration::new("0001_first"));
    registry.register(Migration::new("0002_second"));

    let order = registry.resolve_order().unwrap();
    assert_eq!(order, vec!["0001_first", "0002_second"]);
}

#[test]
fn registry_resolve_order_with_deps() {
    let mut registry = MigrationRegistry::new();
    registry.register(Migration::new("0002_second").depends_on(&["0001_first"]));
    registry.register(Migration::new("0001_first"));

    let order = registry.resolve_order().unwrap();
    assert_eq!(order[0], "0001_first");
    assert_eq!(order[1], "0002_second");
}

#[test]
fn registry_detects_circular_dependency() {
    let mut registry = MigrationRegistry::new();
    registry.register(Migration::new("a").depends_on(&["b"]));
    registry.register(Migration::new("b").depends_on(&["a"]));

    let result = registry.resolve_order();
    assert!(matches!(result, Err(MigrationError::CircularDependency(_))));
}

#[test]
fn registry_detects_missing_dependency() {
    let mut registry = MigrationRegistry::new();
    registry.register(Migration::new("a").depends_on(&["missing"]));

    let result = registry.resolve_order();
    assert!(matches!(result, Err(MigrationError::NotFound(_))));
}

#[test]
fn migration_error_display() {
    assert_eq!(
        MigrationError::NotFound("test".to_string()).message(),
        "Migration not found: test"
    );
    assert_eq!(
        MigrationError::CircularDependency("a".to_string()).message(),
        "Circular dependency detected at: a"
    );
    assert_eq!(
        MigrationError::NotReversible("b".to_string()).message(),
        "Migration is not reversible: b"
    );
    assert_eq!(
        MigrationError::ExecutionFailed {
            migration: "c".to_string(),
            error: "sql error".to_string(),
            completed: vec![],
        }
        .message(),
        "Migration c failed: sql error"
    );
    assert_eq!(
        MigrationError::ExecutionFailed {
            migration: "c".to_string(),
            error: "sql error".to_string(),
            completed: vec!["a".to_string(), "b".to_string()],
        }
        .message(),
        "Migration c failed: sql error (completed: a, b)"
    );
}

#[test]
fn registry_len_and_is_empty() {
    let mut registry = MigrationRegistry::new();
    assert!(registry.is_empty());
    assert_eq!(registry.len(), 0);

    registry.register(Migration::new("0001"));
    assert!(!registry.is_empty());
    assert_eq!(registry.len(), 1);
}

#[test]
fn registry_all_iterator() {
    let mut registry = MigrationRegistry::new();
    registry.register(Migration::new("0001_a"));
    registry.register(Migration::new("0002_b"));

    let names: Vec<String> = registry.all().iter().map(|m| m.name.clone()).collect();
    assert_eq!(names, vec!["0001_a", "0002_b"]);
}

#[test]
fn migration_backward_operations_accessor() {
    let migration = Migration::new("test")
        .forward_ops(vec![CreateTable::new("a").into_op()])
        .backward_ops(vec![DropTable::new("a").into_op()]);

    assert!(migration.backward_operations().is_some());
    assert_eq!(migration.backward_operations().unwrap().len(), 1);
}

#[test]
fn migration_backward_operations_none() {
    let migration = Migration::new("test").operation(CreateTable::new("a").into_op());

    assert!(migration.backward_operations().is_none());
}

#[test]
fn migration_atomic_default_true() {
    let migration = Migration::new("test");
    assert!(migration.is_atomic());
}

#[test]
fn migration_atomic_can_be_disabled() {
    let migration = Migration::new("test").atomic(false);
    assert!(!migration.is_atomic());
}

#[test]
fn registry_diamond_dependency() {
    // Diamond pattern:
    //     A
    //    / \
    //   B   C
    //    \ /
    //     D
    let mut registry = MigrationRegistry::new();
    registry.register(Migration::new("A"));
    registry.register(Migration::new("B").depends_on(&["A"]));
    registry.register(Migration::new("C").depends_on(&["A"]));
    registry.register(Migration::new("D").depends_on(&["B", "C"]));

    let order = registry.resolve_order().unwrap();

    assert_eq!(order[0], "A");
    let b_pos = order.iter().position(|x| *x == "B").unwrap();
    let c_pos = order.iter().position(|x| *x == "C").unwrap();
    let d_pos = order.iter().position(|x| *x == "D").unwrap();
    assert!(b_pos < d_pos);
    assert!(c_pos < d_pos);
}

#[test]
fn registry_long_chain() {
    // Linear chain: A -> B -> C -> D -> E
    let mut registry = MigrationRegistry::new();
    registry.register(Migration::new("E").depends_on(&["D"]));
    registry.register(Migration::new("C").depends_on(&["B"]));
    registry.register(Migration::new("A"));
    registry.register(Migration::new("D").depends_on(&["C"]));
    registry.register(Migration::new("B").depends_on(&["A"]));

    let order = registry.resolve_order().unwrap();
    assert_eq!(order, vec!["A", "B", "C", "D", "E"]);
}

#[test]
fn registry_multiple_roots() {
    // Multiple independent starting points:
    //   A      X
    //   |      |
    //   B      Y
    //    \    /
    //      C
    let mut registry = MigrationRegistry::new();
    registry.register(Migration::new("A"));
    registry.register(Migration::new("X"));
    registry.register(Migration::new("B").depends_on(&["A"]));
    registry.register(Migration::new("Y").depends_on(&["X"]));
    registry.register(Migration::new("C").depends_on(&["B", "Y"]));

    let order = registry.resolve_order().unwrap();

    let a_pos = order.iter().position(|x| *x == "A").unwrap();
    let b_pos = order.iter().position(|x| *x == "B").unwrap();
    let x_pos = order.iter().position(|x| *x == "X").unwrap();
    let y_pos = order.iter().position(|x| *x == "Y").unwrap();
    let c_pos = order.iter().position(|x| *x == "C").unwrap();

    assert!(a_pos < b_pos);
    assert!(x_pos < y_pos);
    assert!(b_pos < c_pos);
    assert!(y_pos < c_pos);
}

#[test]
fn registry_complex_dag() {
    let mut registry = MigrationRegistry::new();
    registry.register(Migration::new("A"));
    registry.register(Migration::new("B").depends_on(&["A"]));
    registry.register(Migration::new("C").depends_on(&["A"]));
    registry.register(Migration::new("D").depends_on(&["A"]));
    registry.register(Migration::new("E").depends_on(&["B"]));
    registry.register(Migration::new("F").depends_on(&["C", "D"]));
    registry.register(Migration::new("G").depends_on(&["E", "F"]));

    let order = registry.resolve_order().unwrap();

    let pos = |name: &str| order.iter().position(|x| *x == name).unwrap();

    assert!(pos("A") < pos("B"));
    assert!(pos("A") < pos("C"));
    assert!(pos("A") < pos("D"));
    assert!(pos("B") < pos("E"));
    assert!(pos("C") < pos("F"));
    assert!(pos("D") < pos("F"));
    assert!(pos("E") < pos("G"));
    assert!(pos("F") < pos("G"));
}

#[test]
fn registry_three_node_cycle() {
    // Cycle: A -> B -> C -> A
    let mut registry = MigrationRegistry::new();
    registry.register(Migration::new("A").depends_on(&["C"]));
    registry.register(Migration::new("B").depends_on(&["A"]));
    registry.register(Migration::new("C").depends_on(&["B"]));

    let result = registry.resolve_order();
    assert!(matches!(result, Err(MigrationError::CircularDependency(_))));
}

#[test]
fn registry_self_dependency() {
    let mut registry = MigrationRegistry::new();
    registry.register(Migration::new("A").depends_on(&["A"]));

    let result = registry.resolve_order();
    assert!(matches!(result, Err(MigrationError::CircularDependency(_))));
}

#[test]
fn registry_independent_migrations() {
    let mut registry = MigrationRegistry::new();
    registry.register(Migration::new("users"));
    registry.register(Migration::new("posts"));
    registry.register(Migration::new("comments"));

    let order = registry.resolve_order().unwrap();
    assert_eq!(order.len(), 3);
    assert!(order.contains(&"users".to_string()));
    assert!(order.contains(&"posts".to_string()));
    assert!(order.contains(&"comments".to_string()));
}

#[test]
fn register_same_name_replaces() {
    let mut registry = MigrationRegistry::new();
    registry.register(Migration::new("0001").operation(CreateTable::new("a").into_op()));
    registry.register(Migration::new("0001").operation(CreateTable::new("b").into_op()));

    assert_eq!(registry.len(), 1);
    let m = registry.get("0001").unwrap();
    let sql = m.forward_sql(&Sqlite);
    assert!(sql[0].contains("\"b\""));
}

#[test]
fn derived_backward_reverses_forward_order() {
    let migration = Migration::new("0001_two_tables")
        .operation(
            CreateTable::new("first")
                .add_field(Field::new("id", FieldType::Serial).primary_key())
                .into_op(),
        )
        .operation(
            CreateTable::new("second")
                .add_field(Field::new("id", FieldType::Serial).primary_key())
                .into_op(),
        );

    let backward = migration.backward_sql(&Sqlite).unwrap();
    assert_eq!(
        backward,
        vec!["DROP TABLE \"second\"".to_string(), "DROP TABLE \"first\"".to_string()]
    );
}

#[test]
fn operation_enum_dispatch_matches_struct() {
    let op = CreateTable::new("users").field("id", FieldType::Serial).into_op();
    let sql = op.forward(&Sqlite);
    assert!(sql[0].contains("CREATE TABLE"));
    assert!(op.is_reversible());
    assert_eq!(op.describe(), "Create table users");
    let backward = op.backward(&Sqlite).unwrap();
    assert_eq!(backward[0], "DROP TABLE \"users\"");
}
