use cetane::field::{Field, FieldType, ReferentialAction};

#[test]
fn field_builder_pattern() {
    let field = Field::new("email", FieldType::Text).not_null().unique();

    assert_eq!(field.name, "email");
    assert!(!field.nullable);
    assert!(field.unique);
    assert!(!field.primary_key);
}

#[test]
fn primary_key_implies_not_null() {
    let field = Field::new("id", FieldType::Serial).primary_key();

    assert!(field.primary_key);
    assert!(!field.nullable);
}

#[test]
fn field_with_default() {
    let field = Field::new("status", FieldType::Text).not_null().default("'active'");

    assert_eq!(field.default, Some("'active'".to_string()));
}

#[test]
fn field_with_foreign_key() {
    let field = Field::new("user_id", FieldType::Integer)
        .references("users", "id")
        .on_delete(ReferentialAction::Cascade);

    let fk = field.references.unwrap();
    assert_eq!(fk.table, "users");
    assert_eq!(fk.column, "id");
    assert_eq!(fk.on_delete, ReferentialAction::Cascade);
}

#[test]
fn field_with_on_update() {
    let field = Field::new("user_id", FieldType::Integer)
        .references("users", "id")
        .on_update(ReferentialAction::Cascade);

    let fk = field.references.unwrap();
    assert_eq!(fk.on_update, ReferentialAction::Cascade);
}

#[test]
fn on_delete_without_references_is_noop() {
    let field = Field::new("x", FieldType::Integer).on_delete(ReferentialAction::Cascade);
    assert!(field.references.is_none());
}

#[test]
fn on_update_without_references_is_noop() {
    let field = Field::new("x", FieldType::Integer).on_update(ReferentialAction::Cascade);
    assert!(field.references.is_none());
}

#[test]
fn referential_action_as_sql() {
    assert_eq!(ReferentialAction::NoAction.as_sql(), "NO ACTION");
    assert_eq!(ReferentialAction::Restrict.as_sql(), "RESTRICT");
    assert_eq!(ReferentialAction::Cascade.as_sql(), "CASCADE");
    assert_eq!(ReferentialAction::SetNull.as_sql(), "SET NULL");
    assert_eq!(ReferentialAction::SetDefault.as_sql(), "SET DEFAULT");
}

#[test]
fn referential_action_default() {
    assert_eq!(ReferentialAction::default(), ReferentialAction::NoAction);
}

#[test]
fn field_type_clone_and_eq() {
    let ft1 = FieldType::VarChar(255);
    let ft2 = ft1.clone();
    assert_eq!(ft1, ft2);
}

#[test]
fn decimal_stores_precision_and_scale() {
    let ft = FieldType::Decimal { precision: 10, scale: 2 };
    if let FieldType::Decimal { precision, scale } = ft {
        assert_eq!(precision, 10);
        assert_eq!(scale, 2);
    } else {
        panic!("Expected Decimal variant");
    }
}
