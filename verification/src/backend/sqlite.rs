use vstd::prelude::*;

use crate::backend::render;
use crate::backend::{
    add_constraint_sql_for, drop_constraint_sql_for, one_statement, quote_identifier_for, Backend,
    Dialect, FieldChanges,
};
use crate::field::Field;
use crate::operation::constraint::Constraint;
use crate::operation::index::Index;

verus! {

/// The SQLite renderer.
#[derive(Debug, Clone, Copy)]
pub struct Sqlite;

impl Default for Sqlite {
    fn default() -> (r: Self)
        ensures
            r == Sqlite,
    {
        Sqlite
    }
}

impl Backend for Sqlite {
    open spec fn spec_dialect(&self) -> Dialect {
        Dialect::Sqlite
    }

    fn dialect(&self) -> Dialect {
        Dialect::Sqlite
    }

    fn name(&self) -> &'static str {
        "sqlite"
    }

    fn supports_if_not_exists(&self) -> bool {
        true
    }

    fn supports_alter_column(&self) -> bool {
        false
    }

    fn supports_drop_column(&self) -> bool {
        true
    }

    fn supports_transactional_ddl(&self) -> bool {
        true
    }

    fn create_table_sql(&self, name: &str, fields: &[Field]) -> Vec<String> {
        one_statement(render::sqlite_create_table_sql(name, fields))
    }

    fn drop_table_sql(&self, name: &str) -> String {
        render::sqlite_drop_table_sql(name)
    }

    fn rename_table_sql(&self, old_name: &str, new_name: &str) -> String {
        render::sqlite_rename_table_sql(old_name, new_name)
    }

    fn add_field_sql(&self, table: &str, field: &Field) -> Vec<String> {
        one_statement(render::sqlite_add_column_sql(table, field))
    }

    fn drop_field_sql(&self, table: &str, field_name: &str) -> Vec<String> {
        one_statement(render::sqlite_drop_column_sql(table, field_name))
    }

    fn rename_field_sql(&self, table: &str, old_name: &str, new_name: &str) -> Vec<String> {
        one_statement(render::sqlite_rename_column_sql(table, old_name, new_name))
    }

    fn alter_field_sql(&self, _table: &str, _field_name: &str, _changes: &FieldChanges) -> Vec<
        String,
    > {
        // Unreachable: SQLite cannot change a column in place, and the
        // trait requires a dialect that can.
        vstd::pervasive::unreached()
    }

    fn add_index_sql(&self, table: &str, index: &Index) -> String {
        render::sqlite_create_index_sql(table, index)
    }

    fn drop_index_sql(&self, table: &str, index_name: &str) -> String {
        render::sqlite_drop_index_sql(table, index_name)
    }

    fn add_constraint_sql(&self, table: &str, constraint: &Constraint) -> String {
        add_constraint_sql_for(Dialect::Sqlite, table, constraint)
    }

    fn drop_constraint_sql(&self, table: &str, constraint_name: &str) -> String {
        drop_constraint_sql_for(Dialect::Sqlite, table, constraint_name)
    }

    fn quote_identifier(&self, name: &str) -> String {
        quote_identifier_for(Dialect::Sqlite, name)
    }
}

} // verus!
