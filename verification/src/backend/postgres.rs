use vstd::prelude::*;

use crate::backend::render;
use crate::backend::{
    add_constraint_sql_for, drop_constraint_sql_for, one_statement, quote_identifier_for, Backend,
    Dialect, FieldChanges,
};
use crate::field::Field;
use crate::operation::constraint::Constraint;
use crate::operation::index::Index;

verus! {

/// The SQLite renderer.
#[derive(Debug, Clone, Copy)]
pub struct Postgres;

impl Default for Postgres {
    fn default() -> (r: Self)
        ensures
            r == Postgres,
    {
        Postgres
    }
}

impl Backend for Postgres {
    open spec fn spec_dialect(&self) -> Dialect {
        Dialect::Postgres
    }

    fn dialect(&self) -> Dialect {
        Dialect::Postgres
    }

    fn name(&self) -> &'static str {
        "postgres"
    }

    fn supports_if_not_exists(&self) -> bool {
        true
    }

    fn supports_alter_column(&self) -> bool {
        true
    }

    fn supports_drop_column(&self) -> bool {
        true
    }

    fn supports_transactional_ddl(&self) -> bool {
        true
    }

    fn create_table_sql(&self, name: &str, fields: &[Field]) -> Vec<String> {
        one_statement(render::postgres_create_table_sql(name, fields))
    }

    fn drop_table_sql(&self, name: &str) -> String {
        render::postgres_drop_table_sql(name)
    }

    fn rename_table_sql(&self, old_name: &str, new_name: &str) -> String {
        render::postgres_rename_table_sql(old_name, new_name)
    }

    fn add_field_sql(&self, table: &str, field: &Field) -> Vec<String> {
        one_statement(render::postgres_add_column_sql(table, field))
    }

    fn drop_field_sql(&self, table: &str, field_name: &str) -> Vec<String> {
        one_statement(render::postgres_drop_column_sql(table, field_name))
    }

    fn rename_field_sql(&self, table: &str, old_name: &str, new_name: &str) -> Vec<String> {
        one_statement(render::postgres_rename_column_sql(table, old_name, new_name))
    }

    fn alter_field_sql(&self, table: &str, field_name: &str, changes: &FieldChanges) -> Vec<
        String,
    > {
        one_statement(render::postgres_modify_column_sql(table, field_name, changes))
    }

    fn add_index_sql(&self, table: &str, index: &Index) -> String {
        render::postgres_create_index_sql(table, index)
    }

    fn drop_index_sql(&self, table: &str, index_name: &str) -> String {
        render::postgres_drop_index_sql(table, index_name)
    }

    fn add_constraint_sql(&self, table: &str, constraint: &Constraint) -> String {
        add_constraint_sql_for(Dialect::Postgres, table, constraint)
    }

    fn drop_constraint_sql(&self, table: &str, constraint_name: &str) -> String {
        drop_constraint_sql_for(Dialect::Postgres, table, constraint_name)
    }

    fn quote_identifier(&self, name: &str) -> String {
        quote_identifier_for(Dialect::Postgres, name)
    }
}

} // verus!
