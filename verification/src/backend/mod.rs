mod mysql;
mod postgres;
pub(crate) mod render;
mod sqlite;

pub use mysql::MySql;
pub use postgres::Postgres;
pub use sqlite::Sqlite;

use vstd::prelude::*;
use vstd::string::*;

use crate::field::{ref_action_sql, Field, FieldType};
use crate::operation::constraint::{constraint_name_view, Constraint};
use crate::operation::index::{index_columns_view, index_condition_view, Index, IndexOrder};
use crate::strutil::{double_char, escape_doubled, joined, lemma_joined_snoc};

use render::{
    mysql_create_index_render, mysql_create_table_render, mysql_drop_column_render,
    mysql_drop_index_render, mysql_drop_table_render, mysql_modify_column_render,
    mysql_add_column_render, mysql_rename_column_render, mysql_rename_table_render,
    postgres_add_column_render, postgres_create_index_render, postgres_create_table_render,
    postgres_drop_column_render, postgres_drop_index_render, postgres_drop_table_render,
    postgres_modify_column_render, postgres_rename_column_render, postgres_rename_table_render,
    sqlite_add_column_render, sqlite_create_index_render, sqlite_create_index_sql,
    sqlite_create_table_render, sqlite_drop_column_render, sqlite_drop_index_render,
    sqlite_drop_table_render, sqlite_rename_column_render,
    sqlite_rename_table_render, mysql_create_index_sql, postgres_create_index_sql,
};

verus! {

/// The SQL dialect a backend renders.
#[derive(Debug, Clone, Copy, PartialEq, Eq, Structural)]
pub enum Dialect {
    Sqlite,
    Postgres,
    MySql,
}

/// The name under which a backend identifies itself, used to match the
/// backend restrictions of raw-SQL operations.
pub open spec fn dialect_name(d: Dialect) -> Seq<char> {
    match d {
        Dialect::Sqlite => "sqlite"@,
        Dialect::Postgres => "postgres"@,
        Dialect::MySql => "mysql"@,
    }
}

pub open spec fn spec_supports_if_not_exists(d: Dialect) -> bool {
    true
}

/// SQLite cannot change a column in place.
pub open spec fn spec_supports_alter_column(d: Dialect) -> bool {
    d != Dialect::Sqlite
}

pub open spec fn spec_supports_drop_column(d: Dialect) -> bool {
    true
}

/// MySQL issues implicit commits for DDL statements, so wrapping schema
/// changes in a transaction has no effect there.
pub open spec fn spec_supports_transactional_ddl(d: Dialect) -> bool {
    d != Dialect::MySql
}


/// `name` quoted as an identifier: wrapped in the dialect's quote character,
/// with embedded quote characters doubled.
pub open spec fn quoted_ident(d: Dialect, name: Seq<char>) -> Seq<char> {
    match d {
        Dialect::MySql => "`"@ + escape_doubled(name, '`') + "`"@,
        _ => "\""@ + escape_doubled(name, '"') + "\""@,
    }
}

pub open spec fn create_table_render(d: Dialect, name: Seq<char>, fields: Seq<Field>) -> Seq<
    char,
> {
    match d {
        Dialect::Sqlite => sqlite_create_table_render(name, fields),
        Dialect::Postgres => postgres_create_table_render(name, fields),
        Dialect::MySql => mysql_create_table_render(name, fields),
    }
}

pub open spec fn drop_table_render(d: Dialect, name: Seq<char>) -> Seq<char> {
    match d {
        Dialect::Sqlite => sqlite_drop_table_render(name),
        Dialect::Postgres => postgres_drop_table_render(name),
        Dialect::MySql => mysql_drop_table_render(name),
    }
}

pub open spec fn rename_table_render(d: Dialect, old_name: Seq<char>, new_name: Seq<char>) -> Seq<
    char,
> {
    match d {
        Dialect::Sqlite => sqlite_rename_table_render(old_name, new_name),
        Dialect::Postgres => postgres_rename_table_render(old_name, new_name),
        Dialect::MySql => mysql_rename_table_render(old_name, new_name),
    }
}

pub open spec fn add_column_render(d: Dialect, table: Seq<char>, field: Field) -> Seq<char> {
    match d {
        Dialect::Sqlite => sqlite_add_column_render(table, field),
        Dialect::Postgres => postgres_add_column_render(table, field),
        Dialect::MySql => mysql_add_column_render(table, field),
    }
}

pub open spec fn drop_column_render(d: Dialect, table: Seq<char>, column: Seq<char>) -> Seq<char> {
    match d {
        Dialect::Sqlite => sqlite_drop_column_render(table, column),
        Dialect::Postgres => postgres_drop_column_render(table, column),
        Dialect::MySql => mysql_drop_column_render(table, column),
    }
}

pub open spec fn rename_column_render(
    d: Dialect,
    table: Seq<char>,
    old_name: Seq<char>,
    new_name: Seq<char>,
) -> Seq<char> {
    match d {
        Dialect::Sqlite => sqlite_rename_column_render(table, old_name, new_name),
        Dialect::Postgres => postgres_rename_column_render(table, old_name, new_name),
        Dialect::MySql => mysql_rename_column_render(table, old_name, new_name),
    }
}

/// The rendered column-change statement. No statement is defined for
/// SQLite, which cannot change a column in place
/// (`spec_supports_alter_column`); every path that would render one
/// requires a dialect that supports it.
pub open spec fn modify_column_render(
    d: Dialect,
    table: Seq<char>,
    column: Seq<char>,
    changes: FieldChanges,
) -> Seq<char> {
    match d {
        Dialect::Sqlite => Seq::empty(),
        Dialect::Postgres => postgres_modify_column_render(table, column, changes),
        Dialect::MySql => mysql_modify_column_render(table, column, changes),
    }
}

pub open spec fn create_index_render(
    d: Dialect,
    table: Seq<char>,
    name: Seq<char>,
    columns: Seq<(Seq<char>, IndexOrder)>,
    unique: bool,
    condition: Option<Seq<char>>,
) -> Seq<char> {
    match d {
        Dialect::Sqlite => sqlite_create_index_render(table, name, columns, unique, condition),
        Dialect::Postgres => postgres_create_index_render(table, name, columns, unique, condition),
        Dialect::MySql => mysql_create_index_render(table, name, columns, unique, condition),
    }
}

pub open spec fn drop_index_render(d: Dialect, table: Seq<char>, name: Seq<char>) -> Seq<char> {
    match d {
        Dialect::Sqlite => sqlite_drop_index_render(table, name),
        Dialect::Postgres => postgres_drop_index_render(table, name),
        Dialect::MySql => mysql_drop_index_render(table, name),
    }
}

/// The statement that drops a named constraint. SQLite has no DROP
/// CONSTRAINT and drops the backing index instead; MySQL drops constraints
/// as indexes on the table.
pub open spec fn drop_constraint_render(d: Dialect, table: Seq<char>, name: Seq<char>) -> Seq<
    char,
> {
    match d {
        Dialect::Sqlite => "DROP INDEX IF EXISTS "@ + quoted_ident(d, name),
        Dialect::Postgres => "ALTER TABLE "@ + quoted_ident(d, table) + " DROP CONSTRAINT "@
            + quoted_ident(d, name),
        Dialect::MySql => "ALTER TABLE "@ + quoted_ident(d, table) + " DROP INDEX "@
            + quoted_ident(d, name),
    }
}

/// Each column quoted, joined by a comma and a space.
pub open spec fn quoted_join(d: Dialect, columns: Seq<Seq<char>>) -> Seq<char> {
    joined(columns.map_values(|c: Seq<char>| quoted_ident(d, c)), ", "@)
}

/// Index columns for a UNIQUE constraint: the given columns, each ascending.
pub open spec fn all_asc(columns: Seq<Seq<char>>) -> Seq<(Seq<char>, IndexOrder)> {
    columns.map_values(|c: Seq<char>| (c, IndexOrder::Asc))
}

/// The statement that adds a constraint. A UNIQUE constraint becomes a
/// unique index; CHECK and FOREIGN KEY fall back to literal ALTER TABLE
/// text, since the structured builder cannot express those forms.
pub open spec fn constraint_render(d: Dialect, table: Seq<char>, c: Constraint) -> Seq<char> {
    match c {
        Constraint::Unique { name, columns } => create_index_render(
            d,
            table,
            name@,
            all_asc(columns.deep_view()),
            true,
            None,
        ),
        Constraint::Check { name, expression } => "ALTER TABLE "@ + quoted_ident(d, table)
            + " ADD CONSTRAINT "@ + quoted_ident(d, name@) + " CHECK ("@ + expression@ + ")"@,
        Constraint::ForeignKey { name, columns, ref_table, ref_columns, on_delete, on_update } =>
            "ALTER TABLE "@ + quoted_ident(d, table) + " ADD CONSTRAINT "@ + quoted_ident(d, name@)
            + " FOREIGN KEY ("@ + quoted_join(d, columns.deep_view()) + ") REFERENCES "@
            + quoted_ident(d, ref_table@) + " ("@ + quoted_join(d, ref_columns.deep_view()) + ")"@
            + " ON DELETE "@ + ref_action_sql(on_delete) + " ON UPDATE "@ + ref_action_sql(
            on_update,
        ),
    }
}

/// A renderer of schema changes for one SQL dialect, together with its
/// capability flags.
pub trait Backend: Sized {
    spec fn spec_dialect(&self) -> Dialect;

    fn dialect(&self) -> (d: Dialect)
        ensures
            d == self.spec_dialect(),
    ;

    fn name(&self) -> (r: &'static str)
        ensures
            r@ == dialect_name(self.spec_dialect()),
    ;

    fn supports_if_not_exists(&self) -> (r: bool)
        ensures
            r == spec_supports_if_not_exists(self.spec_dialect()),
    ;

    fn supports_alter_column(&self) -> (r: bool)
        ensures
            r == spec_supports_alter_column(self.spec_dialect()),
    ;

    fn supports_drop_column(&self) -> (r: bool)
        ensures
            r == spec_supports_drop_column(self.spec_dialect()),
    ;

    fn supports_transactional_ddl(&self) -> (r: bool)
        ensures
            r == spec_supports_transactional_ddl(self.spec_dialect()),
    ;

    fn create_table_sql(&self, name: &str, fields: &[Field]) -> (r: Vec<String>)
        ensures
            r.deep_view() == seq![create_table_render(self.spec_dialect(), name@, fields@)],
    ;

    fn drop_table_sql(&self, name: &str) -> (r: String)
        ensures
            r@ == drop_table_render(self.spec_dialect(), name@),
    ;

    fn rename_table_sql(&self, old_name: &str, new_name: &str) -> (r: String)
        ensures
            r@ == rename_table_render(self.spec_dialect(), old_name@, new_name@),
    ;

    fn add_field_sql(&self, table: &str, field: &Field) -> (r: Vec<String>)
        ensures
            r.deep_view() == seq![add_column_render(self.spec_dialect(), table@, *field)],
    ;

    fn drop_field_sql(&self, table: &str, field_name: &str) -> (r: Vec<String>)
        ensures
            r.deep_view() == seq![drop_column_render(self.spec_dialect(), table@, field_name@)],
    ;

    fn rename_field_sql(&self, table: &str, old_name: &str, new_name: &str) -> (r: Vec<String>)
        ensures
            r.deep_view() == seq![
                rename_column_render(self.spec_dialect(), table@, old_name@, new_name@),
            ],
    ;

    fn alter_field_sql(&self, table: &str, field_name: &str, changes: &FieldChanges) -> (r: Vec<
        String,
    >)
        requires
            spec_supports_alter_column(self.spec_dialect()),
        ensures
            r.deep_view() == seq![
                modify_column_render(self.spec_dialect(), table@, field_name@, *changes),
            ],
    ;

    fn add_index_sql(&self, table: &str, index: &Index) -> (r: String)
        ensures
            r@ == create_index_render(
                self.spec_dialect(),
                table@,
                index.name@,
                index_columns_view(index.columns@),
                index.unique,
                index_condition_view(index.where_clause),
            ),
    ;

    fn drop_index_sql(&self, table: &str, index_name: &str) -> (r: String)
        ensures
            r@ == drop_index_render(self.spec_dialect(), table@, index_name@),
    ;

    fn add_constraint_sql(&self, table: &str, constraint: &Constraint) -> (r: String)
        ensures
            r@ == constraint_render(self.spec_dialect(), table@, *constraint),
    ;

    fn drop_constraint_sql(&self, table: &str, constraint_name: &str) -> (r: String)
        ensures
            r@ == drop_constraint_render(self.spec_dialect(), table@, constraint_name@),
    ;

    fn quote_identifier(&self, name: &str) -> (r: String)
        ensures
            r@ == quoted_ident(self.spec_dialect(), name@),
    ;
}

/// A set of requested changes to one column: each `Some` part is changed,
/// each `None` part left alone.
#[derive(Debug, Clone)]
pub struct FieldChanges {
    pub field_type: Option<FieldType>,
    pub nullable: Option<bool>,
    pub default: Option<Option<String>>,
}

impl FieldChanges {
    pub fn new() -> (r: Self)
        ensures
            r.field_type is None,
            r.nullable is None,
            r.default is None,
    {
        Self { field_type: None, nullable: None, default: None }
    }

    pub fn set_type(self, field_type: FieldType) -> (r: Self)
        ensures
            r.field_type matches Some(t) && t == field_type,
            r.nullable == self.nullable,
            r.default == self.default,
    {
        Self { field_type: Some(field_type), ..self }
    }

    pub fn set_nullable(self, nullable: bool) -> (r: Self)
        ensures
            r.nullable matches Some(n) && n == nullable,
            r.field_type == self.field_type,
            r.default == self.default,
    {
        Self { nullable: Some(nullable), ..self }
    }

    pub fn set_default(self, default: Option<String>) -> (r: Self)
        ensures
            r.default matches Some(v) && v == default,
            r.field_type == self.field_type,
            r.nullable == self.nullable,
    {
        Self { default: Some(default), ..self }
    }
}

impl Default for FieldChanges {
    fn default() -> (r: Self)
        ensures
            r.field_type is None,
            r.nullable is None,
            r.default is None,
    {
        FieldChanges::new()
    }
}

/// A one-statement list.
pub(crate) fn one_statement(s: String) -> (r: Vec<String>)
    ensures
        r.deep_view() == seq![s@],
{
    let ghost v = s@;
    let mut r: Vec<String> = Vec::new();
    r.push(s);
    proof {
        assert(r.deep_view() =~= seq![v]);
    }
    r
}

/// `name` quoted for the dialect: wrapped in its quote character, embedded
/// quote characters doubled.
pub fn quote_identifier_for(d: Dialect, name: &str) -> (r: String)
    ensures
        r@ == quoted_ident(d, name@),
{
    match d {
        Dialect::MySql => {
            let mut out = String::from_str("`");
            out.append(double_char(name, '`').as_str());
            out.append("`");
            out
        },
        _ => {
            let mut out = String::from_str("\"");
            out.append(double_char(name, '"').as_str());
            out.append("\"");
            out
        },
    }
}

/// The statement that drops the named constraint from `table` in dialect
/// `d`.
pub fn drop_constraint_sql_for(d: Dialect, table: &str, constraint_name: &str) -> (r: String)
    ensures
        r@ == drop_constraint_render(d, table@, constraint_name@),
{
    match d {
        Dialect::Sqlite => {
            let mut out = String::from_str("DROP INDEX IF EXISTS ");
            out.append(quote_identifier_for(d, constraint_name).as_str());
            out
        },
        Dialect::Postgres => {
            let mut out = String::from_str("ALTER TABLE ");
            out.append(quote_identifier_for(d, table).as_str());
            out.append(" DROP CONSTRAINT ");
            out.append(quote_identifier_for(d, constraint_name).as_str());
            out
        },
        Dialect::MySql => {
            let mut out = String::from_str("ALTER TABLE ");
            out.append(quote_identifier_for(d, table).as_str());
            out.append(" DROP INDEX ");
            out.append(quote_identifier_for(d, constraint_name).as_str());
            out
        },
    }
}

/// Each column quoted for the dialect, joined by a comma and a space.
fn quoted_join_for(d: Dialect, columns: &Vec<String>) -> (r: String)
    ensures
        r@ == quoted_join(d, columns.deep_view()),
{
    let ghost target = columns.deep_view().map_values(|c: Seq<char>| quoted_ident(d, c));
    let mut out = String::new();
    let mut i: usize = 0;
    while i < columns.len()
        invariant
            0 <= i <= columns.len(),
            target == columns.deep_view().map_values(|c: Seq<char>| quoted_ident(d, c)),
            target.len() == columns.len(),
            out@ == joined(target.take(i as int), ", "@),
        decreases columns.len() - i,
    {
        if i > 0 {
            out.append(", ");
        }
        out.append(quote_identifier_for(d, columns[i].as_str()).as_str());
        proof {
            assert(columns.deep_view()[i as int] == columns[i as int]@);
            assert(target.take(i + 1).drop_last() =~= target.take(i as int));
            lemma_joined_snoc(target.take(i + 1), ", "@);
        }
        i += 1;
    }
    proof {
        assert(target.take(columns.len() as int) =~= target);
    }
    out
}

/// The statement that adds `constraint` to `table` in dialect `d`.
pub fn add_constraint_sql_for(d: Dialect, table: &str, constraint: &Constraint) -> (r: String)
    ensures
        r@ == constraint_render(d, table@, *constraint),
{
    match constraint {
        Constraint::Unique { name, columns } => {
            let mut index_columns: Vec<(String, IndexOrder)> = Vec::new();
            let mut i: usize = 0;
            while i < columns.len()
                invariant
                    0 <= i <= columns.len(),
                    index_columns@.len() == i,
                    forall|j: int|
                        0 <= j < i ==> #[trigger] index_columns@[j] == (
                        columns@[j],
                        IndexOrder::Asc,
                        ),
                decreases columns.len() - i,
            {
                let column_name = columns[i].clone();
                assert(column_name == columns@[i as int]);
                index_columns.push((column_name, IndexOrder::Asc));
                proof {
                    assert(index_columns@.last() == (columns@[i as int], IndexOrder::Asc));
                }
                i += 1;
            }
            proof {
                assert(index_columns_view(index_columns@) =~= all_asc(columns.deep_view()));
            }
            let built = Index {
                name: name.clone(),
                columns: index_columns,
                unique: true,
                where_clause: None,
            };
            let r = match d {
                Dialect::Sqlite => sqlite_create_index_sql(table, &built),
                Dialect::Postgres => postgres_create_index_sql(table, &built),
                Dialect::MySql => mysql_create_index_sql(table, &built),
            };
            r
        },
        Constraint::Check { name, expression } => {
            let mut out = String::from_str("ALTER TABLE ");
            out.append(quote_identifier_for(d, table).as_str());
            out.append(" ADD CONSTRAINT ");
            out.append(quote_identifier_for(d, name.as_str()).as_str());
            out.append(" CHECK (");
            out.append(expression.as_str());
            out.append(")");
            out
        },
        Constraint::ForeignKey { name, columns, ref_table, ref_columns, on_delete, on_update } => {
            let mut out = String::from_str("ALTER TABLE ");
            out.append(quote_identifier_for(d, table).as_str());
            out.append(" ADD CONSTRAINT ");
            out.append(quote_identifier_for(d, name.as_str()).as_str());
            out.append(" FOREIGN KEY (");
            out.append(quoted_join_for(d, columns).as_str());
            out.append(") REFERENCES ");
            out.append(quote_identifier_for(d, ref_table.as_str()).as_str());
            out.append(" (");
            out.append(quoted_join_for(d, ref_columns).as_str());
            out.append(")");
            out.append(" ON DELETE ");
            out.append(on_delete.as_sql());
            out.append(" ON UPDATE ");
            out.append(on_update.as_sql());
            out
        },
    }
}

} // verus!
