//! The trusted boundary to `sea_query`: statement construction and
//! dialect-specific rendering. Each rendering function's result is a pure
//! function of its arguments, named by an uninterpreted spec function; the
//! migration logic is verified against those names.

use vstd::prelude::*;

use crate::backend::FieldChanges;
use crate::field::{Field, FieldType, ForeignKey, ReferentialAction};
use crate::operation::index::{Index, IndexOrder};

use sea_query::ConditionalStatement;
use sea_query::{Alias, ColumnDef, Expr, ForeignKeyAction, ForeignKeyCreateStatement, IndexCreateStatement, Table, TableCreateStatement};
use sea_query::{ForeignKey as SeaForeignKey, Index as SeaIndex, IndexOrder as SeaIndexOrder};
use sea_query::{MysqlQueryBuilder, PostgresQueryBuilder, SqliteQueryBuilder};

verus! {

#[verifier::external_type_specification]
#[verifier::external_body]
pub struct ExTableCreateStatement(TableCreateStatement);

#[verifier::external_type_specification]
#[verifier::external_body]
pub struct ExColumnDef(ColumnDef);

#[verifier::external_type_specification]
#[verifier::external_body]
pub struct ExForeignKeyAction(ForeignKeyAction);

#[verifier::external_type_specification]
#[verifier::external_body]
pub struct ExIndexCreateStatement(IndexCreateStatement);

#[verifier::external_type_specification]
#[verifier::external_body]
pub struct ExForeignKeyCreateStatement(ForeignKeyCreateStatement);

/// Relies on sea_query's `ColumnDef` type-setting methods: maps each of
/// this library's numeric and text column types to the corresponding
/// sea_query column type, one arm per variant; the remaining variants are
/// mapped by `apply_other_column_type`.
#[verifier::external_body]
fn apply_column_type(col: &mut ColumnDef, field_type: &FieldType) {
    match field_type {
        FieldType::Serial | FieldType::Integer => col.integer(),
        FieldType::BigSerial | FieldType::BigInt => col.big_integer(),
        FieldType::SmallInt => col.small_integer(),
        FieldType::Text => col.text(),
        FieldType::VarChar(len) => col.string_len(*len as u32),
        FieldType::Boolean => col.boolean(),
        FieldType::Decimal { precision, scale } => col.decimal_len(*precision as u32, *scale as u32),
        other => { apply_other_column_type(col, other); col },
    };
}

/// Relies on sea_query's `ColumnDef` type-setting methods: maps the
/// temporal, binary, floating-point and document column types, one arm per
/// variant.
#[verifier::external_body]
fn apply_other_column_type(col: &mut ColumnDef, field_type: &FieldType) {
    match field_type {
        FieldType::Timestamp => col.timestamp(),
        FieldType::TimestampTz => col.timestamp_with_time_zone(),
        FieldType::Date => col.date(),
        FieldType::Time => col.time(),
        FieldType::Uuid => col.uuid(),
        FieldType::Json => col.json(),
        FieldType::JsonB => col.json_binary(),
        FieldType::Binary => col.binary(),
        FieldType::Real => col.float(),
        _ => col.double(),
    };
}

/// Relies on sea_query's `ColumnDef` builder: turns a field description into
/// a column definition, option for option.
#[verifier::external_body]
fn field_to_column_def(field: &Field) -> ColumnDef {
    let mut col = ColumnDef::new(Alias::new(field.name.as_str()));
    apply_column_type(&mut col, &field.field_type);
    let auto = matches!(field.field_type, FieldType::Serial | FieldType::BigSerial);
    if field.primary_key { col.primary_key(); }
    if field.primary_key && auto { col.auto_increment(); }
    if !field.nullable && !field.primary_key { col.not_null(); }
    if field.unique && !field.primary_key { col.unique_key(); }
    if let Some(ref default) = field.default { col.default(Expr::cust(default.clone())); }
    col
}

/// Relies on sea_query's `ForeignKeyAction`: maps each referential action to
/// its sea_query counterpart, one arm per variant.
#[verifier::external_body]
fn referential_action_to_sea(action: &ReferentialAction) -> ForeignKeyAction {
    match action {
        ReferentialAction::NoAction => ForeignKeyAction::NoAction,
        ReferentialAction::Restrict => ForeignKeyAction::Restrict,
        ReferentialAction::Cascade => ForeignKeyAction::Cascade,
        ReferentialAction::SetNull => ForeignKeyAction::SetNull,
        ReferentialAction::SetDefault => ForeignKeyAction::SetDefault,
    }
}

/// Relies on sea_query's `ForeignKey::create` builder: turns one field's
/// foreign-key description into a foreign-key clause, field for field.
#[verifier::external_body]
fn fk_create(from_column: &str, fk: &ForeignKey) -> ForeignKeyCreateStatement {
    let mut clause = SeaForeignKey::create();
    clause.from_col(Alias::new(from_column))
        .to_tbl(Alias::new(fk.table.as_str()))
        .to_col(Alias::new(fk.column.as_str()))
        .on_delete(referential_action_to_sea(&fk.on_delete))
        .on_update(referential_action_to_sea(&fk.on_update));
    clause
}

/// Relies on sea_query's `Table::create` builder: assembles a CREATE TABLE
/// statement from the table name, one column per field, and one foreign key
/// per field that references another table.
#[verifier::external_body]
fn create_table_stmt(name: &str, fields: &[Field]) -> TableCreateStatement {
    let mut stmt = Table::create();
    stmt.table(Alias::new(name));
    for field in fields.iter() { stmt.col(field_to_column_def(field)); }
    for field in fields.iter() {
        if let Some(ref fk) = field.references {
            stmt.foreign_key(&mut fk_create(field.name.as_str(), fk));
        }
    }
    stmt
}

/// Relies on sea_query's `ColumnDef` builder: assembles a column definition
/// from a set of requested changes, option for option.
#[verifier::external_body]
fn changes_column_def(name: &str, changes: &FieldChanges) -> ColumnDef {
    let mut col = ColumnDef::new(Alias::new(name));
    if let Some(ref field_type) = changes.field_type { apply_column_type(&mut col, field_type); }
    if let Some(nullable) = changes.nullable {
        if nullable { col.null(); } else { col.not_null(); }
    }
    if let Some(Some(ref default)) = changes.default { col.default(Expr::cust(default.clone())); }
    col
}

/// Relies on sea_query's `Index::create` builder: assembles a CREATE INDEX
/// statement from the index description, column for column, with its
/// uniqueness flag and the condition of a partial index.
#[verifier::external_body]
fn index_create_stmt(table: &str, index: &Index) -> IndexCreateStatement {
    let mut stmt = SeaIndex::create();
    stmt.name(index.name.as_str()).table(Alias::new(table));
    if index.unique { stmt.unique(); }
    for column in index.columns.iter() {
        match column.1 {
            IndexOrder::Asc => stmt.col(Alias::new(column.0.as_str())),
            IndexOrder::Desc => stmt.col((Alias::new(column.0.as_str()), SeaIndexOrder::Desc)),
        };
    }
    if let Some(ref cond) = index.where_clause { stmt.and_where(Expr::cust(cond.clone())); }
    stmt
}

pub uninterp spec fn sqlite_create_table_render(name: Seq<char>, fields: Seq<Field>) -> Seq<char>;

pub uninterp spec fn postgres_create_table_render(name: Seq<char>, fields: Seq<Field>) -> Seq<char>;

pub uninterp spec fn mysql_create_table_render(name: Seq<char>, fields: Seq<Field>) -> Seq<char>;

/// Relies on sea_query's SQLite builder: the rendered CREATE TABLE statement
/// depends only on the table name and the field descriptions.
#[verifier::external_body]
pub(crate) fn sqlite_create_table_sql(name: &str, fields: &[Field]) -> (r: String)
    ensures
        r@ == sqlite_create_table_render(name@, fields@),
{
    create_table_stmt(name, fields).to_string(SqliteQueryBuilder)
}

/// Relies on sea_query's Postgres builder: the rendered CREATE TABLE
/// statement depends only on the table name and the field descriptions.
#[verifier::external_body]
pub(crate) fn postgres_create_table_sql(name: &str, fields: &[Field]) -> (r: String)
    ensures
        r@ == postgres_create_table_render(name@, fields@),
{
    create_table_stmt(name, fields).to_string(PostgresQueryBuilder)
}

/// Relies on sea_query's MySQL builder: the rendered CREATE TABLE statement
/// depends only on the table name and the field descriptions.
#[verifier::external_body]
pub(crate) fn mysql_create_table_sql(name: &str, fields: &[Field]) -> (r: String)
    ensures
        r@ == mysql_create_table_render(name@, fields@),
{
    create_table_stmt(name, fields).to_string(MysqlQueryBuilder)
}

pub uninterp spec fn sqlite_drop_table_render(name: Seq<char>) -> Seq<char>;

pub uninterp spec fn postgres_drop_table_render(name: Seq<char>) -> Seq<char>;

pub uninterp spec fn mysql_drop_table_render(name: Seq<char>) -> Seq<char>;

/// Relies on sea_query's `Table::drop` and the SQLite builder: the rendered
/// DROP TABLE statement depends only on the table name.
#[verifier::external_body]
pub(crate) fn sqlite_drop_table_sql(name: &str) -> (r: String)
    ensures
        r@ == sqlite_drop_table_render(name@),
{
    Table::drop().table(Alias::new(name)).to_string(SqliteQueryBuilder)
}

/// Relies on sea_query's `Table::drop` and the Postgres builder: the
/// rendered DROP TABLE statement depends only on the table name.
#[verifier::external_body]
pub(crate) fn postgres_drop_table_sql(name: &str) -> (r: String)
    ensures
        r@ == postgres_drop_table_render(name@),
{
    Table::drop().table(Alias::new(name)).to_string(PostgresQueryBuilder)
}

/// Relies on sea_query's `Table::drop` and the MySQL builder: the rendered
/// DROP TABLE statement depends only on the table name.
#[verifier::external_body]
pub(crate) fn mysql_drop_table_sql(name: &str) -> (r: String)
    ensures
        r@ == mysql_drop_table_render(name@),
{
    Table::drop().table(Alias::new(name)).to_string(MysqlQueryBuilder)
}

pub uninterp spec fn sqlite_rename_table_render(old_name: Seq<char>, new_name: Seq<char>) -> Seq<
    char,
>;

pub uninterp spec fn postgres_rename_table_render(old_name: Seq<char>, new_name: Seq<char>) -> Seq<
    char,
>;

pub uninterp spec fn mysql_rename_table_render(old_name: Seq<char>, new_name: Seq<char>) -> Seq<
    char,
>;

/// Relies on sea_query's `Table::rename` and the SQLite builder: the
/// rendered statement depends only on the two table names.
#[verifier::external_body]
pub(crate) fn sqlite_rename_table_sql(old_name: &str, new_name: &str) -> (r: String)
    ensures
        r@ == sqlite_rename_table_render(old_name@, new_name@),
{
    Table::rename().table(Alias::new(old_name), Alias::new(new_name)).to_string(SqliteQueryBuilder)
}

/// Relies on sea_query's `Table::rename` and the Postgres builder: the
/// rendered statement depends only on the two table names.
#[verifier::external_body]
pub(crate) fn postgres_rename_table_sql(old_name: &str, new_name: &str) -> (r: String)
    ensures
        r@ == postgres_rename_table_render(old_name@, new_name@),
{
    Table::rename().table(Alias::new(old_name), Alias::new(new_name)).to_string(
        PostgresQueryBuilder,
    )
}

/// Relies on sea_query's `Table::rename` and the MySQL builder: the rendered
/// statement depends only on the two table names.
#[verifier::external_body]
pub(crate) fn mysql_rename_table_sql(old_name: &str, new_name: &str) -> (r: String)
    ensures
        r@ == mysql_rename_table_render(old_name@, new_name@),
{
    Table::rename().table(Alias::new(old_name), Alias::new(new_name)).to_string(MysqlQueryBuilder)
}

pub uninterp spec fn sqlite_add_column_render(table: Seq<char>, field: Field) -> Seq<char>;

pub uninterp spec fn postgres_add_column_render(table: Seq<char>, field: Field) -> Seq<char>;

pub uninterp spec fn mysql_add_column_render(table: Seq<char>, field: Field) -> Seq<char>;

/// Relies on sea_query's `Table::alter` and the SQLite builder: the rendered
/// ADD COLUMN statement depends only on the table name and the field
/// description.
#[verifier::external_body]
pub(crate) fn sqlite_add_column_sql(table: &str, field: &Field) -> (r: String)
    ensures
        r@ == sqlite_add_column_render(table@, *field),
{
    Table::alter().table(Alias::new(table)).add_column(field_to_column_def(field)).to_string(
        SqliteQueryBuilder,
    )
}

/// Relies on sea_query's `Table::alter` and the Postgres builder: the
/// rendered ADD COLUMN statement depends only on the table name and the
/// field description.
#[verifier::external_body]
pub(crate) fn postgres_add_column_sql(table: &str, field: &Field) -> (r: String)
    ensures
        r@ == postgres_add_column_render(table@, *field),
{
    Table::alter().table(Alias::new(table)).add_column(field_to_column_def(field)).to_string(
        PostgresQueryBuilder,
    )
}

/// Relies on sea_query's `Table::alter` and the MySQL builder: the rendered
/// ADD COLUMN statement depends only on the table name and the field
/// description.
#[verifier::external_body]
pub(crate) fn mysql_add_column_sql(table: &str, field: &Field) -> (r: String)
    ensures
        r@ == mysql_add_column_render(table@, *field),
{
    Table::alter().table(Alias::new(table)).add_column(field_to_column_def(field)).to_string(
        MysqlQueryBuilder,
    )
}

pub uninterp spec fn sqlite_drop_column_render(table: Seq<char>, column: Seq<char>) -> Seq<char>;

pub uninterp spec fn postgres_drop_column_render(table: Seq<char>, column: Seq<char>) -> Seq<char>;

pub uninterp spec fn mysql_drop_column_render(table: Seq<char>, column: Seq<char>) -> Seq<char>;

/// Relies on sea_query's `Table::alter` and the SQLite builder: the rendered
/// DROP COLUMN statement depends only on the table and column names.
#[verifier::external_body]
pub(crate) fn sqlite_drop_column_sql(table: &str, column: &str) -> (r: String)
    ensures
        r@ == sqlite_drop_column_render(table@, column@),
{
    Table::alter().table(Alias::new(table)).drop_column(Alias::new(column)).to_string(
        SqliteQueryBuilder,
    )
}

/// Relies on sea_query's `Table::alter` and the Postgres builder: the
/// rendered DROP COLUMN statement depends only on the table and column
/// names.
#[verifier::external_body]
pub(crate) fn postgres_drop_column_sql(table: &str, column: &str) -> (r: String)
    ensures
        r@ == postgres_drop_column_render(table@, column@),
{
    Table::alter().table(Alias::new(table)).drop_column(Alias::new(column)).to_string(
        PostgresQueryBuilder,
    )
}

/// Relies on sea_query's `Table::alter` and the MySQL builder: the rendered
/// DROP COLUMN statement depends only on the table and column names.
#[verifier::external_body]
pub(crate) fn mysql_drop_column_sql(table: &str, column: &str) -> (r: String)
    ensures
        r@ == mysql_drop_column_render(table@, column@),
{
    Table::alter().table(Alias::new(table)).drop_column(Alias::new(column)).to_string(
        MysqlQueryBuilder,
    )
}

pub uninterp spec fn sqlite_rename_column_render(
    table: Seq<char>,
    old_name: Seq<char>,
    new_name: Seq<char>,
) -> Seq<char>;

pub uninterp spec fn postgres_rename_column_render(
    table: Seq<char>,
    old_name: Seq<char>,
    new_name: Seq<char>,
) -> Seq<char>;

pub uninterp spec fn mysql_rename_column_render(
    table: Seq<char>,
    old_name: Seq<char>,
    new_name: Seq<char>,
) -> Seq<char>;

/// Relies on sea_query's `Table::alter` and the SQLite builder: the rendered
/// RENAME COLUMN statement depends only on the three names.
#[verifier::external_body]
pub(crate) fn sqlite_rename_column_sql(table: &str, old_name: &str, new_name: &str) -> (r: String)
    ensures
        r@ == sqlite_rename_column_render(table@, old_name@, new_name@),
{
    Table::alter().table(Alias::new(table)).rename_column(
        Alias::new(old_name),
        Alias::new(new_name),
    ).to_string(SqliteQueryBuilder)
}

/// Relies on sea_query's `Table::alter` and the Postgres builder: the
/// rendered RENAME COLUMN statement depends only on the three names.
#[verifier::external_body]
pub(crate) fn postgres_rename_column_sql(table: &str, old_name: &str, new_name: &str) -> (r: String)
    ensures
        r@ == postgres_rename_column_render(table@, old_name@, new_name@),
{
    Table::alter().table(Alias::new(table)).rename_column(
        Alias::new(old_name),
        Alias::new(new_name),
    ).to_string(PostgresQueryBuilder)
}

/// Relies on sea_query's `Table::alter` and the MySQL builder: the rendered
/// RENAME COLUMN statement depends only on the three names.
#[verifier::external_body]
pub(crate) fn mysql_rename_column_sql(table: &str, old_name: &str, new_name: &str) -> (r: String)
    ensures
        r@ == mysql_rename_column_render(table@, old_name@, new_name@),
{
    Table::alter().table(Alias::new(table)).rename_column(
        Alias::new(old_name),
        Alias::new(new_name),
    ).to_string(MysqlQueryBuilder)
}

pub uninterp spec fn postgres_modify_column_render(
    table: Seq<char>,
    column: Seq<char>,
    changes: FieldChanges,
) -> Seq<char>;

pub uninterp spec fn mysql_modify_column_render(
    table: Seq<char>,
    column: Seq<char>,
    changes: FieldChanges,
) -> Seq<char>;

/// Relies on sea_query's `Table::alter` and the Postgres builder: the
/// rendered column-change statement depends only on the names and the
/// requested changes.
#[verifier::external_body]
pub(crate) fn postgres_modify_column_sql(table: &str, column: &str, changes: &FieldChanges) -> (r:
    String)
    ensures
        r@ == postgres_modify_column_render(table@, column@, *changes),
{
    Table::alter().table(Alias::new(table)).modify_column(changes_column_def(column, changes))
        .to_string(PostgresQueryBuilder)
}

/// Relies on sea_query's `Table::alter` and the MySQL builder: the rendered
/// column-change statement depends only on the names and the requested
/// changes.
#[verifier::external_body]
pub(crate) fn mysql_modify_column_sql(table: &str, column: &str, changes: &FieldChanges) -> (r:
    String)
    ensures
        r@ == mysql_modify_column_render(table@, column@, *changes),
{
    Table::alter().table(Alias::new(table)).modify_column(changes_column_def(column, changes))
        .to_string(MysqlQueryBuilder)
}

pub uninterp spec fn sqlite_create_index_render(
    table: Seq<char>,
    name: Seq<char>,
    columns: Seq<(Seq<char>, IndexOrder)>,
    unique: bool,
    condition: Option<Seq<char>>,
) -> Seq<char>;

pub uninterp spec fn postgres_create_index_render(
    table: Seq<char>,
    name: Seq<char>,
    columns: Seq<(Seq<char>, IndexOrder)>,
    unique: bool,
    condition: Option<Seq<char>>,
) -> Seq<char>;

pub uninterp spec fn mysql_create_index_render(
    table: Seq<char>,
    name: Seq<char>,
    columns: Seq<(Seq<char>, IndexOrder)>,
    unique: bool,
    condition: Option<Seq<char>>,
) -> Seq<char>;

/// Relies on sea_query's `Index::create` and the SQLite builder: the
/// rendered CREATE INDEX statement depends only on the table name and the
/// index description.
#[verifier::external_body]
pub(crate) fn sqlite_create_index_sql(table: &str, index: &Index) -> (r: String)
    ensures
        r@ == sqlite_create_index_render(
            table@,
            index.name@,
            crate::operation::index::index_columns_view(index.columns@),
            index.unique,
            crate::operation::index::index_condition_view(index.where_clause),
        ),
{
    index_create_stmt(table, index).to_string(SqliteQueryBuilder)
}

/// Relies on sea_query's `Index::create` and the Postgres builder: the
/// rendered CREATE INDEX statement depends only on the table name and the
/// index description.
#[verifier::external_body]
pub(crate) fn postgres_create_index_sql(table: &str, index: &Index) -> (r: String)
    ensures
        r@ == postgres_create_index_render(
            table@,
            index.name@,
            crate::operation::index::index_columns_view(index.columns@),
            index.unique,
            crate::operation::index::index_condition_view(index.where_clause),
        ),
{
    index_create_stmt(table, index).to_string(PostgresQueryBuilder)
}

/// Relies on sea_query's `Index::create` and the MySQL builder: the rendered
/// CREATE INDEX statement depends only on the table name and the index
/// description.
#[verifier::external_body]
pub(crate) fn mysql_create_index_sql(table: &str, index: &Index) -> (r: String)
    ensures
        r@ == mysql_create_index_render(
            table@,
            index.name@,
            crate::operation::index::index_columns_view(index.columns@),
            index.unique,
            crate::operation::index::index_condition_view(index.where_clause),
        ),
{
    index_create_stmt(table, index).to_string(MysqlQueryBuilder)
}

pub uninterp spec fn sqlite_drop_index_render(table: Seq<char>, name: Seq<char>) -> Seq<char>;

pub uninterp spec fn postgres_drop_index_render(table: Seq<char>, name: Seq<char>) -> Seq<char>;

pub uninterp spec fn mysql_drop_index_render(table: Seq<char>, name: Seq<char>) -> Seq<char>;

/// Relies on sea_query's `Index::drop` and the SQLite builder: the rendered
/// DROP INDEX statement depends only on the table and index names.
#[verifier::external_body]
pub(crate) fn sqlite_drop_index_sql(table: &str, name: &str) -> (r: String)
    ensures
        r@ == sqlite_drop_index_render(table@, name@),
{
    SeaIndex::drop().name(name).table(Alias::new(table)).to_string(SqliteQueryBuilder)
}

/// Relies on sea_query's `Index::drop` and the Postgres builder: the
/// rendered DROP INDEX statement depends only on the table and index names.
#[verifier::external_body]
pub(crate) fn postgres_drop_index_sql(table: &str, name: &str) -> (r: String)
    ensures
        r@ == postgres_drop_index_render(table@, name@),
{
    SeaIndex::drop().name(name).table(Alias::new(table)).to_string(PostgresQueryBuilder)
}

/// Relies on sea_query's `Index::drop` and the MySQL builder: the rendered
/// DROP INDEX statement depends only on the table and index names.
#[verifier::external_body]
pub(crate) fn mysql_drop_index_sql(table: &str, name: &str) -> (r: String)
    ensures
        r@ == mysql_drop_index_render(table@, name@),
{
    SeaIndex::drop().name(name).table(Alias::new(table)).to_string(MysqlQueryBuilder)
}

} // verus!
