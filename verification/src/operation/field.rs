use vstd::prelude::*;
use vstd::string::*;

use crate::backend::{
    add_column_render, drop_column_render, modify_column_render, rename_column_render,
    spec_supports_alter_column, spec_supports_drop_column, Backend, FieldChanges,
};
use crate::field::{Field, FieldType};
use crate::operation::Operation;

verus! {

/// Add a column to a table.
#[derive(Debug, Clone)]
pub struct AddField {
    pub table: String,
    pub field: Field,
}

impl AddField {
    pub fn new(table: &str, field: Field) -> (r: Self)
        ensures
            r.table@ == table@,
            r.field == field,
    {
        Self { table: table.to_owned(), field }
    }

    pub fn forward<B: Backend>(&self, backend: &B) -> (r: Vec<String>)
        ensures
            r.deep_view() == seq![
                add_column_render(backend.spec_dialect(), self.table@, self.field),
            ],
    {
        backend.add_field_sql(self.table.as_str(), &self.field)
    }

    pub fn backward<B: Backend>(&self, backend: &B) -> (r: Option<Vec<String>>)
        ensures
            match r {
                Some(v) => spec_supports_drop_column(backend.spec_dialect()) && v.deep_view()
                    == seq![
                    drop_column_render(backend.spec_dialect(), self.table@, self.field.name@),
                ],
                None => !spec_supports_drop_column(backend.spec_dialect()),
            },
    {
        if backend.supports_drop_column() {
            Some(backend.drop_field_sql(self.table.as_str(), self.field.name.as_str()))
        } else {
            None
        }
    }

    pub fn describe(&self) -> (r: String)
        ensures
            r@ == "Add field "@ + self.field.name@ + " to "@ + self.table@,
    {
        let mut out = String::from_str("Add field ");
        out.append(self.field.name.as_str());
        out.append(" to ");
        out.append(self.table.as_str());
        out
    }

    pub fn is_reversible(&self) -> (r: bool)
        ensures
            r,
    {
        true
    }

    pub fn into_op(self) -> (r: Operation)
        ensures
            r == Operation::AddField(self),
    {
        Operation::AddField(self)
    }
}

/// Drop a column from a table. Reversible only when the column description
/// was attached with `with_definition`.
#[derive(Debug, Clone)]
pub struct RemoveField {
    pub table: String,
    pub field_name: String,
    pub field: Option<Field>,
}

impl RemoveField {
    pub fn new(table: &str, field_name: &str) -> (r: Self)
        ensures
            r.table@ == table@,
            r.field_name@ == field_name@,
            r.field is None,
    {
        Self { table: table.to_owned(), field_name: field_name.to_owned(), field: None }
    }

    pub fn with_definition(self, field: Field) -> (r: Self)
        ensures
            r.field matches Some(f) && f == field,
            r.table == self.table && r.field_name == self.field_name,
    {
        Self { field: Some(field), ..self }
    }

    pub fn forward<B: Backend>(&self, backend: &B) -> (r: Vec<String>)
        ensures
            r.deep_view() == seq![
                drop_column_render(backend.spec_dialect(), self.table@, self.field_name@),
            ],
    {
        backend.drop_field_sql(self.table.as_str(), self.field_name.as_str())
    }

    pub fn backward<B: Backend>(&self, backend: &B) -> (r: Option<Vec<String>>)
        ensures
            match r {
                Some(v) => self.field matches Some(f) && v.deep_view() == seq![
                    add_column_render(backend.spec_dialect(), self.table@, f),
                ],
                None => self.field is None,
            },
    {
        match &self.field {
            Some(f) => Some(backend.add_field_sql(self.table.as_str(), f)),
            None => None,
        }
    }

    pub fn describe(&self) -> (r: String)
        ensures
            r@ == "Remove field "@ + self.field_name@ + " from "@ + self.table@,
    {
        let mut out = String::from_str("Remove field ");
        out.append(self.field_name.as_str());
        out.append(" from ");
        out.append(self.table.as_str());
        out
    }

    pub fn is_reversible(&self) -> (r: bool)
        ensures
            r == (self.field is Some),
    {
        self.field.is_some()
    }

    pub fn into_op(self) -> (r: Operation)
        ensures
            r == Operation::RemoveField(self),
    {
        Operation::RemoveField(self)
    }
}

/// Rename a column.
#[derive(Debug, Clone)]
pub struct RenameField {
    pub table: String,
    pub old_name: String,
    pub new_name: String,
}

impl RenameField {
    pub fn new(table: &str, old_name: &str, new_name: &str) -> (r: Self)
        ensures
            r.table@ == table@,
            r.old_name@ == old_name@,
            r.new_name@ == new_name@,
    {
        Self {
            table: table.to_owned(),
            old_name: old_name.to_owned(),
            new_name: new_name.to_owned(),
        }
    }

    pub fn forward<B: Backend>(&self, backend: &B) -> (r: Vec<String>)
        ensures
            r.deep_view() == seq![
                rename_column_render(
                    backend.spec_dialect(),
                    self.table@,
                    self.old_name@,
                    self.new_name@,
                ),
            ],
    {
        backend.rename_field_sql(self.table.as_str(), self.old_name.as_str(), self.new_name.as_str())
    }

    pub fn backward<B: Backend>(&self, backend: &B) -> (r: Option<Vec<String>>)
        ensures
            r matches Some(v) && v.deep_view() == seq![
                rename_column_render(
                    backend.spec_dialect(),
                    self.table@,
                    self.new_name@,
                    self.old_name@,
                ),
            ],
    {
        Some(
            backend.rename_field_sql(
                self.table.as_str(),
                self.new_name.as_str(),
                self.old_name.as_str(),
            ),
        )
    }

    pub fn describe(&self) -> (r: String)
        ensures
            r@ == "Rename field "@ + self.old_name@ + " to "@ + self.new_name@ + " on "@
                + self.table@,
    {
        let mut out = String::from_str("Rename field ");
        out.append(self.old_name.as_str());
        out.append(" to ");
        out.append(self.new_name.as_str());
        out.append(" on ");
        out.append(self.table.as_str());
        out
    }

    pub fn into_op(self) -> (r: Operation)
        ensures
            r == Operation::RenameField(self),
    {
        Operation::RenameField(self)
    }
}

/// Change a column's type, nullability or default. Reversible only when the
/// changes to undo it were attached with `with_reverse`.
#[derive(Debug, Clone)]
pub struct AlterField {
    pub table: String,
    pub field_name: String,
    pub changes: FieldChanges,
    pub reverse_changes: Option<FieldChanges>,
}

impl AlterField {
    pub fn new(table: &str, field_name: &str) -> (r: Self)
        ensures
            r.table@ == table@,
            r.field_name@ == field_name@,
            r.changes.field_type is None,
            r.changes.nullable is None,
            r.changes.default is None,
            r.reverse_changes is None,
    {
        Self {
            table: table.to_owned(),
            field_name: field_name.to_owned(),
            changes: FieldChanges::new(),
            reverse_changes: None,
        }
    }

    pub fn set_type(self, field_type: FieldType) -> (r: Self)
        ensures
            r.changes.field_type matches Some(t) && t == field_type,
            r.changes.nullable == self.changes.nullable,
            r.changes.default == self.changes.default,
            r.table == self.table && r.field_name == self.field_name,
            r.reverse_changes == self.reverse_changes,
    {
        Self {
            changes: FieldChanges { field_type: Some(field_type), ..self.changes },
            ..self
        }
    }

    pub fn set_nullable(self, nullable: bool) -> (r: Self)
        ensures
            r.changes.nullable matches Some(n) && n == nullable,
            r.changes.field_type == self.changes.field_type,
            r.changes.default == self.changes.default,
            r.table == self.table && r.field_name == self.field_name,
            r.reverse_changes == self.reverse_changes,
    {
        Self {
            changes: FieldChanges { nullable: Some(nullable), ..self.changes },
            ..self
        }
    }

    pub fn set_default(self, default: Option<String>) -> (r: Self)
        ensures
            r.changes.default matches Some(d) && d == default,
            r.changes.field_type == self.changes.field_type,
            r.changes.nullable == self.changes.nullable,
            r.table == self.table && r.field_name == self.field_name,
            r.reverse_changes == self.reverse_changes,
    {
        Self {
            changes: FieldChanges { default: Some(default), ..self.changes },
            ..self
        }
    }

    pub fn with_reverse(self, reverse_changes: FieldChanges) -> (r: Self)
        ensures
            r.reverse_changes matches Some(c) && c == reverse_changes,
            r.table == self.table && r.field_name == self.field_name,
            r.changes == self.changes,
    {
        Self { reverse_changes: Some(reverse_changes), ..self }
    }

    pub fn forward<B: Backend>(&self, backend: &B) -> (r: Vec<String>)
        requires
            spec_supports_alter_column(backend.spec_dialect()),
        ensures
            r.deep_view() == seq![
                modify_column_render(
                    backend.spec_dialect(),
                    self.table@,
                    self.field_name@,
                    self.changes,
                ),
            ],
    {
        backend.alter_field_sql(self.table.as_str(), self.field_name.as_str(), &self.changes)
    }

    pub fn backward<B: Backend>(&self, backend: &B) -> (r: Option<Vec<String>>)
        requires
            self.reverse_changes is Some ==> spec_supports_alter_column(backend.spec_dialect()),
        ensures
            match r {
                Some(v) => self.reverse_changes matches Some(c) && v.deep_view() == seq![
                    modify_column_render(
                        backend.spec_dialect(),
                        self.table@,
                        self.field_name@,
                        c,
                    ),
                ],
                None => self.reverse_changes is None,
            },
    {
        match &self.reverse_changes {
            Some(changes) => Some(
                backend.alter_field_sql(self.table.as_str(), self.field_name.as_str(), changes),
            ),
            None => None,
        }
    }

    pub fn describe(&self) -> (r: String)
        ensures
            r@ == "Alter field "@ + self.field_name@ + " on "@ + self.table@,
    {
        let mut out = String::from_str("Alter field ");
        out.append(self.field_name.as_str());
        out.append(" on ");
        out.append(self.table.as_str());
        out
    }

    pub fn is_reversible(&self) -> (r: bool)
        ensures
            r == (self.reverse_changes is Some),
    {
        self.reverse_changes.is_some()
    }

    pub fn into_op(self) -> (r: Operation)
        ensures
            r == Operation::AlterField(self),
    {
        Operation::AlterField(self)
    }
}

} // verus!
