use vstd::prelude::*;
use vstd::string::*;

use crate::backend::{Backend, create_table_render, drop_table_render, rename_table_render};
use crate::field::{Field, FieldType};
use crate::operation::Operation;

verus! {

/// Create a table with the given fields.
#[derive(Debug, Clone)]
pub struct CreateTable {
    pub name: String,
    pub fields: Vec<Field>,
}

impl CreateTable {
    pub fn new(name: &str) -> (r: Self)
        ensures
            r.name@ == name@,
            r.fields@ == Seq::<Field>::empty(),
    {
        Self { name: name.to_owned(), fields: Vec::new() }
    }

    pub fn field(self, name: &str, field_type: FieldType) -> (r: Self)
        ensures
            r.fields@.len() == self.fields@.len() + 1,
            r.fields@.take(self.fields@.len() as int) == self.fields@,
            r.fields@.last().name@ == name@ && r.fields@.last().field_type == field_type,
            r.fields@.last().nullable && !r.fields@.last().primary_key && !r.fields@.last().unique,
            r.fields@.last().default is None && r.fields@.last().references is None,
            r.name == self.name,
    {
        let mut r = self;
        r.fields.push(Field::new(name, field_type));
        r
    }

    pub fn add_field(self, field: Field) -> (r: Self)
        ensures
            r.fields@ == self.fields@.push(field),
            r.name == self.name,
    {
        let mut r = self;
        r.fields.push(field);
        r
    }

    pub fn forward<B: Backend>(&self, backend: &B) -> (r: Vec<String>)
        ensures
            r.deep_view() == seq![
                create_table_render(backend.spec_dialect(), self.name@, self.fields@),
            ],
    {
        backend.create_table_sql(self.name.as_str(), self.fields.as_slice())
    }

    pub fn backward<B: Backend>(&self, backend: &B) -> (r: Option<Vec<String>>)
        ensures
            r matches Some(v) && v.deep_view() == seq![
                drop_table_render(backend.spec_dialect(), self.name@),
            ],
    {
        Some(crate::backend::one_statement(backend.drop_table_sql(self.name.as_str())))
    }

    pub fn describe(&self) -> (r: String)
        ensures
            r@ == "Create table "@ + self.name@,
    {
        let mut out = String::from_str("Create table ");
        out.append(self.name.as_str());
        out
    }

    pub fn into_op(self) -> (r: Operation)
        ensures
            r == Operation::CreateTable(self),
    {
        Operation::CreateTable(self)
    }
}

/// Drop a table. Reversible only when the dropped table's field list was attached
/// with `with_fields`.
#[derive(Debug, Clone)]
pub struct DropTable {
    pub name: String,
    pub fields: Option<Vec<Field>>,
}

impl DropTable {
    pub fn new(name: &str) -> (r: Self)
        ensures
            r.name@ == name@,
            r.fields is None,
    {
        Self { name: name.to_owned(), fields: None }
    }

    pub fn with_fields(self, fields: Vec<Field>) -> (r: Self)
        ensures
            r.fields matches Some(f) && f == fields,
            r.name == self.name,
    {
        Self { fields: Some(fields), ..self }
    }

    pub fn forward<B: Backend>(&self, backend: &B) -> (r: Vec<String>)
        ensures
            r.deep_view() == seq![drop_table_render(backend.spec_dialect(), self.name@)],
    {
        crate::backend::one_statement(backend.drop_table_sql(self.name.as_str()))
    }

    pub fn backward<B: Backend>(&self, backend: &B) -> (r: Option<Vec<String>>)
        ensures
            match r {
                Some(v) => self.fields matches Some(f) && v.deep_view() == seq![
                    create_table_render(backend.spec_dialect(), self.name@, f@),
                ],
                None => self.fields is None,
            },
    {
        match &self.fields {
            Some(fields) => Some(
                backend.create_table_sql(self.name.as_str(), fields.as_slice()),
            ),
            None => None,
        }
    }

    pub fn describe(&self) -> (r: String)
        ensures
            r@ == "Drop table "@ + self.name@,
    {
        let mut out = String::from_str("Drop table ");
        out.append(self.name.as_str());
        out
    }

    pub fn is_reversible(&self) -> (r: bool)
        ensures
            r == (self.fields is Some),
    {
        self.fields.is_some()
    }

    pub fn into_op(self) -> (r: Operation)
        ensures
            r == Operation::DropTable(self),
    {
        Operation::DropTable(self)
    }
}

/// Rename a table.
#[derive(Debug, Clone)]
pub struct RenameTable {
    pub old_name: String,
    pub new_name: String,
}

impl RenameTable {
    pub fn new(old_name: &str, new_name: &str) -> (r: Self)
        ensures
            r.old_name@ == old_name@,
            r.new_name@ == new_name@,
    {
        Self { old_name: old_name.to_owned(), new_name: new_name.to_owned() }
    }

    pub fn forward<B: Backend>(&self, backend: &B) -> (r: Vec<String>)
        ensures
            r.deep_view() == seq![
                rename_table_render(backend.spec_dialect(), self.old_name@, self.new_name@),
            ],
    {
        crate::backend::one_statement(
            backend.rename_table_sql(self.old_name.as_str(), self.new_name.as_str()),
        )
    }

    pub fn backward<B: Backend>(&self, backend: &B) -> (r: Option<Vec<String>>)
        ensures
            r matches Some(v) && v.deep_view() == seq![
                rename_table_render(backend.spec_dialect(), self.new_name@, self.old_name@),
            ],
    {
        Some(
            crate::backend::one_statement(
                backend.rename_table_sql(self.new_name.as_str(), self.old_name.as_str()),
            ),
        )
    }

    pub fn describe(&self) -> (r: String)
        ensures
            r@ == "Rename table "@ + self.old_name@ + " to "@ + self.new_name@,
    {
        let mut out = String::from_str("Rename table ");
        out.append(self.old_name.as_str());
        out.append(" to ");
        out.append(self.new_name.as_str());
        out
    }

    pub fn into_op(self) -> (r: Operation)
        ensures
            r == Operation::RenameTable(self),
    {
        Operation::RenameTable(self)
    }
}

} // verus!
