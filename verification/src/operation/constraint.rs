use vstd::prelude::*;
use vstd::string::*;

use crate::backend::{constraint_render, drop_constraint_render, Backend};
use crate::field::ReferentialAction;
use crate::operation::Operation;

verus! {

/// A table constraint: a CHECK expression, a UNIQUE column set, or a
/// FOREIGN KEY.
#[derive(Debug, Clone)]
pub enum Constraint {
    Check { name: String, expression: String },
    Unique { name: String, columns: Vec<String> },
    ForeignKey {
        name: String,
        columns: Vec<String>,
        ref_table: String,
        ref_columns: Vec<String>,
        on_delete: ReferentialAction,
        on_update: ReferentialAction,
    },
}

/// The name of a constraint as a character sequence.
pub open spec fn constraint_name_view(c: Constraint) -> Seq<char> {
    match c {
        Constraint::Check { name, .. } => name@,
        Constraint::Unique { name, .. } => name@,
        Constraint::ForeignKey { name, .. } => name@,
    }
}

impl Constraint {
    pub fn check(name: &str, expression: &str) -> (r: Self)
        ensures
            r matches Constraint::Check { name: n, expression: e } && n@ == name@ && e@
                == expression@,
    {
        Constraint::Check { name: name.to_owned(), expression: expression.to_owned() }
    }

    pub fn unique(name: &str, columns: Vec<String>) -> (r: Self)
        ensures
            r matches Constraint::Unique { name: n, columns: c } && n@ == name@ && c == columns,
    {
        Constraint::Unique { name: name.to_owned(), columns }
    }

    pub fn foreign_key(name: &str, columns: Vec<String>, ref_table: &str, ref_columns: Vec<
        String,
    >) -> (r: Self)
        ensures
            r matches Constraint::ForeignKey {
                name: n,
                columns: c,
                ref_table: rt,
                ref_columns: rc,
                on_delete: od,
                on_update: ou,
            } && n@ == name@ && c == columns && rt@ == ref_table@ && rc == ref_columns && od
                == ReferentialAction::NoAction && ou == ReferentialAction::NoAction,
    {
        Constraint::ForeignKey {
            name: name.to_owned(),
            columns,
            ref_table: ref_table.to_owned(),
            ref_columns,
            on_delete: ReferentialAction::NoAction,
            on_update: ReferentialAction::NoAction,
        }
    }

    pub fn on_delete(self, action: ReferentialAction) -> (r: Self)
        ensures
            self matches Constraint::ForeignKey {
                name,
                columns,
                ref_table,
                ref_columns,
                on_delete: _,
                on_update,
            } ==> r == (Constraint::ForeignKey {
                name,
                columns,
                ref_table,
                ref_columns,
                on_delete: action,
                on_update,
            }),
            !(self matches Constraint::ForeignKey { .. }) ==> r == self,
    {
        match self {
            Constraint::ForeignKey {
                name,
                columns,
                ref_table,
                ref_columns,
                on_delete: _,
                on_update,
            } => Constraint::ForeignKey {
                name,
                columns,
                ref_table,
                ref_columns,
                on_delete: action,
                on_update,
            },
            other => other,
        }
    }

    pub fn on_update(self, action: ReferentialAction) -> (r: Self)
        ensures
            self matches Constraint::ForeignKey {
                name,
                columns,
                ref_table,
                ref_columns,
                on_delete,
                on_update: _,
            } ==> r == (Constraint::ForeignKey {
                name,
                columns,
                ref_table,
                ref_columns,
                on_delete,
                on_update: action,
            }),
            !(self matches Constraint::ForeignKey { .. }) ==> r == self,
    {
        match self {
            Constraint::ForeignKey {
                name,
                columns,
                ref_table,
                ref_columns,
                on_delete,
                on_update: _,
            } => Constraint::ForeignKey {
                name,
                columns,
                ref_table,
                ref_columns,
                on_delete,
                on_update: action,
            },
            other => other,
        }
    }

    pub fn name(&self) -> (r: &str)
        ensures
            r@ == constraint_name_view(*self),
    {
        match self {
            Constraint::Check { name, .. } => name.as_str(),
            Constraint::Unique { name, .. } => name.as_str(),
            Constraint::ForeignKey { name, .. } => name.as_str(),
        }
    }
}

/// Add a constraint to a table.
#[derive(Debug, Clone)]
pub struct AddConstraint {
    pub table: String,
    pub constraint: Constraint,
}

impl AddConstraint {
    pub fn new(table: &str, constraint: Constraint) -> (r: Self)
        ensures
            r.table@ == table@,
            r.constraint == constraint,
    {
        Self { table: table.to_owned(), constraint }
    }

    pub fn forward<B: Backend>(&self, backend: &B) -> (r: Vec<String>)
        ensures
            r.deep_view() == seq![
                constraint_render(backend.spec_dialect(), self.table@, self.constraint),
            ],
    {
        crate::backend::one_statement(
            backend.add_constraint_sql(self.table.as_str(), &self.constraint),
        )
    }

    pub fn backward<B: Backend>(&self, backend: &B) -> (r: Option<Vec<String>>)
        ensures
            r matches Some(v) && v.deep_view() == seq![
                drop_constraint_render(
                    backend.spec_dialect(),
                    self.table@,
                    constraint_name_view(self.constraint),
                ),
            ],
    {
        Some(
            crate::backend::one_statement(
                backend.drop_constraint_sql(self.table.as_str(), self.constraint.name()),
            ),
        )
    }

    pub fn describe(&self) -> (r: String)
        ensures
            r@ == "Add constraint "@ + constraint_name_view(self.constraint) + " to "@
                + self.table@,
    {
        let mut out = String::from_str("Add constraint ");
        out.append(self.constraint.name());
        out.append(" to ");
        out.append(self.table.as_str());
        out
    }

    pub fn into_op(self) -> (r: Operation)
        ensures
            r == Operation::AddConstraint(self),
    {
        Operation::AddConstraint(self)
    }
}

/// Drop a constraint from a table. Reversible only when the constraint
/// description was attached with `with_definition`.
#[derive(Debug, Clone)]
pub struct RemoveConstraint {
    pub table: String,
    pub name: String,
    pub constraint: Option<Constraint>,
}

impl RemoveConstraint {
    pub fn new(table: &str, name: &str) -> (r: Self)
        ensures
            r.table@ == table@,
            r.name@ == name@,
            r.constraint is None,
    {
        Self { table: table.to_owned(), name: name.to_owned(), constraint: None }
    }

    pub fn with_definition(self, constraint: Constraint) -> (r: Self)
        ensures
            r.constraint matches Some(c) && c == constraint,
            r.table == self.table && r.name == self.name,
    {
        Self { constraint: Some(constraint), ..self }
    }

    pub fn forward<B: Backend>(&self, backend: &B) -> (r: Vec<String>)
        ensures
            r.deep_view() == seq![
                drop_constraint_render(backend.spec_dialect(), self.table@, self.name@),
            ],
    {
        crate::backend::one_statement(
            backend.drop_constraint_sql(self.table.as_str(), self.name.as_str()),
        )
    }

    pub fn backward<B: Backend>(&self, backend: &B) -> (r: Option<Vec<String>>)
        ensures
            match r {
                Some(v) => self.constraint matches Some(c) && v.deep_view() == seq![
                    constraint_render(backend.spec_dialect(), self.table@, c),
                ],
                None => self.constraint is None,
            },
    {
        match &self.constraint {
            Some(c) => Some(
                crate::backend::one_statement(backend.add_constraint_sql(self.table.as_str(), c)),
            ),
            None => None,
        }
    }

    pub fn describe(&self) -> (r: String)
        ensures
            r@ == "Remove constraint "@ + self.name@ + " from "@ + self.table@,
    {
        let mut out = String::from_str("Remove constraint ");
        out.append(self.name.as_str());
        out.append(" from ");
        out.append(self.table.as_str());
        out
    }

    pub fn is_reversible(&self) -> (r: bool)
        ensures
            r == (self.constraint is Some),
    {
        self.constraint.is_some()
    }

    pub fn into_op(self) -> (r: Operation)
        ensures
            r == Operation::RemoveConstraint(self),
    {
        Operation::RemoveConstraint(self)
    }
}

} // verus!
