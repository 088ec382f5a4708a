pub mod constraint;
pub mod field;
pub mod index;
pub mod sql;
pub mod table;

pub use constraint::{AddConstraint, Constraint, RemoveConstraint};
pub use field::{AddField, AlterField, RemoveField, RenameField};
pub use index::{AddIndex, Index, IndexOrder, RemoveIndex};
pub use sql::RunSql;
pub use table::{CreateTable, DropTable, RenameTable};

use vstd::prelude::*;

use crate::backend::{
    add_column_render, constraint_render, create_index_render, create_table_render,
    dialect_name, drop_column_render, drop_constraint_render, drop_index_render,
    drop_table_render, modify_column_render, rename_column_render, rename_table_render,
    spec_supports_alter_column, spec_supports_drop_column, Backend, Dialect,
};
use crate::operation::constraint::constraint_name_view;
use crate::operation::index::{index_columns_view, index_condition_view};
use crate::operation::sql::source_resolve;

verus! {

/// One unit of schema change. A migration is an ordered list of these.
#[derive(Debug, Clone)]
pub enum Operation {
    CreateTable(CreateTable),
    DropTable(DropTable),
    RenameTable(RenameTable),
    AddField(AddField),
    RemoveField(RemoveField),
    RenameField(RenameField),
    AlterField(AlterField),
    AddIndex(AddIndex),
    RemoveIndex(RemoveIndex),
    AddConstraint(AddConstraint),
    RemoveConstraint(RemoveConstraint),
    RunSql(RunSql),
}

/// Whether an operation can be reversed. Destructive operations are
/// reversible only when the data needed to rebuild what they remove was
/// attached; raw SQL only when reverse statements were supplied.
pub open spec fn op_reversible(op: Operation) -> bool {
    match op {
        Operation::CreateTable(_) => true,
        Operation::DropTable(x) => x.fields is Some,
        Operation::RenameTable(_) => true,
        Operation::AddField(_) => true,
        Operation::RemoveField(x) => x.field is Some,
        Operation::RenameField(_) => true,
        Operation::AlterField(x) => x.reverse_changes is Some,
        Operation::AddIndex(_) => true,
        Operation::RemoveIndex(x) => x.index is Some,
        Operation::AddConstraint(_) => true,
        Operation::RemoveConstraint(x) => x.constraint is Some,
        Operation::RunSql(x) => x.backward is Some,
    }
}

/// Whether the operation's forward statements are defined on dialect `d`.
/// Raw SQL given per backend can lack an entry for a dialect, and a
/// column-change statement is undefined on a dialect that cannot change a
/// column in place.
pub open spec fn op_forward_ok(op: Operation, d: Dialect) -> bool {
    match op {
        Operation::RunSql(x) => source_resolve(x.forward, dialect_name(d)) is Some,
        Operation::AlterField(_) => spec_supports_alter_column(d),
        _ => true,
    }
}

/// Whether the operation's backward statements, if it has any, are defined
/// on dialect `d`.
pub open spec fn op_backward_ok(op: Operation, d: Dialect) -> bool {
    match op {
        Operation::RunSql(x) => match x.backward {
            Some(b) => source_resolve(b, dialect_name(d)) is Some,
            None => true,
        },
        Operation::AlterField(x) => x.reverse_changes is Some ==> spec_supports_alter_column(d),
        _ => true,
    }
}

/// The statements that apply the operation on dialect `d`.
pub open spec fn op_forward_stmts(op: Operation, d: Dialect) -> Seq<Seq<char>> {
    match op {
        Operation::CreateTable(x) => seq![create_table_render(d, x.name@, x.fields@)],
        Operation::DropTable(x) => seq![drop_table_render(d, x.name@)],
        Operation::RenameTable(x) => seq![rename_table_render(d, x.old_name@, x.new_name@)],
        Operation::AddField(x) => seq![add_column_render(d, x.table@, x.field)],
        Operation::RemoveField(x) => seq![drop_column_render(d, x.table@, x.field_name@)],
        Operation::RenameField(x) => seq![
            rename_column_render(d, x.table@, x.old_name@, x.new_name@),
        ],
        Operation::AlterField(x) => seq![
            modify_column_render(d, x.table@, x.field_name@, x.changes),
        ],
        Operation::AddIndex(x) => seq![
            create_index_render(
                d,
                x.table@,
                x.index.name@,
                index_columns_view(x.index.columns@),
                x.index.unique,
                index_condition_view(x.index.where_clause),
            ),
        ],
        Operation::RemoveIndex(x) => seq![drop_index_render(d, x.table@, x.name@)],
        Operation::AddConstraint(x) => seq![constraint_render(d, x.table@, x.constraint)],
        Operation::RemoveConstraint(x) => seq![drop_constraint_render(d, x.table@, x.name@)],
        Operation::RunSql(x) => source_resolve(x.forward, dialect_name(d)).unwrap(),
    }
}

/// The statements that undo the operation on dialect `d`, or `None` where it
/// cannot be undone there.
pub open spec fn op_backward_stmts(op: Operation, d: Dialect) -> Option<Seq<Seq<char>>> {
    match op {
        Operation::CreateTable(x) => Some(seq![drop_table_render(d, x.name@)]),
        Operation::DropTable(x) => match x.fields {
            Some(f) => Some(seq![create_table_render(d, x.name@, f@)]),
            None => None,
        },
        Operation::RenameTable(x) => Some(
            seq![rename_table_render(d, x.new_name@, x.old_name@)],
        ),
        Operation::AddField(x) => if spec_supports_drop_column(d) {
            Some(seq![drop_column_render(d, x.table@, x.field.name@)])
        } else {
            None
        },
        Operation::RemoveField(x) => match x.field {
            Some(f) => Some(seq![add_column_render(d, x.table@, f)]),
            None => None,
        },
        Operation::RenameField(x) => Some(
            seq![rename_column_render(d, x.table@, x.new_name@, x.old_name@)],
        ),
        Operation::AlterField(x) => match x.reverse_changes {
            Some(c) => Some(seq![modify_column_render(d, x.table@, x.field_name@, c)]),
            None => None,
        },
        Operation::AddIndex(x) => Some(seq![drop_index_render(d, x.table@, x.index.name@)]),
        Operation::RemoveIndex(x) => match x.index {
            Some(i) => Some(
                seq![
                    create_index_render(
                        d,
                        x.table@,
                        i.name@,
                        index_columns_view(i.columns@),
                        i.unique,
                        index_condition_view(i.where_clause),
                    ),
                ],
            ),
            None => None,
        },
        Operation::AddConstraint(x) => Some(
            seq![drop_constraint_render(d, x.table@, constraint_name_view(x.constraint))],
        ),
        Operation::RemoveConstraint(x) => match x.constraint {
            Some(c) => Some(seq![constraint_render(d, x.table@, c)]),
            None => None,
        },
        Operation::RunSql(x) => match x.backward {
            Some(b) => Some(source_resolve(b, dialect_name(d)).unwrap()),
            None => None,
        },
    }
}

/// The human-readable description of an operation.
pub open spec fn op_description(op: Operation) -> Seq<char> {
    match op {
        Operation::CreateTable(x) => "Create table "@ + x.name@,
        Operation::DropTable(x) => "Drop table "@ + x.name@,
        Operation::RenameTable(x) => "Rename table "@ + x.old_name@ + " to "@ + x.new_name@,
        Operation::AddField(x) => "Add field "@ + x.field.name@ + " to "@ + x.table@,
        Operation::RemoveField(x) => "Remove field "@ + x.field_name@ + " from "@ + x.table@,
        Operation::RenameField(x) => "Rename field "@ + x.old_name@ + " to "@ + x.new_name@
            + " on "@ + x.table@,
        Operation::AlterField(x) => "Alter field "@ + x.field_name@ + " on "@ + x.table@,
        Operation::AddIndex(x) => "Add index "@ + x.index.name@ + " on "@ + x.table@,
        Operation::RemoveIndex(x) => "Remove index "@ + x.name@ + " from "@ + x.table@,
        Operation::AddConstraint(x) => "Add constraint "@ + constraint_name_view(x.constraint)
            + " to "@ + x.table@,
        Operation::RemoveConstraint(x) => "Remove constraint "@ + x.name@ + " from "@ + x.table@,
        Operation::RunSql(x) => x.description@,
    }
}

impl Operation {
    /// The statements that apply this operation, rendered by `backend`.
    pub fn forward<B: Backend>(&self, backend: &B) -> (r: Vec<String>)
        requires
            op_forward_ok(*self, backend.spec_dialect()),
        ensures
            r.deep_view() == op_forward_stmts(*self, backend.spec_dialect()),
    {
        match self {
            Operation::CreateTable(x) => x.forward(backend),
            Operation::DropTable(x) => x.forward(backend),
            Operation::RenameTable(x) => x.forward(backend),
            Operation::AddField(x) => x.forward(backend),
            Operation::RemoveField(x) => x.forward(backend),
            Operation::RenameField(x) => x.forward(backend),
            Operation::AlterField(x) => x.forward(backend),
            Operation::AddIndex(x) => x.forward(backend),
            Operation::RemoveIndex(x) => x.forward(backend),
            Operation::AddConstraint(x) => x.forward(backend),
            Operation::RemoveConstraint(x) => x.forward(backend),
            Operation::RunSql(x) => x.forward(backend),
        }
    }

    /// The statements that undo this operation, rendered by `backend`, or
    /// `None` where it cannot be undone.
    pub fn backward<B: Backend>(&self, backend: &B) -> (r: Option<Vec<String>>)
        requires
            op_backward_ok(*self, backend.spec_dialect()),
        ensures
            match r {
                Some(v) => op_backward_stmts(*self, backend.spec_dialect()) matches Some(s)
                    && v.deep_view() == s,
                None => op_backward_stmts(*self, backend.spec_dialect()) is None,
            },
    {
        match self {
            Operation::CreateTable(x) => x.backward(backend),
            Operation::DropTable(x) => x.backward(backend),
            Operation::RenameTable(x) => x.backward(backend),
            Operation::AddField(x) => x.backward(backend),
            Operation::RemoveField(x) => x.backward(backend),
            Operation::RenameField(x) => x.backward(backend),
            Operation::AlterField(x) => x.backward(backend),
            Operation::AddIndex(x) => x.backward(backend),
            Operation::RemoveIndex(x) => x.backward(backend),
            Operation::AddConstraint(x) => x.backward(backend),
            Operation::RemoveConstraint(x) => x.backward(backend),
            Operation::RunSql(x) => x.backward(backend),
        }
    }

    /// A human-readable description of this operation.
    pub fn describe(&self) -> (r: String)
        ensures
            r@ == op_description(*self),
    {
        match self {
            Operation::CreateTable(x) => x.describe(),
            Operation::DropTable(x) => x.describe(),
            Operation::RenameTable(x) => x.describe(),
            Operation::AddField(x) => x.describe(),
            Operation::RemoveField(x) => x.describe(),
            Operation::RenameField(x) => x.describe(),
            Operation::AlterField(x) => x.describe(),
            Operation::AddIndex(x) => x.describe(),
            Operation::RemoveIndex(x) => x.describe(),
            Operation::AddConstraint(x) => x.describe(),
            Operation::RemoveConstraint(x) => x.describe(),
            Operation::RunSql(x) => x.describe(),
        }
    }

    /// Whether this operation can be reversed.
    pub fn is_reversible(&self) -> (r: bool)
        ensures
            r == op_reversible(*self),
    {
        match self {
            Operation::CreateTable(_) => true,
            Operation::DropTable(x) => x.is_reversible(),
            Operation::RenameTable(_) => true,
            Operation::AddField(x) => x.is_reversible(),
            Operation::RemoveField(x) => x.is_reversible(),
            Operation::RenameField(_) => true,
            Operation::AlterField(x) => x.is_reversible(),
            Operation::AddIndex(_) => true,
            Operation::RemoveIndex(x) => x.is_reversible(),
            Operation::AddConstraint(_) => true,
            Operation::RemoveConstraint(x) => x.is_reversible(),
            Operation::RunSql(x) => x.is_reversible(),
        }
    }
}

} // verus!
