use vstd::prelude::*;
use vstd::string::*;

use crate::backend::{create_index_render, drop_index_render, Backend};
use crate::operation::Operation;

verus! {

#[derive(Debug, Clone, Copy, PartialEq, Eq, Structural)]
pub enum IndexOrder {
    Asc,
    Desc,
}

impl Default for IndexOrder {
    fn default() -> (r: Self)
        ensures
            r == IndexOrder::Asc,
    {
        IndexOrder::Asc
    }
}

/// An index description: its name, ordered columns, uniqueness, and an
/// optional condition for a partial index.
#[derive(Debug, Clone)]
pub struct Index {
    pub name: String,
    pub columns: Vec<(String, IndexOrder)>,
    pub unique: bool,
    pub where_clause: Option<String>,
}

/// The columns of an index as character sequences paired with their order.
pub open spec fn index_columns_view(columns: Seq<(String, IndexOrder)>) -> Seq<(Seq<char>, IndexOrder)> {
    columns.map_values(|p: (String, IndexOrder)| (p.0@, p.1))
}

/// The condition of a partial index as a character sequence, if any.
pub open spec fn index_condition_view(w: Option<String>) -> Option<Seq<char>> {
    match w {
        Some(c) => Some(c@),
        None => None,
    }
}

impl Index {
    pub fn new(name: &str) -> (r: Self)
        ensures
            r.name@ == name@,
            r.columns@ == Seq::<(String, IndexOrder)>::empty(),
            !r.unique,
            r.where_clause is None,
    {
        Self { name: name.to_owned(), columns: Vec::new(), unique: false, where_clause: None }
    }

    pub fn column(self, name: &str) -> (r: Self)
        ensures
            r.columns@.len() == self.columns@.len() + 1,
            r.columns@.last().0@ == name@ && r.columns@.last().1 == IndexOrder::Asc,
            r.columns@.take(self.columns@.len() as int) == self.columns@,
            r.name == self.name && r.unique == self.unique && r.where_clause == self.where_clause,
    {
        let mut r = self;
        r.columns.push((name.to_owned(), IndexOrder::Asc));
        r
    }

    pub fn column_desc(self, name: &str) -> (r: Self)
        ensures
            r.columns@.len() == self.columns@.len() + 1,
            r.columns@.last().0@ == name@ && r.columns@.last().1 == IndexOrder::Desc,
            r.columns@.take(self.columns@.len() as int) == self.columns@,
            r.name == self.name && r.unique == self.unique && r.where_clause == self.where_clause,
    {
        let mut r = self;
        r.columns.push((name.to_owned(), IndexOrder::Desc));
        r
    }

    pub fn unique(self) -> (r: Self)
        ensures
            r == (Index { unique: true, ..self }),
    {
        Index { unique: true, ..self }
    }

    /// Restrict the index to rows matching `condition`, making it a partial
    /// index.
    pub fn filter(self, condition: &str) -> (r: Self)
        ensures
            r.where_clause matches Some(c) && c@ == condition@,
            r.name == self.name && r.columns == self.columns && r.unique == self.unique,
    {
        Index { where_clause: Some(condition.to_owned()), ..self }
    }
}

/// Create an index on a table.
#[derive(Debug, Clone)]
pub struct AddIndex {
    pub table: String,
    pub index: Index,
}

impl AddIndex {
    pub fn new(table: &str, index: Index) -> (r: Self)
        ensures
            r.table@ == table@,
            r.index == index,
    {
        Self { table: table.to_owned(), index }
    }

    pub fn forward<B: Backend>(&self, backend: &B) -> (r: Vec<String>)
        ensures
            r.deep_view() == seq![
                create_index_render(
                    backend.spec_dialect(),
                    self.table@,
                    self.index.name@,
                    index_columns_view(self.index.columns@),
                    self.index.unique,
                    index_condition_view(self.index.where_clause),
                ),
            ],
    {
        crate::backend::one_statement(backend.add_index_sql(self.table.as_str(), &self.index))
    }

    pub fn backward<B: Backend>(&self, backend: &B) -> (r: Option<Vec<String>>)
        ensures
            r matches Some(v) && v.deep_view() == seq![
                drop_index_render(backend.spec_dialect(), self.table@, self.index.name@),
            ],
    {
        Some(
            crate::backend::one_statement(
                backend.drop_index_sql(self.table.as_str(), self.index.name.as_str()),
            ),
        )
    }

    pub fn describe(&self) -> (r: String)
        ensures
            r@ == "Add index "@ + self.index.name@ + " on "@ + self.table@,
    {
        let mut out = String::from_str("Add index ");
        out.append(self.index.name.as_str());
        out.append(" on ");
        out.append(self.table.as_str());
        out
    }

    pub fn into_op(self) -> (r: Operation)
        ensures
            r == Operation::AddIndex(self),
    {
        Operation::AddIndex(self)
    }
}

/// Drop an index from a table. Reversible only when the index description
/// was attached with `with_definition`.
#[derive(Debug, Clone)]
pub struct RemoveIndex {
    pub table: String,
    pub name: String,
    pub index: Option<Index>,
}

impl RemoveIndex {
    pub fn new(table: &str, name: &str) -> (r: Self)
        ensures
            r.table@ == table@,
            r.name@ == name@,
            r.index is None,
    {
        Self { table: table.to_owned(), name: name.to_owned(), index: None }
    }

    pub fn with_definition(self, index: Index) -> (r: Self)
        ensures
            r.index matches Some(i) && i == index,
            r.table == self.table && r.name == self.name,
    {
        Self { index: Some(index), ..self }
    }

    pub fn forward<B: Backend>(&self, backend: &B) -> (r: Vec<String>)
        ensures
            r.deep_view() == seq![
                drop_index_render(backend.spec_dialect(), self.table@, self.name@),
            ],
    {
        crate::backend::one_statement(
            backend.drop_index_sql(self.table.as_str(), self.name.as_str()),
        )
    }

    pub fn backward<B: Backend>(&self, backend: &B) -> (r: Option<Vec<String>>)
        ensures
            match r {
                Some(v) => self.index matches Some(i) && v.deep_view() == seq![
                    create_index_render(
                        backend.spec_dialect(),
                        self.table@,
                        i.name@,
                        index_columns_view(i.columns@),
                        i.unique,
                        index_condition_view(i.where_clause),
                    ),
                ],
                None => self.index is None,
            },
    {
        match &self.index {
            Some(index) => Some(
                crate::backend::one_statement(backend.add_index_sql(self.table.as_str(), index)),
            ),
            None => None,
        }
    }

    pub fn describe(&self) -> (r: String)
        ensures
            r@ == "Remove index "@ + self.name@ + " from "@ + self.table@,
    {
        let mut out = String::from_str("Remove index ");
        out.append(self.name.as_str());
        out.append(" from ");
        out.append(self.table.as_str());
        out
    }

    pub fn is_reversible(&self) -> (r: bool)
        ensures
            r == (self.index is Some),
    {
        self.index.is_some()
    }

    pub fn into_op(self) -> (r: Operation)
        ensures
            r == Operation::RemoveIndex(self),
    {
        Operation::RemoveIndex(self)
    }
}

} // verus!
