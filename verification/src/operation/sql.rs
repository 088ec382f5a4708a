use vstd::prelude::*;
use vstd::pervasive::unreached;

use crate::backend::{dialect_name, Backend};
use crate::operation::Operation;
use crate::strutil::{copy_names, str_eq};

verus! {

/// Where a raw-SQL operation's statements come from: either one list used on
/// every backend (optionally restricted to some backends by name), or a list
/// per backend name.
#[derive(Debug, Clone)]
pub enum SqlSource {
    Static { sql: Vec<String>, only_backends: Option<Vec<String>> },
    ByBackend(Vec<(String, Vec<String>)>),
}

/// The statements a per-backend table holds for `key`; entries added later
/// take precedence, so the last matching entry wins.
pub open spec fn by_backend_lookup(entries: Seq<(String, Vec<String>)>, key: Seq<char>) -> Option<
    Seq<Seq<char>>,
>
    decreases entries.len(),
{
    if entries.len() == 0 {
        None
    } else if entries.last().0@ == key {
        Some(entries.last().1.deep_view())
    } else {
        by_backend_lookup(entries.drop_last(), key)
    }
}

/// A backend-name restriction as character sequences, if any.
pub open spec fn restriction_view(o: Option<Vec<String>>) -> Option<Seq<Seq<char>>> {
    match o {
        Some(v) => Some(v.deep_view()),
        None => None,
    }
}

/// The statements `s` yields for the backend named `backend_name`: a static
/// list is skipped (empty) outside its backend restriction, and a per-backend
/// table yields its entry for the name, or nothing when it has none.
pub open spec fn source_resolve(s: SqlSource, backend_name: Seq<char>) -> Option<Seq<Seq<char>>> {
    match s {
        SqlSource::Static { sql, only_backends } => match only_backends {
            Some(only) => if only.deep_view().contains(backend_name) {
                Some(sql.deep_view())
            } else {
                Some(Seq::empty())
            },
            None => Some(sql.deep_view()),
        },
        SqlSource::ByBackend(entries) => by_backend_lookup(entries@, backend_name),
    }
}

impl SqlSource {
    /// The statements this source yields for the backend named
    /// `backend_name`, or `None` when a per-backend table has no entry for
    /// it.
    pub fn resolve(&self, backend_name: &str) -> (r: Option<Vec<String>>)
        ensures
            match r {
                Some(v) => source_resolve(*self, backend_name@) matches Some(s) && v.deep_view()
                    == s,
                None => source_resolve(*self, backend_name@) is None,
            },
    {
        match self {
            SqlSource::Static { sql, only_backends } => {
                match only_backends {
                    Some(only) => {
                        let mut found = false;
                        let mut i: usize = 0;
                        while i < only.len()
                            invariant
                                0 <= i <= only.len(),
                                found == exists|j: int|
                                    0 <= j < i && only.deep_view()[j] == backend_name@,
                            decreases only.len() - i,
                        {
                            assert(only.deep_view()[i as int] == only[i as int]@);
                            if str_eq(only[i].as_str(), backend_name) {
                                found = true;
                            }
                            i += 1;
                        }
                        assert(found == only.deep_view().contains(backend_name@));
                        if found {
                            Some(clone_string_vec(sql))
                        } else {
                            let r: Vec<String> = Vec::new();
                            assert(r.deep_view() =~= Seq::<Seq<char>>::empty());
                            Some(r)
                        }
                    },
                    None => Some(clone_string_vec(sql)),
                }
            },
            SqlSource::ByBackend(entries) => {
                proof {
                    assert(*self == SqlSource::ByBackend(*entries));
                }
                let mut k: usize = entries.len();
                assert(entries@.take(k as int) =~= entries@);
                while k > 0
                    invariant
                        0 <= k <= entries.len(),
                        source_resolve(*self, backend_name@) == by_backend_lookup(
                            entries@.take(k as int),
                            backend_name@,
                        ),
                    decreases k,
                {
                    let j = k - 1;
                    if str_eq(entries[j].0.as_str(), backend_name) {
                        proof {
                            assert(entries@.take(k as int).last() == entries@[j as int]);
                            assert(by_backend_lookup(entries@.take(k as int), backend_name@)
                                == Some(entries@[j as int].1.deep_view()));
                            assert(source_resolve(*self, backend_name@) == Some(
                                entries@[j as int].1.deep_view(),
                            ));
                        }
                        let statements = clone_string_vec(&entries[j].1);
                        assert(statements.deep_view() == entries@[j as int].1.deep_view());
                        return Some(statements);
                    }
                    assert(entries@.take(k as int).drop_last() =~= entries@.take(j as int));
                    k = j;
                }
                assert(entries@.take(0) =~= Seq::<(String, Vec<String>)>::empty());
                None
            },
        }
    }
}

/// Copy a list of statements.
pub fn clone_string_vec(v: &Vec<String>) -> (r: Vec<String>)
    ensures
        r@ == v@,
{
    let mut r: Vec<String> = Vec::new();
    let mut i: usize = 0;
    while i < v.len()
        invariant
            0 <= i <= v.len(),
            r@ == v@.take(i as int),
        decreases v.len() - i,
    {
        r.push(v[i].clone());
        assert(r@ =~= v@.take(i + 1));
        i += 1;
    }
    assert(v@.take(v@.len() as int) =~= v@);
    r
}

/// Run literal SQL. Reversible only when reverse statements were supplied.
#[derive(Debug, Clone)]
pub struct RunSql {
    pub forward: SqlSource,
    pub backward: Option<SqlSource>,
    pub description: String,
}

impl RunSql {
    /// One statement, run on every backend.
    pub fn new(sql: &str) -> (r: Self)
        ensures
            r.forward matches SqlSource::Static { sql: s, only_backends: ob } && s.deep_view()
                =~= seq![sql@] && ob is None,
            r.backward is None,
            r.description@ == "Run custom SQL"@,
    {
        let mut statements: Vec<String> = Vec::new();
        statements.push(sql.to_owned());
        Self {
            forward: SqlSource::Static { sql: statements, only_backends: None },
            backward: None,
            description: "Run custom SQL".to_owned(),
        }
    }

    /// Several statements, run on every backend.
    pub fn multiple(sqls: Vec<String>) -> (r: Self)
        ensures
            r.forward matches SqlSource::Static { sql: s, only_backends: ob } && s == sqls && ob
                is None,
            r.backward is None,
            r.description@ == "Run custom SQL"@,
    {
        Self {
            forward: SqlSource::Static { sql: sqls, only_backends: None },
            backward: None,
            description: "Run custom SQL".to_owned(),
        }
    }

    /// One forward and one reverse statement, run on every backend.
    pub fn reversible(forward: &str, backward: &str) -> (r: Self)
        ensures
            r.forward matches SqlSource::Static { sql: s, only_backends: ob } && s.deep_view()
                =~= seq![forward@] && ob is None,
            r.backward matches Some(b) && b matches SqlSource::Static {
                sql: s,
                only_backends: ob,
            } && s.deep_view() =~= seq![backward@] && ob is None,
            r.description@ == "Run custom SQL"@,
    {
        let mut fwd: Vec<String> = Vec::new();
        fwd.push(forward.to_owned());
        let mut bwd: Vec<String> = Vec::new();
        bwd.push(backward.to_owned());
        Self {
            forward: SqlSource::Static { sql: fwd, only_backends: None },
            backward: Some(SqlSource::Static { sql: bwd, only_backends: None }),
            description: "Run custom SQL".to_owned(),
        }
    }

    /// SQL that must be given per backend with `for_backend`; a backend
    /// without an entry cannot run the operation.
    pub fn portable() -> (r: Self)
        ensures
            r.forward matches SqlSource::ByBackend(entries) && entries@ == Seq::<(
                String,
                Vec<String>,
            )>::empty(),
            r.backward is None,
            r.description@ == "Run portable SQL"@,
    {
        Self {
            forward: SqlSource::ByBackend(Vec::new()),
            backward: None,
            description: "Run portable SQL".to_owned(),
        }
    }

    /// Add one statement for the backend named `backend` (use with
    /// `portable`).
    pub fn for_backend(self, backend: &str, sql: &str) -> (r: Self)
        ensures
            self.forward matches SqlSource::ByBackend(old_entries) ==> (r.forward matches
                SqlSource::ByBackend(entries) && entries@.len() == old_entries@.len() + 1
                && entries@.drop_last() == old_entries@ && entries@.last().0@ == backend@
                && entries@.last().1.deep_view() =~= seq![sql@]),
            !(self.forward matches SqlSource::ByBackend(..)) ==> r.forward == self.forward,
            r.backward == self.backward,
            r.description == self.description,
    {
        let forward = match self.forward {
            SqlSource::ByBackend(mut entries) => {
                let mut statements: Vec<String> = Vec::new();
                statements.push(sql.to_owned());
                entries.push((backend.to_owned(), statements));
                SqlSource::ByBackend(entries)
            },
            other => other,
        };
        Self { forward, backward: self.backward, description: self.description }
    }

    /// Add one forward and one reverse statement for the backend named
    /// `backend` (use with `portable`).
    pub fn for_backend_reversible(self, backend: &str, forward: &str, backward: &str) -> (r: Self)
        ensures
            self.forward matches SqlSource::ByBackend(old_entries) ==> (r.forward matches
                SqlSource::ByBackend(entries) && entries@.len() == old_entries@.len() + 1
                && entries@.drop_last() == old_entries@ && entries@.last().0@ == backend@
                && entries@.last().1.deep_view() =~= seq![forward@]),
            !(self.forward matches SqlSource::ByBackend(..)) ==> r.forward == self.forward,
            r.backward matches Some(b) && b matches SqlSource::ByBackend(bentries)
                && bentries@.last().0@ == backend@ && bentries@.last().1.deep_view() =~= seq![
                backward@,
            ] && (self.backward matches Some(SqlSource::ByBackend(old_b)) ==> bentries@.drop_last()
                == old_b@) && (!(self.backward matches Some(SqlSource::ByBackend(..)))
                ==> bentries@.len() == 1),
            r.description == self.description,
    {
        let forward_source = match self.forward {
            SqlSource::ByBackend(mut entries) => {
                let mut statements: Vec<String> = Vec::new();
                statements.push(forward.to_owned());
                entries.push((backend.to_owned(), statements));
                SqlSource::ByBackend(entries)
            },
            other => other,
        };
        let mut backward_entries: Vec<(String, Vec<String>)> = match self.backward {
            Some(SqlSource::ByBackend(m)) => m,
            _ => Vec::new(),
        };
        let mut reverse_statements: Vec<String> = Vec::new();
        reverse_statements.push(backward.to_owned());
        backward_entries.push((backend.to_owned(), reverse_statements));
        Self {
            forward: forward_source,
            backward: Some(SqlSource::ByBackend(backward_entries)),
            description: self.description,
        }
    }

    /// Restrict a static operation to the named backends; on any other
    /// backend it is silently skipped.
    pub fn only_for(self, backends: &[&str]) -> (r: Self)
        ensures
            self.forward matches SqlSource::Static { sql: s, .. } ==> (r.forward matches
                SqlSource::Static { sql: rs, only_backends: rob } && rs == s && (rob matches Some(
                ob,
            ) && ob.deep_view() =~= backends@.map_values(|b: &str| b@))),
            !(self.forward matches SqlSource::Static { .. }) ==> r.forward == self.forward,
            self.backward matches Some(SqlSource::Static { sql: s, .. }) ==> (r.backward matches
                Some(SqlSource::Static { sql: rs, only_backends: rob }) && rs == s && (rob matches
                Some(ob) && ob.deep_view() =~= backends@.map_values(|b: &str| b@))),
            !(self.backward matches Some(SqlSource::Static { .. })) ==> r.backward == self.backward,
            r.description == self.description,
    {
        let restriction = copy_names(backends);
        let forward = match self.forward {
            SqlSource::Static { sql, only_backends: _ } => SqlSource::Static {
                sql,
                only_backends: Some(restriction),
            },
            other => other,
        };
        let backward = match self.backward {
            Some(SqlSource::Static { sql, only_backends: _ }) => {
                let second = copy_names(backends);
                Some(SqlSource::Static { sql, only_backends: Some(second) })
            },
            other => other,
        };
        Self { forward, backward, description: self.description }
    }

    /// Add one reverse statement; the backend restriction, if any, carries
    /// over from the forward statements.
    pub fn with_reverse(self, sql: &str) -> (r: Self)
        ensures
            r.backward matches Some(SqlSource::Static { sql: s, only_backends: ob })
                && s.deep_view() =~= seq![sql@] && restriction_view(ob) == restriction_view(
                match self.forward {
                    SqlSource::Static { only_backends, .. } => only_backends,
                    _ => None,
                },
            ),
            r.forward == self.forward,
            r.description == self.description,
    {
        let only_backends = match &self.forward {
            SqlSource::Static { only_backends, .. } => match only_backends {
                Some(v) => Some(clone_string_vec(v)),
                None => None,
            },
            _ => None,
        };
        let mut statements: Vec<String> = Vec::new();
        statements.push(sql.to_owned());
        Self {
            backward: Some(SqlSource::Static { sql: statements, only_backends }),
            forward: self.forward,
            description: self.description,
        }
    }

    /// Add several reverse statements; the backend restriction, if any,
    /// carries over from the forward statements.
    pub fn with_reverse_multiple(self, sqls: Vec<String>) -> (r: Self)
        ensures
            r.backward matches Some(SqlSource::Static { sql: s, only_backends: ob }) && s == sqls
                && restriction_view(ob) == restriction_view(
                match self.forward {
                    SqlSource::Static { only_backends, .. } => only_backends,
                    _ => None,
                },
            ),
            r.forward == self.forward,
            r.description == self.description,
    {
        let only_backends = match &self.forward {
            SqlSource::Static { only_backends, .. } => match only_backends {
                Some(v) => Some(clone_string_vec(v)),
                None => None,
            },
            _ => None,
        };
        Self {
            backward: Some(SqlSource::Static { sql: sqls, only_backends }),
            forward: self.forward,
            description: self.description,
        }
    }

    /// Set the human-readable description.
    pub fn with_description(self, description: &str) -> (r: Self)
        ensures
            r.description@ == description@,
            r.forward == self.forward,
            r.backward == self.backward,
    {
        Self { description: description.to_owned(), ..self }
    }

    pub fn forward<B: Backend>(&self, backend: &B) -> (r: Vec<String>)
        requires
            source_resolve(self.forward, dialect_name(backend.spec_dialect())) is Some,
        ensures
            r.deep_view() == source_resolve(
                self.forward,
                dialect_name(backend.spec_dialect()),
            ).unwrap(),
    {
        match self.forward.resolve(backend.name()) {
            Some(statements) => statements,
            None => unreached(),
        }
    }

    pub fn backward<B: Backend>(&self, backend: &B) -> (r: Option<Vec<String>>)
        requires
            self.backward matches Some(b) ==> source_resolve(
                b,
                dialect_name(backend.spec_dialect()),
            ) is Some,
        ensures
            match r {
                Some(v) => self.backward matches Some(b) && v.deep_view() == source_resolve(
                    b,
                    dialect_name(backend.spec_dialect()),
                ).unwrap(),
                None => self.backward is None,
            },
    {
        match &self.backward {
            Some(source) => match source.resolve(backend.name()) {
                Some(statements) => Some(statements),
                None => unreached(),
            },
            None => None,
        }
    }

    pub fn describe(&self) -> (r: String)
        ensures
            r@ == self.description@,
    {
        self.description.clone()
    }

    pub fn is_reversible(&self) -> (r: bool)
        ensures
            r == (self.backward is Some),
    {
        self.backward.is_some()
    }

    pub fn into_op(self) -> (r: Operation)
        ensures
            r == Operation::RunSql(self),
    {
        Operation::RunSql(self)
    }
}

} // verus!
