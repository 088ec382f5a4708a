use vstd::prelude::*;
use vstd::seq_lib::seq_to_set_is_finite;
use vstd::set_lib::lemma_len_subset;
use vstd::string::*;

use crate::backend::{Backend, Dialect};
use crate::operation::{
    op_backward_ok, op_backward_stmts, op_forward_ok, op_forward_stmts, op_reversible, Operation,
};
use crate::strutil::{copy_names, join_comma_space, vec_contains_str};

verus! {

/// A named, ordered bundle of operations, with the names of the migrations
/// it depends on, an optional explicit reverse bundle, and a flag saying
/// whether it may run inside a transaction.
#[derive(Debug)]
pub struct Migration {
    pub name: String,
    pub dependencies: Vec<String>,
    pub forward: Vec<Operation>,
    pub backward: Option<Vec<Operation>>,
    pub atomic: bool,
}

pub open spec fn all_ops_reversible(ops: Seq<Operation>) -> bool {
    forall|i: int| 0 <= i < ops.len() ==> op_reversible(#[trigger] ops[i])
}

pub open spec fn ops_forward_ok(ops: Seq<Operation>, d: Dialect) -> bool {
    forall|i: int| 0 <= i < ops.len() ==> op_forward_ok(#[trigger] ops[i], d)
}

pub open spec fn ops_backward_ok(ops: Seq<Operation>, d: Dialect) -> bool {
    forall|i: int| 0 <= i < ops.len() ==> op_backward_ok(#[trigger] ops[i], d)
}

/// Whether a migration can be reversed: always when explicit backward
/// operations are set, otherwise exactly when every forward operation is
/// individually reversible.
pub open spec fn migration_reversible(m: Migration) -> bool {
    m.backward is Some || all_ops_reversible(m.forward@)
}

/// Whether every statement list the migration could render on dialect `d`
/// is defined there.
pub open spec fn migration_renderable(m: Migration, d: Dialect) -> bool {
    &&& ops_forward_ok(m.forward@, d)
    &&& ops_backward_ok(m.forward@, d)
    &&& (m.backward matches Some(ops) ==> ops_forward_ok(ops@, d))
}

/// The forward statements of `ops` on dialect `d`, concatenated in order.
pub open spec fn fwd_concat(ops: Seq<Operation>, d: Dialect) -> Seq<Seq<char>>
    decreases ops.len(),
{
    if ops.len() == 0 {
        Seq::empty()
    } else {
        op_forward_stmts(ops[0], d) + fwd_concat(ops.drop_first(), d)
    }
}

/// The derived reversal of `ops` on dialect `d`: the list traversed in
/// reverse, each operation mapped through its own backward statements,
/// operations without a backward form contributing nothing.
pub open spec fn bwd_concat_rev(ops: Seq<Operation>, d: Dialect) -> Seq<Seq<char>>
    decreases ops.len(),
{
    if ops.len() == 0 {
        Seq::empty()
    } else {
        (match op_backward_stmts(ops.last(), d) {
            Some(v) => v,
            None => Seq::empty(),
        }) + bwd_concat_rev(ops.drop_last(), d)
    }
}

/// The statements that apply a migration on dialect `d`.
pub open spec fn migration_forward_stmts(m: Migration, d: Dialect) -> Seq<Seq<char>> {
    fwd_concat(m.forward@, d)
}

/// The statements that roll a migration back on dialect `d`: explicit
/// backward operations run forward, in their given order; otherwise the
/// derived reversal, defined only when the migration is reversible.
pub open spec fn migration_backward_stmts(m: Migration, d: Dialect) -> Option<Seq<Seq<char>>> {
    match m.backward {
        Some(ops) => Some(fwd_concat(ops@, d)),
        None => if all_ops_reversible(m.forward@) {
            Some(bwd_concat_rev(m.forward@, d))
        } else {
            None
        },
    }
}

/// Concatenating the forward statements of a non-empty list splits at its
/// last operation.
pub proof fn lemma_fwd_concat_snoc(ops: Seq<Operation>, d: Dialect)
    requires
        ops.len() >= 1,
    ensures
        fwd_concat(ops, d) == fwd_concat(ops.drop_last(), d) + op_forward_stmts(ops.last(), d),
    decreases ops.len(),
{
    if ops.len() == 1 {
        assert(ops.drop_last() =~= Seq::<Operation>::empty());
        assert(ops.drop_first() =~= Seq::<Operation>::empty());
        assert(fwd_concat(Seq::<Operation>::empty(), d) == Seq::<Seq<char>>::empty());
        assert(fwd_concat(ops, d) =~= op_forward_stmts(ops[0], d));
        assert(fwd_concat(ops.drop_last(), d) + op_forward_stmts(ops.last(), d) =~= op_forward_stmts(
            ops[0],
            d,
        ));
    } else {
        lemma_fwd_concat_snoc(ops.drop_first(), d);
        assert(ops.drop_first().drop_last() =~= ops.drop_last().drop_first());
        assert(ops.drop_first().last() == ops.last());
        assert(fwd_concat(ops.drop_last(), d) == op_forward_stmts(ops[0], d) + fwd_concat(
            ops.drop_last().drop_first(),
            d,
        ));
        assert((op_forward_stmts(ops[0], d) + (fwd_concat(ops.drop_first().drop_last(), d)
            + op_forward_stmts(ops.last(), d))) =~= ((op_forward_stmts(ops[0], d) + fwd_concat(
            ops.drop_first().drop_last(),
            d,
        )) + op_forward_stmts(ops.last(), d)));
    }
}

/// The reversal of an automatically-derived backward pass equals the
/// forward operation list reversed, each operation mapped through its own
/// backward statements. This restates, over the specification model, how
/// `backward_sql` treats a migration without explicit backward operations.
pub proof fn lemma_derived_backward_is_reversed_forward(m: Migration, d: Dialect)
    requires
        m.backward is None,
        all_ops_reversible(m.forward@),
    ensures
        migration_backward_stmts(m, d) == Some(bwd_concat_rev(m.forward@, d)),
{
}

impl Migration {
    pub fn new(name: &str) -> (r: Self)
        ensures
            r.name@ == name@,
            r.dependencies@ == Seq::<String>::empty(),
            r.forward@ == Seq::<Operation>::empty(),
            r.backward is None,
            r.atomic,
    {
        Self {
            name: name.to_owned(),
            dependencies: Vec::new(),
            forward: Vec::new(),
            backward: None,
            atomic: true,
        }
    }

    pub fn depends_on(self, dependencies: &[&str]) -> (r: Self)
        ensures
            r.dependencies.deep_view() == dependencies@.map_values(|s: &str| s@),
            r.name == self.name,
            r.forward == self.forward,
            r.backward == self.backward,
            r.atomic == self.atomic,
    {
        Self { dependencies: copy_names(dependencies), ..self }
    }

    /// Set whether this migration should run inside a transaction. It
    /// defaults to on; turn it off for statements that cannot legally run
    /// inside one.
    pub fn atomic(self, atomic: bool) -> (r: Self)
        ensures
            r == (Migration { atomic, ..self }),
    {
        Migration { atomic, ..self }
    }

    /// Whether this migration should run inside a transaction.
    pub fn is_atomic(&self) -> (r: bool)
        ensures
            r == self.atomic,
    {
        self.atomic
    }

    /// Append an operation; its reverse is derived from the operation
    /// itself unless explicit backward operations are set.
    pub fn operation(self, op: Operation) -> (r: Self)
        ensures
            r.forward@ == self.forward@.push(op),
            r.name == self.name,
            r.dependencies == self.dependencies,
            r.backward == self.backward,
            r.atomic == self.atomic,
    {
        let mut r = self;
        r.forward.push(op);
        r
    }

    /// Replace the forward operations.
    pub fn forward_ops(self, ops: Vec<Operation>) -> (r: Self)
        ensures
            r == (Migration { forward: ops, ..self }),
    {
        Migration { forward: ops, ..self }
    }

    /// Set explicit backward operations; during rollback they run forward,
    /// in the given order, instead of the derived reversal.
    pub fn backward_ops(self, ops: Vec<Operation>) -> (r: Self)
        ensures
            r == (Migration { backward: Some(ops), ..self }),
    {
        Migration { backward: Some(ops), ..self }
    }

    /// Whether this migration can be reversed.
    pub fn is_reversible(&self) -> (r: bool)
        ensures
            r == migration_reversible(*self),
    {
        if self.backward.is_some() {
            return true;
        }
        let mut i: usize = 0;
        while i < self.forward.len()
            invariant
                0 <= i <= self.forward@.len(),
                self.backward is None,
                forall|j: int| 0 <= j < i ==> op_reversible(#[trigger] self.forward@[j]),
            decreases self.forward@.len() - i,
        {
            if !self.forward[i].is_reversible() {
                return false;
            }
            i += 1;
        }
        true
    }

    /// The statements that apply this migration, rendered by `backend`: the
    /// statements of each forward operation, concatenated in order.
    pub fn forward_sql<B: Backend>(&self, backend: &B) -> (r: Vec<String>)
        requires
            ops_forward_ok(self.forward@, backend.spec_dialect()),
        ensures
            r.deep_view() == migration_forward_stmts(*self, backend.spec_dialect()),
    {
        let ghost d = backend.spec_dialect();
        let mut out: Vec<String> = Vec::new();
        let mut i: usize = 0;
        while i < self.forward.len()
            invariant
                0 <= i <= self.forward@.len(),
                ops_forward_ok(self.forward@, d),
                d == backend.spec_dialect(),
                out.deep_view() == fwd_concat(self.forward@.take(i as int), d),
            decreases self.forward@.len() - i,
        {
            let statements = self.forward[i].forward(backend);
            crate::strutil::append_all(&mut out, statements);
            proof {
                assert(self.forward@.take(i + 1).drop_last() =~= self.forward@.take(i as int));
                assert(self.forward@.take(i + 1).last() == self.forward@[i as int]);
                lemma_fwd_concat_snoc(self.forward@.take(i + 1), d);
            }
            i += 1;
        }
        proof {
            assert(self.forward@.take(self.forward@.len() as int) =~= self.forward@);
        }
        out
    }

    /// The statements that roll this migration back, rendered by `backend`,
    /// or `None` when it is not reversible. Explicit backward operations run
    /// forward in their given order; otherwise the forward list is traversed
    /// in reverse, each operation mapped through its own backward form.
    pub fn backward_sql<B: Backend>(&self, backend: &B) -> (r: Option<Vec<String>>)
        requires
            migration_renderable(*self, backend.spec_dialect()),
        ensures
            match r {
                Some(v) => migration_backward_stmts(*self, backend.spec_dialect()) matches Some(s)
                    && v.deep_view() == s,
                None => migration_backward_stmts(*self, backend.spec_dialect()) is None,
            },
    {
        let ghost d = backend.spec_dialect();
        match &self.backward {
            Some(ops) => {
                let mut out: Vec<String> = Vec::new();
                let mut i: usize = 0;
                while i < ops.len()
                    invariant
                        0 <= i <= ops@.len(),
                        ops_forward_ok(ops@, d),
                        d == backend.spec_dialect(),
                        out.deep_view() == fwd_concat(ops@.take(i as int), d),
                    decreases ops@.len() - i,
                {
                    let statements = ops[i].forward(backend);
                    crate::strutil::append_all(&mut out, statements);
                    proof {
                        assert(ops@.take(i + 1).drop_last() =~= ops@.take(i as int));
                        assert(ops@.take(i + 1).last() == ops@[i as int]);
                        lemma_fwd_concat_snoc(ops@.take(i + 1), d);
                    }
                    i += 1;
                }
                proof {
                    assert(ops@.take(ops@.len() as int) =~= ops@);
                }
                Some(out)
            },
            None => {
                if !self.is_reversible() {
                    return None;
                }
                let mut out: Vec<String> = Vec::new();
                let mut i: usize = self.forward.len();
                assert(self.forward@.take(i as int) =~= self.forward@);
                while i > 0
                    invariant
                        0 <= i <= self.forward@.len(),
                        ops_backward_ok(self.forward@, d),
                        d == backend.spec_dialect(),
                        bwd_concat_rev(self.forward@, d) == out.deep_view() + bwd_concat_rev(
                            self.forward@.take(i as int),
                            d,
                        ),
                    decreases i,
                {
                    let j = i - 1;
                    proof {
                        assert(self.forward@.take(i as int).last() == self.forward@[j as int]);
                        assert(self.forward@.take(i as int).drop_last() =~= self.forward@.take(
                            j as int,
                        ));
                    }
                    match self.forward[j].backward(backend) {
                        Some(statements) => {
                            crate::strutil::append_all(&mut out, statements);
                        },
                        None => {
                            proof {
                                assert((match op_backward_stmts(self.forward@[j as int], d) {
                                    Some(v) => v,
                                    None => Seq::<Seq<char>>::empty(),
                                }) =~= Seq::<Seq<char>>::empty());
                                assert(out.deep_view() + Seq::<Seq<char>>::empty() =~= out.deep_view());
                            }
                        },
                    }
                    i = j;
                }
                proof {
                    assert(self.forward@.take(0) =~= Seq::<Operation>::empty());
                    assert(out.deep_view() + Seq::<Seq<char>>::empty() =~= out.deep_view());
                }
                Some(out)
            },
        }
    }

    /// The forward operations, for inspection.
    pub fn forward_operations(&self) -> (r: &Vec<Operation>)
        ensures
            *r == self.forward,
    {
        &self.forward
    }

    /// The explicit backward operations, if any were set.
    pub fn backward_operations(&self) -> (r: Option<&Vec<Operation>>)
        ensures
            match r {
                Some(ops) => self.backward matches Some(b) && *ops == b,
                None => self.backward is None,
            },
    {
        self.backward.as_ref()
    }
}

/// Holds all registered migrations, in registration order, and resolves a
/// dependency-respecting application order.
#[derive(Debug)]
pub struct MigrationRegistry {
    pub migrations: Vec<Migration>,
}

/// The registered names, in registration order.
pub open spec fn reg_names(ms: Seq<Migration>) -> Seq<Seq<char>> {
    ms.map_values(|m: Migration| m.name@)
}

/// A well-formed registry holds at most one migration per name.
pub open spec fn registry_wf(ms: Seq<Migration>) -> bool {
    reg_names(ms).no_duplicates()
}

/// Whether some registered migration bears `name`.
pub open spec fn has_name(ms: Seq<Migration>, name: Seq<char>) -> bool {
    exists|i: int| 0 <= i < ms.len() && ms[i].name@ == name
}

/// The registered migration bearing `name`; meaningful when the registry is
/// well-formed and some migration bears it.
pub open spec fn the_migration(ms: Seq<Migration>, name: Seq<char>) -> Migration {
    ms[choose|i: int| 0 <= i < ms.len() && ms[i].name@ == name]
}

/// Whether the migration named `a` declares a dependency on the name `b`.
pub open spec fn dep_of(ms: Seq<Migration>, a: Seq<char>, b: Seq<char>) -> bool {
    exists|i: int|
        0 <= i < ms.len() && ms[i].name@ == a && ms[i].dependencies.deep_view().contains(b)
}

/// Whether each name in `p` declares a dependency on the next.
pub open spec fn is_dep_path(ms: Seq<Migration>, p: Seq<Seq<char>>) -> bool {
    forall|i: int| 0 <= i < p.len() - 1 ==> dep_of(ms, #[trigger] p[i], p[i + 1])
}

/// A dependency path of at least one edge that returns to its start.
pub open spec fn is_dep_cycle(ms: Seq<Migration>, p: Seq<Seq<char>>) -> bool {
    p.len() >= 2 && p[0] == p[p.len() - 1] && is_dep_path(ms, p)
}

pub open spec fn has_cycle(ms: Seq<Migration>) -> bool {
    exists|p: Seq<Seq<char>>| is_dep_cycle(ms, p)
}

/// Whether `name` is depended on by some registered migration without
/// being registered itself.
pub open spec fn missing_dep(ms: Seq<Migration>, name: Seq<char>) -> bool {
    !reg_names(ms).contains(name) && exists|i: int|
        0 <= i < ms.len() && ms[i].dependencies.deep_view().contains(name)
}

pub open spec fn has_missing_dep(ms: Seq<Migration>) -> bool {
    exists|n: Seq<char>| missing_dep(ms, n)
}

pub open spec fn all_deps_empty(ms: Seq<Migration>) -> bool {
    forall|k: int| 0 <= k < ms.len() ==> (#[trigger] ms[k].dependencies)@.len() == 0
}

/// What resolution guarantees of the part of the order built so far: no
/// name twice, only registered names, and every dependency of a listed name
/// listed strictly before it.
pub open spec fn partial_resolution(ms: Seq<Migration>, res: Seq<Seq<char>>) -> bool {
    &&& res.no_duplicates()
    &&& forall|i: int| 0 <= i < res.len() ==> reg_names(ms).contains(#[trigger] res[i])
    &&& forall|i: int, b: Seq<char>|
        0 <= i < res.len() && #[trigger] dep_of(ms, res[i], b) ==> exists|j: int|
            0 <= j < i && res[j] == b
}

/// A valid resolution order: a duplicate-free list of exactly the
/// registered names in which every migration appears strictly after each of
/// its dependencies.
pub open spec fn valid_resolution(ms: Seq<Migration>, order: Seq<Seq<char>>) -> bool {
    &&& partial_resolution(ms, order)
    &&& forall|k: int| 0 <= k < ms.len() ==> order.contains(#[trigger] ms[k].name@)
}

/// The visitation chain of the depth-first traversal: duplicate-free
/// registered names, disjoint from the resolved part, forming a dependency
/// path.
pub open spec fn chain_wf(ms: Seq<Migration>, chain: Seq<Seq<char>>, res: Seq<Seq<char>>) -> bool {
    &&& chain.no_duplicates()
    &&& forall|i: int| 0 <= i < chain.len() ==> reg_names(ms).contains(#[trigger] chain[i])
    &&& forall|i: int| 0 <= i < chain.len() ==> !res.contains(#[trigger] chain[i])
    &&& is_dep_path(ms, chain)
}

/// The index of `x` in a duplicate-free `order`; meaningful when present.
pub open spec fn position_of(order: Seq<Seq<char>>, x: Seq<char>) -> int {
    choose|j: int| 0 <= j < order.len() && order[j] == x
}

proof fn lemma_position_of(order: Seq<Seq<char>>, x: Seq<char>)
    requires
        order.no_duplicates(),
        order.contains(x),
    ensures
        0 <= position_of(order, x) < order.len(),
        order[position_of(order, x)] == x,
        forall|j: int| 0 <= j < order.len() && order[j] == x ==> j == position_of(order, x),
{
    let w = choose|j: int| 0 <= j < order.len() && order[j] == x;
    assert(order[w] == x);
}

/// Two duplicate-free name lists where the first is contained in the second
/// cannot be longer than the second.
pub proof fn lemma_no_dup_len_le(a: Seq<Seq<char>>, b: Seq<Seq<char>>)
    requires
        a.no_duplicates(),
        b.no_duplicates(),
        forall|i: int| 0 <= i < a.len() ==> b.contains(#[trigger] a[i]),
    ensures
        a.len() <= b.len(),
{
    broadcast use seq_to_set_is_finite;

    a.unique_seq_to_set();
    b.unique_seq_to_set();
    assert(a.to_set().subset_of(b.to_set())) by {
        assert forall|x: Seq<char>| a.to_set().contains(x) implies b.to_set().contains(x) by {
            assert(a.contains(x));
        }
    }
    lemma_len_subset(a.to_set(), b.to_set());
}

/// In a valid resolution order, walking any dependency path moves strictly
/// towards the front: every name on the path is in the order, and the
/// path's end comes before its start. So every migration stands after all
/// of its transitive dependencies, not only its direct ones.
pub proof fn lemma_order_respects_paths(
    ms: Seq<Migration>,
    order: Seq<Seq<char>>,
    p: Seq<Seq<char>>,
)
    requires
        valid_resolution(ms, order),
        is_dep_path(ms, p),
        p.len() >= 2,
    ensures
        forall|i: int| 0 <= i < p.len() ==> order.contains(#[trigger] p[i]),
        position_of(order, p.last()) < position_of(order, p[0]),
    decreases p.len(),
{
    assert(dep_of(ms, p[0], p[1]));
    let w = choose|i: int|
        0 <= i < ms.len() && ms[i].name@ == p[0] && ms[i].dependencies.deep_view().contains(p[1]);
    assert(order.contains(ms[w].name@));
    lemma_position_of(order, p[0]);
    let i0 = position_of(order, p[0]);
    assert(dep_of(ms, order[i0], p[1]));
    let j1 = choose|j: int| 0 <= j < i0 && order[j] == p[1];
    assert(order[j1] == p[1]);
    assert(order.contains(p[1]));
    lemma_position_of(order, p[1]);
    assert(position_of(order, p[1]) == j1);
    if p.len() == 2 {
        assert(p.last() == p[1]);
    } else {
        let rest = p.drop_first();
        assert(is_dep_path(ms, rest)) by {
            assert forall|i: int| 0 <= i < rest.len() - 1 implies dep_of(
                ms,
                #[trigger] rest[i],
                rest[i + 1],
            ) by {
                assert(rest[i] == p[i + 1]);
                assert(rest[i + 1] == p[i + 2]);
                assert(dep_of(ms, p[i + 1], p[i + 2]));
            }
        }
        lemma_order_respects_paths(ms, order, rest);
        assert(forall|i: int| 1 <= i < p.len() ==> order.contains(#[trigger] p[i])) by {
            assert(forall|i: int|
                1 <= i < p.len() ==> p[i] == #[trigger] rest[i - 1]);
        }
        assert(rest.last() == p.last());
        assert(rest[0] == p[1]);
        assert(position_of(order, p.last()) < position_of(order, p[1]));
    }
}

/// A registry with a valid resolution order has no dependency cycle: a
/// cycle would have to come strictly before itself in the order.
pub proof fn lemma_resolution_excludes_cycles(
    ms: Seq<Migration>,
    order: Seq<Seq<char>>,
    p: Seq<Seq<char>>,
)
    requires
        valid_resolution(ms, order),
    ensures
        !is_dep_cycle(ms, p),
{
    if is_dep_cycle(ms, p) {
        lemma_order_respects_paths(ms, order, p);
        assert(p.last() == p[0]);
    }
}

/// A valid resolution order leaves no dependency name unregistered: every
/// dependency of a registered migration is itself in the order, and the
/// order holds registered names only.
proof fn lemma_resolution_excludes_missing(ms: Seq<Migration>, order: Seq<Seq<char>>)
    requires
        valid_resolution(ms, order),
    ensures
        !has_missing_dep(ms),
{
    if has_missing_dep(ms) {
        let n = choose|n: Seq<char>| missing_dep(ms, n);
        let i = choose|i: int| 0 <= i < ms.len() && ms[i].dependencies.deep_view().contains(n);
        assert(order.contains(ms[i].name@));
        let t = choose|t: int| 0 <= t < order.len() && order[t] == ms[i].name@;
        assert(dep_of(ms, order[t], n));
        let j = choose|j: int| 0 <= j < t && order[j] == n;
        assert(reg_names(ms).contains(order[j]));
    }
}

impl MigrationRegistry {
    pub fn new() -> (r: Self)
        ensures
            r.migrations@ == Seq::<Migration>::empty(),
            registry_wf(r.migrations@),
    {
        let r = Self { migrations: Vec::new() };
        proof {
            assert(reg_names(r.migrations@) =~= Seq::<Seq<char>>::empty());
        }
        r
    }

    /// Register a migration under its name. A later registration under the
    /// same name replaces the earlier one in place: last write wins, and
    /// the position of the first registration is kept.
    pub fn register(&mut self, migration: Migration)
        requires
            registry_wf(old(self).migrations@),
        ensures
            registry_wf(final(self).migrations@),
            !has_name(old(self).migrations@, migration.name@) ==> final(self).migrations@ == old(
                self,
            ).migrations@.push(migration),
            has_name(old(self).migrations@, migration.name@) ==> exists|i: int|
                0 <= i < old(self).migrations@.len() && old(self).migrations@[i].name@
                    == migration.name@ && final(self).migrations@ == old(
                    self,
                ).migrations@.update(i, migration),
    {
        let ghost ms0 = self.migrations@;
        let mut i: usize = 0;
        while i < self.migrations.len()
            invariant
                0 <= i <= self.migrations@.len(),
                self.migrations@ == ms0,
                ms0 == old(self).migrations@,
                registry_wf(ms0),
                forall|j: int| 0 <= j < i ==> ms0[j].name@ != migration.name@,
            decreases self.migrations@.len() - i,
        {
            if crate::strutil::str_eq(self.migrations[i].name.as_str(), migration.name.as_str()) {
                self.migrations.remove(i);
                self.migrations.insert(i, migration);
                proof {
                    assert(self.migrations@ =~= ms0.update(i as int, migration));
                    assert(reg_names(self.migrations@) =~= reg_names(ms0).update(
                        i as int,
                        migration.name@,
                    ));
                    assert(ms0[i as int].name@ == migration.name@);
                    assert(reg_names(self.migrations@) =~= reg_names(ms0).update(
                        i as int,
                        reg_names(ms0)[i as int],
                    ));
                    assert(reg_names(self.migrations@) =~= reg_names(ms0));
                }
                return ;
            }
            i += 1;
        }
        self.migrations.push(migration);
        proof {
            assert(!has_name(ms0, migration.name@));
            assert(reg_names(self.migrations@) =~= reg_names(ms0).push(migration.name@));
            assert forall|a: int, b: int|
                0 <= a < b < reg_names(self.migrations@).len() implies reg_names(
                self.migrations@,
            )[a] != reg_names(self.migrations@)[b] by {
                if b == reg_names(ms0).len() as int {
                    assert(reg_names(ms0)[a] == ms0[a].name@);
                }
            }
        }
    }

    /// The registered migration named `name`, if any.
    pub fn get(&self, name: &str) -> (r: Option<&Migration>)
        requires
            registry_wf(self.migrations@),
        ensures
            match r {
                Some(m) => has_name(self.migrations@, name@) && *m == the_migration(
                    self.migrations@,
                    name@,
                ),
                None => !has_name(self.migrations@, name@),
            },
    {
        let mut i: usize = 0;
        while i < self.migrations.len()
            invariant
                0 <= i <= self.migrations@.len(),
                registry_wf(self.migrations@),
                forall|j: int| 0 <= j < i ==> (#[trigger] self.migrations@[j]).name@ != name@,
            decreases self.migrations@.len() - i,
        {
            if crate::strutil::str_eq(self.migrations[i].name.as_str(), name) {
                proof {
                    let w = choose|k: int|
                        0 <= k < self.migrations@.len() && self.migrations@[k].name@ == name@;
                    assert(reg_names(self.migrations@)[w] == reg_names(self.migrations@)[i as int]);
                    assert(w == i as int);
                }
                return Some(&self.migrations[i]);
            }
            i += 1;
        }
        None
    }

    /// The index of the registered migration named `name`, if any.
    fn index_of(&self, name: &str) -> (r: Option<usize>)
        ensures
            match r {
                Some(i) => i < self.migrations@.len() && self.migrations@[i as int].name@ == name@,
                None => !reg_names(self.migrations@).contains(name@),
            },
    {
        let mut i: usize = 0;
        while i < self.migrations.len()
            invariant
                0 <= i <= self.migrations@.len(),
                forall|j: int| 0 <= j < i ==> (#[trigger] self.migrations@[j]).name@ != name@,
            decreases self.migrations@.len() - i,
        {
            if crate::strutil::str_eq(self.migrations[i].name.as_str(), name) {
                return Some(i);
            }
            i += 1;
        }
        proof {
            assert forall|j: int|
                0 <= j < reg_names(self.migrations@).len() implies reg_names(self.migrations@)[j]
                != name@ by {
                assert(reg_names(self.migrations@)[j] == self.migrations@[j].name@);
            }
        }
        None
    }

    /// All registered migrations, in registration order.
    pub fn all(&self) -> (r: Vec<&Migration>)
        ensures
            r@.len() == self.migrations@.len(),
            forall|i: int| 0 <= i < r@.len() ==> *(#[trigger] r@[i]) == self.migrations@[i],
    {
        let mut r: Vec<&Migration> = Vec::new();
        let mut i: usize = 0;
        while i < self.migrations.len()
            invariant
                0 <= i <= self.migrations@.len(),
                r@.len() == i,
                forall|j: int| 0 <= j < i ==> *(#[trigger] r@[j]) == self.migrations@[j],
            decreases self.migrations@.len() - i,
        {
            r.push(&self.migrations[i]);
            i += 1;
        }
        r
    }

    pub fn len(&self) -> (r: usize)
        ensures
            r == self.migrations@.len(),
    {
        self.migrations.len()
    }

    pub fn is_empty(&self) -> (r: bool)
        ensures
            r == (self.migrations@.len() == 0),
    {
        self.migrations.len() == 0
    }

    /// A deterministic application order: registered names are traversed in
    /// registration order, and each is visited depth-first, appearing after
    /// all of its dependencies. The result is `canonical_order`, a pure
    /// function of the registered migrations, so repeated resolution is
    /// reproducible. A dependency name never registered fails with
    /// `NotFound`; a dependency cycle fails with `CircularDependency`,
    /// naming a migration on the cycle.
    #[verifier::loop_isolation(false)]
    pub fn resolve_order(&self) -> (r: Result<Vec<String>, MigrationError>)
        requires
            registry_wf(self.migrations@),
        ensures
            ({
                let ms = self.migrations@;
                match r {
                    Ok(order) => {
                        &&& valid_resolution(ms, order.deep_view())
                        &&& !has_cycle(ms)
                        &&& !has_missing_dep(ms)
                        &&& (all_deps_empty(ms) ==> order.deep_view() == reg_names(ms))
                    },
                    Err(e) => match e {
                        MigrationError::NotFound(n) => missing_dep(ms, n@),
                        MigrationError::CircularDependency(n) => exists|p: Seq<Seq<char>>|
                            is_dep_cycle(ms, p) && p.first() == n@,
                        _ => false,
                    },
                }
            }),
            has_cycle(self.migrations@) ==> !(r is Ok),
            has_missing_dep(self.migrations@) ==> !(r is Ok),
            !has_cycle(self.migrations@) && has_missing_dep(self.migrations@) ==> r matches Err(
                MigrationError::NotFound(..),
            ),
            has_cycle(self.migrations@) && !has_missing_dep(self.migrations@) ==> r matches Err(
                MigrationError::CircularDependency(..),
            ),
            !has_cycle(self.migrations@) && !has_missing_dep(self.migrations@) ==> r is Ok,
            r matches Ok(order) ==> canonical_order(self.migrations@) == Some(order.deep_view()),
    {
        let ghost ms = self.migrations@;
        let mut resolved: Vec<String> = Vec::new();
        let mut chain: Vec<String> = Vec::new();
        proof {
            assert(resolved.deep_view() =~= Seq::<Seq<char>>::empty());
            assert(chain.deep_view() =~= Seq::<Seq<char>>::empty());
        }
        let mut k: usize = 0;
        while k < self.migrations.len()
            invariant
                0 <= k <= ms.len(),
                partial_resolution(ms, resolved.deep_view()),
                chain@ == Seq::<String>::empty(),
                forall|kk: int|
                    0 <= kk < k ==> resolved.deep_view().contains(#[trigger] ms[kk].name@),
                all_deps_empty(ms) ==> resolved.deep_view() == reg_names(ms).take(k as int),
                spec_resolve_from(ms, 0, Seq::empty()) == spec_resolve_from(
                    ms,
                    k as int,
                    resolved.deep_view(),
                ),
            decreases ms.len() - k,
        {
            let ghost res_before = resolved.deep_view();
            if !vec_contains_str(&resolved, self.migrations[k].name.as_str()) {
                proof {
                    assert(chain.deep_view() =~= Seq::<Seq<char>>::empty());
                    assert(chain_wf(ms, chain.deep_view(), resolved.deep_view()));
                }
                match self.resolve_deps(k, &mut resolved, &mut chain) {
                    Ok(()) => {
                        proof {
                            assert(chain@ =~= Seq::<String>::empty());
                            assert(spec_visit(ms, k as int, res_before, Seq::empty()) == Some(
                                resolved.deep_view(),
                            ));
                            assert(spec_resolve_from(ms, k as int, res_before)
                                == spec_resolve_from(ms, k + 1, resolved.deep_view()));
                        }
                    },
                    Err(e) => {
                        return Err(e);
                    },
                }
            } else {
                proof {
                    assert(res_before.contains(ms[k as int].name@));
                    assert(spec_resolve_from(ms, k as int, res_before) == spec_resolve_from(
                        ms,
                        k + 1,
                        res_before,
                    ));
                    if all_deps_empty(ms) {
                        let j = choose|j: int|
                            0 <= j < res_before.len() && res_before[j] == ms[k as int].name@;
                        assert(reg_names(ms).take(k as int)[j] == reg_names(ms)[j]);
                        assert(reg_names(ms)[j] == reg_names(ms)[k as int]);
                    }
                }
            }
            proof {
                if all_deps_empty(ms) {
                    assert(reg_names(ms).take(k + 1).drop_last() =~= reg_names(ms).take(k as int));
                    assert(reg_names(ms).take(k + 1) =~= reg_names(ms).take(k as int).push(
                        ms[k as int].name@,
                    ));
                }
            }
            k += 1;
        }
        proof {
            assert(valid_resolution(ms, resolved.deep_view()));
            if has_cycle(ms) {
                let p = choose|p: Seq<Seq<char>>| is_dep_cycle(ms, p);
                lemma_resolution_excludes_cycles(ms, resolved.deep_view(), p);
            }
            lemma_resolution_excludes_missing(ms, resolved.deep_view());
            if all_deps_empty(ms) {
                assert(reg_names(ms).take(ms.len() as int) =~= reg_names(ms));
            }
            assert(spec_resolve_from(ms, ms.len() as int, resolved.deep_view()) == Some(
                resolved.deep_view(),
            ));
            assert(canonical_order(ms) == Some(resolved.deep_view()));
        }
        Ok(resolved)
    }

    /// One depth-first visit: ensure every transitive dependency of the
    /// migration at `idx` stands in `resolved`, then append its own name.
    /// `chain` holds the names currently being visited, from the root down
    /// to this one; meeting one of them again is a dependency cycle.
    #[verifier::loop_isolation(false)]
    fn resolve_deps(&self, idx: usize, resolved: &mut Vec<String>, chain: &mut Vec<String>) -> (r:
        Result<(), MigrationError>)
        requires
            registry_wf(self.migrations@),
            idx < self.migrations@.len(),
            chain_wf(self.migrations@, old(chain).deep_view(), old(resolved).deep_view()),
            partial_resolution(self.migrations@, old(resolved).deep_view()),
            old(chain).deep_view().len() > 0 ==> dep_of(
                self.migrations@,
                old(chain).deep_view().last(),
                self.migrations@[idx as int].name@,
            ),
            !old(chain).deep_view().contains(self.migrations@[idx as int].name@),
            !old(resolved).deep_view().contains(self.migrations@[idx as int].name@),
        ensures
            ({
                let ms = self.migrations@;
                match r {
                    Ok(()) => {
                        &&& final(chain)@ == old(chain)@
                        &&& partial_resolution(ms, final(resolved).deep_view())
                        &&& chain_wf(ms, final(chain).deep_view(), final(resolved).deep_view())
                        &&& final(resolved).deep_view().contains(ms[idx as int].name@)
                        &&& (forall|x: Seq<char>|
                            old(resolved).deep_view().contains(x)
                                ==> final(resolved).deep_view().contains(x))
                        &&& (all_deps_empty(ms) ==> final(resolved).deep_view()
                            == old(resolved).deep_view().push(ms[idx as int].name@))
                    },
                    Err(e) => match e {
                        MigrationError::NotFound(n) => missing_dep(ms, n@),
                        MigrationError::CircularDependency(n) => exists|p: Seq<Seq<char>>|
                            is_dep_cycle(ms, p) && p.first() == n@,
                        _ => false,
                    },
                }
            }),
            r is Ok ==> spec_visit(
                self.migrations@,
                idx as int,
                old(resolved).deep_view(),
                old(chain).deep_view(),
            ) == Some(final(resolved).deep_view()),
        decreases self.migrations@.len() - old(chain)@.len(),
    {
        let ghost ms = self.migrations@;
        let ghost name_v = ms[idx as int].name@;
        let ghost res0 = resolved.deep_view();
        chain.push(self.migrations[idx].name.clone());
        proof {
            assert(chain@ == old(chain)@.push(ms[idx as int].name));
            assert(chain.deep_view() =~= old(chain).deep_view().push(name_v));
            assert(reg_names(ms)[idx as int] == name_v);
            assert(reg_names(ms).contains(name_v));
            assert(chain.deep_view().no_duplicates()) by {
                assert(forall|i: int|
                    0 <= i < old(chain).deep_view().len() ==> #[trigger] old(
                        chain,
                    ).deep_view()[i] != name_v);
            }
            assert(is_dep_path(ms, chain.deep_view())) by {
                assert forall|i: int| 0 <= i < chain.deep_view().len() - 1 implies dep_of(
                    ms,
                    #[trigger] chain.deep_view()[i],
                    chain.deep_view()[i + 1],
                ) by {
                    if i < old(chain).deep_view().len() - 1 {
                        assert(chain.deep_view()[i] == old(chain).deep_view()[i]);
                        assert(chain.deep_view()[i + 1] == old(chain).deep_view()[i + 1]);
                        assert(dep_of(ms, old(chain).deep_view()[i], old(chain).deep_view()[i + 1]));
                    } else {
                        assert(chain.deep_view()[i] == old(chain).deep_view().last());
                        assert(chain.deep_view()[i + 1] == name_v);
                    }
                }
            }
        }
        let ghost chain1 = chain.deep_view();
        let mut di: usize = 0;
        while di < self.migrations[idx].dependencies.len()
            invariant
                0 <= di <= ms[idx as int].dependencies@.len(),
                chain@ == old(chain)@.push(ms[idx as int].name),
                chain.deep_view() == chain1,
                partial_resolution(ms, resolved.deep_view()),
                chain_wf(ms, chain1, resolved.deep_view()),
                forall|x: Seq<char>|
                    old(resolved).deep_view().contains(x) ==> resolved.deep_view().contains(x),
                forall|j: int|
                    0 <= j < di ==> resolved.deep_view().contains(
                        #[trigger] ms[idx as int].dependencies.deep_view()[j],
                    ),
                all_deps_empty(ms) ==> resolved.deep_view() == old(resolved).deep_view(),
                spec_visit_deps(ms, idx as int, 0, res0, chain1) == spec_visit_deps(
                    ms,
                    idx as int,
                    di as int,
                    resolved.deep_view(),
                    chain1,
                ),
            decreases ms[idx as int].dependencies@.len() - di,
        {
            let ghost res_head = resolved.deep_view();
            let dep: &String = &self.migrations[idx].dependencies[di];
            proof {
                assert(dep@ == ms[idx as int].dependencies.deep_view()[di as int]);
                assert(ms[idx as int].dependencies.deep_view().contains(dep@));
                assert(dep_of(ms, name_v, dep@));
            }
            if vec_contains_str(chain, dep.as_str()) {
                proof {
                    let j = choose|j: int| 0 <= j < chain1.len() && chain1[j] == dep@;
                    let p = chain1.subrange(j, chain1.len() as int).push(dep@);
                    assert(p[0] == chain1[j]);
                    assert(p[p.len() - 1] == dep@);
                    assert(chain1.last() == name_v);
                    assert(is_dep_path(ms, p)) by {
                        assert forall|i: int| 0 <= i < p.len() - 1 implies dep_of(
                            ms,
                            #[trigger] p[i],
                            p[i + 1],
                        ) by {
                            if i < p.len() - 2 {
                                assert(p[i] == chain1[j + i]);
                                assert(p[i + 1] == chain1[j + i + 1]);
                                assert(dep_of(ms, chain1[j + i], chain1[j + i + 1]));
                            } else {
                                assert(p[i] == chain1[chain1.len() - 1]);
                            }
                        }
                    }
                    assert(is_dep_cycle(ms, p) && p.first() == dep@);
                }
                return Err(MigrationError::CircularDependency(dep.clone()));
            }
            if vec_contains_str(resolved, dep.as_str()) {
                proof {
                    assert(visit_deps_wf(ms, idx as int, di as int, chain1));
                    assert(spec_visit_deps(ms, idx as int, di as int, res_head, chain1)
                        == spec_visit_deps(ms, idx as int, di + 1, res_head, chain1));
                }
            } else {
                match self.index_of(dep.as_str()) {
                    None => {
                        proof {
                            assert(missing_dep(ms, dep@));
                        }
                        return Err(MigrationError::NotFound(dep.clone()));
                    },
                    Some(dep_idx) => {
                        proof {
                            lemma_no_dup_len_le(chain1, reg_names(ms));
                        }
                        let result = self.resolve_deps(dep_idx, resolved, chain);
                        match result {
                            Ok(()) => {
                                proof {
                                    assert(resolved.deep_view().contains(
                                        ms[dep_idx as int].name@,
                                    ));
                                    assert(ms[dep_idx as int].name@ == dep@);
                                    assert(name_index(ms, dep@) == dep_idx as int) by {
                                        let w = choose|w: int|
                                            0 <= w < ms.len() && ms[w].name@ == dep@;
                                        assert(reg_names(ms)[w] == reg_names(ms)[dep_idx as int]);
                                    }
                                    assert(reg_names(ms)[dep_idx as int] == dep@);
                                    assert(reg_names(ms).contains(dep@));
                                    assert(visit_deps_wf(ms, idx as int, di as int, chain1));
                                    assert(spec_visit(ms, dep_idx as int, res_head, chain1)
                                        == Some(resolved.deep_view()));
                                    assert(spec_visit_deps(ms, idx as int, di as int, res_head, chain1)
                                        == spec_visit_deps(
                                        ms,
                                        idx as int,
                                        di + 1,
                                        resolved.deep_view(),
                                        chain1,
                                    ));
                                }
                            },
                            Err(e) => {
                                return Err(e);
                            },
                        }
                    },
                }
            }
            di += 1;
        }
        proof {
            assert(visit_deps_wf(ms, idx as int, ms[idx as int].dependencies@.len() as int, chain1));
            assert(spec_visit_deps(
                ms,
                idx as int,
                ms[idx as int].dependencies@.len() as int,
                resolved.deep_view(),
                chain1,
            ) == Some(resolved.deep_view()));
        }
        let popped = chain.pop();
        proof {
            assert(chain@ =~= old(chain)@);
            assert(chain.deep_view() =~= old(chain).deep_view());
        }
        let own_name = self.migrations[idx].name.clone();
        let ghost res_done = resolved.deep_view();
        proof {
            assert(chain1[chain1.len() - 1] == name_v);
            assert(chain1.contains(name_v));
            assert(!res_done.contains(name_v));
        }
        if !vec_contains_str(resolved, own_name.as_str()) {
            resolved.push(own_name);
        }
        proof {
            assert(resolved.deep_view() =~= res_done.push(name_v));
            let res1 = resolved.deep_view();
            assert(partial_resolution(ms, res1)) by {
                assert(res1.no_duplicates()) by {
                    assert(forall|i: int|
                        0 <= i < res_done.len() ==> #[trigger] res_done[i] != name_v);
                }
                assert forall|i: int, b: Seq<char>|
                    0 <= i < res1.len() && #[trigger] dep_of(ms, res1[i], b) implies exists|j: int|
                    0 <= j < i && res1[j] == b by {
                    if i < res_done.len() {
                        assert(res_done[i] == res1[i]);
                        assert(dep_of(ms, res_done[i], b));
                        let j2 = choose|j2: int| 0 <= j2 < i && res_done[j2] == b;
                        assert(res1[j2] == b);
                    } else {
                        assert(res1[i] == name_v);
                        let w = choose|w: int|
                            0 <= w < ms.len() && ms[w].name@ == name_v
                                && ms[w].dependencies.deep_view().contains(b);
                        assert(reg_names(ms)[w] == reg_names(ms)[idx as int]);
                        assert(w == idx as int);
                        let j0 = choose|j0: int|
                            0 <= j0 < ms[idx as int].dependencies.deep_view().len()
                                && ms[idx as int].dependencies.deep_view()[j0] == b;
                        assert(res_done.contains(b));
                        let j = choose|j: int| 0 <= j < res_done.len() && res_done[j] == b;
                        assert(res1[j] == b);
                    }
                }
            }
            assert(chain_wf(ms, old(chain).deep_view(), res1)) by {
                assert forall|i: int| 0 <= i < old(chain).deep_view().len() implies !res1.contains(
                    #[trigger] old(chain).deep_view()[i],
                ) by {
                    assert(old(chain).deep_view()[i] == chain1[i]);
                    assert(!res_done.contains(chain1[i]));
                    assert(chain1[i] != name_v) by {
                        assert(chain1[chain1.len() - 1] == name_v);
                    }
                    if res1.contains(chain1[i]) {
                        let j = choose|j: int| 0 <= j < res1.len() && res1[j] == chain1[i];
                        if j < res_done.len() {
                            assert(res_done[j] == chain1[i]);
                        }
                    }
                }
                assert(is_dep_path(ms, old(chain).deep_view())) by {
                    assert forall|i: int|
                        0 <= i < old(chain).deep_view().len() - 1 implies dep_of(
                        ms,
                        #[trigger] old(chain).deep_view()[i],
                        old(chain).deep_view()[i + 1],
                    ) by {
                        assert(old(chain).deep_view()[i] == chain1[i]);
                        assert(old(chain).deep_view()[i + 1] == chain1[i + 1]);
                        assert(dep_of(ms, chain1[i], chain1[i + 1]));
                    }
                }
            }
            assert(res1[res_done.len() as int] == name_v);
            assert(res1.contains(name_v));
            assert(visit_wf(ms, idx as int, old(chain).deep_view()));
            assert(chain1 == old(chain).deep_view().push(ms[idx as int].name@));
            assert(spec_visit_deps(ms, idx as int, 0, res0, chain1) == Some(res_done));
            assert(spec_visit(ms, idx as int, res0, old(chain).deep_view()) == Some(res1));
            assert forall|x: Seq<char>|
                old(resolved).deep_view().contains(x) implies res1.contains(x) by {
                assert(res_done.contains(x));
                let j = choose|j: int| 0 <= j < res_done.len() && res_done[j] == x;
                assert(res1[j] == x);
            }
        }
        Ok(())
    }
}

/// The position of the registered migration bearing `name`; meaningful
/// when the registry is well-formed and some migration bears it.
pub open spec fn name_index(ms: Seq<Migration>, name: Seq<char>) -> int {
    choose|w: int| 0 <= w < ms.len() && ms[w].name@ == name
}

/// What `spec_visit` assumes of its arguments: a well-formed registry, a
/// migration in range, and a duplicate-free chain of registered names not
/// yet holding that migration's name.
pub open spec fn visit_wf(ms: Seq<Migration>, idx: int, chain: Seq<Seq<char>>) -> bool {
    &&& registry_wf(ms)
    &&& 0 <= idx < ms.len()
    &&& chain.no_duplicates()
    &&& (forall|i: int| 0 <= i < chain.len() ==> reg_names(ms).contains(#[trigger] chain[i]))
    &&& !chain.contains(ms[idx].name@)
}

/// What `spec_visit_deps` assumes of its arguments.
pub open spec fn visit_deps_wf(ms: Seq<Migration>, idx: int, j: int, chain1: Seq<Seq<char>>) -> bool {
    &&& registry_wf(ms)
    &&& 0 <= idx < ms.len()
    &&& 0 <= j <= ms[idx].dependencies.deep_view().len()
    &&& chain1.no_duplicates()
    &&& (forall|i: int| 0 <= i < chain1.len() ==> reg_names(ms).contains(#[trigger] chain1[i]))
}

/// The canonical depth-first visit of the migration at `idx`, mirrored at
/// the specification level: its dependencies are visited in list order,
/// then its own name is appended to `resolved`. `None` where a name on the
/// current chain is met again (a cycle) or a dependency is unregistered.
pub open spec fn spec_visit(
    ms: Seq<Migration>,
    idx: int,
    resolved: Seq<Seq<char>>,
    chain: Seq<Seq<char>>,
) -> Option<Seq<Seq<char>>>
    decreases ms.len() - chain.len(), 1int, 0int,
        when visit_wf(ms, idx, chain)
{
    match spec_visit_deps(ms, idx, 0, resolved, chain.push(ms[idx].name@)) {
        Some(r) => Some(r.push(ms[idx].name@)),
        None => None,
    }
}

/// The canonical visit of the dependency list of the migration at `idx`,
/// from position `j` on, with `chain1` the visitation chain including that
/// migration's own name.
pub open spec fn spec_visit_deps(
    ms: Seq<Migration>,
    idx: int,
    j: int,
    resolved: Seq<Seq<char>>,
    chain1: Seq<Seq<char>>,
) -> Option<Seq<Seq<char>>>
    decreases ms.len() - chain1.len() + 1, 0int, ms[idx].dependencies.deep_view().len() - j,
        when visit_deps_wf(ms, idx, j, chain1)
{
    let deps = ms[idx].dependencies.deep_view();
    if j >= deps.len() {
        Some(resolved)
    } else {
        let dep = deps[j];
        if chain1.contains(dep) {
            None
        } else if resolved.contains(dep) {
            spec_visit_deps(ms, idx, j + 1, resolved, chain1)
        } else if !reg_names(ms).contains(dep) {
            None
        } else {
            proof {
                lemma_no_dup_len_le(chain1, reg_names(ms));
                let w = choose|w: int|
                    0 <= w < reg_names(ms).len() && reg_names(ms)[w] == deps[j];
                assert(ms[name_index(ms, deps[j])].name@ == deps[j]);
            }
            match spec_visit(ms, name_index(ms, dep), resolved, chain1) {
                Some(r2) => spec_visit_deps(ms, idx, j + 1, r2, chain1),
                None => None,
            }
        }
    }
}

/// The canonical resolution from root position `k` on: each registered name
/// not yet resolved is visited depth-first, in registration order.
pub open spec fn spec_resolve_from(ms: Seq<Migration>, k: int, resolved: Seq<Seq<char>>) -> Option<
    Seq<Seq<char>>,
>
    decreases ms.len() - k,
        when registry_wf(ms) && 0 <= k <= ms.len()
{
    if k >= ms.len() {
        Some(resolved)
    } else if resolved.contains(ms[k].name@) {
        spec_resolve_from(ms, k + 1, resolved)
    } else {
        match spec_visit(ms, k, resolved, Seq::empty()) {
            Some(r) => spec_resolve_from(ms, k + 1, r),
            None => None,
        }
    }
}

/// The one order `resolve_order` yields on a well-formed registry: the
/// deterministic depth-first resolution, a pure function of the registered
/// migrations. `None` exactly where resolution fails.
pub open spec fn canonical_order(ms: Seq<Migration>) -> Option<Seq<Seq<char>>> {
    spec_resolve_from(ms, 0, Seq::empty())
}

/// Everything that can go wrong while planning or executing migrations.
#[derive(Debug, Clone, PartialEq)]
pub enum MigrationError {
    NotFound(String),
    CircularDependency(String),
    NotReversible(String),
    ExecutionFailed { migration: String, error: String, completed: Vec<String> },
}

/// The human-readable message of an error.
pub open spec fn error_message(e: MigrationError) -> Seq<char> {
    match e {
        MigrationError::NotFound(name) => "Migration not found: "@ + name@,
        MigrationError::CircularDependency(name) => "Circular dependency detected at: "@ + name@,
        MigrationError::NotReversible(name) => "Migration is not reversible: "@ + name@,
        MigrationError::ExecutionFailed { migration, error, completed } => if completed@.len()
            == 0 {
            "Migration "@ + migration@ + " failed: "@ + error@
        } else {
            "Migration "@ + migration@ + " failed: "@ + error@ + " (completed: "@
                + crate::strutil::joined(completed.deep_view(), ", "@) + ")"@
        },
    }
}

impl MigrationError {
    /// The human-readable message of this error.
    pub fn message(&self) -> (r: String)
        ensures
            r@ == error_message(*self),
    {
        match self {
            MigrationError::NotFound(name) => {
                let mut out = String::from_str("Migration not found: ");
                out.append(name.as_str());
                out
            },
            MigrationError::CircularDependency(name) => {
                let mut out = String::from_str("Circular dependency detected at: ");
                out.append(name.as_str());
                out
            },
            MigrationError::NotReversible(name) => {
                let mut out = String::from_str("Migration is not reversible: ");
                out.append(name.as_str());
                out
            },
            MigrationError::ExecutionFailed { migration, error, completed } => {
                let mut out = String::from_str("Migration ");
                out.append(migration.as_str());
                out.append(" failed: ");
                out.append(error.as_str());
                if completed.len() > 0 {
                    out.append(" (completed: ");
                    out.append(join_comma_space(completed).as_str());
                    out.append(")");
                }
                out
            },
        }
    }
}

} // verus!
