use vstd::prelude::*;
use vstd::pervasive::unreached;
use vstd::string::*;

use crate::backend::{spec_supports_transactional_ddl, Backend, Dialect};
use crate::migration::{
    canonical_order, has_cycle, has_missing_dep, has_name, migration_backward_stmts,
    migration_forward_stmts, migration_renderable, migration_reversible, missing_dep,
    is_dep_cycle, registry_wf, reg_names, the_migration, valid_resolution, Migration,
    MigrationError, MigrationRegistry,
};
use crate::strutil::vec_contains_str;

verus! {

/// Externally-kept record of which migrations have been applied. The order
/// reported must be stable and consistent with application order, and
/// marking is idempotent: marking an applied name applied again, or an
/// unapplied name unapplied again, changes nothing.
pub trait MigrationStateStore: Sized {
    /// The names currently recorded as applied, in application order. An
    /// unverified store compiles without overriding this; a verified store
    /// overrides it, since the method contracts below speak of it.
    open spec fn applied_view(&self) -> Seq<Seq<char>> {
        Seq::empty()
    }

    fn applied_migrations(&mut self) -> (r: Result<Vec<String>, String>)
        ensures
            final(self).applied_view() == old(self).applied_view(),
            r matches Ok(v) ==> v.deep_view() == old(self).applied_view(),
    ;

    fn mark_applied(&mut self, name: &str) -> (r: Result<(), String>)
        ensures
            r is Ok ==> final(self).applied_view() == spec_mark_applied(
                old(self).applied_view(),
                name@,
            ),
    ;

    fn mark_unapplied(&mut self, name: &str) -> (r: Result<(), String>)
        ensures
            r is Ok ==> final(self).applied_view() == without_name(
                old(self).applied_view(),
                name@,
            ),
    ;
}

/// Recording an applied name: appended once, never twice.
pub open spec fn spec_mark_applied(applied: Seq<Seq<char>>, name: Seq<char>) -> Seq<Seq<char>> {
    if applied.contains(name) {
        applied
    } else {
        applied.push(name)
    }
}

/// `applied` with every occurrence of `name` removed, order kept.
pub open spec fn without_name(applied: Seq<Seq<char>>, name: Seq<char>) -> Seq<Seq<char>>
    decreases applied.len(),
{
    if applied.len() == 0 {
        Seq::empty()
    } else if applied.last() == name {
        without_name(applied.drop_last(), name)
    } else {
        without_name(applied.drop_last(), name).push(applied.last())
    }
}

/// Removing each name of `names` from `applied`, in order.
pub open spec fn without_all(applied: Seq<Seq<char>>, names: Seq<Seq<char>>) -> Seq<Seq<char>>
    decreases names.len(),
{
    if names.len() == 0 {
        applied
    } else {
        without_name(without_all(applied, names.drop_last()), names.last())
    }
}

/// A caller-supplied sink that runs one SQL statement at a time against the
/// target database. Its abstract log records every statement handed to it,
/// whether or not the statement succeeded.
pub trait SqlExecutor: Sized {
    /// The statements handed to this executor so far, each paired with
    /// whether the executor accepted it. An unverified executor compiles
    /// without overriding this; a verified one overrides it, since
    /// `execute`'s contract speaks of it.
    open spec fn executed(&self) -> Seq<(Seq<char>, bool)> {
        Seq::empty()
    }

    fn execute(&mut self, sql: &str) -> (r: Result<(), String>)
        ensures
            final(self).executed() == old(self).executed().push((sql@, r is Ok)),
    ;
}

/// One transaction-control call.
#[derive(Debug, Clone, Copy, PartialEq, Eq, Structural)]
pub enum TxEvent {
    Begin,
    Commit,
    Rollback,
}

/// Caller-supplied transaction control. Its abstract log records every
/// begin, commit and rollback issued, whether or not the call succeeded.
pub trait TransactionControl: Sized {
    /// The transaction-control calls issued so far. An unverified
    /// controller compiles without overriding this; a verified one
    /// overrides it, since the method contracts below speak of it.
    open spec fn events(&self) -> Seq<TxEvent> {
        Seq::empty()
    }

    fn begin(&mut self) -> (r: Result<(), String>)
        ensures
            final(self).events() == old(self).events().push(TxEvent::Begin),
    ;

    fn commit(&mut self) -> (r: Result<(), String>)
        ensures
            final(self).events() == old(self).events().push(TxEvent::Commit),
    ;

    fn rollback(&mut self) -> (r: Result<(), String>)
        ensures
            final(self).events() == old(self).events().push(TxEvent::Rollback),
    ;
}

/// Transaction control that does nothing and always succeeds; used when
/// migrating without transaction support.
pub struct NoTransactions {
    pub history: Ghost<Seq<TxEvent>>,
}

impl NoTransactions {
    pub fn new() -> (r: Self)
        ensures
            r.events() == Seq::<TxEvent>::empty(),
    {
        NoTransactions { history: Ghost(Seq::empty()) }
    }
}

impl TransactionControl for NoTransactions {
    open spec fn events(&self) -> Seq<TxEvent> {
        self.history@
    }

    fn begin(&mut self) -> (r: Result<(), String>) {
        self.history = Ghost(self.history@.push(TxEvent::Begin));
        Ok(())
    }

    fn commit(&mut self) -> (r: Result<(), String>) {
        self.history = Ghost(self.history@.push(TxEvent::Commit));
        Ok(())
    }

    fn rollback(&mut self) -> (r: Result<(), String>) {
        self.history = Ghost(self.history@.push(TxEvent::Rollback));
        Ok(())
    }
}

/// The names of `order` that are not in `applied`, order preserved.
pub open spec fn filter_out(order: Seq<Seq<char>>, applied: Seq<Seq<char>>) -> Seq<Seq<char>>
    decreases order.len(),
{
    if order.len() == 0 {
        Seq::empty()
    } else if applied.contains(order.last()) {
        filter_out(order.drop_last(), applied)
    } else {
        filter_out(order.drop_last(), applied).push(order.last())
    }
}

/// The names of `order` that are in `applied`, order preserved.
pub open spec fn filter_in(order: Seq<Seq<char>>, applied: Seq<Seq<char>>) -> Seq<Seq<char>>
    decreases order.len(),
{
    if order.len() == 0 {
        Seq::empty()
    } else if applied.contains(order.last()) {
        filter_in(order.drop_last(), applied).push(order.last())
    } else {
        filter_in(order.drop_last(), applied)
    }
}

/// The index of the first occurrence of `x` in `s`; meaningful when `s`
/// holds `x`.
pub open spec fn first_index_of(s: Seq<Seq<char>>, x: Seq<char>) -> int
    decreases s.len(),
{
    if s.len() == 0 {
        0
    } else if s[0] == x {
        0
    } else {
        1 + first_index_of(s.drop_first(), x)
    }
}

/// The rollback candidates: the resolved order reversed and restricted to
/// applied names; with a target that occurs in that list, cut immediately
/// after the target; with one that does not, the whole list.
pub open spec fn backward_candidates(
    order: Seq<Seq<char>>,
    applied: Seq<Seq<char>>,
    target: Option<Seq<char>>,
) -> Seq<Seq<char>> {
    let base = filter_in(order.reverse(), applied);
    match target {
        None => base,
        Some(t) => if base.contains(t) {
            base.take(first_index_of(base, t) + 1)
        } else {
            base
        },
    }
}

/// Whether `planv` is the forward plan for some valid resolution order:
/// that order with the applied names removed, order preserved.
pub open spec fn forward_plan_matches(
    ms: Seq<Migration>,
    applied0: Seq<Seq<char>>,
    planv: Seq<Seq<char>>,
) -> bool {
    exists|order: Seq<Seq<char>>|
        #[trigger] valid_resolution(ms, order) && planv == filter_out(order, applied0)
}

/// The rollback target as a character sequence, if one was given.
pub open spec fn target_view(target: Option<&str>) -> Option<Seq<char>> {
    match target {
        Some(t) => Some(t@),
        None => None,
    }
}

/// Whether `planv` is the backward plan for some valid resolution order:
/// its rollback candidates for the applied set and target.
pub open spec fn backward_plan_matches(
    ms: Seq<Migration>,
    applied0: Seq<Seq<char>>,
    targetv: Option<Seq<char>>,
    planv: Seq<Seq<char>>,
) -> bool {
    exists|order: Seq<Seq<char>>|
        #[trigger] valid_resolution(ms, order) && planv == backward_candidates(
            order,
            applied0,
            targetv,
        )
}

/// Whether every plan name is registered, reversible, and safe to look up.
pub open spec fn all_candidates_reversible(ms: Seq<Migration>, planv: Seq<Seq<char>>) -> bool {
    forall|i: int|
        0 <= i < planv.len() ==> has_name(ms, #[trigger] planv[i]) && migration_reversible(
            the_migration(ms, planv[i]),
        )
}

/// Whether a forward plan's names are duplicate-free, registered, and not
/// yet applied.
pub open spec fn forward_plan_names_ok(
    ms: Seq<Migration>,
    applied0: Seq<Seq<char>>,
    planv: Seq<Seq<char>>,
) -> bool {
    planv.no_duplicates() && forall|i: int|
        0 <= i < planv.len() ==> reg_names(ms).contains(#[trigger] planv[i])
            && !applied0.contains(planv[i])
}

proof fn lemma_contains_split(s: Seq<Seq<char>>, x: Seq<char>)
    requires
        s.len() > 0,
    ensures
        s.contains(x) <==> (s.drop_last().contains(x) || s.last() == x),
{
    if s.contains(x) {
        let i = choose|i: int| 0 <= i < s.len() && s[i] == x;
        if i < s.len() - 1 {
            assert(s.drop_last()[i] == x);
        }
    }
    if s.drop_last().contains(x) {
        let i = choose|i: int| 0 <= i < s.drop_last().len() && s.drop_last()[i] == x;
        assert(s[i] == x);
    }
    if s.last() == x {
        assert(s[s.len() - 1] == x);
    }
}

/// A name comes out of `filter_out` exactly when it is in the order and not
/// applied.
proof fn lemma_filter_out_membership(order: Seq<Seq<char>>, applied: Seq<Seq<char>>, x: Seq<char>)
    ensures
        filter_out(order, applied).contains(x) <==> (order.contains(x) && !applied.contains(x)),
    decreases order.len(),
{
    if order.len() == 0 {
        assert(!order.contains(x));
        assert(!filter_out(order, applied).contains(x));
    } else {
        lemma_filter_out_membership(order.drop_last(), applied, x);
        lemma_contains_split(order, x);
        let sub = filter_out(order.drop_last(), applied);
        if !applied.contains(order.last()) {
            lemma_contains_split(sub.push(order.last()), x);
            assert(sub.push(order.last()).drop_last() =~= sub);
        }
    }
}

/// A name comes out of `filter_in` exactly when it is in the order and
/// applied.
proof fn lemma_filter_in_membership(order: Seq<Seq<char>>, applied: Seq<Seq<char>>, x: Seq<char>)
    ensures
        filter_in(order, applied).contains(x) <==> (order.contains(x) && applied.contains(x)),
    decreases order.len(),
{
    if order.len() == 0 {
        assert(!order.contains(x));
        assert(!filter_in(order, applied).contains(x));
    } else {
        lemma_filter_in_membership(order.drop_last(), applied, x);
        lemma_contains_split(order, x);
        let sub = filter_in(order.drop_last(), applied);
        if applied.contains(order.last()) {
            lemma_contains_split(sub.push(order.last()), x);
            assert(sub.push(order.last()).drop_last() =~= sub);
        }
    }
}

/// Filtering a duplicate-free order keeps it duplicate-free.
proof fn lemma_filter_out_no_dup(order: Seq<Seq<char>>, applied: Seq<Seq<char>>)
    requires
        order.no_duplicates(),
    ensures
        filter_out(order, applied).no_duplicates(),
    decreases order.len(),
{
    if order.len() > 0 {
        assert(order.drop_last().no_duplicates());
        lemma_filter_out_no_dup(order.drop_last(), applied);
        if !applied.contains(order.last()) {
            lemma_filter_out_membership(order.drop_last(), applied, order.last());
            assert(!order.drop_last().contains(order.last())) by {
                if order.drop_last().contains(order.last()) {
                    let i = choose|i: int|
                        0 <= i < order.drop_last().len() && order.drop_last()[i] == order.last();
                    assert(order[i] == order[order.len() - 1]);
                }
            }
            let sub = filter_out(order.drop_last(), applied);
            assert(sub.push(order.last()).no_duplicates()) by {
                assert(forall|i: int| 0 <= i < sub.len() ==> #[trigger] sub[i] != order.last());
            }
        }
    }
}

/// Scanning for the first match pins down `first_index_of`.
proof fn lemma_first_index_of(s: Seq<Seq<char>>, x: Seq<char>, i: int)
    requires
        0 <= i < s.len(),
        s[i] == x,
        forall|j: int| 0 <= j < i ==> s[j] != x,
    ensures
        first_index_of(s, x) == i,
    decreases i,
{
    if i > 0 {
        assert(s[0] != x);
        lemma_first_index_of(s.drop_first(), x, i - 1);
    }
}

/// The first index of a held name is in bounds and hits the name.
proof fn lemma_first_index_bounds(s: Seq<Seq<char>>, x: Seq<char>)
    requires
        s.contains(x),
    ensures
        0 <= first_index_of(s, x) < s.len(),
        s[first_index_of(s, x)] == x,
    decreases s.len(),
{
    if s[0] == x {
    } else {
        assert(s.drop_first().contains(x)) by {
            let i = choose|i: int| 0 <= i < s.len() && s[i] == x;
            assert(s.drop_first()[i - 1] == x);
        }
        lemma_first_index_bounds(s.drop_first(), x);
    }
}

/// A named plan: what would be applied going forward and unapplied going
/// backward.
pub struct MigrationPlan<'a> {
    pub to_apply: Vec<&'a str>,
    pub to_unapply: Vec<&'a str>,
}

/// The execution engine: plans against a registry and an externally-kept
/// applied set, renders statements through a backend, and drives the
/// transactional execution loop.
pub struct Migrator<'a, B: Backend, S: MigrationStateStore> {
    pub registry: &'a MigrationRegistry,
    pub backend: &'a B,
    pub state: S,
}

impl<'a, B: Backend, S: MigrationStateStore> Migrator<'a, B, S> {
    pub fn new(registry: &'a MigrationRegistry, backend: &'a B, state: S) -> (r: Self)
        ensures
            r.registry == registry,
            r.backend == backend,
            r.state == state,
    {
        Self { registry, backend, state }
    }

    pub fn state(&self) -> (r: &S)
        ensures
            *r == self.state,
    {
        &self.state
    }

    pub fn state_mut(&mut self) -> (r: &mut S)
        ensures
            *r == old(self).state,
            final(self).state == *final(r),
            final(self).registry == old(self).registry,
            final(self).backend == old(self).backend,
    {
        &mut self.state
    }

    pub fn into_state(self) -> (r: S)
        ensures
            r == self.state,
    {
        self.state
    }

    /// The names to apply: the resolved order with the already-applied
    /// names removed, order preserved.
    #[verifier::loop_isolation(false)]
    pub fn plan_forward(&mut self) -> (r: Result<Vec<String>, MigrationError>)
        requires
            registry_wf(old(self).registry.migrations@),
        ensures
            final(self).registry == old(self).registry,
            final(self).backend == old(self).backend,
            final(self).state.applied_view() == old(self).state.applied_view(),
            r matches Ok(plan) ==> forward_plan_matches(
                old(self).registry.migrations@,
                old(self).state.applied_view(),
                plan.deep_view(),
            ) && forward_plan_names_ok(
                old(self).registry.migrations@,
                old(self).state.applied_view(),
                plan.deep_view(),
            ),
            r matches Ok(plan) ==> (canonical_order(old(self).registry.migrations@) matches Some(
            order) && plan.deep_view() == filter_out(order, old(self).state.applied_view())),
            r matches Err(MigrationError::NotFound(n)) ==> missing_dep(
                old(self).registry.migrations@,
                n@,
            ),
            r matches Err(MigrationError::CircularDependency(n)) ==> exists|p: Seq<Seq<char>>|
                is_dep_cycle(old(self).registry.migrations@, p) && p.first() == n@,
            r matches Err(MigrationError::ExecutionFailed { migration, error: _, completed })
                ==> migration@ == "state"@ && completed.deep_view() == Seq::<Seq<char>>::empty(),
            !(r matches Err(MigrationError::NotReversible(_))),
            r is Ok ==> !has_cycle(old(self).registry.migrations@) && !has_missing_dep(
                old(self).registry.migrations@,
            ),
            r matches Err(MigrationError::ExecutionFailed { .. }) ==> !has_cycle(
                old(self).registry.migrations@,
            ) && !has_missing_dep(old(self).registry.migrations@),
            has_cycle(old(self).registry.migrations@) && !has_missing_dep(
                old(self).registry.migrations@,
            ) ==> r matches Err(MigrationError::CircularDependency(..)),
            !has_cycle(old(self).registry.migrations@) && has_missing_dep(
                old(self).registry.migrations@,
            ) ==> r matches Err(MigrationError::NotFound(..)),
    {
        let ghost ms = self.registry.migrations@;
        let order = match self.registry.resolve_order() {
            Ok(order) => order,
            Err(e) => {
                return Err(e);
            },
        };
        let applied = match self.state.applied_migrations() {
            Ok(applied) => applied,
            Err(e) => {
                let r: Vec<String> = Vec::new();
                proof {
                    assert(r.deep_view() =~= Seq::<Seq<char>>::empty());
                }
                return Err(
                    MigrationError::ExecutionFailed {
                        migration: "state".to_owned(),
                        error: e,
                        completed: r,
                    },
                );
            },
        };
        let ghost orderv = order.deep_view();
        let ghost appliedv = applied.deep_view();
        let mut plan: Vec<String> = Vec::new();
        let mut i: usize = 0;
        proof {
            assert(plan.deep_view() =~= Seq::<Seq<char>>::empty());
            assert(orderv.take(0) =~= Seq::<Seq<char>>::empty());
        }
        while i < order.len()
            invariant
                0 <= i <= orderv.len(),
                order.deep_view() == orderv,
                applied.deep_view() == appliedv,
                plan.deep_view() == filter_out(orderv.take(i as int), appliedv),
            decreases orderv.len() - i,
        {
            proof {
                assert(orderv.take(i + 1).last() == orderv[i as int]);
                assert(orderv.take(i + 1).drop_last() =~= orderv.take(i as int));
                assert(orderv[i as int] == order@[i as int]@);
            }
            if !vec_contains_str(&applied, order[i].as_str()) {
                let name = order[i].clone();
                assert(name@ == orderv[i as int]);
                plan.push(name);
            }
            i += 1;
        }
        proof {
            assert(orderv.take(orderv.len() as int) =~= orderv);
            lemma_filter_out_no_dup(orderv, appliedv);
            assert forall|j: int| 0 <= j < plan.deep_view().len() implies reg_names(ms).contains(
                #[trigger] plan.deep_view()[j],
            ) && !appliedv.contains(plan.deep_view()[j]) by {
                assert(plan.deep_view().contains(plan.deep_view()[j]));
                lemma_filter_out_membership(orderv, appliedv, plan.deep_view()[j]);
            }
            assert(appliedv == old(self).state.applied_view());
            assert(forward_plan_matches(ms, old(self).state.applied_view(), plan.deep_view())) by {
                assert(valid_resolution(ms, orderv) && plan.deep_view() == filter_out(
                    orderv,
                    old(self).state.applied_view(),
                ));
            }
            assert(forward_plan_names_ok(ms, old(self).state.applied_view(), plan.deep_view()));
            assert(canonical_order(ms) == Some(orderv));
        }
        Ok(plan)
    }

    /// The names to unapply: the resolved order reversed, restricted to
    /// applied names. With a target in that list, it is cut immediately
    /// after the target; a target absent from the list leaves the whole
    /// list, rolling back everything applied. Fails with `NotReversible`
    /// naming the first candidate that cannot be reversed, before anything
    /// is rendered or executed.
    #[verifier::loop_isolation(false)]
    pub fn plan_backward(&mut self, target: Option<&str>) -> (r: Result<
        Vec<String>,
        MigrationError,
    >)
        requires
            registry_wf(old(self).registry.migrations@),
        ensures
            final(self).registry == old(self).registry,
            final(self).backend == old(self).backend,
            final(self).state.applied_view() == old(self).state.applied_view(),
            r matches Ok(plan) ==> backward_plan_matches(
                old(self).registry.migrations@,
                old(self).state.applied_view(),
                target_view(target),
                plan.deep_view(),
            ) && all_candidates_reversible(old(self).registry.migrations@, plan.deep_view()),
            r matches Ok(plan) ==> (canonical_order(old(self).registry.migrations@) matches Some(
            order) && plan.deep_view() == backward_candidates(
                order,
                old(self).state.applied_view(),
                target_view(target),
            )),
            r matches Err(MigrationError::NotFound(n)) ==> missing_dep(
                old(self).registry.migrations@,
                n@,
            ),
            r matches Err(MigrationError::CircularDependency(n)) ==> exists|p: Seq<Seq<char>>|
                is_dep_cycle(old(self).registry.migrations@, p) && p.first() == n@,
            r matches Err(MigrationError::ExecutionFailed { migration, error: _, completed })
                ==> migration@ == "state"@ && completed.deep_view() == Seq::<Seq<char>>::empty(),
            r matches Err(MigrationError::NotReversible(n)) ==> exists|cand: Seq<Seq<char>>|
                #[trigger] backward_plan_matches(
                    old(self).registry.migrations@,
                    old(self).state.applied_view(),
                    target_view(target),
                    cand,
                ) && (exists|i: int|
                    0 <= i < cand.len() && cand[i] == n@ && !migration_reversible(
                        the_migration(old(self).registry.migrations@, n@),
                    ) && (forall|j: int|
                        0 <= j < i ==> migration_reversible(
                            the_migration(old(self).registry.migrations@, #[trigger] cand[j]),
                        ))),
            r is Ok ==> !has_cycle(old(self).registry.migrations@) && !has_missing_dep(
                old(self).registry.migrations@,
            ),
            r matches Err(MigrationError::ExecutionFailed { .. }) ==> !has_cycle(
                old(self).registry.migrations@,
            ) && !has_missing_dep(old(self).registry.migrations@),
            has_cycle(old(self).registry.migrations@) && !has_missing_dep(
                old(self).registry.migrations@,
            ) ==> r matches Err(MigrationError::CircularDependency(..)),
            !has_cycle(old(self).registry.migrations@) && has_missing_dep(
                old(self).registry.migrations@,
            ) ==> r matches Err(MigrationError::NotFound(..)),
    {
        let ghost ms = self.registry.migrations@;
        let ghost targetv: Option<Seq<char>> = match target {
            Some(t) => Some(t@),
            None => None,
        };
        let order = match self.registry.resolve_order() {
            Ok(order) => order,
            Err(e) => {
                return Err(e);
            },
        };
        let applied = match self.state.applied_migrations() {
            Ok(applied) => applied,
            Err(e) => {
                let r: Vec<String> = Vec::new();
                proof {
                    assert(r.deep_view() =~= Seq::<Seq<char>>::empty());
                }
                return Err(
                    MigrationError::ExecutionFailed {
                        migration: "state".to_owned(),
                        error: e,
                        completed: r,
                    },
                );
            },
        };
        let ghost orderv = order.deep_view();
        let ghost appliedv = applied.deep_view();
        let ghost rev = orderv.reverse();
        let mut to_unapply: Vec<String> = Vec::new();
        let mut j: usize = 0;
        proof {
            assert(to_unapply.deep_view() =~= Seq::<Seq<char>>::empty());
            assert(rev.take(0) =~= Seq::<Seq<char>>::empty());
        }
        while j < order.len()
            invariant
                0 <= j <= orderv.len(),
                order.deep_view() == orderv,
                applied.deep_view() == appliedv,
                rev == orderv.reverse(),
                to_unapply.deep_view() == filter_in(rev.take(j as int), appliedv),
            decreases orderv.len() - j,
        {
            let i = order.len() - 1 - j;
            proof {
                assert(rev[j as int] == orderv[i as int]);
                assert(rev.take(j + 1).last() == rev[j as int]);
                assert(rev.take(j + 1).drop_last() =~= rev.take(j as int));
                assert(orderv[i as int] == order@[i as int]@);
            }
            if vec_contains_str(&applied, order[i].as_str()) {
                let name = order[i].clone();
                assert(name@ == rev[j as int]);
                to_unapply.push(name);
            }
            j += 1;
        }
        proof {
            assert(rev.take(rev.len() as int) =~= rev);
        }
        let ghost base = filter_in(rev, appliedv);
        if let Some(t) = target {
            let mut ti: usize = 0;
            let mut idx: usize = 0;
            let mut found = false;
            while ti < to_unapply.len()
                invariant
                    0 <= ti <= to_unapply@.len(),
                    to_unapply.deep_view() == base,
                    !found ==> forall|q: int| 0 <= q < ti ==> base[q] != t@,
                    found ==> idx < base.len() && base[idx as int] == t@ && (forall|q: int|
                        0 <= q < idx ==> base[q] != t@),
                decreases to_unapply@.len() - ti,
            {
                proof {
                    assert(base[ti as int] == to_unapply@[ti as int]@);
                }
                if !found && crate::strutil::str_eq(to_unapply[ti].as_str(), t) {
                    found = true;
                    idx = ti;
                }
                ti += 1;
            }
            if found {
                proof {
                    assert(base.contains(t@));
                    lemma_first_index_of(base, t@, idx as int);
                }
                to_unapply.truncate(idx + 1);
                proof {
                    assert(to_unapply.deep_view() =~= base.take(idx + 1));
                }
            } else {
                proof {
                    assert(!base.contains(t@)) by {
                        if base.contains(t@) {
                            let q = choose|q: int| 0 <= q < base.len() && base[q] == t@;
                        }
                    }
                }
            }
        }
        let ghost cand = backward_candidates(orderv, appliedv, targetv);
        proof {
            assert(to_unapply.deep_view() == cand);
            assert forall|i: int| 0 <= i < cand.len() implies has_name(ms, #[trigger] cand[i]) by {
                assert(cand.contains(cand[i]));
                lemma_candidate_in_base(orderv, appliedv, targetv, cand[i]);
                lemma_filter_in_membership(rev, appliedv, cand[i]);
                assert(rev.contains(cand[i]));
                let q = choose|q: int| 0 <= q < rev.len() && rev[q] == cand[i];
                assert(orderv[orderv.len() - 1 - q] == cand[i]);
                assert(orderv.contains(cand[i]));
                assert(reg_names(ms).contains(cand[i]));
                let w = choose|w: int|
                    0 <= w < reg_names(ms).len() && reg_names(ms)[w] == cand[i];
                assert(ms[w].name@ == cand[i]);
            }
        }
        proof {
            let applied0 = old(self).state.applied_view();
            let target0: Option<Seq<char>> = match target {
                Some(t) => Some(t@),
                None => None,
            };
            assert(appliedv == applied0);
            assert(targetv == target0);
            assert(backward_plan_matches(ms, applied0, target0, to_unapply.deep_view())) by {
                assert(valid_resolution(ms, orderv) && to_unapply.deep_view()
                    == backward_candidates(orderv, applied0, target0));
            }
            assert(canonical_order(ms) == Some(orderv));
        }
        let checked = validate_reversible(self.registry, &to_unapply);
        match checked {
            Ok(()) => {
                proof {
                    assert(all_candidates_reversible(ms, to_unapply.deep_view()));
                }
                Ok(to_unapply)
            },
            Err(e) => {
                proof {
                    let applied0 = old(self).state.applied_view();
                    let target0: Option<Seq<char>> = match target {
                        Some(t) => Some(t@),
                        None => None,
                    };
                    assert(e matches MigrationError::NotReversible(_));
                    let n_v = (e->NotReversible_0)@;
                    assert(exists|cand: Seq<Seq<char>>|
                        #[trigger] backward_plan_matches(ms, applied0, target0, cand) && (
                        exists|i: int|
                            0 <= i < cand.len() && cand[i] == n_v && !migration_reversible(
                                the_migration(ms, n_v),
                            ) && (forall|j: int|
                                0 <= j < i ==> migration_reversible(
                                    the_migration(ms, #[trigger] cand[j]),
                                )))) by {
                        let cand0 = to_unapply.deep_view();
                        assert(backward_plan_matches(ms, applied0, target0, cand0));
                        assert(exists|i: int|
                            0 <= i < cand0.len() && cand0[i] == n_v && !migration_reversible(
                                the_migration(ms, n_v),
                            ) && (forall|j: int|
                                0 <= j < i ==> migration_reversible(
                                    the_migration(ms, #[trigger] cand0[j]),
                                )));
                    }
                }
                Err(e)
            },
        }
    }

    /// The forward statements of each migration that would be applied,
    /// paired with its name, in plan order. Nothing is executed.
    #[verifier::loop_isolation(false)]
    pub fn generate_forward_sql(&mut self) -> (r: Result<
        Vec<(String, Vec<String>)>,
        MigrationError,
    >)
        requires
            registry_wf(old(self).registry.migrations@),
            registry_renderable(
                old(self).registry.migrations@,
                old(self).backend.spec_dialect(),
            ),
        ensures
            final(self).registry == old(self).registry,
            final(self).backend == old(self).backend,
            final(self).state.applied_view() == old(self).state.applied_view(),
            r matches Ok(v) ==> (canonical_order(old(self).registry.migrations@) matches Some(
            order) && sql_pairs_view(v@) == forward_sql_of_plan(
                old(self).registry.migrations@,
                filter_out(order, old(self).state.applied_view()),
                old(self).backend.spec_dialect(),
            )),
            r matches Err(MigrationError::NotFound(n)) ==> missing_dep(
                old(self).registry.migrations@,
                n@,
            ),
            r matches Err(MigrationError::CircularDependency(n)) ==> exists|p: Seq<Seq<char>>|
                is_dep_cycle(old(self).registry.migrations@, p) && p.first() == n@,
            r matches Err(MigrationError::ExecutionFailed { migration, error: _, completed })
                ==> migration@ == "state"@ && completed.deep_view() == Seq::<Seq<char>>::empty(),
            !(r matches Err(MigrationError::NotReversible(_))),
            r is Ok ==> !has_cycle(old(self).registry.migrations@) && !has_missing_dep(
                old(self).registry.migrations@,
            ),
            r matches Err(MigrationError::ExecutionFailed { .. }) ==> !has_cycle(
                old(self).registry.migrations@,
            ) && !has_missing_dep(old(self).registry.migrations@),
            has_cycle(old(self).registry.migrations@) && !has_missing_dep(
                old(self).registry.migrations@,
            ) ==> r matches Err(MigrationError::CircularDependency(..)),
            !has_cycle(old(self).registry.migrations@) && has_missing_dep(
                old(self).registry.migrations@,
            ) ==> r matches Err(MigrationError::NotFound(..)),
    {
        let ghost ms = self.registry.migrations@;
        let ghost d = self.backend.spec_dialect();
        let plan = match self.plan_forward() {
            Ok(plan) => plan,
            Err(e) => {
                return Err(e);
            },
        };
        let ghost planv = plan.deep_view();
        let mut result: Vec<(String, Vec<String>)> = Vec::new();
        let mut i: usize = 0;
        proof {
            assert(sql_pairs_view(result@) =~= Seq::<(Seq<char>, Seq<Seq<char>>)>::empty());
            assert(planv.take(0) =~= Seq::<Seq<char>>::empty());
        }
        while i < plan.len()
            invariant
                0 <= i <= planv.len(),
                plan.deep_view() == planv,
                self.registry == old(self).registry,
                self.backend == old(self).backend,
                self.state.applied_view() == old(self).state.applied_view(),
                sql_pairs_view(result@) == forward_sql_of_plan(ms, planv.take(i as int), d),
            decreases planv.len() - i,
        {
            proof {
                assert(planv[i as int] == plan@[i as int]@);
                assert(reg_names(ms).contains(planv[i as int]));
                let w = choose|w: int|
                    0 <= w < reg_names(ms).len() && reg_names(ms)[w] == planv[i as int];
                assert(ms[w].name@ == planv[i as int]);
            }
            let migration = match self.registry.get(plan[i].as_str()) {
                Some(m) => m,
                None => unreached(),
            };
            proof {
                let w = choose|w: int|
                    0 <= w < ms.len() && ms[w].name@ == planv[i as int];
                assert(the_migration(ms, planv[i as int]) == ms[w]);
                assert(migration_renderable(ms[w], d));
            }
            let statements = migration.forward_sql(self.backend);
            let name = plan[i].clone();
            result.push((name, statements));
            proof {
                assert(planv.take(i + 1).drop_last() =~= planv.take(i as int));
                assert(planv.take(i + 1).last() == planv[i as int]);
                assert(sql_pairs_view(result@) =~= forward_sql_of_plan(ms, planv.take(i + 1), d));
            }
            i += 1;
        }
        proof {
            assert(planv.take(planv.len() as int) =~= planv);
        }
        Ok(result)
    }

    /// The backward statements of each migration that would be rolled back,
    /// paired with its name, in plan order. Nothing is executed.
    #[verifier::loop_isolation(false)]
    pub fn generate_backward_sql(&mut self, target: Option<&str>) -> (r: Result<
        Vec<(String, Vec<String>)>,
        MigrationError,
    >)
        requires
            registry_wf(old(self).registry.migrations@),
            registry_renderable(
                old(self).registry.migrations@,
                old(self).backend.spec_dialect(),
            ),
        ensures
            final(self).registry == old(self).registry,
            final(self).backend == old(self).backend,
            final(self).state.applied_view() == old(self).state.applied_view(),
            r matches Ok(v) ==> (canonical_order(old(self).registry.migrations@) matches Some(
            order) && sql_pairs_view(v@) == backward_sql_of_plan(
                old(self).registry.migrations@,
                backward_candidates(
                    order,
                    old(self).state.applied_view(),
                    target_view(target),
                ),
                old(self).backend.spec_dialect(),
            ) && all_candidates_reversible(
                old(self).registry.migrations@,
                backward_candidates(
                    order,
                    old(self).state.applied_view(),
                    target_view(target),
                ),
            )),
            r matches Err(MigrationError::NotFound(n)) ==> missing_dep(
                old(self).registry.migrations@,
                n@,
            ),
            r matches Err(MigrationError::CircularDependency(n)) ==> exists|p: Seq<Seq<char>>|
                is_dep_cycle(old(self).registry.migrations@, p) && p.first() == n@,
            r matches Err(MigrationError::ExecutionFailed { migration, error: _, completed })
                ==> migration@ == "state"@ && completed.deep_view() == Seq::<Seq<char>>::empty(),
            r matches Err(MigrationError::NotReversible(n)) ==> exists|cand: Seq<Seq<char>>|
                #[trigger] backward_plan_matches(
                    old(self).registry.migrations@,
                    old(self).state.applied_view(),
                    target_view(target),
                    cand,
                ) && (exists|i: int|
                    0 <= i < cand.len() && cand[i] == n@ && !migration_reversible(
                        the_migration(old(self).registry.migrations@, n@),
                    ) && (forall|j: int|
                        0 <= j < i ==> migration_reversible(
                            the_migration(old(self).registry.migrations@, #[trigger] cand[j]),
                        ))),
            r is Ok ==> !has_cycle(old(self).registry.migrations@) && !has_missing_dep(
                old(self).registry.migrations@,
            ),
            r matches Err(MigrationError::ExecutionFailed { .. }) ==> !has_cycle(
                old(self).registry.migrations@,
            ) && !has_missing_dep(old(self).registry.migrations@),
            has_cycle(old(self).registry.migrations@) && !has_missing_dep(
                old(self).registry.migrations@,
            ) ==> r matches Err(MigrationError::CircularDependency(..)),
            !has_cycle(old(self).registry.migrations@) && has_missing_dep(
                old(self).registry.migrations@,
            ) ==> r matches Err(MigrationError::NotFound(..)),
    {
        let ghost ms = self.registry.migrations@;
        let ghost d = self.backend.spec_dialect();
        let plan = match self.plan_backward(target) {
            Ok(plan) => plan,
            Err(e) => {
                return Err(e);
            },
        };
        let ghost planv = plan.deep_view();
        let mut result: Vec<(String, Vec<String>)> = Vec::new();
        let mut i: usize = 0;
        proof {
            assert(sql_pairs_view(result@) =~= Seq::<(Seq<char>, Seq<Seq<char>>)>::empty());
            assert(planv.take(0) =~= Seq::<Seq<char>>::empty());
        }
        while i < plan.len()
            invariant
                0 <= i <= planv.len(),
                plan.deep_view() == planv,
                self.registry == old(self).registry,
                self.backend == old(self).backend,
                self.state.applied_view() == old(self).state.applied_view(),
                sql_pairs_view(result@) == backward_sql_of_plan(ms, planv.take(i as int), d),
            decreases planv.len() - i,
        {
            proof {
                assert(planv[i as int] == plan@[i as int]@);
                assert(has_name(ms, planv[i as int]));
            }
            let migration = match self.registry.get(plan[i].as_str()) {
                Some(m) => m,
                None => unreached(),
            };
            proof {
                let w = choose|w: int|
                    0 <= w < ms.len() && ms[w].name@ == planv[i as int];
                assert(the_migration(ms, planv[i as int]) == ms[w]);
                assert(migration_renderable(ms[w], d));
                assert(migration_reversible(*migration));
            }
            let statements = match migration.backward_sql(self.backend) {
                Some(statements) => statements,
                None => unreached(),
            };
            let name = plan[i].clone();
            result.push((name, statements));
            proof {
                assert(planv.take(i + 1).drop_last() =~= planv.take(i as int));
                assert(planv.take(i + 1).last() == planv[i as int]);
                assert(sql_pairs_view(result@) =~= backward_sql_of_plan(ms, planv.take(i + 1), d));
            }
            i += 1;
        }
        proof {
            assert(planv.take(planv.len() as int) =~= planv);
        }
        Ok(result)
    }

    /// Apply every pending migration, in plan order, stopping at the first
    /// failure. For each migration whose statements may run in a
    /// transaction, `begin` is issued first and `commit` after the last
    /// statement, with a best-effort `rollback` on failure; a migration
    /// marked non-atomic, or any migration on a backend without
    /// transactional DDL, never touches transaction control. After each
    /// migration's statements succeed, it is recorded as applied. On
    /// failure, the error carries exactly the migrations completed before
    /// the failing one, in application order.
    #[verifier::loop_isolation(false)]
    pub fn migrate_forward_with_transactions<E: SqlExecutor, T: TransactionControl>(
        &mut self,
        executor: &mut E,
        tx: &mut T,
    ) -> (r: Result<Vec<String>, MigrationError>)
        requires
            registry_wf(old(self).registry.migrations@),
            registry_renderable(
                old(self).registry.migrations@,
                old(self).backend.spec_dialect(),
            ),
        ensures
            final(self).registry == old(self).registry,
            final(self).backend == old(self).backend,
            r matches Ok(applied) ==> forward_plan_matches(
                old(self).registry.migrations@,
                old(self).state.applied_view(),
                applied.deep_view(),
            ),
            r matches Ok(applied) ==> final(self).state.applied_view() == old(self).state.applied_view() + applied.deep_view(),
            r matches Ok(applied) ==> final(executor).executed() == old(executor).executed()
                + succeeded(plan_statements(
                old(self).registry.migrations@,
                applied.deep_view(),
                old(self).backend.spec_dialect(),
            )),
            r matches Err(MigrationError::ExecutionFailed { migration, error, completed }) ==> (
            migration@ == "state"@ && completed.deep_view() == Seq::<Seq<char>>::empty() && final(executor).executed() == old(executor).executed() && final(tx).events() == old(tx).events())
                || (exists|planv: Seq<Seq<char>>, i: int|
                #[trigger] forward_plan_matches(
                    old(self).registry.migrations@,
                    old(self).state.applied_view(),
                    planv,
                ) && 0 <= i < planv.len() && migration@ == planv[i] && completed.deep_view()
                    == #[trigger] planv.take(i) && forward_failure_at(
                    old(self).registry.migrations@,
                    old(self).backend.spec_dialect(),
                    planv,
                    i,
                    old(executor).executed(),
                    final(executor).executed(),
                    old(tx).events(),
                    final(tx).events(),
                    old(self).state.applied_view(),
                    final(self).state.applied_view(),
                    error@,
                )),
            r matches Err(MigrationError::NotFound(n)) ==> missing_dep(
                old(self).registry.migrations@,
                n@,
            ),
            r matches Err(MigrationError::CircularDependency(n)) ==> exists|p: Seq<Seq<char>>|
                is_dep_cycle(old(self).registry.migrations@, p) && p.first() == n@,
            !(r matches Err(MigrationError::NotReversible(_))),
            r matches Ok(applied) ==> final(tx).events() == old(tx).events() + plan_tx_events(
                old(self).registry.migrations@,
                applied.deep_view(),
                old(self).backend.spec_dialect(),
            ),
            !spec_supports_transactional_ddl(old(self).backend.spec_dialect()) ==> final(tx).events() == old(tx).events(),
            (forall|k: int|
                0 <= k < old(self).registry.migrations@.len() ==> !(#[trigger] old(self).registry.migrations@[k]).atomic) ==> final(tx).events() == old(tx).events(),
            r is Ok ==> !has_cycle(old(self).registry.migrations@) && !has_missing_dep(
                old(self).registry.migrations@,
            ),
            r matches Err(MigrationError::ExecutionFailed { .. }) ==> !has_cycle(
                old(self).registry.migrations@,
            ) && !has_missing_dep(old(self).registry.migrations@),
            has_cycle(old(self).registry.migrations@) && !has_missing_dep(
                old(self).registry.migrations@,
            ) ==> r matches Err(MigrationError::CircularDependency(..)),
            !has_cycle(old(self).registry.migrations@) && has_missing_dep(
                old(self).registry.migrations@,
            ) ==> r matches Err(MigrationError::NotFound(..)),
            r matches Ok(applied) ==> (canonical_order(old(self).registry.migrations@) matches
            Some(order) && applied.deep_view() == filter_out(
                order,
                old(self).state.applied_view(),
            )),
    {
        let ghost ms = self.registry.migrations@;
        let ghost d = self.backend.spec_dialect();
        let ghost applied0 = self.state.applied_view();
        let plan = match self.plan_forward() {
            Ok(plan) => plan,
            Err(e) => {
                return Err(e);
            },
        };
        let ghost planv = plan.deep_view();
        let use_transactions = self.backend.supports_transactional_ddl();
        let mut applied: Vec<String> = Vec::new();
        let mut i: usize = 0;
        proof {
            assert(applied.deep_view() =~= Seq::<Seq<char>>::empty());
            assert(planv.take(0) =~= Seq::<Seq<char>>::empty());
            assert(plan_statements(ms, planv.take(0), d) == Seq::<Seq<char>>::empty());
            assert(succeeded(Seq::<Seq<char>>::empty()) =~= Seq::<(Seq<char>, bool)>::empty());
            assert(old(executor).executed() + Seq::<(Seq<char>, bool)>::empty() =~= old(
                executor,
            ).executed());
            assert(applied0 + planv.take(0) =~= applied0);
            assert(plan_tx_events(ms, planv.take(0), d) == Seq::<TxEvent>::empty());
            assert(old(tx).events() + Seq::<TxEvent>::empty() =~= old(tx).events());
        }
        while i < plan.len()
            invariant
                0 <= i <= planv.len(),
                plan.deep_view() == planv,
                self.registry == old(self).registry,
                self.backend == old(self).backend,
                use_transactions == spec_supports_transactional_ddl(d),
                applied.deep_view() == planv.take(i as int),
                self.state.applied_view() == applied0 + planv.take(i as int),
                executor.executed() == old(executor).executed() + succeeded(plan_statements(
                    ms,
                    planv.take(i as int),
                    d,
                )),
                tx.events() == old(tx).events() + plan_tx_events(ms, planv.take(i as int), d),
                !spec_supports_transactional_ddl(d) ==> tx.events() == old(tx).events(),
                (forall|k: int| 0 <= k < ms.len() ==> !(#[trigger] ms[k]).atomic) ==> tx.events()
                    == old(tx).events(),
            decreases planv.len() - i,
        {
            proof {
                assert(planv[i as int] == plan@[i as int]@);
                assert(reg_names(ms).contains(planv[i as int]));
                let w = choose|w: int|
                    0 <= w < reg_names(ms).len() && reg_names(ms)[w] == planv[i as int];
                assert(ms[w].name@ == planv[i as int]);
            }
            let migration = match self.registry.get(plan[i].as_str()) {
                Some(m) => m,
                None => unreached(),
            };
            proof {
                let w = choose|w: int| 0 <= w < ms.len() && ms[w].name@ == planv[i as int];
                assert(the_migration(ms, planv[i as int]) == ms[w]);
                assert(migration_renderable(ms[w], d));
            }
            let statements = migration.forward_sql(self.backend);
            let should_wrap = use_transactions && migration.is_atomic();
            match execute_statements(&statements, should_wrap, executor, tx) {
                Ok(()) => {},
                Err(e) => {
                    proof {
                        assert(forward_failure_at(
                            ms,
                            d,
                            planv,
                            i as int,
                            old(executor).executed(),
                            executor.executed(),
                            old(tx).events(),
                            tx.events(),
                            applied0,
                            self.state.applied_view(),
                            e@,
                        ));
                        assert(exists|other_plan: Seq<Seq<char>>, j: int|
                            #[trigger] forward_plan_matches(ms, applied0, other_plan) && 0 <= j
                                < other_plan.len() && planv[i as int] == other_plan[j]
                                && planv.take(i as int) == #[trigger] other_plan.take(j)
                                && forward_failure_at(
                                ms,
                                d,
                                other_plan,
                                j,
                                old(executor).executed(),
                                executor.executed(),
                                old(tx).events(),
                                tx.events(),
                                applied0,
                                self.state.applied_view(),
                                e@,
                            )) by {
                            assert(forward_plan_matches(ms, applied0, planv));
                            assert(planv.take(i as int) == planv.take(i as int));
                        }
                    }
                    return Err(
                        MigrationError::ExecutionFailed {
                            migration: plan[i].clone(),
                            error: e,
                            completed: applied,
                        },
                    );
                },
            }
            proof {
                assert(planv.take(i + 1).drop_last() =~= planv.take(i as int));
                assert(planv.take(i + 1).last() == planv[i as int]);
                assert(succeeded(plan_statements(ms, planv.take(i + 1), d)) =~= succeeded(
                    plan_statements(ms, planv.take(i as int), d),
                ) + succeeded(migration_forward_stmts(the_migration(ms, planv[i as int]), d)));
                assert(executor.executed() =~= old(executor).executed() + succeeded(
                    plan_statements(ms, planv.take(i + 1), d),
                ));
                assert(tx.events() =~= old(tx).events() + plan_tx_events(
                    ms,
                    planv.take(i + 1),
                    d,
                ));
            }
            match self.state.mark_applied(plan[i].as_str()) {
                Ok(()) => {},
                Err(e) => {
                    proof {
                        assert(forward_failure_at(
                            ms,
                            d,
                            planv,
                            i as int,
                            old(executor).executed(),
                            executor.executed(),
                            old(tx).events(),
                            tx.events(),
                            applied0,
                            self.state.applied_view(),
                            e@,
                        ));
                        assert(exists|other_plan: Seq<Seq<char>>, j: int|
                            #[trigger] forward_plan_matches(ms, applied0, other_plan) && 0 <= j
                                < other_plan.len() && planv[i as int] == other_plan[j]
                                && planv.take(i as int) == #[trigger] other_plan.take(j)
                                && forward_failure_at(
                                ms,
                                d,
                                other_plan,
                                j,
                                old(executor).executed(),
                                executor.executed(),
                                old(tx).events(),
                                tx.events(),
                                applied0,
                                self.state.applied_view(),
                                e@,
                            )) by {
                            assert(forward_plan_matches(ms, applied0, planv));
                            assert(planv.take(i as int) == planv.take(i as int));
                        }
                    }
                    return Err(
                        MigrationError::ExecutionFailed {
                            migration: plan[i].clone(),
                            error: e,
                            completed: applied,
                        },
                    );
                },
            }
            proof {
                assert(!(applied0 + planv.take(i as int)).contains(planv[i as int])) by {
                    if (applied0 + planv.take(i as int)).contains(planv[i as int]) {
                        let q = choose|q: int|
                            0 <= q < (applied0 + planv.take(i as int)).len() && (applied0
                                + planv.take(i as int))[q] == planv[i as int];
                        if q < applied0.len() {
                            assert(applied0[q] == planv[i as int]);
                            assert(planv.contains(planv[i as int]));
                        } else {
                            assert(planv[q - applied0.len()] == planv[i as int]);
                        }
                    }
                }
                assert(self.state.applied_view() =~= applied0 + planv.take(i + 1));
            }
            let applied_name = plan[i].clone();
            applied.push(applied_name);
            proof {
                assert(applied.deep_view() =~= planv.take(i + 1));
            }
            i += 1;
        }
        proof {
            assert(planv.take(planv.len() as int) =~= planv);
            assert(forward_plan_matches(ms, applied0, planv));
        }
        Ok(applied)
    }

    /// Apply every pending migration without transaction support: as
    /// `migrate_forward_with_transactions`, with transaction control that
    /// does nothing.
    pub fn migrate_forward<E: SqlExecutor>(&mut self, executor: &mut E) -> (r: Result<
        Vec<String>,
        MigrationError,
    >)
        requires
            registry_wf(old(self).registry.migrations@),
            registry_renderable(
                old(self).registry.migrations@,
                old(self).backend.spec_dialect(),
            ),
        ensures
            final(self).registry == old(self).registry,
            final(self).backend == old(self).backend,
            r matches Ok(applied) ==> forward_plan_matches(
                old(self).registry.migrations@,
                old(self).state.applied_view(),
                applied.deep_view(),
            ),
            r matches Ok(applied) ==> final(self).state.applied_view() == old(self).state.applied_view() + applied.deep_view(),
            r matches Ok(applied) ==> final(executor).executed() == old(executor).executed()
                + succeeded(plan_statements(
                old(self).registry.migrations@,
                applied.deep_view(),
                old(self).backend.spec_dialect(),
            )),
            r matches Err(MigrationError::ExecutionFailed { migration, error: _, completed })
                ==> (migration@ == "state"@ && completed.deep_view() == Seq::<Seq<char>>::empty()
                && final(executor).executed() == old(executor).executed()) || (exists|
                planv: Seq<Seq<char>>,
                i: int,
            |
                #[trigger] forward_plan_matches(
                    old(self).registry.migrations@,
                    old(self).state.applied_view(),
                    planv,
                ) && 0 <= i < planv.len() && migration@ == planv[i] && completed.deep_view()
                    == #[trigger] planv.take(i)),
            r matches Err(MigrationError::NotFound(n)) ==> missing_dep(
                old(self).registry.migrations@,
                n@,
            ),
            r matches Err(MigrationError::CircularDependency(n)) ==> exists|p: Seq<Seq<char>>|
                is_dep_cycle(old(self).registry.migrations@, p) && p.first() == n@,
            !(r matches Err(MigrationError::NotReversible(_))),
            r is Ok ==> !has_cycle(old(self).registry.migrations@) && !has_missing_dep(
                old(self).registry.migrations@,
            ),
            r matches Err(MigrationError::ExecutionFailed { .. }) ==> !has_cycle(
                old(self).registry.migrations@,
            ) && !has_missing_dep(old(self).registry.migrations@),
            has_cycle(old(self).registry.migrations@) && !has_missing_dep(
                old(self).registry.migrations@,
            ) ==> r matches Err(MigrationError::CircularDependency(..)),
            !has_cycle(old(self).registry.migrations@) && has_missing_dep(
                old(self).registry.migrations@,
            ) ==> r matches Err(MigrationError::NotFound(..)),
            r matches Ok(applied) ==> (canonical_order(old(self).registry.migrations@) matches
            Some(order) && applied.deep_view() == filter_out(
                order,
                old(self).state.applied_view(),
            )),
    {
        let mut tx = NoTransactions::new();
        self.migrate_forward_with_transactions(executor, &mut tx)
    }

    /// Roll back the planned migrations, in plan order, stopping at the
    /// first failure, with the same transaction discipline as forward
    /// execution. After each migration's statements succeed, it is recorded
    /// as unapplied. On failure, the error carries exactly the migrations
    /// completed before the failing one.
    #[verifier::loop_isolation(false)]
    pub fn migrate_backward_with_transactions<E: SqlExecutor, T: TransactionControl>(
        &mut self,
        target: Option<&str>,
        executor: &mut E,
        tx: &mut T,
    ) -> (r: Result<Vec<String>, MigrationError>)
        requires
            registry_wf(old(self).registry.migrations@),
            registry_renderable(
                old(self).registry.migrations@,
                old(self).backend.spec_dialect(),
            ),
        ensures
            final(self).registry == old(self).registry,
            final(self).backend == old(self).backend,
            r matches Ok(unapplied) ==> backward_plan_matches(
                old(self).registry.migrations@,
                old(self).state.applied_view(),
                target_view(target),
                unapplied.deep_view(),
            ) && all_candidates_reversible(old(self).registry.migrations@, unapplied.deep_view()),
            r matches Ok(unapplied) ==> final(self).state.applied_view() == without_all(
                old(self).state.applied_view(),
                unapplied.deep_view(),
            ),
            r matches Ok(unapplied) ==> final(executor).executed() == old(executor).executed()
                + succeeded(plan_backward_statements(
                old(self).registry.migrations@,
                unapplied.deep_view(),
                old(self).backend.spec_dialect(),
            )),
            r matches Err(MigrationError::ExecutionFailed { migration, error, completed }) ==> (
            migration@ == "state"@ && completed.deep_view() == Seq::<Seq<char>>::empty() && final(executor).executed() == old(executor).executed() && final(tx).events() == old(tx).events())
                || (exists|planv: Seq<Seq<char>>, i: int|
                #[trigger] backward_plan_matches(
                    old(self).registry.migrations@,
                    old(self).state.applied_view(),
                    target_view(target),
                    planv,
                ) && 0 <= i < planv.len() && migration@ == planv[i] && completed.deep_view()
                    == #[trigger] planv.take(i) && backward_failure_at(
                    old(self).registry.migrations@,
                    old(self).backend.spec_dialect(),
                    planv,
                    i,
                    old(executor).executed(),
                    final(executor).executed(),
                    old(tx).events(),
                    final(tx).events(),
                    old(self).state.applied_view(),
                    final(self).state.applied_view(),
                    error@,
                )),
            r matches Err(MigrationError::NotFound(n)) ==> missing_dep(
                old(self).registry.migrations@,
                n@,
            ),
            r matches Err(MigrationError::CircularDependency(n)) ==> exists|p: Seq<Seq<char>>|
                is_dep_cycle(old(self).registry.migrations@, p) && p.first() == n@,
            r matches Err(MigrationError::NotReversible(n)) ==> exists|cand: Seq<Seq<char>>|
                #[trigger] backward_plan_matches(
                    old(self).registry.migrations@,
                    old(self).state.applied_view(),
                    target_view(target),
                    cand,
                ) && (exists|i: int|
                    0 <= i < cand.len() && cand[i] == n@ && !migration_reversible(
                        the_migration(old(self).registry.migrations@, n@),
                    ) && (forall|j: int|
                        0 <= j < i ==> migration_reversible(
                            the_migration(old(self).registry.migrations@, #[trigger] cand[j]),
                        ))),
            r matches Ok(applied) ==> final(tx).events() == old(tx).events() + plan_tx_events(
                old(self).registry.migrations@,
                applied.deep_view(),
                old(self).backend.spec_dialect(),
            ),
            !spec_supports_transactional_ddl(old(self).backend.spec_dialect()) ==> final(tx).events() == old(tx).events(),
            (forall|k: int|
                0 <= k < old(self).registry.migrations@.len() ==> !(#[trigger] old(self).registry.migrations@[k]).atomic) ==> final(tx).events() == old(tx).events(),
            r is Ok ==> !has_cycle(old(self).registry.migrations@) && !has_missing_dep(
                old(self).registry.migrations@,
            ),
            r matches Err(MigrationError::ExecutionFailed { .. }) ==> !has_cycle(
                old(self).registry.migrations@,
            ) && !has_missing_dep(old(self).registry.migrations@),
            has_cycle(old(self).registry.migrations@) && !has_missing_dep(
                old(self).registry.migrations@,
            ) ==> r matches Err(MigrationError::CircularDependency(..)),
            !has_cycle(old(self).registry.migrations@) && has_missing_dep(
                old(self).registry.migrations@,
            ) ==> r matches Err(MigrationError::NotFound(..)),
            r matches Ok(unapplied) ==> (canonical_order(old(self).registry.migrations@) matches
            Some(order) && unapplied.deep_view() == backward_candidates(
                order,
                old(self).state.applied_view(),
                target_view(target),
            )),
    {
        let ghost ms = self.registry.migrations@;
        let ghost d = self.backend.spec_dialect();
        let ghost applied0 = self.state.applied_view();
        let plan = match self.plan_backward(target) {
            Ok(plan) => plan,
            Err(e) => {
                return Err(e);
            },
        };
        let ghost planv = plan.deep_view();
        let use_transactions = self.backend.supports_transactional_ddl();
        let mut unapplied: Vec<String> = Vec::new();
        let mut i: usize = 0;
        proof {
            assert(unapplied.deep_view() =~= Seq::<Seq<char>>::empty());
            assert(planv.take(0) =~= Seq::<Seq<char>>::empty());
            assert(plan_backward_statements(ms, planv.take(0), d) == Seq::<Seq<char>>::empty());
            assert(succeeded(Seq::<Seq<char>>::empty()) =~= Seq::<(Seq<char>, bool)>::empty());
            assert(old(executor).executed() + Seq::<(Seq<char>, bool)>::empty() =~= old(
                executor,
            ).executed());
            assert(without_all(applied0, planv.take(0)) == applied0);
            assert(plan_tx_events(ms, planv.take(0), d) == Seq::<TxEvent>::empty());
            assert(old(tx).events() + Seq::<TxEvent>::empty() =~= old(tx).events());
        }
        while i < plan.len()
            invariant
                0 <= i <= planv.len(),
                plan.deep_view() == planv,
                self.registry == old(self).registry,
                self.backend == old(self).backend,
                use_transactions == spec_supports_transactional_ddl(d),
                unapplied.deep_view() == planv.take(i as int),
                self.state.applied_view() == without_all(applied0, planv.take(i as int)),
                executor.executed() == old(executor).executed() + succeeded(
                    plan_backward_statements(ms, planv.take(i as int), d),
                ),
                tx.events() == old(tx).events() + plan_tx_events(ms, planv.take(i as int), d),
                !spec_supports_transactional_ddl(d) ==> tx.events() == old(tx).events(),
                (forall|k: int| 0 <= k < ms.len() ==> !(#[trigger] ms[k]).atomic) ==> tx.events()
                    == old(tx).events(),
            decreases planv.len() - i,
        {
            proof {
                assert(planv[i as int] == plan@[i as int]@);
                assert(has_name(ms, planv[i as int]));
            }
            let migration = match self.registry.get(plan[i].as_str()) {
                Some(m) => m,
                None => unreached(),
            };
            proof {
                let w = choose|w: int| 0 <= w < ms.len() && ms[w].name@ == planv[i as int];
                assert(the_migration(ms, planv[i as int]) == ms[w]);
                assert(migration_renderable(ms[w], d));
                assert(migration_reversible(*migration));
            }
            let statements = match migration.backward_sql(self.backend) {
                Some(statements) => statements,
                None => unreached(),
            };
            let should_wrap = use_transactions && migration.is_atomic();
            match execute_statements(&statements, should_wrap, executor, tx) {
                Ok(()) => {},
                Err(e) => {
                    proof {
                        assert(backward_failure_at(
                            ms,
                            d,
                            planv,
                            i as int,
                            old(executor).executed(),
                            executor.executed(),
                            old(tx).events(),
                            tx.events(),
                            applied0,
                            self.state.applied_view(),
                            e@,
                        ));
                        assert(exists|other_plan: Seq<Seq<char>>, j: int|
                            #[trigger] backward_plan_matches(
                                ms,
                                applied0,
                                target_view(target),
                                other_plan,
                            ) && 0 <= j < other_plan.len() && planv[i as int] == other_plan[j]
                                && planv.take(i as int) == #[trigger] other_plan.take(j)
                                && backward_failure_at(
                                ms,
                                d,
                                other_plan,
                                j,
                                old(executor).executed(),
                                executor.executed(),
                                old(tx).events(),
                                tx.events(),
                                applied0,
                                self.state.applied_view(),
                                e@,
                            )) by {
                            assert(backward_plan_matches(ms, applied0, target_view(target), planv));
                            assert(planv.take(i as int) == planv.take(i as int));
                        }
                    }
                    return Err(
                        MigrationError::ExecutionFailed {
                            migration: plan[i].clone(),
                            error: e,
                            completed: unapplied,
                        },
                    );
                },
            }
            proof {
                assert(planv.take(i + 1).drop_last() =~= planv.take(i as int));
                assert(planv.take(i + 1).last() == planv[i as int]);
                assert(succeeded(plan_backward_statements(ms, planv.take(i + 1), d)) =~= succeeded(
                    plan_backward_statements(ms, planv.take(i as int), d),
                ) + succeeded(
                    match migration_backward_stmts(the_migration(ms, planv[i as int]), d) {
                        Some(v) => v,
                        None => Seq::empty(),
                    },
                ));
                assert(executor.executed() =~= old(executor).executed() + succeeded(
                    plan_backward_statements(ms, planv.take(i + 1), d),
                ));
                assert(tx.events() =~= old(tx).events() + plan_tx_events(
                    ms,
                    planv.take(i + 1),
                    d,
                ));
            }
            match self.state.mark_unapplied(plan[i].as_str()) {
                Ok(()) => {},
                Err(e) => {
                    proof {
                        assert(backward_failure_at(
                            ms,
                            d,
                            planv,
                            i as int,
                            old(executor).executed(),
                            executor.executed(),
                            old(tx).events(),
                            tx.events(),
                            applied0,
                            self.state.applied_view(),
                            e@,
                        ));
                        assert(exists|other_plan: Seq<Seq<char>>, j: int|
                            #[trigger] backward_plan_matches(
                                ms,
                                applied0,
                                target_view(target),
                                other_plan,
                            ) && 0 <= j < other_plan.len() && planv[i as int] == other_plan[j]
                                && planv.take(i as int) == #[trigger] other_plan.take(j)
                                && backward_failure_at(
                                ms,
                                d,
                                other_plan,
                                j,
                                old(executor).executed(),
                                executor.executed(),
                                old(tx).events(),
                                tx.events(),
                                applied0,
                                self.state.applied_view(),
                                e@,
                            )) by {
                            assert(backward_plan_matches(ms, applied0, target_view(target), planv));
                            assert(planv.take(i as int) == planv.take(i as int));
                        }
                    }
                    return Err(
                        MigrationError::ExecutionFailed {
                            migration: plan[i].clone(),
                            error: e,
                            completed: unapplied,
                        },
                    );
                },
            }
            proof {
                assert(self.state.applied_view() == without_all(applied0, planv.take(i + 1)));
            }
            let unapplied_name = plan[i].clone();
            unapplied.push(unapplied_name);
            proof {
                assert(unapplied.deep_view() =~= planv.take(i + 1));
            }
            i += 1;
        }
        proof {
            assert(planv.take(planv.len() as int) =~= planv);
            assert(backward_plan_matches(ms, applied0, target_view(target), planv));
            assert(all_candidates_reversible(ms, planv));
        }
        Ok(unapplied)
    }

    /// Roll back the planned migrations without transaction support: as
    /// `migrate_backward_with_transactions`, with transaction control that
    /// does nothing.
    pub fn migrate_backward<E: SqlExecutor>(&mut self, target: Option<&str>, executor: &mut E)
        -> (r: Result<Vec<String>, MigrationError>)
        requires
            registry_wf(old(self).registry.migrations@),
            registry_renderable(
                old(self).registry.migrations@,
                old(self).backend.spec_dialect(),
            ),
        ensures
            final(self).registry == old(self).registry,
            final(self).backend == old(self).backend,
            r matches Ok(unapplied) ==> backward_plan_matches(
                old(self).registry.migrations@,
                old(self).state.applied_view(),
                target_view(target),
                unapplied.deep_view(),
            ) && all_candidates_reversible(old(self).registry.migrations@, unapplied.deep_view()),
            r matches Ok(unapplied) ==> final(self).state.applied_view() == without_all(
                old(self).state.applied_view(),
                unapplied.deep_view(),
            ),
            r matches Ok(unapplied) ==> final(executor).executed() == old(executor).executed()
                + succeeded(plan_backward_statements(
                old(self).registry.migrations@,
                unapplied.deep_view(),
                old(self).backend.spec_dialect(),
            )),
            r matches Err(MigrationError::ExecutionFailed { migration, error: _, completed })
                ==> (migration@ == "state"@ && completed.deep_view() == Seq::<Seq<char>>::empty()
                && final(executor).executed() == old(executor).executed()) || (exists|
                planv: Seq<Seq<char>>,
                i: int,
            |
                #[trigger] backward_plan_matches(
                    old(self).registry.migrations@,
                    old(self).state.applied_view(),
                    target_view(target),
                    planv,
                ) && 0 <= i < planv.len() && migration@ == planv[i] && completed.deep_view()
                    == #[trigger] planv.take(i)),
            r matches Err(MigrationError::NotFound(n)) ==> missing_dep(
                old(self).registry.migrations@,
                n@,
            ),
            r matches Err(MigrationError::CircularDependency(n)) ==> exists|p: Seq<Seq<char>>|
                is_dep_cycle(old(self).registry.migrations@, p) && p.first() == n@,
            r is Ok ==> !has_cycle(old(self).registry.migrations@) && !has_missing_dep(
                old(self).registry.migrations@,
            ),
            r matches Err(MigrationError::ExecutionFailed { .. }) ==> !has_cycle(
                old(self).registry.migrations@,
            ) && !has_missing_dep(old(self).registry.migrations@),
            has_cycle(old(self).registry.migrations@) && !has_missing_dep(
                old(self).registry.migrations@,
            ) ==> r matches Err(MigrationError::CircularDependency(..)),
            !has_cycle(old(self).registry.migrations@) && has_missing_dep(
                old(self).registry.migrations@,
            ) ==> r matches Err(MigrationError::NotFound(..)),
            r matches Ok(unapplied) ==> (canonical_order(old(self).registry.migrations@) matches
            Some(order) && unapplied.deep_view() == backward_candidates(
                order,
                old(self).state.applied_view(),
                target_view(target),
            )),
    {
        let mut tx = NoTransactions::new();
        self.migrate_backward_with_transactions(target, executor, &mut tx)
    }
}



/// Filtering an order whose names are all applied leaves nothing.
proof fn lemma_filter_out_all_applied(order: Seq<Seq<char>>, applied: Seq<Seq<char>>)
    requires
        forall|i: int| 0 <= i < order.len() ==> applied.contains(#[trigger] order[i]),
    ensures
        filter_out(order, applied) == Seq::<Seq<char>>::empty(),
    decreases order.len(),
{
    if order.len() == 0 {
        assert(filter_out(order, applied) =~= Seq::<Seq<char>>::empty());
    } else {
        assert(applied.contains(order[order.len() - 1]));
        assert(forall|i: int|
            0 <= i < order.drop_last().len() ==> applied.contains(
                #[trigger] order.drop_last()[i],
            ));
        lemma_filter_out_all_applied(order.drop_last(), applied);
    }
}

/// Forward execution is idempotent: once a successful forward run has
/// applied its whole plan on top of the applied set, any further forward
/// plan over the same registry is empty, so a second run with no external
/// state change in between applies nothing.
pub proof fn lemma_forward_idempotent(
    ms: Seq<Migration>,
    applied0: Seq<Seq<char>>,
    planv: Seq<Seq<char>>,
    order2: Seq<Seq<char>>,
)
    requires
        forward_plan_matches(ms, applied0, planv),
        valid_resolution(ms, order2),
    ensures
        filter_out(order2, applied0 + planv) == Seq::<Seq<char>>::empty(),
{
    let order1 = choose|o: Seq<Seq<char>>|
        #[trigger] valid_resolution(ms, o) && planv == filter_out(o, applied0);
    let applied1 = applied0 + planv;
    assert forall|i: int| 0 <= i < order2.len() implies applied1.contains(
        #[trigger] order2[i],
    ) by {
        let x = order2[i];
        assert(order2.contains(x));
        assert(reg_names(ms).contains(x));
        let w = choose|w: int| 0 <= w < reg_names(ms).len() && reg_names(ms)[w] == x;
        assert(ms[w].name@ == x);
        assert(order1.contains(ms[w].name@));
        if applied0.contains(x) {
            let q = choose|q: int| 0 <= q < applied0.len() && applied0[q] == x;
            assert(applied1[q] == x);
        } else {
            lemma_filter_out_membership(order1, applied0, x);
            assert(planv.contains(x));
            let q = choose|q: int| 0 <= q < planv.len() && planv[q] == x;
            assert(applied1[applied0.len() + q] == x);
        }
    }
    lemma_filter_out_all_applied(order2, applied1);
}

/// Named statement lists, one per plan entry, as character sequences.
pub open spec fn sql_pairs_view(v: Seq<(String, Vec<String>)>) -> Seq<(Seq<char>, Seq<Seq<char>>)> {
    v.map_values(|p: (String, Vec<String>)| (p.0@, p.1.deep_view()))
}

/// The forward statements of each plan entry's migration, paired with its
/// name, in plan order.
pub open spec fn forward_sql_of_plan(
    ms: Seq<Migration>,
    planv: Seq<Seq<char>>,
    d: Dialect,
) -> Seq<(Seq<char>, Seq<Seq<char>>)>
    decreases planv.len(),
{
    if planv.len() == 0 {
        Seq::empty()
    } else {
        forward_sql_of_plan(ms, planv.drop_last(), d).push(
            (planv.last(), migration_forward_stmts(the_migration(ms, planv.last()), d)),
        )
    }
}

/// The backward statements of each plan entry's migration, paired with its
/// name, in plan order.
pub open spec fn backward_sql_of_plan(
    ms: Seq<Migration>,
    planv: Seq<Seq<char>>,
    d: Dialect,
) -> Seq<(Seq<char>, Seq<Seq<char>>)>
    decreases planv.len(),
{
    if planv.len() == 0 {
        Seq::empty()
    } else {
        backward_sql_of_plan(ms, planv.drop_last(), d).push(
            (
                planv.last(),
                match migration_backward_stmts(the_migration(ms, planv.last()), d) {
                    Some(v) => v,
                    None => Seq::empty(),
                },
            ),
        )
    }
}

/// The forward statements of the planned migrations, concatenated in plan
/// order.
pub open spec fn plan_statements(ms: Seq<Migration>, planv: Seq<Seq<char>>, d: Dialect) -> Seq<
    Seq<char>,
>
    decreases planv.len(),
{
    if planv.len() == 0 {
        Seq::empty()
    } else {
        plan_statements(ms, planv.drop_last(), d) + migration_forward_stmts(
            the_migration(ms, planv.last()),
            d,
        )
    }
}

/// The backward statements of the planned migrations, concatenated in plan
/// order.
pub open spec fn plan_backward_statements(
    ms: Seq<Migration>,
    planv: Seq<Seq<char>>,
    d: Dialect,
) -> Seq<Seq<char>>
    decreases planv.len(),
{
    if planv.len() == 0 {
        Seq::empty()
    } else {
        plan_backward_statements(ms, planv.drop_last(), d) + (match migration_backward_stmts(
            the_migration(ms, planv.last()),
            d,
        ) {
            Some(v) => v,
            None => Seq::empty(),
        })
    }
}

/// The transaction-control calls a successful run issues, in order: for
/// each planned migration, one begin and one commit around its statements
/// when the dialect supports transactional DDL and the migration is atomic,
/// and nothing at all otherwise. Rollback never appears on a success path.
pub open spec fn plan_tx_events(ms: Seq<Migration>, planv: Seq<Seq<char>>, d: Dialect) -> Seq<
    TxEvent,
>
    decreases planv.len(),
{
    if planv.len() == 0 {
        Seq::empty()
    } else {
        plan_tx_events(ms, planv.drop_last(), d) + (if spec_supports_transactional_ddl(d)
            && the_migration(ms, planv.last()).atomic {
            seq![TxEvent::Begin, TxEvent::Commit]
        } else {
            Seq::empty()
        })
    }
}

/// Whether every registered migration can render all of its statement lists
/// on dialect `d`.
pub open spec fn registry_renderable(ms: Seq<Migration>, d: Dialect) -> bool {
    forall|k: int| 0 <= k < ms.len() ==> migration_renderable(#[trigger] ms[k], d)
}

/// Statements logged as accepted, in order.
pub open spec fn succeeded(stmts: Seq<Seq<char>>) -> Seq<(Seq<char>, bool)> {
    stmts.map_values(|s: Seq<char>| (s, true))
}

/// How a failed migration run leaves the executor and transaction logs,
/// starting from `exec0` and `tx0`. One of three things happened: begin was
/// refused before anything ran; some statement was refused after every
/// statement before it was accepted, with one best-effort rollback when
/// wrapped; or every statement was accepted and commit was refused, with
/// one best-effort rollback. The begin and commit cases name themselves in
/// the error; a refused statement's error is the executor's own.
pub open spec fn run_failure(
    exec0: Seq<(Seq<char>, bool)>,
    exec1: Seq<(Seq<char>, bool)>,
    tx0: Seq<TxEvent>,
    tx1: Seq<TxEvent>,
    stmts: Seq<Seq<char>>,
    wrap: bool,
    err: Seq<char>,
) -> bool {
    ||| (wrap && exec1 == exec0 && tx1 == tx0.push(TxEvent::Begin) && (exists|cause: Seq<char>|
        err == "begin transaction: "@ + cause))
    ||| (exists|k: int|
        0 <= k < stmts.len() && exec1 == exec0 + succeeded(stmts.take(k)).push(
            (stmts[k], false),
        ) && (wrap ==> tx1 == tx0 + seq![TxEvent::Begin, TxEvent::Rollback]) && (!wrap ==> tx1
            == tx0))
    ||| (wrap && exec1 == exec0 + succeeded(stmts) && tx1 == tx0 + seq![
        TxEvent::Begin,
        TxEvent::Commit,
        TxEvent::Rollback,
    ] && (exists|cause: Seq<char>| err == "commit transaction: "@ + cause))
}

/// How a forward run that failed at plan position `i` leaves the logs and
/// the applied record, starting from `exec0`, `tx0` and `applied0`:
/// everything strictly before `i` ran to completion and was recorded, and
/// at `i` either the migration's run failed as `run_failure` says, leaving
/// the record at the completed prefix, or the run succeeded in full and
/// recording it as applied was refused, which leaves the record unpromised.
pub open spec fn forward_failure_at(
    ms: Seq<Migration>,
    d: Dialect,
    planv: Seq<Seq<char>>,
    i: int,
    exec0: Seq<(Seq<char>, bool)>,
    exec1: Seq<(Seq<char>, bool)>,
    tx0: Seq<TxEvent>,
    tx1: Seq<TxEvent>,
    applied0: Seq<Seq<char>>,
    applied1: Seq<Seq<char>>,
    err: Seq<char>,
) -> bool {
    let m = the_migration(ms, planv[i]);
    let wrap = spec_supports_transactional_ddl(d) && m.atomic;
    ||| (run_failure(
        exec0 + succeeded(plan_statements(ms, planv.take(i), d)),
        exec1,
        tx0 + plan_tx_events(ms, planv.take(i), d),
        tx1,
        migration_forward_stmts(m, d),
        wrap,
        err,
    ) && applied1 == applied0 + planv.take(i))
    ||| (exec1 == exec0 + succeeded(plan_statements(ms, planv.take(i + 1), d)) && tx1 == tx0
        + plan_tx_events(ms, planv.take(i + 1), d))
}

/// The backward counterpart of `forward_failure_at`, over the backward
/// statement lists and recording as unapplied.
pub open spec fn backward_failure_at(
    ms: Seq<Migration>,
    d: Dialect,
    planv: Seq<Seq<char>>,
    i: int,
    exec0: Seq<(Seq<char>, bool)>,
    exec1: Seq<(Seq<char>, bool)>,
    tx0: Seq<TxEvent>,
    tx1: Seq<TxEvent>,
    applied0: Seq<Seq<char>>,
    applied1: Seq<Seq<char>>,
    err: Seq<char>,
) -> bool {
    let m = the_migration(ms, planv[i]);
    let wrap = spec_supports_transactional_ddl(d) && m.atomic;
    let stmts = match migration_backward_stmts(m, d) {
        Some(v) => v,
        None => Seq::empty(),
    };
    ||| (run_failure(
        exec0 + succeeded(plan_backward_statements(ms, planv.take(i), d)),
        exec1,
        tx0 + plan_tx_events(ms, planv.take(i), d),
        tx1,
        stmts,
        wrap,
        err,
    ) && applied1 == without_all(applied0, planv.take(i)))
    ||| (exec1 == exec0 + succeeded(plan_backward_statements(ms, planv.take(i + 1), d)) && tx1
        == tx0 + plan_tx_events(ms, planv.take(i + 1), d))
}

/// Run one migration's statements, wrapped in a transaction when `wrap` is
/// on: begin first, commit after the last statement, and one best-effort
/// rollback on any failure in between, its own result discarded. Without
/// `wrap`, transaction control is never touched. Execution stops at the
/// first refused statement; a refused begin or commit names itself in the
/// error.
fn execute_statements<E: SqlExecutor, T: TransactionControl>(
    statements: &Vec<String>,
    wrap: bool,
    executor: &mut E,
    tx: &mut T,
) -> (r: Result<(), String>)
    ensures
        !wrap ==> final(tx).events() == old(tx).events(),
        wrap && r is Ok ==> final(tx).events() == old(tx).events().push(TxEvent::Begin).push(
            TxEvent::Commit,
        ),
        r is Ok ==> final(executor).executed() == old(executor).executed() + succeeded(
            statements.deep_view(),
        ),
        r matches Err(e) ==> run_failure(
            old(executor).executed(),
            final(executor).executed(),
            old(tx).events(),
            final(tx).events(),
            statements.deep_view(),
            wrap,
            e@,
        ),
{
    if wrap {
        match tx.begin() {
            Ok(()) => {},
            Err(e) => {
                let mut message = String::from_str("begin transaction: ");
                message.append(e.as_str());
                return Err(message);
            },
        }
    }
    let mut i: usize = 0;
    proof {
        assert(succeeded(statements.deep_view().take(0)) =~= Seq::<(Seq<char>, bool)>::empty());
        assert(executor.executed() + Seq::<(Seq<char>, bool)>::empty() =~= executor.executed());
    }
    while i < statements.len()
        invariant
            0 <= i <= statements@.len(),
            executor.executed() == old(executor).executed() + succeeded(
                statements.deep_view().take(i as int),
            ),
            wrap ==> tx.events() == old(tx).events().push(TxEvent::Begin),
            !wrap ==> tx.events() == old(tx).events(),
        decreases statements@.len() - i,
    {
        proof {
            assert(statements.deep_view()[i as int] == statements@[i as int]@);
        }
        match executor.execute(statements[i].as_str()) {
            Ok(()) => {},
            Err(e) => {
                proof {
                    assert(executor.executed() =~= old(executor).executed() + succeeded(
                        statements.deep_view().take(i as int),
                    ).push((statements.deep_view()[i as int], false)));
                }
                if wrap {
                    let _ = tx.rollback();
                    proof {
                        assert(tx.events() =~= old(tx).events() + seq![
                            TxEvent::Begin,
                            TxEvent::Rollback,
                        ]);
                    }
                }
                return Err(e);
            },
        }
        proof {
            assert(old(executor).executed() + succeeded(statements.deep_view().take(i + 1)) =~= (
            old(executor).executed() + succeeded(statements.deep_view().take(i as int))).push(
                (statements.deep_view()[i as int], true),
            ));
        }
        i += 1;
    }
    proof {
        assert(statements.deep_view().take(statements@.len() as int) =~= statements.deep_view());
    }
    if wrap {
        match tx.commit() {
            Ok(()) => {},
            Err(e) => {
                let _ = tx.rollback();
                proof {
                    assert(tx.events() =~= old(tx).events() + seq![
                        TxEvent::Begin,
                        TxEvent::Commit,
                        TxEvent::Rollback,
                    ]);
                }
                let mut message = String::from_str("commit transaction: ");
                message.append(e.as_str());
                return Err(message);
            },
        }
    }
    Ok(())
}

/// Check that every named migration can be reversed; fail with
/// `NotReversible` at the first that cannot, before anything is rendered or
/// executed.
#[verifier::loop_isolation(false)]
fn validate_reversible(registry: &MigrationRegistry, names: &Vec<String>) -> (r: Result<
    (),
    MigrationError,
>)
    requires
        registry_wf(registry.migrations@),
        forall|i: int|
            0 <= i < names.deep_view().len() ==> has_name(
                registry.migrations@,
                #[trigger] names.deep_view()[i],
            ),
    ensures
        ({
            let ms = registry.migrations@;
            let namesv = names.deep_view();
            match r {
                Ok(()) => forall|i: int|
                    0 <= i < namesv.len() ==> migration_reversible(
                        the_migration(ms, #[trigger] namesv[i]),
                    ),
                Err(e) => e matches MigrationError::NotReversible(n) && (exists|i: int|
                    0 <= i < namesv.len() && namesv[i] == n@ && !migration_reversible(
                        the_migration(ms, n@),
                    ) && (forall|j: int|
                        0 <= j < i ==> migration_reversible(the_migration(ms, #[trigger] namesv[j])))),
            }
        }),
{
    let ghost ms = registry.migrations@;
    let ghost namesv = names.deep_view();
    let mut ci: usize = 0;
    while ci < names.len()
        invariant
            0 <= ci <= namesv.len(),
            forall|i: int|
                0 <= i < ci ==> migration_reversible(the_migration(ms, #[trigger] namesv[i])),
        decreases namesv.len() - ci,
    {
        proof {
            assert(namesv[ci as int] == names@[ci as int]@);
        }
        let migration = match registry.get(names[ci].as_str()) {
            Some(m) => m,
            None => unreached(),
        };
        if !migration.is_reversible() {
            return Err(MigrationError::NotReversible(names[ci].clone()));
        }
        ci += 1;
    }
    Ok(())
}

/// A candidate name is in the base list whatever the target does, since
/// cutting only shortens the list.
proof fn lemma_candidate_in_base(
    order: Seq<Seq<char>>,
    applied: Seq<Seq<char>>,
    target: Option<Seq<char>>,
    x: Seq<char>,
)
    requires
        backward_candidates(order, applied, target).contains(x),
    ensures
        filter_in(order.reverse(), applied).contains(x),
{
    let base = filter_in(order.reverse(), applied);
    let cand = backward_candidates(order, applied, target);
    let i = choose|i: int| 0 <= i < cand.len() && cand[i] == x;
    match target {
        None => {
            assert(base[i] == x);
        },
        Some(t) => {
            if base.contains(t) {
                lemma_first_index_bounds(base, t);
                assert(cand[i] == base[i]);
                assert(base[i] == x);
            } else {
                assert(base[i] == x);
            }
        },
    }
}

/// An applied-set record held in memory; useful for planning dry runs and
/// tests.
#[derive(Debug)]
pub struct InMemoryState {
    pub applied: Vec<String>,
}

impl InMemoryState {
    pub fn new() -> (r: Self)
        ensures
            r.applied_view() == Seq::<Seq<char>>::empty(),
    {
        let r = InMemoryState { applied: Vec::new() };
        proof {
            assert(r.applied.deep_view() =~= Seq::<Seq<char>>::empty());
        }
        r
    }

    pub fn with_applied(applied: Vec<String>) -> (r: Self)
        ensures
            r.applied_view() == applied.deep_view(),
    {
        InMemoryState { applied }
    }
}

impl Default for InMemoryState {
    fn default() -> (r: Self)
        ensures
            r.applied_view() == Seq::<Seq<char>>::empty(),
    {
        InMemoryState::new()
    }
}

impl MigrationStateStore for InMemoryState {
    open spec fn applied_view(&self) -> Seq<Seq<char>> {
        self.applied.deep_view()
    }

    fn applied_migrations(&mut self) -> (r: Result<Vec<String>, String>)
        ensures
            r is Ok,
    {
        Ok(crate::operation::sql::clone_string_vec(&self.applied))
    }

    fn mark_applied(&mut self, name: &str) -> (r: Result<(), String>)
        ensures
            r is Ok,
    {
        if !vec_contains_str(&self.applied, name) {
            self.applied.push(name.to_owned());
            proof {
                assert(self.applied.deep_view() =~= old(self).applied.deep_view().push(name@));
            }
        }
        Ok(())
    }

    fn mark_unapplied(&mut self, name: &str) -> (r: Result<(), String>)
        ensures
            r is Ok,
    {
        let mut kept: Vec<String> = Vec::new();
        let mut i: usize = 0;
        while i < self.applied.len()
            invariant
                0 <= i <= self.applied@.len(),
                self.applied@ == old(self).applied@,
                kept.deep_view() == without_name(
                    self.applied.deep_view().take(i as int),
                    name@,
                ),
            decreases self.applied@.len() - i,
        {
            proof {
                assert(self.applied.deep_view().take(i + 1).last() == self.applied.deep_view()[
                    i as int
                ]);
                assert(self.applied.deep_view().take(i + 1).drop_last()
                    =~= self.applied.deep_view().take(i as int));
                assert(self.applied.deep_view()[i as int] == self.applied@[i as int]@);
            }
            if !crate::strutil::str_eq(self.applied[i].as_str(), name) {
                let kept_name = self.applied[i].clone();
                assert(kept_name@ == self.applied.deep_view()[i as int]);
                kept.push(kept_name);
                proof {
                    assert(kept.deep_view() =~= without_name(
                        self.applied.deep_view().take(i + 1),
                        name@,
                    ));
                }
            }
            i += 1;
        }
        proof {
            assert(self.applied.deep_view().take(self.applied@.len() as int)
                =~= self.applied.deep_view());
        }
        self.applied = kept;
        Ok(())
    }
}

} // verus!
