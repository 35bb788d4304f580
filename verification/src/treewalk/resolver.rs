//! The resolver: binds every use of a variable to the scope that declares
//! it, before the program runs.

use vstd::prelude::*;
use crate::treewalk::error::Error;
use crate::treewalk::expr::Expr;
use crate::treewalk::stmt::Function;
use crate::treewalk::stmt::Stmt;

verus! {

/// What kind of body is being resolved.
#[derive(Clone, Copy, Debug, PartialEq, Eq, Structural)]
pub enum FuncType {
    /// The top level, outside every function.
    Script,
    Func,
    Init,
    Method,
}

/// The scopes as the resolver sees them, the outermost first: each maps the
/// names declared in it to whether their initializer has been passed.
pub type Scopes = Seq<Map<Seq<char>, bool>>;

/// The names declared in one scope, each with whether its initializer has
/// been passed. Of two entries of one name the later counts.
pub open spec fn scope_view(entries: Seq<(String, bool)>) -> Map<Seq<char>, bool>
    decreases entries.len(),
{
    if entries.len() == 0 {
        Map::empty()
    } else {
        scope_view(entries.drop_last()).insert(entries.last().0@, entries.last().1)
    }
}

pub open spec fn scopes_view(scopes: Seq<Vec<(String, bool)>>) -> Scopes {
    Seq::new(scopes.len(), |i: int| scope_view(scopes[i]@))
}

/// The number of scopes between a use of `name` and the innermost scope
/// that declares it; `None` where no scope does, so that the name is global.
pub open spec fn hop_of(scopes: Scopes, name: Seq<char>) -> Option<nat>
    decreases scopes.len(),
{
    if scopes.len() == 0 {
        None
    } else if scopes.last().dom().contains(name) {
        Some(0)
    } else {
        match hop_of(scopes.drop_last(), name) {
            Some(h) => Some(h + 1),
            None => None,
        }
    }
}

/// What a variable named `name` carries once it is resolved under `scopes`.
pub open spec fn slot(scopes: Scopes, name: Seq<char>) -> Option<usize> {
    match hop_of(scopes, name) {
        Some(h) => Some(h as usize),
        None => None,
    }
}

/// Whether `name` is read while its own initializer is being resolved: the
/// innermost scope declares it and it is not yet defined.
pub open spec fn in_own_initializer(scopes: Scopes, name: Seq<char>) -> bool {
    scopes.len() > 0 && scopes.last().dom().contains(name) && !scopes.last()[name]
}

/// Whether some variable that `e` reads stands in its own initializer.
pub open spec fn blocked(e: Expr, scopes: Scopes) -> bool
    decreases e,
{
    match e {
        Expr::Binary { left, right, .. } => blocked(*left, scopes) || blocked(*right, scopes),
        Expr::Grouping(inner) => blocked(*inner, scopes),
        Expr::Literal(_) => false,
        Expr::Unary { right, .. } => blocked(*right, scopes),
        Expr::Var { name, .. } => in_own_initializer(scopes, name@),
        Expr::Assign { value, .. } => blocked(*value, scopes),
        Expr::Log { left, right, .. } => blocked(*left, scopes) || blocked(*right, scopes),
        Expr::Call { callee, arguments } => blocked(*callee, scopes) || exists|i: int|
            0 <= i < arguments@.len() && blocked(#[trigger] arguments@[i], scopes),
        Expr::Get { object, .. } => blocked(*object, scopes),
        Expr::Put { object, value, .. } => blocked(*object, scopes) || blocked(*value, scopes),
        Expr::This => false,
    }
}

/// Whether every variable that `e` reads or assigns carries the hop to its
/// declaration under `scopes`, and none where it is global.
pub open spec fn resolved(e: Expr, scopes: Scopes) -> bool
    decreases e,
{
    match e {
        Expr::Binary { left, right, .. } => resolved(*left, scopes) && resolved(*right, scopes),
        Expr::Grouping(inner) => resolved(*inner, scopes),
        Expr::Literal(_) => true,
        Expr::Unary { right, .. } => resolved(*right, scopes),
        Expr::Var { name, depth } => depth == slot(scopes, name@),
        Expr::Assign { name, value, depth } => depth == slot(scopes, name@) && resolved(
            *value,
            scopes,
        ),
        Expr::Log { left, right, .. } => resolved(*left, scopes) && resolved(*right, scopes),
        Expr::Call { callee, arguments } => resolved(*callee, scopes) && forall|i: int|
            0 <= i < arguments@.len() ==> resolved(#[trigger] arguments@[i], scopes),
        Expr::Get { object, .. } => resolved(*object, scopes),
        Expr::Put { object, value, .. } => resolved(*object, scopes) && resolved(*value, scopes),
        Expr::This => true,
    }
}

/// Whether `a` and `b` are the same expression but for the hops that their
/// variables carry.
pub open spec fn same_but_hops(a: Expr, b: Expr) -> bool {
    a.model() == b.model()
}

/// Whether `a` and `b` carry the same hop at every variable.
pub open spec fn same_hops(a: Expr, b: Expr) -> bool
    decreases a,
{
    match (a, b) {
        (Expr::Binary { left: l1, right: r1, .. }, Expr::Binary { left: l2, right: r2, .. }) =>
            same_hops(*l1, *l2) && same_hops(*r1, *r2),
        (Expr::Grouping(i1), Expr::Grouping(i2)) => same_hops(*i1, *i2),
        (Expr::Unary { right: r1, .. }, Expr::Unary { right: r2, .. }) => same_hops(*r1, *r2),
        (Expr::Var { depth: d1, .. }, Expr::Var { depth: d2, .. }) => d1 == d2,
        (Expr::Assign { value: v1, depth: d1, .. }, Expr::Assign { value: v2, depth: d2, .. }) => d1
            == d2 && same_hops(*v1, *v2),
        (Expr::Log { left: l1, right: r1, .. }, Expr::Log { left: l2, right: r2, .. }) => same_hops(
            *l1,
            *l2,
        ) && same_hops(*r1, *r2),
        (Expr::Call { callee: c1, arguments: a1 }, Expr::Call { callee: c2, arguments: a2 }) => {
            &&& same_hops(*c1, *c2)
            &&& forall|i: int|
                0 <= i < a1@.len() && i < a2@.len() ==> same_hops(#[trigger] a1@[i], a2@[i])
        },
        (Expr::Get { object: o1, .. }, Expr::Get { object: o2, .. }) => same_hops(*o1, *o2),
        (Expr::Put { object: o1, value: v1, .. }, Expr::Put { object: o2, value: v2, .. }) =>
            same_hops(*o1, *o2) && same_hops(*v1, *v2),
        _ => true,
    }
}

/// Resolving an expression again, under the same scopes, leaves every hop
/// as it is: two resolved copies of one expression carry the same hops.
pub proof fn resolving_is_idempotent(first: Expr, second: Expr, scopes: Scopes)
    requires
        same_but_hops(first, second),
        resolved(first, scopes),
        resolved(second, scopes),
    ensures
        same_hops(first, second),
    decreases first,
{
    match (first, second) {
        (Expr::Binary { left: l1, right: r1, .. }, Expr::Binary { left: l2, right: r2, .. }) => {
            resolving_is_idempotent(*l1, *l2, scopes);
            resolving_is_idempotent(*r1, *r2, scopes);
        },
        (Expr::Grouping(i1), Expr::Grouping(i2)) => {
            resolving_is_idempotent(*i1, *i2, scopes);
        },
        (Expr::Unary { right: r1, .. }, Expr::Unary { right: r2, .. }) => {
            resolving_is_idempotent(*r1, *r2, scopes);
        },
        (Expr::Assign { value: v1, .. }, Expr::Assign { value: v2, .. }) => {
            resolving_is_idempotent(*v1, *v2, scopes);
        },
        (Expr::Log { left: l1, right: r1, .. }, Expr::Log { left: l2, right: r2, .. }) => {
            resolving_is_idempotent(*l1, *l2, scopes);
            resolving_is_idempotent(*r1, *r2, scopes);
        },
        (Expr::Call { callee: c1, arguments: a1 }, Expr::Call { callee: c2, arguments: a2 }) => {
            resolving_is_idempotent(*c1, *c2, scopes);
            let ma = first.model()->Call_arguments;
            let mb = second.model()->Call_arguments;
            assert(ma == mb);
            assert(ma.len() == a1@.len() && mb.len() == a2@.len());
            assert forall|i: int| 0 <= i < a1@.len() implies (#[trigger] a1@[i]).model()
                == a2@[i].model() by {
                assert(ma[i] == a1@[i].model());
                assert(mb[i] == a2@[i].model());
            }
            assert forall|i: int| 0 <= i < a1@.len() && i < a2@.len() implies same_hops(
                #[trigger] a1@[i],
                a2@[i],
            ) by {
                resolving_is_idempotent(a1@[i], a2@[i], scopes);
            }
        },
        (Expr::Get { object: o1, .. }, Expr::Get { object: o2, .. }) => {
            resolving_is_idempotent(*o1, *o2, scopes);
        },
        (Expr::Put { object: o1, value: v1, .. }, Expr::Put { object: o2, value: v2, .. }) => {
            resolving_is_idempotent(*o1, *o2, scopes);
            resolving_is_idempotent(*v1, *v2, scopes);
        },
        _ => {},
    }
}

/// A resolved variable carries a hop exactly if some scope declares its
/// name, and the hop then leads to the innermost scope that does.
pub proof fn hop_leads_to_declaration(scopes: Scopes, name: Seq<char>)
    ensures
        hop_of(scopes, name) is Some <==> exists|i: int|
            0 <= i < scopes.len() && #[trigger] scopes[i].dom().contains(name),
        hop_of(scopes, name) matches Some(h) ==> {
            &&& h < scopes.len()
            &&& scopes[scopes.len() - 1 - h].dom().contains(name)
            &&& forall|j: int|
                scopes.len() - 1 - h < j < scopes.len() ==> !(#[trigger] scopes[j]).dom().contains(
                    name,
                )
        },
    decreases scopes.len(),
{
    if scopes.len() > 0 {
        let rest = scopes.drop_last();
        hop_leads_to_declaration(rest, name);
        if scopes.last().dom().contains(name) {
            assert(scopes[scopes.len() - 1].dom().contains(name));
        } else {
            if hop_of(rest, name) is Some {
                let h = hop_of(rest, name)->Some_0;
                assert(rest[rest.len() - 1 - h] == scopes[scopes.len() - 2 - h]);
                assert forall|j: int| scopes.len() - 2 - h < j < scopes.len() implies !(
                #[trigger] scopes[j]).dom().contains(name) by {
                    if j < rest.len() {
                        assert(rest[j] == scopes[j]);
                    }
                }
            }
            if exists|i: int| 0 <= i < scopes.len() && #[trigger] scopes[i].dom().contains(name) {
                let i = choose|i: int|
                    0 <= i < scopes.len() && #[trigger] scopes[i].dom().contains(name);
                assert(rest[i] == scopes[i]);
            }
            if exists|i: int| 0 <= i < rest.len() && #[trigger] rest[i].dom().contains(name) {
                let i = choose|i: int| 0 <= i < rest.len() && #[trigger] rest[i].dom().contains(name);
                assert(rest[i] == scopes[i]);
            }
        }
    }
}

proof fn scope_view_last(entries: Seq<(String, bool)>, name: Seq<char>, idx: int)
    requires
        0 <= idx < entries.len(),
        entries[idx].0@ == name,
        forall|j: int| idx < j < entries.len() ==> entries[j].0@ != name,
    ensures
        scope_view(entries).dom().contains(name),
        scope_view(entries)[name] == entries[idx].1,
    decreases entries.len(),
{
    if idx < entries.len() - 1 {
        scope_view_last(entries.drop_last(), name, idx);
    }
}

proof fn scope_view_absent(entries: Seq<(String, bool)>, name: Seq<char>)
    requires
        forall|j: int| 0 <= j < entries.len() ==> entries[j].0@ != name,
    ensures
        !scope_view(entries).dom().contains(name),
    decreases entries.len(),
{
    if entries.len() > 0 {
        scope_view_absent(entries.drop_last(), name);
    }
}

proof fn scope_view_update(entries: Seq<(String, bool)>, idx: int, entry: (String, bool))
    requires
        0 <= idx < entries.len(),
        entries[idx].0@ == entry.0@,
        forall|j: int| idx < j < entries.len() ==> entries[j].0@ != entry.0@,
    ensures
        scope_view(entries.update(idx, entry)) == scope_view(entries).insert(entry.0@, entry.1),
    decreases entries.len(),
{
    let updated = entries.update(idx, entry);
    if idx == entries.len() - 1 {
        assert(updated.drop_last() =~= entries.drop_last());
        assert(scope_view(updated) =~= scope_view(entries).insert(entry.0@, entry.1));
    } else {
        scope_view_update(entries.drop_last(), idx, entry);
        assert(updated.drop_last() =~= entries.drop_last().update(idx, entry));
        assert(scope_view(updated) =~= scope_view(entries).insert(entry.0@, entry.1));
    }
}

/// The index of the last entry for `name`.
fn scope_find(entries: &Vec<(String, bool)>, name: &str) -> (r: Option<usize>)
    ensures
        r is Some == scope_view(entries@).dom().contains(name@),
        r matches Some(i) ==> i < entries@.len() && entries@[i as int].0@ == name@
            && scope_view(entries@)[name@] == entries@[i as int].1 && forall|j: int|
            i < j < entries@.len() ==> entries@[j].0@ != name@,
{
    let mut k: usize = entries.len();
    while k > 0
        invariant
            k <= entries@.len(),
            forall|j: int| k <= j < entries@.len() ==> entries@[j].0@ != name@,
        decreases k,
    {
        k -= 1;
        if crate::text::same_text(entries[k].0.as_str(), name) {
            proof {
                scope_view_last(entries@, name@, k as int);
            }
            return Some(k);
        }
    }
    proof {
        scope_view_absent(entries@, name@);
    }
    None
}

/// Walks the syntax tree before it is run and writes, into every variable
/// that is read or assigned, the hop to its declaration.
pub struct Resolver {
    pub scopes: Vec<Vec<(String, bool)>>,
    pub current_func: FuncType,
}

impl View for Resolver {
    type V = Scopes;

    open spec fn view(&self) -> Scopes {
        scopes_view(self.scopes@)
    }
}

/// The scopes with `name` entered in the innermost one; nothing is entered
/// at the top level, where there is no scope.
pub open spec fn entered(scopes: Scopes, name: Seq<char>, defined: bool) -> Scopes {
    if scopes.len() == 0 {
        scopes
    } else {
        scopes.update(scopes.len() - 1, scopes.last().insert(name, defined))
    }
}

impl Resolver {
    pub fn new() -> (r: Resolver)
        ensures
            r@ == Seq::<Map<Seq<char>, bool>>::empty(),
            r.current_func == FuncType::Script,
    {
        let r = Resolver { current_func: FuncType::Script, scopes: Vec::new() };
        assert(r@ =~= Seq::empty());
        r
    }

    /// Enters a scope.
    pub fn begin_scope(&mut self)
        ensures
            final(self)@ == old(self)@.push(Map::empty()),
            final(self).current_func == old(self).current_func,
    {
        self.scopes.push(Vec::new());
        assert(self@ =~= old(self)@.push(Map::empty()));
    }

    /// Leaves the innermost scope.
    pub fn end_scope(&mut self)
        ensures
            final(self)@ == (if old(self)@.len() > 0 {
                old(self)@.drop_last()
            } else {
                old(self)@
            }),
            final(self).current_func == old(self).current_func,
    {
        let _ = self.scopes.pop();
        assert(self@ =~= (if old(self)@.len() > 0 {
            old(self)@.drop_last()
        } else {
            old(self)@
        }));
    }

    /// Enters `name` in the innermost scope as declared and not yet
    /// defined. Fails where that scope declares the name already.
    pub fn declare(&mut self, name: &str) -> (r: Result<(), Error>)
        ensures
            final(self).current_func == old(self).current_func,
            r is Err <==> old(self)@.len() > 0 && old(self)@.last().dom().contains(name@),
            r is Err ==> r->Err_0 is Resolution && final(self)@ == old(self)@,
            r is Ok ==> final(self)@ == entered(old(self)@, name@, false),
    {
        let n = self.scopes.len();
        if n > 0 {
            if scope_find(&self.scopes[n - 1], name).is_some() {
                return Err(
                    Error::Resolution(
                        String::from_str(name).concat(" has already been declared in this scope"),
                    ),
                );
            }
            let ghost before = self.scopes@[n - 1]@;
            let mut top = Vec::new();
            std::mem::swap(&mut top, &mut self.scopes[n - 1]);
            top.push((String::from_str(name), false));
            assert(top@.drop_last() =~= before);
            self.scopes.set(n - 1, top);
            assert(self@ =~= entered(old(self)@, name@, false));
        }
        Ok(())
    }

    /// Marks `name` as defined in the innermost scope, if that scope
    /// declares it.
    pub fn define(&mut self, name: &str)
        ensures
            final(self).current_func == old(self).current_func,
            final(self)@ == (if old(self)@.len() > 0 && old(self)@.last().dom().contains(name@) {
                entered(old(self)@, name@, true)
            } else {
                old(self)@
            }),
    {
        let n = self.scopes.len();
        if n > 0 {
            match scope_find(&self.scopes[n - 1], name) {
                Some(i) => {
                    let ghost before = self.scopes@[n - 1]@;
                    let mut top = Vec::new();
                    std::mem::swap(&mut top, &mut self.scopes[n - 1]);
                    let entry = (String::from_str(name), true);
                    proof {
                        scope_view_update(before, i as int, entry);
                    }
                    top.set(i, entry);
                    self.scopes.set(n - 1, top);
                    assert(self@ =~= entered(old(self)@, name@, true));
                },
                None => {
                    assert(self@ =~= old(self)@);
                },
            }
        }
    }

    /// The hop from the innermost scope to the innermost one that declares
    /// `name`; `None` where no scope declares it.
    pub fn resolve_local(&self, name: &str) -> (r: Option<usize>)
        ensures
            r == slot(self@, name@),
    {
        let n = self.scopes.len();
        let mut k: usize = n;
        proof {
            assert(self@.subrange(0, n as int) =~= self@);
            hop_leads_to_declaration(self@, name@);
        }
        while k > 0
            invariant
                k <= n,
                n == self.scopes@.len(),
                hop_of(self@, name@) == (match hop_of(self@.subrange(0, k as int), name@) {
                    Some(h) => Some((h + (n - k)) as nat),
                    None => None,
                }),
                hop_of(self@.subrange(0, k as int), name@) matches Some(h) ==> h < k,
            decreases k,
        {
            let ghost part = self@.subrange(0, k as int);
            proof {
                hop_leads_to_declaration(part, name@);
                assert(part.drop_last() =~= self@.subrange(0, k - 1));
                assert(part.last() == scope_view(self.scopes@[k - 1]@));
                hop_leads_to_declaration(part.drop_last(), name@);
            }
            k -= 1;
            if scope_find(&self.scopes[k], name).is_some() {
                return Some(n - 1 - k);
            }
        }
        assert(self@.subrange(0, 0) =~= Seq::empty());
        None
    }

    /// Resolves the expressions of `list`, from the first to the first that
    /// fails.
    fn resolve_exprs(&mut self, list: &mut Vec<Expr>) -> (r: Result<(), Error>)
        ensures
            final(self).scopes == old(self).scopes,
            final(self).current_func == old(self).current_func,
            final(list)@.len() == old(list)@.len(),
            forall|i: int|
                0 <= i < old(list)@.len() ==> same_but_hops(
                    #[trigger] old(list)@[i],
                    final(list)@[i],
                ),
            r is Ok <==> forall|i: int|
                0 <= i < old(list)@.len() ==> !blocked(#[trigger] old(list)@[i], old(self)@),
            r is Ok ==> forall|i: int|
                0 <= i < final(list)@.len() ==> resolved(#[trigger] final(list)@[i], old(self)@),
            r is Err ==> r->Err_0 is Resolution,
        decreases *old(list), 2nat,
    {
        let mut i: usize = 0;
        while i < list.len()
            invariant
                self.scopes == old(self).scopes,
                self.current_func == old(self).current_func,
                i <= list@.len(),
                list@.len() == old(list)@.len(),
                forall|j: int| i <= j < list@.len() ==> list@[j] == old(list)@[j],
                forall|j: int|
                    0 <= j < old(list)@.len() ==> same_but_hops(#[trigger] old(list)@[j], list@[j]),
                forall|j: int| 0 <= j < i ==> !blocked(#[trigger] old(list)@[j], old(self)@),
                forall|j: int| 0 <= j < i ==> resolved(#[trigger] list@[j], old(self)@),
            decreases list@.len() - i,
        {
            assert(list@[i as int] == old(list)@[i as int]);
            match self.resolve_expr(&mut list[i]) {
                Ok(_) => {},
                Err(e) => {
                    assert(blocked(old(list)@[i as int], old(self)@));
                    return Err(e);
                },
            }
            i += 1;
        }
        Ok(())
    }

    /// Writes into every variable of `expr` the hop to its declaration.
    /// Fails where a variable is read in its own initializer.
    pub fn resolve_expr(&mut self, expr: &mut Expr) -> (r: Result<(), Error>)
        ensures
            final(self).scopes == old(self).scopes,
            final(self).current_func == old(self).current_func,
            same_but_hops(*old(expr), *final(expr)),
            r is Ok <==> !blocked(*old(expr), old(self)@),
            r is Ok ==> resolved(*final(expr), old(self)@),
            r is Err ==> r->Err_0 is Resolution,
        decreases *old(expr), 1nat,
    {
        self.resolve_node(expr)
    }

    /// Resolves what stands in a statement: as `resolve_expr`, and the
    /// expression then abides by the rules.
    fn resolve_in_stmt(&mut self, expr: &mut Expr) -> (r: Result<(), Error>)
        ensures
            final(self).scopes == old(self).scopes,
            final(self).current_func == old(self).current_func,
            same_but_hops(*old(expr), *final(expr)),
            r is Ok <==> !blocked(*old(expr), old(self)@),
            r is Ok ==> expr_ok(*final(expr), old(self)@),
            r is Err ==> r->Err_0 is Resolution,
    {
        let r = self.resolve_expr(expr);
        proof {
            blocked_ignores_hops(*old(expr), *expr, old(self)@);
        }
        r
    }

    fn resolve_node(&mut self, expr: &mut Expr) -> (r: Result<(), Error>)
        ensures
            final(self).scopes == old(self).scopes,
            final(self).current_func == old(self).current_func,
            same_but_hops(*old(expr), *final(expr)),
            r is Ok <==> !blocked(*old(expr), old(self)@),
            r is Ok ==> resolved(*final(expr), old(self)@),
            r is Err ==> r->Err_0 is Resolution,
        decreases *old(expr), 0nat,
    {
        match expr {
            Expr::Binary { left, operator, right } => {
                self.resolve_expr(left)?;
                self.resolve_expr(right)
            },
            Expr::Grouping(inner) => self.resolve_expr(inner),
            Expr::Literal(_) => Ok(()),
            Expr::Unary { operator, right } => self.resolve_expr(right),
            Expr::Var { name, depth } => self.visit_var(name.as_str(), depth),
            Expr::Assign { name, value, depth } => {
                self.resolve_expr(value)?;
                *depth = self.resolve_local(name.as_str());
                Ok(())
            },
            Expr::Log { left, operator, right } => {
                self.resolve_expr(left)?;
                self.resolve_expr(right)
            },
            Expr::Call { callee, arguments } => {
                match self.resolve_expr(callee) {
                    Ok(_) => {},
                    Err(e) => {
                        return Err(e);
                    },
                }
                let r = self.resolve_exprs(arguments);
                proof {
                    let now = Expr::Call { callee: *callee, arguments: *arguments };
                    assert(now.model()->Call_arguments =~= old(expr).model()->Call_arguments);
                }
                r
            },
            Expr::Get { object, name } => self.resolve_expr(object),
            Expr::Put { object, name, value } => {
                self.resolve_expr(object)?;
                self.resolve_expr(value)
            },
            Expr::This => Ok(()),
        }
    }

    /// Resolves the statements of `stmts`, one after another, from the first
    /// to the first that fails.
    pub fn resolve_stmt_list(&mut self, stmts: &mut Vec<Stmt>) -> (r: Result<(), Error>)
        ensures
            final(self).current_func == old(self).current_func,
            final(stmts)@.len() == old(stmts)@.len(),
            forall|i: int|
                0 <= i < old(stmts)@.len() ==> (#[trigger] final(stmts)@[i]).model() == old(stmts)@[i].model(),
            only_innermost_changed(old(self)@, final(self)@),
            r is Ok <==> lawful_list(old(stmts)@, old(self)@, old(self).current_func),
            r is Ok ==> final(self)@ == after_list(final(stmts)@, old(self)@) && forall|i: int|
                0 <= i < final(stmts)@.len() ==> stmt_ok(
                    #[trigger] final(stmts)@[i],
                    after_list(final(stmts)@.take(i), old(self)@),
                    old(self).current_func,
                ),
            r is Err ==> r->Err_0 is Resolution,
        decreases *old(stmts), 1nat,
    {
        let mut i: usize = 0;
        let ghost mut states: Seq<Scopes> = seq![self@];
        while i < stmts.len()
            invariant
                self.current_func == old(self).current_func,
                i <= stmts@.len(),
                stmts@.len() == old(stmts)@.len(),
                only_innermost_changed(old(self)@, self@),
                forall|j: int| i <= j < stmts@.len() ==> stmts@[j] == old(stmts)@[j],
                forall|j: int|
                    0 <= j < stmts@.len() ==> (#[trigger] stmts@[j]).model() == old(stmts)@[j].model(),
                states.len() == i + 1,
                states[0] == old(self)@,
                states[i as int] == self@,
                forall|j: int|
                    0 <= j < i ==> #[trigger] states[j + 1] == after_stmt(stmts@[j], states[j]),
                forall|j: int|
                    0 <= j < i ==> #[trigger] states[j + 1] == after_stmt(
                        old(stmts)@[j],
                        states[j],
                    ),
                forall|j: int|
                    0 <= j < i ==> lawful(
                        #[trigger] old(stmts)@[j],
                        states[j],
                        old(self).current_func,
                    ),
                forall|j: int|
                    0 <= j < i ==> stmt_ok(
                        #[trigger] stmts@[j],
                        states[j],
                        old(self).current_func,
                    ),
            decreases stmts@.len() - i,
        {
            assert(stmts@[i as int] == old(stmts)@[i as int]);
            match self.resolve_stmt(&mut stmts[i]) {
                Ok(_) => {},
                Err(e) => {
                    proof {
                        states_follow_list(old(stmts)@, states, i as int);
                    }
                    return Err(e);
                },
            }
            proof {
                after_stmt_ignores_hops(old(stmts)@[i as int], stmts@[i as int], states[i as int]);
                states = states.push(self@);
            }
            i += 1;
        }
        proof {
            assert forall|j: int| 0 <= j < old(stmts)@.len() implies lawful(
                #[trigger] old(stmts)@[j],
                after_list(old(stmts)@.take(j), old(self)@),
                old(self).current_func,
            ) by {
                states_follow_list(old(stmts)@, states, j);
            }
            states_follow_list(stmts@, states, i as int);
            assert(stmts@.take(i as int) =~= stmts@);
            assert forall|j: int| 0 <= j < stmts@.len() implies stmt_ok(
                #[trigger] stmts@[j],
                after_list(stmts@.take(j), old(self)@),
                old(self).current_func,
            ) by {
                states_follow_list(stmts@, states, j);
            }
        }
        Ok(())
    }

    /// Resolves one statement.
    pub fn resolve_stmt(&mut self, stmt: &mut Stmt) -> (r: Result<(), Error>)
        ensures
            final(self).current_func == old(self).current_func,
            final(stmt).model() == old(stmt).model(),
            only_innermost_changed(old(self)@, final(self)@),
            r is Ok <==> lawful(*old(stmt), old(self)@, old(self).current_func),
            r is Ok ==> final(self)@ == after_stmt(*final(stmt), old(self)@) && stmt_ok(
                *final(stmt),
                old(self)@,
                old(self).current_func,
            ),
            r is Err ==> r->Err_0 is Resolution,
        decreases *old(stmt), 0nat,
    {
        match stmt {
            Stmt::Print(e) => self.resolve_in_stmt(e),
            Stmt::Expr(e) => self.resolve_in_stmt(e),
            Stmt::Var { name, value } => {
                proof {
                    entered_twice(old(self)@, name@, false, true);
                }
                self.declare(name.as_str())?;
                if let Some(e) = value {
                    self.resolve_in_stmt(e)?;
                }
                self.define(name.as_str());
                Ok(())
            },
            Stmt::Block(list) => {
                self.begin_scope();
                let r = self.resolve_stmt_list(list);
                self.end_scope();
                assert(self@ =~= old(self)@);
                proof {
                    let now = Stmt::Block(*list);
                    assert(now.model()->Block_0 =~= old(stmt).model()->Block_0);
                }
                r
            },
            Stmt::If { test, consequence, alternate } => {
                self.resolve_in_stmt(test)?;
                self.resolve_stmt(consequence)?;
                proof {
                    after_stmt_ignores_hops(
                        *old(stmt)->If_consequence,
                        **consequence,
                        old(self)@,
                    );
                }
                if let Some(alt) = alternate {
                    self.resolve_stmt(alt)?;
                }
                Ok(())
            },
            Stmt::While { test, body } => {
                self.resolve_in_stmt(test)?;
                self.resolve_stmt(body)
            },
            Stmt::Func(f) => {
                proof {
                    entered_twice(old(self)@, f.name@, false, true);
                }
                self.declare(f.name.as_str())?;
                self.define(f.name.as_str());
                self.resolve_func(f, FuncType::Func)
            },
            Stmt::Return(value) => self.visit_return_stmt(value),
            Stmt::Class { name, methods } => {
                proof {
                    entered_twice(old(self)@, name@, false, true);
                }
                self.declare(name.as_str())?;
                self.define(name.as_str());
                let r = self.resolve_methods(methods);
                proof {
                    let now = Stmt::Class { name: *name, methods: *methods };
                    assert(now.model()->Class_methods =~= old(stmt).model()->Class_methods);
                }
                r
            },
        }
    }

    /// Resolves a `return`: fails at the top level, and in an initializer
    /// where it returns a value.
    fn visit_return_stmt(&mut self, expr: &mut Option<Expr>) -> (r: Result<(), Error>)
        ensures
            final(self).scopes == old(self).scopes,
            final(self).current_func == old(self).current_func,
            Stmt::Return(*final(expr)).model() == Stmt::Return(*old(expr)).model(),
            r is Ok ==> stmt_ok(Stmt::Return(*final(expr)), old(self)@, old(self).current_func),
            r is Err ==> r->Err_0 is Resolution,
            r is Ok <==> {
                &&& old(self).current_func != FuncType::Script
                &&& !(old(self).current_func == FuncType::Init && *old(expr) is Some)
                &&& *old(expr) matches Some(e) ==> !blocked(e, old(self)@)
            },
    {
        if self.current_func == FuncType::Script {
            Err(
                Error::Resolution(
                    String::from_str("cannot return from outside of a function or method"),
                ),
            )
        } else if self.current_func == FuncType::Init && expr.is_some() {
            Err(Error::Resolution(String::from_str("Cannot return a value from an initializer")))
        } else if let Some(e) = expr {
            let r = self.resolve_expr(e);
            proof {
                blocked_ignores_hops(old(expr)->Some_0, *e, old(self)@);
            }
            r
        } else {
            Ok(())
        }
    }

    /// Resolves the methods of a class: each in a scope of its own that
    /// binds `this`.
    fn resolve_methods(&mut self, methods: &mut Vec<Function>) -> (r: Result<(), Error>)
        ensures
            final(self).current_func == old(self).current_func,
            final(self)@ == old(self)@,
            final(methods)@.len() == old(methods)@.len(),
            forall|i: int|
                0 <= i < old(methods)@.len() ==> (#[trigger] final(methods)@[i]).model() == old(methods)@[i].model(),
            r is Ok <==> forall|i: int|
                0 <= i < old(methods)@.len() ==> lawful_func(
                    #[trigger] old(methods)@[i],
                    old(self)@.push(this_scope()).push(Map::empty()),
                    method_type(old(methods)@[i].name@),
                ),
            r is Ok ==> forall|i: int|
                0 <= i < final(methods)@.len() ==> func_ok(
                    #[trigger] final(methods)@[i],
                    old(self)@.push(this_scope()).push(Map::empty()),
                    method_type(final(methods)@[i].name@),
                ),
            r is Err ==> r->Err_0 is Resolution,
        decreases *old(methods), 3nat,
    {
        let mut i: usize = 0;
        while i < methods.len()
            invariant
                self.current_func == old(self).current_func,
                self@ == old(self)@,
                i <= methods@.len(),
                methods@.len() == old(methods)@.len(),
                forall|j: int| i <= j < methods@.len() ==> methods@[j] == old(methods)@[j],
                forall|j: int|
                    0 <= j < methods@.len() ==> (#[trigger] methods@[j]).model() == old(methods)@[j].model(),
                forall|j: int|
                    0 <= j < i ==> func_ok(
                        #[trigger] methods@[j],
                        old(self)@.push(this_scope()).push(Map::empty()),
                        method_type(methods@[j].name@),
                    ),
                forall|j: int|
                    0 <= j < i ==> lawful_func(
                        #[trigger] old(methods)@[j],
                        old(self)@.push(this_scope()).push(Map::empty()),
                        method_type(old(methods)@[j].name@),
                    ),
            decreases methods@.len() - i,
        {
            assert(methods@[i as int] == old(methods)@[i as int]);
            proof {
                let inner = old(self)@.push(Map::<Seq<char>, bool>::empty());
                entered_twice(inner, "this"@, false, true);
                this_scope_entered(old(self)@);
            }
            self.begin_scope();
            let _ = self.declare("this");
            self.define("this");
            let ty = if crate::text::same_text(methods[i].name.as_str(), "init") {
                FuncType::Init
            } else {
                FuncType::Method
            };
            let r = self.resolve_func(&mut methods[i], ty);
            self.end_scope();
            assert(self@ =~= old(self)@);
            match r {
                Ok(_) => {},
                Err(e) => {
                    return Err(e);
                },
            }
            i += 1;
        }
        Ok(())
    }

    /// Resolves a function or method: the parameters and the body in one
    /// scope, within which the body is of kind `ty`.
    fn resolve_func(&mut self, f: &mut Function, ty: FuncType) -> (r: Result<(), Error>)
        ensures
            final(self).current_func == old(self).current_func,
            final(self)@ == old(self)@,
            final(f).name == old(f).name,
            final(f).params == old(f).params,
            final(f).model() == old(f).model(),
            r is Ok <==> lawful_func(*old(f), old(self)@.push(Map::empty()), ty),
            r is Ok ==> func_ok(*final(f), old(self)@.push(Map::empty()), ty),
            r is Err ==> r->Err_0 is Resolution,
        decreases *old(f), 2nat,
    {
        let enclosing = self.current_func;
        self.current_func = ty;
        self.begin_scope();
        let r = self.resolve_body(f);
        self.end_scope();
        self.current_func = enclosing;
        assert(self@ =~= old(self)@);
        r
    }

    /// Declares the parameters of `f` in the innermost scope and resolves
    /// the body there.
    fn resolve_body(&mut self, f: &mut Function) -> (r: Result<(), Error>)
        ensures
            final(self).current_func == old(self).current_func,
            only_innermost_changed(old(self)@, final(self)@),
            final(f).name == old(f).name,
            final(f).params == old(f).params,
            final(f).model() == old(f).model(),
            r is Ok <==> lawful_func(*old(f), old(self)@, old(self).current_func),
            r is Ok ==> func_ok(*final(f), old(self)@, old(self).current_func),
            r is Err ==> r->Err_0 is Resolution,
        decreases *old(f), 1nat,
    {
        let mut k: usize = 0;
        while k < f.params.len()
            invariant
                self.current_func == old(self).current_func,
                *f == *old(f),
                k <= f.params@.len(),
                only_innermost_changed(old(self)@, self@),
                self@ == with_params(old(self)@, f.params@, k as int),
                forall|j: int|
                    0 <= j < k ==> !taken(
                        with_params(old(self)@, f.params@, j),
                        #[trigger] f.params@[j]@,
                    ),
            decreases f.params@.len() - k,
        {
            proof {
                entered_twice(
                    with_params(old(self)@, f.params@, k as int),
                    f.params@[k as int]@,
                    false,
                    true,
                );
            }
            self.declare(f.params[k].as_str())?;
            self.define(f.params[k].as_str());
            k += 1;
        }
        let r = self.resolve_stmt_list(&mut f.body);
        proof {
            function_model_kept(*old(f), *f);
        }
        r
    }

    /// Resolves a variable that is read: fails where it stands in its own
    /// initializer, else writes the hop into `depth`.
    fn visit_var(&mut self, name: &str, depth: &mut Option<usize>) -> (r: Result<(), Error>)
        ensures
            final(self).scopes == old(self).scopes,
            final(self).current_func == old(self).current_func,
            r is Ok <==> !in_own_initializer(old(self)@, name@),
            r is Ok ==> *final(depth) == slot(old(self)@, name@),
            r is Err ==> r->Err_0 is Resolution,
    {
        let n = self.scopes.len();
        if n > 0 {
            if let Some(i) = scope_find(&self.scopes[n - 1], name) {
                if !self.scopes[n - 1][i].1 {
                    return Err(
                        Error::Resolution(
                            String::from_str(
                                "Cannot read local variable in its own initializer (",
                            ).concat(name).concat(")"),
                        ),
                    );
                }
            }
        }
        *depth = self.resolve_local(name);
        Ok(())
    }
}

/// The scopes after `stmt`: a declaration enters its name in the innermost
/// scope; every scope that a statement enters it leaves again.
pub open spec fn after_stmt(stmt: Stmt, scopes: Scopes) -> Scopes
    decreases stmt,
{
    match stmt {
        Stmt::Var { name, .. } => entered(scopes, name@, true),
        Stmt::Func(f) => entered(scopes, f.name@, true),
        Stmt::Class { name, .. } => entered(scopes, name@, true),
        Stmt::If { consequence, alternate, .. } => match alternate {
            Some(a) => after_stmt(*a, after_stmt(*consequence, scopes)),
            None => after_stmt(*consequence, scopes),
        },
        Stmt::While { body, .. } => after_stmt(*body, scopes),
        _ => scopes,
    }
}

/// The scopes after the statements of `list`, one after another.
pub open spec fn after_list(list: Seq<Stmt>, scopes: Scopes) -> Scopes
    decreases list.len(),
{
    if list.len() == 0 {
        scopes
    } else {
        after_stmt(list.last(), after_list(list.drop_last(), scopes))
    }
}

/// The scopes with the first `count` of `params` entered in the innermost
/// one.
pub open spec fn with_params(scopes: Scopes, params: Seq<String>, count: int) -> Scopes
    decreases count,
{
    if count <= 0 {
        scopes
    } else {
        entered(with_params(scopes, params, count - 1), params[count - 1]@, true)
    }
}

/// Whether the innermost scope declares `name`, so that it cannot be
/// declared there again.
pub open spec fn taken(scopes: Scopes, name: Seq<char>) -> bool {
    scopes.len() > 0 && scopes.last().dom().contains(name)
}

/// Whether `e` is resolved under `scopes` and reads no variable in its own
/// initializer.
pub open spec fn expr_ok(e: Expr, scopes: Scopes) -> bool {
    resolved(e, scopes) && !blocked(e, scopes)
}

/// Whether `stmt` abides by the rules of scoping under `scopes`, within a
/// body of kind `ctx`, and all its variables are resolved: no name is
/// declared twice in one scope below the top level, no variable is read in
/// its own initializer, nothing returns from the top level, and no
/// initializer returns a value.
pub open spec fn stmt_ok(stmt: Stmt, scopes: Scopes, ctx: FuncType) -> bool
    decreases stmt,
{
    match stmt {
        Stmt::Print(e) => expr_ok(e, scopes),
        Stmt::Expr(e) => expr_ok(e, scopes),
        Stmt::Var { name, value } => !taken(scopes, name@) && (value matches Some(e) ==> expr_ok(
            e,
            entered(scopes, name@, false),
        )),
        Stmt::Block(list) => forall|i: int|
            0 <= i < list@.len() ==> stmt_ok(
                #[trigger] list@[i],
                after_list(list@.take(i), scopes.push(Map::empty())),
                ctx,
            ),
        Stmt::If { test, consequence, alternate } => {
            &&& expr_ok(test, scopes)
            &&& stmt_ok(*consequence, scopes, ctx)
            &&& alternate matches Some(a) ==> stmt_ok(*a, after_stmt(*consequence, scopes), ctx)
        },
        Stmt::While { test, body } => expr_ok(test, scopes) && stmt_ok(*body, scopes, ctx),
        Stmt::Func(f) => !taken(scopes, f.name@) && func_ok(
            f,
            entered(scopes, f.name@, true).push(Map::empty()),
            FuncType::Func,
        ),
        Stmt::Return(value) => {
            &&& ctx != FuncType::Script
            &&& !(ctx == FuncType::Init && value is Some)
            &&& value matches Some(e) ==> expr_ok(e, scopes)
        },
        Stmt::Class { name, methods } => !taken(scopes, name@) && forall|i: int|
            0 <= i < methods@.len() ==> func_ok(
                #[trigger] methods@[i],
                entered(scopes, name@, true).push(this_scope()).push(Map::empty()),
                method_type(methods@[i].name@),
            ),
    }
}

/// Whether the parameters of `f` can be declared in the innermost scope of
/// `scopes`, one after another, and the body abides by the rules there.
pub open spec fn func_ok(f: Function, scopes: Scopes, ty: FuncType) -> bool
    decreases f,
{
    &&& forall|k: int|
        0 <= k < f.params@.len() ==> !taken(
            with_params(scopes, f.params@, k),
            #[trigger] f.params@[k]@,
        )
    &&& forall|i: int|
        0 <= i < f.body@.len() ==> stmt_ok(
            #[trigger] f.body@[i],
            after_list(f.body@.take(i), with_params(scopes, f.params@, f.params@.len() as int)),
            ty,
        )
}

/// Whether `stmt` abides by the rules of scoping under `scopes`, within a
/// body of kind `ctx`: no name is declared twice in one scope below the top
/// level, no variable is read in its own initializer, nothing returns from
/// the top level, and no initializer returns a value. The hops that the
/// variables carry do not matter.
pub open spec fn lawful(stmt: Stmt, scopes: Scopes, ctx: FuncType) -> bool
    decreases stmt,
{
    match stmt {
        Stmt::Print(e) => !blocked(e, scopes),
        Stmt::Expr(e) => !blocked(e, scopes),
        Stmt::Var { name, value } => !taken(scopes, name@) && (value matches Some(e) ==> !blocked(
            e,
            entered(scopes, name@, false),
        )),
        Stmt::Block(list) => forall|i: int|
            0 <= i < list@.len() ==> lawful(
                #[trigger] list@[i],
                after_list(list@.take(i), scopes.push(Map::empty())),
                ctx,
            ),
        Stmt::If { test, consequence, alternate } => {
            &&& !blocked(test, scopes)
            &&& lawful(*consequence, scopes, ctx)
            &&& alternate matches Some(a) ==> lawful(*a, after_stmt(*consequence, scopes), ctx)
        },
        Stmt::While { test, body } => !blocked(test, scopes) && lawful(*body, scopes, ctx),
        Stmt::Func(f) => !taken(scopes, f.name@) && lawful_func(
            f,
            entered(scopes, f.name@, true).push(Map::empty()),
            FuncType::Func,
        ),
        Stmt::Return(value) => {
            &&& ctx != FuncType::Script
            &&& !(ctx == FuncType::Init && value is Some)
            &&& value matches Some(e) ==> !blocked(e, scopes)
        },
        Stmt::Class { name, methods } => !taken(scopes, name@) && forall|i: int|
            0 <= i < methods@.len() ==> lawful_func(
                #[trigger] methods@[i],
                entered(scopes, name@, true).push(this_scope()).push(Map::empty()),
                method_type(methods@[i].name@),
            ),
    }
}

/// Whether the parameters of `f` can be declared in the innermost scope of
/// `scopes`, one after another, and the body abides by the rules there.
pub open spec fn lawful_func(f: Function, scopes: Scopes, ty: FuncType) -> bool
    decreases f,
{
    &&& forall|k: int|
        0 <= k < f.params@.len() ==> !taken(
            with_params(scopes, f.params@, k),
            #[trigger] f.params@[k]@,
        )
    &&& lawful_list(
        f.body@,
        with_params(scopes, f.params@, f.params@.len() as int),
        ty,
    )
}

/// Whether each statement of `list` abides by the rules under the scopes
/// that the statements in front of it leave.
pub open spec fn lawful_list(list: Seq<Stmt>, scopes: Scopes, ctx: FuncType) -> bool
    decreases list,
{
    forall|i: int|
        0 <= i < list.len() ==> lawful(#[trigger] list[i], after_list(list.take(i), scopes), ctx)
}

/// Whether the scopes are as many as before and all but the innermost one
/// are as they were.
pub open spec fn only_innermost_changed(before: Scopes, after: Scopes) -> bool {
    &&& after.len() == before.len()
    &&& forall|i: int| 0 <= i < before.len() - 1 ==> after[i] == before[i]
}

/// The scope that binds `this` around the methods of a class.
pub open spec fn this_scope() -> Map<Seq<char>, bool> {
    Map::empty().insert("this"@, true)
}

/// A method named `init` is the initializer of its class.
pub open spec fn method_type(name: Seq<char>) -> FuncType {
    if name == "init"@ {
        FuncType::Init
    } else {
        FuncType::Method
    }
}

/// Whether `a` and `b` carry the same hop at every variable.
pub open spec fn same_hops_stmt(a: Stmt, b: Stmt) -> bool
    decreases a,
{
    match (a, b) {
        (Stmt::Print(e1), Stmt::Print(e2)) => same_hops(e1, e2),
        (Stmt::Expr(e1), Stmt::Expr(e2)) => same_hops(e1, e2),
        (Stmt::Var { value: v1, .. }, Stmt::Var { value: v2, .. }) => match (v1, v2) {
            (Some(e1), Some(e2)) => same_hops(e1, e2),
            _ => true,
        },
        (Stmt::Block(l1), Stmt::Block(l2)) => forall|i: int|
            0 <= i < l1@.len() && i < l2@.len() ==> same_hops_stmt(#[trigger] l1@[i], l2@[i]),
        (
            Stmt::If { test: t1, consequence: c1, alternate: a1 },
            Stmt::If { test: t2, consequence: c2, alternate: a2 },
        ) => same_hops(t1, t2) && same_hops_stmt(*c1, *c2) && match (a1, a2) {
            (Some(x1), Some(x2)) => same_hops_stmt(*x1, *x2),
            _ => true,
        },
        (Stmt::While { test: t1, body: b1 }, Stmt::While { test: t2, body: b2 }) => same_hops(
            t1,
            t2,
        ) && same_hops_stmt(*b1, *b2),
        (Stmt::Func(f1), Stmt::Func(f2)) => same_hops_func(f1, f2),
        (Stmt::Return(v1), Stmt::Return(v2)) => match (v1, v2) {
            (Some(e1), Some(e2)) => same_hops(e1, e2),
            _ => true,
        },
        (Stmt::Class { methods: m1, .. }, Stmt::Class { methods: m2, .. }) => forall|i: int|
            0 <= i < m1@.len() && i < m2@.len() ==> same_hops_func(#[trigger] m1@[i], m2@[i]),
        _ => true,
    }
}

/// Whether the bodies of `a` and `b` carry the same hop at every variable.
pub open spec fn same_hops_func(a: Function, b: Function) -> bool
    decreases a,
{
    forall|i: int|
        0 <= i < a.body@.len() && i < b.body@.len() ==> same_hops_stmt(
            #[trigger] a.body@[i],
            b.body@[i],
        )
}

/// What a statement declares does not depend on the hops that its
/// variables carry.
pub proof fn after_stmt_ignores_hops(a: Stmt, b: Stmt, scopes: Scopes)
    requires
        a.model() == b.model(),
    ensures
        after_stmt(a, scopes) == after_stmt(b, scopes),
    decreases a,
{
    match (a, b) {
        (
            Stmt::If { consequence: c1, alternate: a1, .. },
            Stmt::If { consequence: c2, alternate: a2, .. },
        ) => {
            after_stmt_ignores_hops(*c1, *c2, scopes);
            match (a1, a2) {
                (Some(x1), Some(x2)) => {
                    after_stmt_ignores_hops(*x1, *x2, after_stmt(*c1, scopes));
                },
                _ => {},
            }
        },
        (Stmt::While { body: b1, .. }, Stmt::While { body: b2, .. }) => {
            after_stmt_ignores_hops(*b1, *b2, scopes);
        },
        (Stmt::Func(f1), Stmt::Func(f2)) => {
            function_models_agree(f1, f2);
        },
        (Stmt::Var { name: n1, .. }, Stmt::Var { name: n2, .. }) => {
            assert(a.model()->Var_name == n1@);
            assert(b.model()->Var_name == n2@);
        },
        (Stmt::Class { name: n1, .. }, Stmt::Class { name: n2, .. }) => {
            assert(a.model()->Class_name == n1@);
            assert(b.model()->Class_name == n2@);
        },
        _ => {},
    }
}

/// As `after_stmt_ignores_hops`, for the statements of a list.
pub proof fn after_list_ignores_hops(a: Seq<Stmt>, b: Seq<Stmt>, scopes: Scopes)
    requires
        a.len() == b.len(),
        forall|i: int| 0 <= i < a.len() ==> (#[trigger] a[i]).model() == b[i].model(),
    ensures
        after_list(a, scopes) == after_list(b, scopes),
    decreases a.len(),
{
    if a.len() > 0 {
        after_list_ignores_hops(a.drop_last(), b.drop_last(), scopes);
        after_stmt_ignores_hops(a.last(), b.last(), after_list(a.drop_last(), scopes));
    }
}

proof fn with_params_by_name(scopes: Scopes, a: Seq<String>, b: Seq<String>, count: int)
    requires
        a.len() == b.len(),
        count <= a.len(),
        forall|i: int| 0 <= i < a.len() ==> (#[trigger] a[i])@ == b[i]@,
    ensures
        with_params(scopes, a, count) == with_params(scopes, b, count),
    decreases count,
{
    if count > 0 {
        with_params_by_name(scopes, a, b, count - 1);
    }
}

/// Two functions that hold the same have bodies of the same length whose
/// statements hold the same, and parameters of the same names.
proof fn function_models_agree(a: Function, b: Function)
    requires
        a.model() == b.model(),
    ensures
        a.name@ == b.name@,
        a.params@.len() == b.params@.len(),
        forall|i: int| 0 <= i < a.params@.len() ==> (#[trigger] a.params@[i])@ == b.params@[i]@,
        a.body@.len() == b.body@.len(),
        forall|i: int| 0 <= i < a.body@.len() ==> (#[trigger] a.body@[i]).model() == b.body@[i].model(),
{
    let ma = a.model();
    let mb = b.model();
    assert(ma.params.len() == a.params@.len() && mb.params.len() == b.params@.len());
    assert(ma.body.len() == a.body@.len() && mb.body.len() == b.body@.len());
    assert forall|i: int| 0 <= i < a.params@.len() implies (#[trigger] a.params@[i])@
        == b.params@[i]@ by {
        assert(ma.params[i] == a.params@[i]@);
        assert(mb.params[i] == b.params@[i]@);
    }
    assert forall|i: int| 0 <= i < a.body@.len() implies (#[trigger] a.body@[i]).model()
        == b.body@[i].model() by {
        assert(ma.body[i] == a.body@[i].model());
        assert(mb.body[i] == b.body@[i].model());
    }
}

/// Resolving a function again, under the same scopes, leaves every hop as
/// it is.
pub proof fn resolving_function_is_idempotent(
    first: Function,
    second: Function,
    scopes: Scopes,
    ty: FuncType,
)
    requires
        first.model() == second.model(),
        func_ok(first, scopes, ty),
        func_ok(second, scopes, ty),
    ensures
        same_hops_func(first, second),
    decreases first, 0nat,
{
    function_models_agree(first, second);
    let n = first.params@.len() as int;
    with_params_by_name(scopes, first.params@, second.params@, n);
    let inner = with_params(scopes, first.params@, n);
    assert forall|i: int| 0 <= i < first.body@.len() && i < second.body@.len() implies same_hops_stmt(
        #[trigger] first.body@[i],
        second.body@[i],
    ) by {
        after_list_ignores_hops(first.body@.take(i), second.body@.take(i), inner);
        resolving_statement_is_idempotent(
            first.body@[i],
            second.body@[i],
            after_list(first.body@.take(i), inner),
            ty,
        );
    }
}

/// Resolving a resolved list of statements again, under the same scopes
/// and within a body of the same kind, succeeds, since the list still
/// abides by the rules of scoping, and leaves every hop as it is.
pub proof fn resolving_list_is_idempotent(
    first: Seq<Stmt>,
    second: Seq<Stmt>,
    scopes: Scopes,
    ctx: FuncType,
)
    requires
        first.len() == second.len(),
        forall|i: int| 0 <= i < first.len() ==> (#[trigger] first[i]).model() == second[i].model(),
        forall|i: int|
            0 <= i < first.len() ==> stmt_ok(
                #[trigger] first[i],
                after_list(first.take(i), scopes),
                ctx,
            ),
        forall|i: int|
            0 <= i < second.len() ==> stmt_ok(
                #[trigger] second[i],
                after_list(second.take(i), scopes),
                ctx,
            ),
    ensures
        lawful_list(first, scopes, ctx),
        forall|i: int| 0 <= i < first.len() ==> same_hops_stmt(#[trigger] first[i], second[i]),
{
    assert forall|i: int| 0 <= i < first.len() implies lawful(
        #[trigger] first[i],
        after_list(first.take(i), scopes),
        ctx,
    ) by {
        resolved_stays_lawful(first[i], after_list(first.take(i), scopes), ctx);
    }
    assert forall|i: int| 0 <= i < first.len() implies same_hops_stmt(
        #[trigger] first[i],
        second[i],
    ) by {
        assert forall|k: int| 0 <= k < first.take(i).len() implies (#[trigger] first.take(i)[k]).model()
            == second.take(i)[k].model() by {
            assert(first.take(i)[k] == first[k]);
            assert(second.take(i)[k] == second[k]);
        }
        after_list_ignores_hops(first.take(i), second.take(i), scopes);
        resolving_statement_is_idempotent(
            first[i],
            second[i],
            after_list(first.take(i), scopes),
            ctx,
        );
    }
}

/// A statement that abides by the rules of scoping, with all its variables
/// resolved, abides by them whatever hops it carries: resolving a resolved
/// statement again succeeds.
pub proof fn resolved_stays_lawful(stmt: Stmt, scopes: Scopes, ctx: FuncType)
    requires
        stmt_ok(stmt, scopes, ctx),
    ensures
        lawful(stmt, scopes, ctx),
    decreases stmt, 1nat,
{
    match stmt {
        Stmt::Block(list) => {
            let inner = scopes.push(Map::empty());
            assert forall|i: int| 0 <= i < list@.len() implies lawful(
                #[trigger] list@[i],
                after_list(list@.take(i), inner),
                ctx,
            ) by {
                resolved_stays_lawful(list@[i], after_list(list@.take(i), inner), ctx);
            }
        },
        Stmt::If { test, consequence, alternate } => {
            resolved_stays_lawful(*consequence, scopes, ctx);
            match alternate {
                Some(a) => {
                    resolved_stays_lawful(*a, after_stmt(*consequence, scopes), ctx);
                },
                None => {},
            }
        },
        Stmt::While { test, body } => {
            resolved_stays_lawful(*body, scopes, ctx);
        },
        Stmt::Func(f) => {
            resolved_function_stays_lawful(
                f,
                entered(scopes, f.name@, true).push(Map::empty()),
                FuncType::Func,
            );
        },
        Stmt::Class { name, methods } => {
            let inner = entered(scopes, name@, true).push(this_scope()).push(Map::empty());
            assert forall|i: int| 0 <= i < methods@.len() implies lawful_func(
                #[trigger] methods@[i],
                inner,
                method_type(methods@[i].name@),
            ) by {
                resolved_function_stays_lawful(methods@[i], inner, method_type(methods@[i].name@));
            }
        },
        _ => {},
    }
}

/// As `resolved_stays_lawful`, for a function.
pub proof fn resolved_function_stays_lawful(f: Function, scopes: Scopes, ty: FuncType)
    requires
        func_ok(f, scopes, ty),
    ensures
        lawful_func(f, scopes, ty),
    decreases f, 0nat,
{
    let inner = with_params(scopes, f.params@, f.params@.len() as int);
    assert forall|i: int| 0 <= i < f.body@.len() implies lawful(
        #[trigger] f.body@[i],
        after_list(f.body@.take(i), inner),
        ty,
    ) by {
        resolved_stays_lawful(f.body@[i], after_list(f.body@.take(i), inner), ty);
    }
}

/// Resolving a statement again, under the same scopes and within a body of
/// the same kind, leaves every hop as it is: two resolved copies of one
/// statement carry the same hops.
pub proof fn resolving_statement_is_idempotent(
    first: Stmt,
    second: Stmt,
    scopes: Scopes,
    ctx: FuncType,
)
    requires
        first.model() == second.model(),
        stmt_ok(first, scopes, ctx),
        stmt_ok(second, scopes, ctx),
    ensures
        same_hops_stmt(first, second),
    decreases first, 1nat,
{
    match (first, second) {
        (Stmt::Print(e1), Stmt::Print(e2)) => {
            resolving_is_idempotent(e1, e2, scopes);
        },
        (Stmt::Expr(e1), Stmt::Expr(e2)) => {
            resolving_is_idempotent(e1, e2, scopes);
        },
        (Stmt::Var { name: n1, value: v1 }, Stmt::Var { name: n2, value: v2 }) => {
            match (v1, v2) {
                (Some(e1), Some(e2)) => {
                    resolving_is_idempotent(e1, e2, entered(scopes, n1@, false));
                },
                _ => {},
            }
        },
        (Stmt::Block(l1), Stmt::Block(l2)) => {
            let ma = first.model()->Block_0;
            let mb = second.model()->Block_0;
            assert(ma == mb);
            assert(ma.len() == l1@.len() && mb.len() == l2@.len());
            assert forall|i: int| 0 <= i < l1@.len() implies (#[trigger] l1@[i]).model()
                == l2@[i].model() by {
                assert(ma[i] == l1@[i].model());
                assert(mb[i] == l2@[i].model());
            }
            let inner = scopes.push(Map::empty());
            assert forall|i: int| 0 <= i < l1@.len() && i < l2@.len() implies same_hops_stmt(
                #[trigger] l1@[i],
                l2@[i],
            ) by {
                after_list_ignores_hops(l1@.take(i), l2@.take(i), inner);
                resolving_statement_is_idempotent(
                    l1@[i],
                    l2@[i],
                    after_list(l1@.take(i), inner),
                    ctx,
                );
            }
        },
        (
            Stmt::If { test: t1, consequence: c1, alternate: a1 },
            Stmt::If { test: t2, consequence: c2, alternate: a2 },
        ) => {
            resolving_is_idempotent(t1, t2, scopes);
            resolving_statement_is_idempotent(*c1, *c2, scopes, ctx);
            match (a1, a2) {
                (Some(x1), Some(x2)) => {
                    after_stmt_ignores_hops(*c1, *c2, scopes);
                    resolving_statement_is_idempotent(*x1, *x2, after_stmt(*c1, scopes), ctx);
                },
                _ => {},
            }
        },
        (Stmt::While { test: t1, body: b1 }, Stmt::While { test: t2, body: b2 }) => {
            resolving_is_idempotent(t1, t2, scopes);
            resolving_statement_is_idempotent(*b1, *b2, scopes, ctx);
        },
        (Stmt::Func(f1), Stmt::Func(f2)) => {
            function_models_agree(f1, f2);
            resolving_function_is_idempotent(
                f1,
                f2,
                entered(scopes, f1.name@, true).push(Map::empty()),
                FuncType::Func,
            );
        },
        (Stmt::Return(v1), Stmt::Return(v2)) => {
            match (v1, v2) {
                (Some(e1), Some(e2)) => {
                    resolving_is_idempotent(e1, e2, scopes);
                },
                _ => {},
            }
        },
        (Stmt::Class { name: n1, methods: m1 }, Stmt::Class { name: n2, methods: m2 }) => {
            let ma = first.model()->Class_methods;
            let mb = second.model()->Class_methods;
            assert(ma == mb);
            assert(ma.len() == m1@.len() && mb.len() == m2@.len());
            assert forall|i: int| 0 <= i < m1@.len() && i < m2@.len() implies same_hops_func(
                #[trigger] m1@[i],
                m2@[i],
            ) by {
                assert(ma[i] == m1@[i].model());
                assert(mb[i] == m2@[i].model());
                function_models_agree(m1@[i], m2@[i]);
                resolving_function_is_idempotent(
                    m1@[i],
                    m2@[i],
                    entered(scopes, n1@, true).push(this_scope()).push(Map::empty()),
                    method_type(m1@[i].name@),
                );
            }
        },
        _ => {},
    }
}

/// A function whose name and parameters are as they were, and whose
/// statements each hold what they held, holds what it held.
proof fn function_model_kept(before: Function, after: Function)
    requires
        after.name == before.name,
        after.params == before.params,
        after.body@.len() == before.body@.len(),
        forall|i: int|
            0 <= i < before.body@.len() ==> (#[trigger] after.body@[i]).model()
                == before.body@[i].model(),
    ensures
        after.model() == before.model(),
{
    assert(after.model().body =~= before.model().body);
    assert(after.model().params =~= before.model().params);
}

/// Entering a name twice is entering it once, with what was entered last.
proof fn entered_twice(scopes: Scopes, name: Seq<char>, first: bool, second: bool)
    ensures
        entered(entered(scopes, name, first), name, second) == entered(scopes, name, second),
        taken(entered(scopes, name, first), name) == (scopes.len() > 0),
        only_innermost_changed(scopes, entered(scopes, name, first)),
{
    if scopes.len() > 0 {
        let once = entered(scopes, name, first);
        assert(once.last().insert(name, second) =~= scopes.last().insert(name, second));
        assert(entered(once, name, second) =~= entered(scopes, name, second));
    }
}

/// A scope that has just been entered and in which `this` was declared and
/// defined is the scope that binds `this`.
proof fn this_scope_entered(scopes: Scopes)
    ensures
        entered(scopes.push(Map::empty()), "this"@, true) == scopes.push(this_scope()),
{
    let pushed = scopes.push(Map::<Seq<char>, bool>::empty());
    assert(pushed.last().insert("this"@, true) =~= this_scope());
    assert(entered(pushed, "this"@, true) =~= scopes.push(this_scope()));
}

/// Whether a variable is read in its own initializer does not depend on the
/// hops that the variables carry.
pub proof fn blocked_ignores_hops(a: Expr, b: Expr, scopes: Scopes)
    requires
        same_but_hops(a, b),
    ensures
        blocked(a, scopes) == blocked(b, scopes),
    decreases a,
{
    match (a, b) {
        (Expr::Binary { left: l1, right: r1, .. }, Expr::Binary { left: l2, right: r2, .. }) => {
            blocked_ignores_hops(*l1, *l2, scopes);
            blocked_ignores_hops(*r1, *r2, scopes);
        },
        (Expr::Grouping(i1), Expr::Grouping(i2)) => {
            blocked_ignores_hops(*i1, *i2, scopes);
        },
        (Expr::Unary { right: r1, .. }, Expr::Unary { right: r2, .. }) => {
            blocked_ignores_hops(*r1, *r2, scopes);
        },
        (Expr::Assign { value: v1, .. }, Expr::Assign { value: v2, .. }) => {
            blocked_ignores_hops(*v1, *v2, scopes);
        },
        (Expr::Log { left: l1, right: r1, .. }, Expr::Log { left: l2, right: r2, .. }) => {
            blocked_ignores_hops(*l1, *l2, scopes);
            blocked_ignores_hops(*r1, *r2, scopes);
        },
        (Expr::Call { callee: c1, arguments: a1 }, Expr::Call { callee: c2, arguments: a2 }) => {
            blocked_ignores_hops(*c1, *c2, scopes);
            let ma = a.model()->Call_arguments;
            let mb = b.model()->Call_arguments;
            assert(ma == mb);
            assert(ma.len() == a1@.len() && mb.len() == a2@.len());
            assert forall|i: int| 0 <= i < a1@.len() implies (#[trigger] a1@[i]).model()
                == a2@[i].model() by {
                assert(ma[i] == a1@[i].model());
                assert(mb[i] == a2@[i].model());
            }
            assert forall|i: int| 0 <= i < a1@.len() implies blocked(#[trigger] a1@[i], scopes)
                == blocked(a2@[i], scopes) by {
                blocked_ignores_hops(a1@[i], a2@[i], scopes);
            }
            if exists|i: int| 0 <= i < a1@.len() && blocked(#[trigger] a1@[i], scopes) {
                let i = choose|i: int| 0 <= i < a1@.len() && blocked(#[trigger] a1@[i], scopes);
                assert(blocked(a2@[i], scopes));
            }
            if exists|i: int| 0 <= i < a2@.len() && blocked(#[trigger] a2@[i], scopes) {
                let i = choose|i: int| 0 <= i < a2@.len() && blocked(#[trigger] a2@[i], scopes);
                assert(blocked(a1@[i], scopes));
            }
        },
        (Expr::Get { object: o1, .. }, Expr::Get { object: o2, .. }) => {
            blocked_ignores_hops(*o1, *o2, scopes);
        },
        (Expr::Put { object: o1, value: v1, .. }, Expr::Put { object: o2, value: v2, .. }) => {
            blocked_ignores_hops(*o1, *o2, scopes);
            blocked_ignores_hops(*v1, *v2, scopes);
        },
        _ => {},
    }
}

/// Scopes that follow one another as the statements of `list` leave them
/// are the scopes after each beginning of the list.
proof fn states_follow_list(list: Seq<Stmt>, states: Seq<Scopes>, upto: int)
    requires
        0 <= upto <= list.len(),
        states.len() > upto,
        forall|j: int| 0 <= j < upto ==> #[trigger] states[j + 1] == after_stmt(list[j], states[j]),
    ensures
        states[upto] == after_list(list.take(upto), states[0]),
    decreases upto,
{
    if upto == 0 {
        assert(list.take(0) =~= Seq::empty());
    } else {
        states_follow_list(list, states, upto - 1);
        assert(list.take(upto).drop_last() =~= list.take(upto - 1));
        assert(list.take(upto).last() == list[upto - 1]);
        assert(states[(upto - 1) + 1] == after_stmt(list[upto - 1], states[upto - 1]));
    }
}

} // verus!
