//! Type resolution: walks the tree under the root statement, children
//! before parents, and records the type of every expression it meets.

use vstd::prelude::*;

use crate::grammar::{
    expr_children_before, stmt_children_before, stmt_refs_in, Arena, ArenaView, ExprId, Expression,
    Statement, StatementView, StmtId, Syntax,
};
use crate::semantic::{infix_resolution, prefix_resolution, ResolveError, Type, TypeEnv};

verus! {

/// The type error that stopped resolution.
pub type Error = ResolveError;

/// The type of expression `e`, or the first type error met while resolving
/// it: operands are resolved left to right, before the operator.
pub open spec fn resolve_expr(a: ArenaView, e: nat) -> Result<Type, ResolveError>
    decreases e,
{
    if e < a.exprs.len() {
        match a.exprs[e as int] {
            Expression::Int64(_) => Ok(Type::Int64),
            Expression::Uint64(_) => Ok(Type::Uint64),
            Expression::Float64(_) => Ok(Type::Float64),
            Expression::Bool(_) => Ok(Type::Bool),
            Expression::Unit => Ok(Type::Unit),
            Expression::Infix { op, lhs, rhs } => {
                if lhs.0 < e && rhs.0 < e {
                    match resolve_expr(a, lhs.0 as nat) {
                        Err(x) => Err(x),
                        Ok(lt) => match resolve_expr(a, rhs.0 as nat) {
                            Err(x) => Err(x),
                            Ok(rt) => infix_resolution(op, lt, rt),
                        },
                    }
                } else {
                    Ok(Type::Unit)
                }
            },
            Expression::Prefix { op, exp } => {
                if exp.0 < e {
                    match resolve_expr(a, exp.0 as nat) {
                        Err(x) => Err(x),
                        Ok(t) => prefix_resolution(op, t),
                    }
                } else {
                    Ok(Type::Unit)
                }
            },
        }
    } else {
        Ok(Type::Unit)
    }
}

/// The type of expression `e`, where it has one.
pub open spec fn type_of(a: ArenaView, e: nat) -> Option<Type> {
    match resolve_expr(a, e) {
        Ok(t) => Some(t),
        Err(_) => None,
    }
}

/// Whether statement `s` is well typed, or the first type error met in it;
/// the statements of a block are resolved in order.
pub open spec fn resolve_stmt(a: ArenaView, s: nat) -> Result<(), ResolveError>
    decreases s, 1nat, 0nat,
{
    if s < a.stmts.len() {
        match a.stmts[s as int] {
            StatementView::Expression(e) => match resolve_expr(a, e.0 as nat) {
                Ok(_) => Ok(()),
                Err(x) => Err(x),
            },
            StatementView::Block(ss) => resolve_block(a, s, ss),
        }
    } else {
        Ok(())
    }
}

/// Resolution of the statements `ss` of block `parent`, in order.
pub open spec fn resolve_block(a: ArenaView, parent: nat, ss: Seq<StmtId>) -> Result<(), ResolveError>
    decreases parent, 0nat, ss.len(),
{
    if ss.len() == 0 {
        Ok(())
    } else {
        match resolve_block(a, parent, ss.drop_last()) {
            Err(x) => Err(x),
            Ok(_) => if ss.last().0 < parent {
                resolve_stmt(a, ss.last().0 as nat)
            } else {
                Ok(())
            },
        }
    }
}

/// Whether expression `target` lies in the tree of expression `e`.
pub open spec fn expr_reaches(a: ArenaView, e: nat, target: nat) -> bool
    decreases e,
{
    e == target || (e < a.exprs.len() && match a.exprs[e as int] {
        Expression::Infix { lhs, rhs, .. } => (lhs.0 < e && expr_reaches(a, lhs.0 as nat, target))
            || (rhs.0 < e && expr_reaches(a, rhs.0 as nat, target)),
        Expression::Prefix { exp, .. } => exp.0 < e && expr_reaches(a, exp.0 as nat, target),
        _ => false,
    })
}

/// Whether expression `target` lies under statement `s`.
pub open spec fn stmt_reaches(a: ArenaView, s: nat, target: nat) -> bool
    decreases s, 1nat, 0nat,
{
    s < a.stmts.len() && match a.stmts[s as int] {
        StatementView::Expression(e) => expr_reaches(a, e.0 as nat, target),
        StatementView::Block(ss) => block_reaches(a, s, ss, target),
    }
}

/// Whether expression `target` lies under one of the statements `ss` of block `parent`.
pub open spec fn block_reaches(a: ArenaView, parent: nat, ss: Seq<StmtId>, target: nat) -> bool
    decreases parent, 0nat, ss.len(),
{
    ss.len() > 0 && (block_reaches(a, parent, ss.drop_last(), target) || (ss.last().0 < parent
        && stmt_reaches(a, ss.last().0 as nat, target)))
}

/// The type map of a resolved syntax unit: the type of every expression
/// under the root statement, and nothing for the others.
pub open spec fn type_map(a: ArenaView) -> Seq<Option<Type>> {
    Seq::new(
        a.exprs.len(),
        |i: int| if stmt_reaches(a, a.root.0 as nat, i as nat) { type_of(a, i as nat) } else { None },
    )
}

/// A block whose first `j` statements fail to resolve fails with the same error.
proof fn lemma_block_error_persists(a: ArenaView, parent: nat, ss: Seq<StmtId>, j: int)
    requires
        0 <= j <= ss.len(),
        resolve_block(a, parent, ss.take(j)) is Err,
    ensures
        resolve_block(a, parent, ss) == resolve_block(a, parent, ss.take(j)),
    decreases ss.len(),
{
    if j == ss.len() {
        assert(ss.take(j) =~= ss);
    } else {
        assert(ss.drop_last().take(j) =~= ss.take(j));
        lemma_block_error_persists(a, parent, ss.drop_last(), j);
    }
}

/// Every expression in the tree of `e` was inserted no later than `e`.
pub proof fn lemma_reach_bound(a: ArenaView, e: nat, i: nat)
    requires
        a.wf(),
        e < a.exprs.len(),
        expr_reaches(a, e, i),
    ensures
        i <= e,
    decreases e,
{
    if e != i {
        assert(expr_children_before(a.exprs[e as int], e as int));
        match a.exprs[e as int] {
            Expression::Infix { lhs, rhs, .. } => {
                if lhs.0 < e && expr_reaches(a, lhs.0 as nat, i) {
                    lemma_reach_bound(a, lhs.0 as nat, i);
                } else {
                    lemma_reach_bound(a, rhs.0 as nat, i);
                }
            },
            Expression::Prefix { exp, .. } => {
                lemma_reach_bound(a, exp.0 as nat, i);
            },
            _ => {},
        }
    }
}

/// Within a well-typed expression every subexpression resolves.
proof fn lemma_expr_total(a: ArenaView, e: nat, i: nat)
    requires
        a.wf(),
        e < a.exprs.len(),
        resolve_expr(a, e) is Ok,
        expr_reaches(a, e, i),
    ensures
        i < a.exprs.len(),
        resolve_expr(a, i) is Ok,
    decreases e,
{
    if e != i {
        assert(expr_children_before(a.exprs[e as int], e as int));
        match a.exprs[e as int] {
            Expression::Infix { lhs, rhs, .. } => {
                if expr_reaches(a, lhs.0 as nat, i) {
                    lemma_expr_total(a, lhs.0 as nat, i);
                } else {
                    lemma_expr_total(a, rhs.0 as nat, i);
                }
            },
            Expression::Prefix { exp, .. } => {
                lemma_expr_total(a, exp.0 as nat, i);
            },
            _ => {},
        }
    }
}

proof fn lemma_stmt_total(a: ArenaView, s: nat, i: nat)
    requires
        a.wf(),
        resolve_stmt(a, s) is Ok,
        stmt_reaches(a, s, i),
    ensures
        i < a.exprs.len(),
        resolve_expr(a, i) is Ok,
    decreases s, 1nat, 0nat,
{
    assert(stmt_refs_in(a.stmts[s as int], a.exprs.len()));
    match a.stmts[s as int] {
        StatementView::Expression(e) => {
            lemma_expr_total(a, e.0 as nat, i);
        },
        StatementView::Block(ss) => {
            lemma_block_total(a, s, ss, i);
        },
    }
}

proof fn lemma_block_total(a: ArenaView, parent: nat, ss: Seq<StmtId>, i: nat)
    requires
        a.wf(),
        resolve_block(a, parent, ss) is Ok,
        block_reaches(a, parent, ss, i),
    ensures
        i < a.exprs.len(),
        resolve_expr(a, i) is Ok,
    decreases parent, 0nat, ss.len(),
{
    if block_reaches(a, parent, ss.drop_last(), i) {
        lemma_block_total(a, parent, ss.drop_last(), i);
    } else {
        lemma_stmt_total(a, ss.last().0 as nat, i);
    }
}

/// Resolution is total: when the root statement of a unit resolves, every
/// expression under it has a type in the unit's type map.
pub proof fn lemma_resolution_total(a: ArenaView, i: nat)
    requires
        a.wf(),
        resolve_stmt(a, a.root.0 as nat) is Ok,
        stmt_reaches(a, a.root.0 as nat, i),
    ensures
        i < type_map(a).len(),
        type_map(a)[i as int] is Some,
{
    lemma_stmt_total(a, a.root.0 as nat, i);
}

/// Resolution is deterministic: any two modules resolved from one arena
/// hold the same type map.
pub proof fn lemma_resolution_deterministic(first: Module, second: Module)
    requires
        first.wf(),
        second.wf(),
        first.arena_view() == second.arena_view(),
    ensures
        first.type_view() == second.type_view(),
{
}

/// Operands of different types are rejected: an infix expression whose
/// operands resolve to two different types fails resolution with an
/// unresolved-operator error.
pub proof fn lemma_mismatched_operands_rejected(a: ArenaView, e: nat)
    requires
        a.wf(),
        e < a.exprs.len(),
        a.exprs[e as int] is Infix,
        resolve_expr(a, a.exprs[e as int]->lhs.0 as nat) is Ok,
        resolve_expr(a, a.exprs[e as int]->rhs.0 as nat) is Ok,
        resolve_expr(a, a.exprs[e as int]->lhs.0 as nat) != resolve_expr(a, a.exprs[e as int]->rhs.0 as nat),
    ensures
        resolve_expr(a, e) == Err::<Type, ResolveError>(ResolveError::UnresolvedInfix(
            a.exprs[e as int]->Infix_op,
            resolve_expr(a, a.exprs[e as int]->lhs.0 as nat)->Ok_0,
            resolve_expr(a, a.exprs[e as int]->rhs.0 as nat)->Ok_0,
        )),
{
    assert(expr_children_before(a.exprs[e as int], e as int));
}

/// A syntax unit together with the resolved type of each of its expressions.
#[derive(Debug)]
pub struct Module {
    syntax: Syntax,
    types: Vec<Option<Type>>,
}

impl Module {
    pub closed spec fn arena_view(&self) -> ArenaView {
        self.syntax.arena@
    }

    pub closed spec fn type_view(&self) -> Seq<Option<Type>> {
        self.types@
    }

    /// The arena is acyclic, its root statement is well typed, and the type
    /// map is the one resolution gives.
    pub open spec fn wf(&self) -> bool {
        &&& self.arena_view().wf()
        &&& resolve_stmt(self.arena_view(), self.arena_view().root.0 as nat) is Ok
        &&& self.type_view() == type_map(self.arena_view())
    }

    pub fn arena(&self) -> (r: &Arena)
        ensures
            r@ == self.arena_view(),
    {
        &self.syntax.arena
    }

    /// The resolved type of expression `id`.
    pub fn get_type(&self, id: ExprId) -> (r: Option<Type>)
        requires
            id.0 < self.type_view().len(),
        ensures
            r == self.type_view()[id.0 as int],
    {
        self.types[id.0]
    }
}

/// Resolves the static type of every expression under a root statement.
pub struct Typer<'e> {
    env: &'e TypeEnv,
}

impl<'e> Typer<'e> {
    pub open spec fn wf(&self) -> bool {
        self.env().wf()
    }

    pub closed spec fn env(&self) -> TypeEnv {
        *self.env
    }

    pub fn new(env: &'e TypeEnv) -> (r: Self)
        ensures
            r.env() == *env,
    {
        Typer { env }
    }
    /// Resolves the root statement of `syntax` and records the type of every
    /// expression under it; fails with the first type error met.
    pub fn check(&self, syntax: Syntax) -> (r: Result<Module, Error>)
        requires
            self.wf(),
            syntax.arena@.wf(),
        ensures
            match r {
                Ok(m) => {
                    &&& resolve_stmt(syntax.arena@, syntax.arena@.root.0 as nat) is Ok
                    &&& m.arena_view() == syntax.arena@
                    &&& m.type_view() == type_map(syntax.arena@)
                    &&& m.wf()
                },
                Err(e) => resolve_stmt(syntax.arena@, syntax.arena@.root.0 as nat) == Err::<(), ResolveError>(e),
            },
    {
        let ghost a = syntax.arena@;
        let n = syntax.arena.expression_count();
        let mut types: Vec<Option<Type>> = Vec::new();
        let mut i: usize = 0;
        while i < n
            invariant
                n == a.exprs.len(),
                i <= n,
                types@.len() == i,
                forall|j: int| 0 <= j < i ==> types@[j] is None,
            decreases n - i,
        {
            types.push(None);
            i = i + 1;
        }
        let root = syntax.arena.get_root();
        match self.check_statement(&syntax.arena, &mut types, root) {
            Err(e) => Err(e),
            Ok(()) => {
                assert(types@ =~= type_map(a));
                Ok(Module { syntax, types })
            },
        }
    }

    fn check_statement(&self, arena: &Arena, types: &mut Vec<Option<Type>>, id: StmtId) -> (r: Result<(), Error>)
        requires
            self.wf(),
            arena@.wf(),
            id.0 < arena@.stmts.len(),
            old(types)@.len() == arena@.exprs.len(),
        ensures
            r is Ok <==> resolve_stmt(arena@, id.0 as nat) is Ok,
            r is Err ==> r == resolve_stmt(arena@, id.0 as nat),
            final(types)@.len() == old(types)@.len(),
            r is Ok ==> forall|i: int|
                0 <= i < old(types)@.len() ==> #[trigger] final(types)@[i] == if stmt_reaches(arena@, id.0 as nat, i as nat) {
                    type_of(arena@, i as nat)
                } else {
                    old(types)@[i]
                },
        decreases id.0,
    {
        let ghost a = arena@;
        assert(stmt_refs_in(a.stmts[id.0 as int], a.exprs.len()));
        match arena.get_statement(id) {
            Statement::Expression(exp) => {
                let res = self.calculate_expression_type(arena, types, *exp);
                match res {
                    Ok(_) => Ok(()),
                    Err(e) => Err(e),
                }
            },
            Statement::Block(stmts) => {
                let ghost ss = stmts@;
                let ghost start = types@;
                assert(stmt_children_before(a.stmts[id.0 as int], id.0 as int));
                let mut k: usize = 0;
                while k < stmts.len()
                    invariant
                        self.wf(),
                        a == arena@,
                        a.wf(),
                        ss == stmts@,
                        id.0 < a.stmts.len(),
                        a.stmts[id.0 as int] == StatementView::Block(ss),
                        forall|j: int| 0 <= j < ss.len() ==> (#[trigger] ss[j]).0 < id.0,
                        k <= ss.len(),
                        types@.len() == start.len(),
                        start.len() == a.exprs.len(),
                        start == old(types)@,
                        resolve_block(a, id.0 as nat, ss.take(k as int)) is Ok,
                        forall|i: int|
                            0 <= i < start.len() ==> #[trigger] types@[i] == if block_reaches(a, id.0 as nat, ss.take(k as int), i as nat) {
                                type_of(a, i as nat)
                            } else {
                                start[i]
                            },
                    decreases ss.len() - k,
                {
                    let child = stmts[k];
                    let res = self.check_statement(arena, types, child);
                    assert(ss.take(k + 1).drop_last() =~= ss.take(k as int));
                    assert(ss.take(k + 1).last() == child);
                    if res.is_err() {
                        proof {
                            lemma_block_error_persists(a, id.0 as nat, ss, k as int + 1);
                        }
                        return res;
                    }
                    k = k + 1;
                }
                assert(ss.take(k as int) =~= ss);
                Ok(())
            },
        }
    }

    fn calculate_expression_type(&self, arena: &Arena, types: &mut Vec<Option<Type>>, id: ExprId) -> (r: Result<Type, Error>)
        requires
            self.wf(),
            arena@.wf(),
            id.0 < arena@.exprs.len(),
            old(types)@.len() == arena@.exprs.len(),
        ensures
            r == resolve_expr(arena@, id.0 as nat),
            final(types)@.len() == old(types)@.len(),
            r is Ok ==> forall|i: int|
                0 <= i < old(types)@.len() ==> #[trigger] final(types)@[i] == if expr_reaches(arena@, id.0 as nat, i as nat) {
                    type_of(arena@, i as nat)
                } else {
                    old(types)@[i]
                },
            forall|i: int|
                0 <= i < old(types)@.len() && !expr_reaches(arena@, id.0 as nat, i as nat)
                    ==> #[trigger] final(types)@[i] == old(types)@[i],
            r is Err ==> final(types)@[id.0 as int] == old(types)@[id.0 as int],
        decreases id.0,
    {
        let ghost a = arena@;
        proof {
            match a.exprs[id.0 as int] {
                Expression::Infix { lhs, rhs, .. } => {
                    assert(expr_children_before(a.exprs[id.0 as int], id.0 as int));
                    if expr_reaches(a, lhs.0 as nat, id.0 as nat) {
                        lemma_reach_bound(a, lhs.0 as nat, id.0 as nat);
                    }
                    if expr_reaches(a, rhs.0 as nat, id.0 as nat) {
                        lemma_reach_bound(a, rhs.0 as nat, id.0 as nat);
                    }
                },
                Expression::Prefix { exp, .. } => {
                    assert(expr_children_before(a.exprs[id.0 as int], id.0 as int));
                    if expr_reaches(a, exp.0 as nat, id.0 as nat) {
                        lemma_reach_bound(a, exp.0 as nat, id.0 as nat);
                    }
                },
                _ => {},
            }
        }
        assert(expr_children_before(a.exprs[id.0 as int], id.0 as int));
        let ty = match arena.get_expression(id) {
            Expression::Int64(_) => Type::Int64,
            Expression::Uint64(_) => Type::Uint64,
            Expression::Float64(_) => Type::Float64,
            Expression::Bool(_) => Type::Bool,
            Expression::Unit => Type::Unit,
            Expression::Infix { op, lhs, rhs } => {
                let lty = match self.calculate_expression_type(arena, types, *lhs) {
                    Ok(t) => t,
                    Err(e) => return Err(e),
                };
                let rty = match self.calculate_expression_type(arena, types, *rhs) {
                    Ok(t) => t,
                    Err(e) => return Err(e),
                };
                match self.env.resolve_infix(*op, lty, rty) {
                    Ok(t) => t,
                    Err(e) => return Err(e),
                }
            },
            Expression::Prefix { op, exp } => {
                let t = match self.calculate_expression_type(arena, types, *exp) {
                    Ok(t) => t,
                    Err(e) => return Err(e),
                };
                match self.env.resolve_prefix(*op, t) {
                    Ok(t) => t,
                    Err(e) => return Err(e),
                }
            },
        };
        types.set(id.0, Some(ty));
        Ok(ty)
    }
}

} // verus!
