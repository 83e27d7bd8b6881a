//! The syntax arena that the front end fills: expression and statement
//! nodes addressed by ids, each referring only to nodes inserted before it.

use vstd::prelude::*;

use crate::semantic::{Infix, Prefix};

verus! {

/// Identifies an expression node within one arena.
#[derive(Debug, Clone, Copy, PartialEq, Eq, Structural)]
pub struct ExprId(pub usize);

/// Identifies a statement node within one arena.
#[derive(Debug, Clone, Copy, PartialEq, Eq, Structural)]
pub struct StmtId(pub usize);

/// An expression node. A float literal is held as its IEEE-754 bit pattern.
#[derive(Debug, Clone, Copy, PartialEq, Eq, Structural)]
pub enum Expression {
    Int64(i64),
    Uint64(u64),
    Float64(u64),
    Bool(bool),
    Unit,
    Infix { op: Infix, lhs: ExprId, rhs: ExprId },
    Prefix { op: Prefix, exp: ExprId },
}

/// A statement node.
#[derive(Debug, Clone)]
pub enum Statement {
    Expression(ExprId),
    Block(Vec<StmtId>),
}

/// What a statement node holds, for specifications.
pub enum StatementView {
    Expression(ExprId),
    Block(Seq<StmtId>),
}

impl View for Statement {
    type V = StatementView;

    open spec fn view(&self) -> StatementView {
        match self {
            Statement::Expression(e) => StatementView::Expression(*e),
            Statement::Block(ss) => StatementView::Block(ss@),
        }
    }
}

/// What an arena holds, for specifications.
pub struct ArenaView {
    pub exprs: Seq<Expression>,
    pub stmts: Seq<StatementView>,
    pub root: StmtId,
}

impl ArenaView {
    /// Every node refers only to nodes that were inserted before it, so the
    /// arena holds no cycle; the root is a statement of the arena.
    pub open spec fn wf(self) -> bool {
        &&& forall|i: int|
            0 <= i < self.exprs.len() ==> #[trigger] expr_children_before(self.exprs[i], i)
        &&& forall|i: int|
            0 <= i < self.stmts.len() ==> #[trigger] stmt_children_before(self.stmts[i], i)
        &&& forall|i: int|
            0 <= i < self.stmts.len() ==> #[trigger] stmt_refs_in(self.stmts[i], self.exprs.len())
        &&& self.root.0 < self.stmts.len()
    }
}

pub open spec fn expr_children_before(e: Expression, i: int) -> bool {
    match e {
        Expression::Infix { lhs, rhs, .. } => lhs.0 < i && rhs.0 < i,
        Expression::Prefix { exp, .. } => exp.0 < i,
        _ => true,
    }
}

pub open spec fn stmt_refs_in(s: StatementView, n: nat) -> bool {
    match s {
        StatementView::Expression(e) => e.0 < n,
        StatementView::Block(_) => true,
    }
}

pub open spec fn stmt_children_before(s: StatementView, i: int) -> bool {
    match s {
        StatementView::Expression(_) => true,
        StatementView::Block(ss) => forall|k: int| 0 <= k < ss.len() ==> (#[trigger] ss[k]).0 < i,
    }
}

/// The append-only owner of all expression and statement nodes of one
/// syntax unit. Ids are indices into it and are never reused.
#[derive(Debug)]
pub struct Arena {
    statements: Vec<Statement>,
    expressions: Vec<Expression>,
    root: StmtId,
}

impl View for Arena {
    type V = ArenaView;

    closed spec fn view(&self) -> ArenaView {
        ArenaView {
            exprs: self.expressions@,
            stmts: self.statements@.map_values(|s: Statement| s@),
            root: self.root,
        }
    }
}

impl Arena {
    /// Every node refers only to nodes inserted before it.
    pub open spec fn acyclic(&self) -> bool {
        &&& forall|i: int|
            0 <= i < self@.exprs.len() ==> #[trigger] expr_children_before(self@.exprs[i], i)
        &&& forall|i: int|
            0 <= i < self@.stmts.len() ==> #[trigger] stmt_children_before(self@.stmts[i], i)
        &&& forall|i: int|
            0 <= i < self@.stmts.len() ==> #[trigger] stmt_refs_in(self@.stmts[i], self@.exprs.len())
    }

    pub fn new() -> (r: Self)
        ensures
            r@.exprs.len() == 0,
            r@.stmts.len() == 0,
            r@.root == StmtId(0),
            r.acyclic(),
    {
        Arena { statements: Vec::new(), expressions: Vec::new(), root: StmtId(0) }
    }

    pub fn set_root(&mut self, root: StmtId)
        ensures
            final(self)@ == (ArenaView { root, ..old(self)@ }),
    {
        self.root = root;
        proof {
            assert(final(self)@.stmts =~= old(self)@.stmts);
        }
    }

    pub fn get_root(&self) -> (r: StmtId)
        ensures
            r == self@.root,
    {
        self.root
    }

    pub fn get_expression(&self, id: ExprId) -> (r: &Expression)
        requires
            id.0 < self@.exprs.len(),
        ensures
            *r == self@.exprs[id.0 as int],
    {
        &self.expressions[id.0]
    }

    pub fn expression_count(&self) -> (r: usize)
        ensures
            r == self@.exprs.len(),
    {
        self.expressions.len()
    }

    pub fn get_statement(&self, id: StmtId) -> (r: &Statement)
        requires
            id.0 < self@.stmts.len(),
        ensures
            r@ == self@.stmts[id.0 as int],
    {
        &self.statements[id.0]
    }

    pub fn statement_count(&self) -> (r: usize)
        ensures
            r == self@.stmts.len(),
    {
        self.statements.len()
    }

    fn push_expression(&mut self, node: Expression) -> (r: ExprId)
        requires
            old(self)@.exprs.len() < usize::MAX,
            old(self).acyclic(),
            expr_children_before(node, old(self)@.exprs.len() as int),
        ensures
            r.0 == old(self)@.exprs.len(),
            final(self)@ == (ArenaView { exprs: old(self)@.exprs.push(node), ..old(self)@ }),
            final(self).acyclic(),
    {
        let uid = ExprId(self.expressions.len());
        self.expressions.push(node);
        proof {
            let a = final(self)@;
            assert(a.stmts =~= old(self)@.stmts);
            assert forall|i: int| 0 <= i < a.stmts.len() implies #[trigger] stmt_refs_in(a.stmts[i], a.exprs.len()) by {
                assert(stmt_refs_in(old(self)@.stmts[i], old(self)@.exprs.len()));
            }
            assert forall|i: int| 0 <= i < a.exprs.len() implies #[trigger] expr_children_before(a.exprs[i], i) by {
                if i < old(self)@.exprs.len() {
                    assert(expr_children_before(old(self)@.exprs[i], i));
                }
            }
        }
        uid
    }

    pub fn make_int64(&mut self, i: i64) -> (r: ExprId)
        requires
            old(self)@.exprs.len() < usize::MAX,
            old(self).acyclic(),
        ensures
            r.0 == old(self)@.exprs.len(),
            final(self)@ == (ArenaView { exprs: old(self)@.exprs.push(Expression::Int64(i)), ..old(self)@ }),
            final(self).acyclic(),
    {
        self.push_expression(Expression::Int64(i))
    }

    pub fn make_uint64(&mut self, u: u64) -> (r: ExprId)
        requires
            old(self)@.exprs.len() < usize::MAX,
            old(self).acyclic(),
        ensures
            r.0 == old(self)@.exprs.len(),
            final(self)@ == (ArenaView { exprs: old(self)@.exprs.push(Expression::Uint64(u)), ..old(self)@ }),
            final(self).acyclic(),
    {
        self.push_expression(Expression::Uint64(u))
    }

    /// Adds a float literal given by its IEEE-754 bit pattern.
    pub fn make_float64(&mut self, bits: u64) -> (r: ExprId)
        requires
            old(self)@.exprs.len() < usize::MAX,
            old(self).acyclic(),
        ensures
            r.0 == old(self)@.exprs.len(),
            final(self)@ == (ArenaView { exprs: old(self)@.exprs.push(Expression::Float64(bits)), ..old(self)@ }),
            final(self).acyclic(),
    {
        self.push_expression(Expression::Float64(bits))
    }

    pub fn make_bool(&mut self, b: bool) -> (r: ExprId)
        requires
            old(self)@.exprs.len() < usize::MAX,
            old(self).acyclic(),
        ensures
            r.0 == old(self)@.exprs.len(),
            final(self)@ == (ArenaView { exprs: old(self)@.exprs.push(Expression::Bool(b)), ..old(self)@ }),
            final(self).acyclic(),
    {
        self.push_expression(Expression::Bool(b))
    }

    pub fn make_unit(&mut self) -> (r: ExprId)
        requires
            old(self)@.exprs.len() < usize::MAX,
            old(self).acyclic(),
        ensures
            r.0 == old(self)@.exprs.len(),
            final(self)@ == (ArenaView { exprs: old(self)@.exprs.push(Expression::Unit), ..old(self)@ }),
            final(self).acyclic(),
    {
        self.push_expression(Expression::Unit)
    }

    pub fn make_infix(&mut self, op: Infix, lhs: ExprId, rhs: ExprId) -> (r: ExprId)
        requires
            old(self)@.exprs.len() < usize::MAX,
            lhs.0 < old(self)@.exprs.len(),
            rhs.0 < old(self)@.exprs.len(),
            old(self).acyclic(),
        ensures
            r.0 == old(self)@.exprs.len(),
            final(self)@ == (ArenaView {
                exprs: old(self)@.exprs.push(Expression::Infix { op, lhs, rhs }),
                ..old(self)@
            }),
            final(self).acyclic(),
    {
        self.push_expression(Expression::Infix { op, lhs, rhs })
    }

    pub fn make_prefix(&mut self, op: Prefix, exp: ExprId) -> (r: ExprId)
        requires
            old(self)@.exprs.len() < usize::MAX,
            exp.0 < old(self)@.exprs.len(),
            old(self).acyclic(),
        ensures
            r.0 == old(self)@.exprs.len(),
            final(self)@ == (ArenaView {
                exprs: old(self)@.exprs.push(Expression::Prefix { op, exp }),
                ..old(self)@
            }),
            final(self).acyclic(),
    {
        self.push_expression(Expression::Prefix { op, exp })
    }

    fn push_statement(&mut self, node: Statement) -> (r: StmtId)
        requires
            old(self)@.stmts.len() < usize::MAX,
        ensures
            r.0 == old(self)@.stmts.len(),
            final(self)@ == (ArenaView { stmts: old(self)@.stmts.push(node@), ..old(self)@ }),
    {
        let uid = StmtId(self.statements.len());
        self.statements.push(node);
        proof {
            assert(final(self)@.stmts =~= old(self)@.stmts.push(node@));
        }
        uid
    }

    pub fn push_expression_statement(&mut self, id: ExprId) -> (r: StmtId)
        requires
            old(self)@.stmts.len() < usize::MAX,
            id.0 < old(self)@.exprs.len(),
            old(self).acyclic(),
        ensures
            r.0 == old(self)@.stmts.len(),
            final(self)@ == (ArenaView {
                stmts: old(self)@.stmts.push(StatementView::Expression(id)),
                ..old(self)@
            }),
            final(self).acyclic(),
    {
        let r = self.push_statement(Statement::Expression(id));
        proof {
            assert(stmt_refs_in(final(self)@.stmts[r.0 as int], final(self)@.exprs.len()));
        }
        r
    }

    pub fn push_block(&mut self, stmts: Vec<StmtId>) -> (r: StmtId)
        requires
            old(self)@.stmts.len() < usize::MAX,
            forall|k: int| 0 <= k < stmts@.len() ==> (#[trigger] stmts@[k]).0 < old(self)@.stmts.len(),
            old(self).acyclic(),
        ensures
            r.0 == old(self)@.stmts.len(),
            final(self)@ == (ArenaView {
                stmts: old(self)@.stmts.push(StatementView::Block(stmts@)),
                ..old(self)@
            }),
            final(self).acyclic(),
    {
        let r = self.push_statement(Statement::Block(stmts));
        proof {
            assert(stmt_refs_in(final(self)@.stmts[r.0 as int], final(self)@.exprs.len()));
            assert(stmt_children_before(final(self)@.stmts[r.0 as int], r.0 as int));
        }
        r
    }
}

/// A syntax unit: an arena and, in it, the designated root statement.
#[derive(Debug)]
pub struct Syntax {
    pub arena: Arena,
}

} // verus!
