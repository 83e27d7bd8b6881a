//! Code generation: a direct translation of a resolved tree to bytecode,
//! operands first, left to right.

use vstd::prelude::*;

use crate::chunk::{
    appended, encode_u16, lemma_appended_concat, lemma_appended_trans, Chunk, ChunkView, EncodingError,
    MAX_CONSTANTS,
};
use crate::grammar::{
    expr_children_before, stmt_children_before, stmt_refs_in, Arena, ArenaView, ExprId,
    Expression, Statement, StatementView, StmtId, Syntax,
};
use crate::opcode::{opcode_byte, OpCode};
use crate::program::{Function, Program};
use crate::semantic::{Infix, Prefix, ResolveError, Type, TypeEnv};
use crate::typechecker::{resolve_stmt, type_map, Module, Typer};
use crate::value::Value;

verus! {

/// Source line recorded for generated bytes: syntax nodes carry no position.
pub const NO_LINE: usize = 0;

/// The IEEE-754 bit pattern of `-1.0`, the factor of float negation.
pub const F64_MINUS_ONE_BITS: u64 = 0xBFF0_0000_0000_0000;

/// Why code generation failed.
#[derive(Debug, Clone, Copy, PartialEq, Eq, Structural)]
pub enum Error {
    /// No instruction implements the operator on these operand types.
    UnsupportedInfix(Infix, Type, Type),
    /// No instruction sequence implements the prefix operator on this type.
    UnsupportedPrefix(Prefix, Type),
    /// A unary plus reached code generation; it is elided while the tree is built.
    PrefixPlus,
    /// An expression has no resolved type.
    MissingType(ExprId),
    /// The constant pool is full.
    TooManyConstants,
}

/// The instruction for `lhs op rhs` on operands of the given types.
pub open spec fn infix_opcode(op: Infix, lhs: Type, rhs: Type) -> Option<OpCode> {
    match (lhs, op, rhs) {
        (Type::Int64, Infix::Plus, Type::Int64) => Some(OpCode::I64Add),
        (Type::Int64, Infix::Minus, Type::Int64) => Some(OpCode::I64Sub),
        (Type::Int64, Infix::Mul, Type::Int64) => Some(OpCode::I64Mul),
        (Type::Int64, Infix::Div, Type::Int64) => Some(OpCode::I64Div),
        (Type::Int64, Infix::Equal, Type::Int64) => Some(OpCode::I64Equal),
        (Type::Int64, Infix::NotEqual, Type::Int64) => Some(OpCode::I64NotEqual),
        (Type::Int64, Infix::Less, Type::Int64) => Some(OpCode::I64Less),
        (Type::Int64, Infix::LessEqual, Type::Int64) => Some(OpCode::I64LessEqual),
        (Type::Int64, Infix::Greater, Type::Int64) => Some(OpCode::I64Greater),
        (Type::Int64, Infix::GreaterEqual, Type::Int64) => Some(OpCode::I64GreaterEqual),
        (Type::Uint64, Infix::Plus, Type::Uint64) => Some(OpCode::U64Add),
        (Type::Uint64, Infix::Minus, Type::Uint64) => Some(OpCode::U64Sub),
        (Type::Uint64, Infix::Mul, Type::Uint64) => Some(OpCode::U64Mul),
        (Type::Uint64, Infix::Div, Type::Uint64) => Some(OpCode::U64Div),
        (Type::Uint64, Infix::Equal, Type::Uint64) => Some(OpCode::U64Equal),
        (Type::Uint64, Infix::NotEqual, Type::Uint64) => Some(OpCode::U64NotEqual),
        (Type::Uint64, Infix::Less, Type::Uint64) => Some(OpCode::U64Less),
        (Type::Uint64, Infix::LessEqual, Type::Uint64) => Some(OpCode::U64LessEqual),
        (Type::Uint64, Infix::Greater, Type::Uint64) => Some(OpCode::U64Greater),
        (Type::Uint64, Infix::GreaterEqual, Type::Uint64) => Some(OpCode::U64GreaterEqual),
        (Type::Float64, Infix::Plus, Type::Float64) => Some(OpCode::F64Add),
        (Type::Float64, Infix::Minus, Type::Float64) => Some(OpCode::F64Sub),
        (Type::Float64, Infix::Mul, Type::Float64) => Some(OpCode::F64Mul),
        (Type::Float64, Infix::Div, Type::Float64) => Some(OpCode::F64Div),
        (Type::Float64, Infix::Equal, Type::Float64) => Some(OpCode::F64Equal),
        (Type::Float64, Infix::NotEqual, Type::Float64) => Some(OpCode::F64NotEqual),
        (Type::Float64, Infix::Less, Type::Float64) => Some(OpCode::F64Less),
        (Type::Float64, Infix::LessEqual, Type::Float64) => Some(OpCode::F64LessEqual),
        (Type::Float64, Infix::Greater, Type::Float64) => Some(OpCode::F64Greater),
        (Type::Float64, Infix::GreaterEqual, Type::Float64) => Some(OpCode::F64GreaterEqual),
        _ => None,
    }
}

/// Code and constants that load `v` as constant number `pool`.
pub open spec fn emit_const(v: Value, pool: nat) -> Result<(Seq<u8>, Seq<Value>), Error> {
    if pool < MAX_CONSTANTS {
        Ok((seq![opcode_byte(OpCode::Const)] + encode_u16(pool as u16), seq![v]))
    } else {
        Err(Error::TooManyConstants)
    }
}

/// The code and new constants generated for expression `e`, given the
/// resolved types and the number of constants already in the pool: each
/// operand's code comes first, left to right, then the operator's.
pub open spec fn emit_expr(a: ArenaView, types: Seq<Option<Type>>, e: nat, pool: nat) -> Result<
    (Seq<u8>, Seq<Value>),
    Error,
>
    decreases e,
{
    if e < a.exprs.len() {
        match a.exprs[e as int] {
            Expression::Int64(i) => emit_const(Value::Int64(i), pool),
            Expression::Uint64(u) => emit_const(Value::Uint64(u), pool),
            Expression::Float64(f) => emit_const(Value::Float64(f), pool),
            Expression::Unit => emit_const(Value::Unit, pool),
            Expression::Bool(b) => Ok(
                (seq![opcode_byte(if b { OpCode::True } else { OpCode::False })], seq![]),
            ),
            Expression::Infix { op, lhs, rhs } => {
                if lhs.0 < e && rhs.0 < e {
                    match emit_expr(a, types, lhs.0 as nat, pool) {
                        Err(x) => Err(x),
                        Ok((b1, c1)) => match emit_expr(a, types, rhs.0 as nat, pool + c1.len()) {
                            Err(x) => Err(x),
                            Ok((b2, c2)) => {
                                if lhs.0 >= types.len() || types[lhs.0 as int] is None {
                                    Err(Error::MissingType(lhs))
                                } else if rhs.0 >= types.len() || types[rhs.0 as int] is None {
                                    Err(Error::MissingType(rhs))
                                } else {
                                    let lt = types[lhs.0 as int]->Some_0;
                                    let rt = types[rhs.0 as int]->Some_0;
                                    match infix_opcode(op, lt, rt) {
                                        Some(code) => Ok((b1 + b2 + seq![opcode_byte(code)], c1 + c2)),
                                        None => Err(Error::UnsupportedInfix(op, lt, rt)),
                                    }
                                }
                            },
                        },
                    }
                } else {
                    Ok((seq![], seq![]))
                }
            },
            Expression::Prefix { op, exp } => {
                if exp.0 < e {
                    match emit_expr(a, types, exp.0 as nat, pool) {
                        Err(x) => Err(x),
                        Ok((b1, c1)) => {
                            if e >= types.len() || types[e as int] is None {
                                Err(Error::MissingType(ExprId(e as usize)))
                            } else {
                                let t = types[e as int]->Some_0;
                                match (op, t) {
                                    (Prefix::Plus, _) => Err(Error::PrefixPlus),
                                    (Prefix::Minus, Type::Int64) => match emit_const(Value::Int64(-1i64), pool + c1.len()) {
                                        Ok((b2, c2)) => Ok((b1 + b2 + seq![opcode_byte(OpCode::I64Mul)], c1 + c2)),
                                        Err(x) => Err(x),
                                    },
                                    (Prefix::Minus, Type::Float64) => match emit_const(
                                        Value::Float64(F64_MINUS_ONE_BITS),
                                        pool + c1.len(),
                                    ) {
                                        Ok((b2, c2)) => Ok((b1 + b2 + seq![opcode_byte(OpCode::F64Mul)], c1 + c2)),
                                        Err(x) => Err(x),
                                    },
                                    (Prefix::Negate, Type::Bool) => Ok((b1 + seq![opcode_byte(OpCode::BoolNot)], c1)),
                                    _ => Err(Error::UnsupportedPrefix(op, t)),
                                }
                            }
                        },
                    }
                } else {
                    Ok((seq![], seq![]))
                }
            },
        }
    } else {
        Ok((seq![], seq![]))
    }
}

/// The code and new constants generated for statement `s`. An expression
/// statement discards its value with `Pop` unless `keep` is set; a block
/// compiles its statements in order and passes `keep` on to the last one.
pub open spec fn emit_stmt(a: ArenaView, types: Seq<Option<Type>>, s: nat, keep: bool, pool: nat) -> Result<
    (Seq<u8>, Seq<Value>),
    Error,
>
    decreases s, 1nat, 0nat,
{
    if s < a.stmts.len() {
        match a.stmts[s as int] {
            StatementView::Expression(e) => match emit_expr(a, types, e.0 as nat, pool) {
                Err(x) => Err(x),
                Ok((b, c)) => Ok((if keep { b } else { b.push(opcode_byte(OpCode::Pop)) }, c)),
            },
            StatementView::Block(ss) => emit_block(a, types, s, ss, keep, pool),
        }
    } else {
        Ok((seq![], seq![]))
    }
}

/// The code and new constants generated for the statements `ss` of block `parent`.
pub open spec fn emit_block(
    a: ArenaView,
    types: Seq<Option<Type>>,
    parent: nat,
    ss: Seq<StmtId>,
    keep: bool,
    pool: nat,
) -> Result<(Seq<u8>, Seq<Value>), Error>
    decreases parent, 0nat, ss.len(),
{
    if ss.len() == 0 {
        Ok((seq![], seq![]))
    } else {
        match emit_block(a, types, parent, ss.drop_last(), false, pool) {
            Err(x) => Err(x),
            Ok((b1, c1)) => if ss.last().0 < parent {
                match emit_stmt(a, types, ss.last().0 as nat, keep, pool + c1.len()) {
                    Err(x) => Err(x),
                    Ok((b2, c2)) => Ok((b1 + b2, c1 + c2)),
                }
            } else {
                Ok((b1, c1))
            },
        }
    }
}

/// `n` copies of the line recorded for generated code.
pub open spec fn no_lines(n: nat) -> Seq<usize> {
    Seq::new(n, |i: int| NO_LINE)
}

/// `p` is the program compiled from arena `a` with type map `types`: one
/// function, `main`, of no parameters, whose code is that of the root
/// statement, keeping its value, followed by `Return`.
pub open spec fn compiled_from(a: ArenaView, types: Seq<Option<Type>>, p: Program) -> bool {
    let code = emit_stmt(a, types, a.root.0 as nat, true, 0);
    let (b, c) = code->Ok_0;
    &&& code is Ok
    &&& p.entry == 0
    &&& p.functions@.len() == 1
    &&& p.functions@[0].name@ == "main"@
    &&& p.functions@[0].arity == 0
    &&& p.functions@[0].chunk@.bytes == b.push(opcode_byte(OpCode::Return))
    &&& p.functions@[0].chunk@.consts == c
    &&& p.functions@[0].chunk@.lines == no_lines(b.len() + 1)
}

/// Why compiling a syntax unit failed, by phase.
#[derive(Debug, Clone, Copy, PartialEq, Eq, Structural)]
pub enum CompileError {
    /// Type resolution failed.
    Type(ResolveError),
    /// Code generation failed.
    Codegen(Error),
}

/// Resolves the types of `syntax` and compiles it to a program; fails with
/// the first type error, or with the code generation error.
pub fn compile(syntax: Syntax) -> (r: Result<Program, CompileError>)
    requires
        syntax.arena@.wf(),
    ensures
        ({
            let a = syntax.arena@;
            match resolve_stmt(a, a.root.0 as nat) {
                Err(e) => r == Err::<Program, CompileError>(CompileError::Type(e)),
                Ok(_) => match emit_stmt(a, type_map(a), a.root.0 as nat, true, 0) {
                    Ok(_) => r is Ok && compiled_from(a, type_map(a), r->Ok_0),
                    Err(x) => r == Err::<Program, CompileError>(CompileError::Codegen(x)),
                },
            }
        }),
{
    let env = TypeEnv::new();
    let typer = Typer::new(&env);
    match typer.check(syntax) {
        Err(e) => Err(CompileError::Type(e)),
        Ok(module) => {
            let mut codegen = CodeGen::new();
            match codegen.compile(module) {
                Ok(p) => Ok(p),
                Err(x) => Err(CompileError::Codegen(x)),
            }
        },
    }
}

/// Translates a resolved syntax tree to bytecode, without optimisation.
#[derive(Debug)]
pub struct CodeGen {}

/// The instruction for `lhs op rhs` on operands of the given types.
fn select_infix(op: Infix, lhs: Type, rhs: Type) -> (r: Option<OpCode>)
    ensures
        r == infix_opcode(op, lhs, rhs),
{
    match (lhs, op, rhs) {
        (Type::Int64, Infix::Plus, Type::Int64) => Some(OpCode::I64Add),
        (Type::Int64, Infix::Minus, Type::Int64) => Some(OpCode::I64Sub),
        (Type::Int64, Infix::Mul, Type::Int64) => Some(OpCode::I64Mul),
        (Type::Int64, Infix::Div, Type::Int64) => Some(OpCode::I64Div),
        (Type::Int64, Infix::Equal, Type::Int64) => Some(OpCode::I64Equal),
        (Type::Int64, Infix::NotEqual, Type::Int64) => Some(OpCode::I64NotEqual),
        (Type::Int64, Infix::Less, Type::Int64) => Some(OpCode::I64Less),
        (Type::Int64, Infix::LessEqual, Type::Int64) => Some(OpCode::I64LessEqual),
        (Type::Int64, Infix::Greater, Type::Int64) => Some(OpCode::I64Greater),
        (Type::Int64, Infix::GreaterEqual, Type::Int64) => Some(OpCode::I64GreaterEqual),
        (Type::Uint64, Infix::Plus, Type::Uint64) => Some(OpCode::U64Add),
        (Type::Uint64, Infix::Minus, Type::Uint64) => Some(OpCode::U64Sub),
        (Type::Uint64, Infix::Mul, Type::Uint64) => Some(OpCode::U64Mul),
        (Type::Uint64, Infix::Div, Type::Uint64) => Some(OpCode::U64Div),
        (Type::Uint64, Infix::Equal, Type::Uint64) => Some(OpCode::U64Equal),
        (Type::Uint64, Infix::NotEqual, Type::Uint64) => Some(OpCode::U64NotEqual),
        (Type::Uint64, Infix::Less, Type::Uint64) => Some(OpCode::U64Less),
        (Type::Uint64, Infix::LessEqual, Type::Uint64) => Some(OpCode::U64LessEqual),
        (Type::Uint64, Infix::Greater, Type::Uint64) => Some(OpCode::U64Greater),
        (Type::Uint64, Infix::GreaterEqual, Type::Uint64) => Some(OpCode::U64GreaterEqual),
        (Type::Float64, Infix::Plus, Type::Float64) => Some(OpCode::F64Add),
        (Type::Float64, Infix::Minus, Type::Float64) => Some(OpCode::F64Sub),
        (Type::Float64, Infix::Mul, Type::Float64) => Some(OpCode::F64Mul),
        (Type::Float64, Infix::Div, Type::Float64) => Some(OpCode::F64Div),
        (Type::Float64, Infix::Equal, Type::Float64) => Some(OpCode::F64Equal),
        (Type::Float64, Infix::NotEqual, Type::Float64) => Some(OpCode::F64NotEqual),
        (Type::Float64, Infix::Less, Type::Float64) => Some(OpCode::F64Less),
        (Type::Float64, Infix::LessEqual, Type::Float64) => Some(OpCode::F64LessEqual),
        (Type::Float64, Infix::Greater, Type::Float64) => Some(OpCode::F64Greater),
        (Type::Float64, Infix::GreaterEqual, Type::Float64) => Some(OpCode::F64GreaterEqual),
        _ => None,
    }
}

impl CodeGen {
    pub fn new() -> (r: Self) {
        CodeGen {}
    }

    /// Compiles the root statement of `module` into a program of one
    /// function, `main`, of no parameters. The root's value is left on the
    /// stack for `Return`.
    pub fn compile(&mut self, module: Module) -> (r: Result<Program, Error>)
        requires
            module.wf(),
        ensures
            match emit_stmt(module.arena_view(), module.type_view(), module.arena_view().root.0 as nat, true, 0) {
                Ok(_) => r is Ok && compiled_from(module.arena_view(), module.type_view(), r->Ok_0),
                Err(x) => r == Err::<Program, Error>(x),
            },
    {
        let mut chunk = Chunk::new();
        let arena = module.arena();
        let root = arena.get_root();
        let res = self.compile_statement(arena, &module, &mut chunk, root, true);
        if let Err(e) = res {
            return Err(e);
        }
        chunk.add_instruction(OpCode::Return, NO_LINE);
        proof {
            assert(chunk@.lines =~= no_lines(chunk@.bytes.len()));
        }
        let main_fn = Function { name: "main".to_string(), chunk, arity: 0 };
        let mut program = Program::new();
        program.functions.push(main_fn);
        Ok(program)
    }

    fn compile_statement(&mut self, arena: &Arena, module: &Module, chunk: &mut Chunk, id: StmtId, keep: bool) -> (r: Result<(), Error>)
        requires
            arena@.wf(),
            arena@ == module.arena_view(),
            module.type_view().len() == arena@.exprs.len(),
            id.0 < arena@.stmts.len(),
        ensures
            match emit_stmt(arena@, module.type_view(), id.0 as nat, keep, old(chunk)@.consts.len()) {
                Ok((b, c)) => r is Ok && final(chunk)@ == (ChunkView {
                    bytes: old(chunk)@.bytes + b,
                    lines: old(chunk)@.lines + no_lines(b.len()),
                    consts: old(chunk)@.consts + c,
                }),
                Err(x) => r == Err::<(), Error>(x),
            },
        decreases id.0,
    {
        let ghost a = arena@;
        let ghost types = module.type_view();
        assert(stmt_refs_in(a.stmts[id.0 as int], a.exprs.len()));
        assert(stmt_children_before(a.stmts[id.0 as int], id.0 as int));
        match arena.get_statement(id) {
            Statement::Expression(exp) => {
                let res = self.compile_expr(arena, module, chunk, *exp);
                if let Err(e) = res {
                    return Err(e);
                }
                if !keep {
                    chunk.add_instruction(OpCode::Pop, NO_LINE);
                }
                proof {
                    let (b, c) = emit_expr(a, types, exp.0 as nat, old(chunk)@.consts.len())->Ok_0;
                    if keep {
                        assert(final(chunk)@.bytes =~= old(chunk)@.bytes + b);
                    } else {
                        assert(final(chunk)@.bytes =~= old(chunk)@.bytes + b.push(opcode_byte(OpCode::Pop)));
                        assert(final(chunk)@.lines =~= old(chunk)@.lines + no_lines(b.len() + 1));
                    }
                }
                Ok(())
            },
            Statement::Block(stmts) => {
                let ghost ss = stmts@;
                let ghost start = chunk@;
                let n = stmts.len();
                let mut k: usize = 0;
                assert(ss.take(0) =~= seq![]);
                assert(start.bytes + seq![] =~= start.bytes);
                assert(start.consts + seq![] =~= start.consts);
                assert(start.lines + no_lines(0) =~= start.lines);
                while k < n
                    invariant
                        a == arena@,
                        a == module.arena_view(),
                        types == module.type_view(),
                        types.len() == a.exprs.len(),
                        a.wf(),
                        ss == stmts@,
                        n == ss.len(),
                        id.0 < a.stmts.len(),
                        a.stmts[id.0 as int] == StatementView::Block(ss),
                        forall|j: int| 0 <= j < ss.len() ==> (#[trigger] ss[j]).0 < id.0,
                        k <= n,
                        start == old(chunk)@,
                        k < n || n == 0 ==> emit_block(a, types, id.0 as nat, ss.take(k as int), false, start.consts.len()) is Ok,
                        k < n || n == 0 ==> {
                            let (b, c) = emit_block(a, types, id.0 as nat, ss.take(k as int), false, start.consts.len())->Ok_0;
                            chunk@ == (ChunkView {
                                bytes: start.bytes + b,
                                lines: start.lines + no_lines(b.len()),
                                consts: start.consts + c,
                            })
                        },
                        k == n && n > 0 ==> emit_block(a, types, id.0 as nat, ss, keep, start.consts.len()) is Ok,
                        k == n && n > 0 ==> {
                            let (b, c) = emit_block(a, types, id.0 as nat, ss, keep, start.consts.len())->Ok_0;
                            chunk@ == (ChunkView {
                                bytes: start.bytes + b,
                                lines: start.lines + no_lines(b.len()),
                                consts: start.consts + c,
                            })
                        },
                    decreases n - k,
                {
                    let child = stmts[k];
                    let last = k + 1 == n;
                    let child_keep = keep && last;
                    let res = self.compile_statement(arena, module, chunk, child, child_keep);
                    proof {
                        let prefix = ss.take(k + 1);
                        assert(prefix.drop_last() =~= ss.take(k as int));
                        assert(prefix.last() == child);
                        if last {
                            assert(prefix =~= ss);
                        }
                    }
                    if let Err(e) = res {
                        proof {
                            if !last {
                                lemma_block_error_persists(a, types, id.0 as nat, ss, keep, start.consts.len(), k as int + 1);
                            }
                        }
                        return Err(e);
                    }
                    proof {
                        let (b1, c1) = emit_block(a, types, id.0 as nat, ss.take(k as int), false, start.consts.len())->Ok_0;
                        let (b2, c2) = emit_stmt(a, types, child.0 as nat, child_keep, start.consts.len() + c1.len())->Ok_0;
                        assert(chunk@.bytes =~= start.bytes + (b1 + b2));
                        assert(chunk@.consts =~= start.consts + (c1 + c2));
                        assert(chunk@.lines =~= start.lines + no_lines((b1 + b2).len()));
                    }
                    k = k + 1;
                }
                proof {
                    if n == 0 {
                        assert(ss.take(0) =~= ss);
                    }
                }
                Ok(())
            },
        }
    }

    #[verifier::spinoff_prover]
    #[verifier::rlimit(40)]
    fn compile_expr(&mut self, arena: &Arena, module: &Module, chunk: &mut Chunk, id: ExprId) -> (r: Result<(), Error>)
        requires
            arena@.wf(),
            arena@ == module.arena_view(),
            module.type_view().len() == arena@.exprs.len(),
            id.0 < arena@.exprs.len(),
        ensures
            match emit_expr(arena@, module.type_view(), id.0 as nat, old(chunk)@.consts.len()) {
                Ok((b, c)) => r is Ok && final(chunk)@ == (ChunkView {
                    bytes: old(chunk)@.bytes + b,
                    lines: old(chunk)@.lines + no_lines(b.len()),
                    consts: old(chunk)@.consts + c,
                }),
                Err(x) => r == Err::<(), Error>(x),
            },
            appended(old(chunk)@, final(chunk)@),
        decreases id.0,
    {
        let ghost a = arena@;
        let ghost types = module.type_view();
        let ghost pool = chunk@.consts.len();
        proof {
            lemma_appended_trans(old(chunk)@, old(chunk)@, old(chunk)@);
            if let Ok((b, c)) = emit_expr(a, types, id.0 as nat, pool) {
                lemma_appended_concat(old(chunk)@, b, no_lines(b.len()), c);
            }
        }
        assert(expr_children_before(a.exprs[id.0 as int], id.0 as int));
        match arena.get_expression(id) {
            Expression::Int64(i) => {
                let res = chunk.add_int64(*i, NO_LINE);
                Self::finish_const(res, Ghost(Value::Int64(*i)), Ghost(old(chunk)@), Ghost(chunk@))
            },
            Expression::Uint64(u) => {
                let res = chunk.add_uint64(*u, NO_LINE);
                Self::finish_const(res, Ghost(Value::Uint64(*u)), Ghost(old(chunk)@), Ghost(chunk@))
            },
            Expression::Float64(f) => {
                let res = chunk.add_float64(*f, NO_LINE);
                Self::finish_const(res, Ghost(Value::Float64(*f)), Ghost(old(chunk)@), Ghost(chunk@))
            },
            Expression::Unit => {
                let res = chunk.add_const(Value::Unit, NO_LINE);
                Self::finish_const(res, Ghost(Value::Unit), Ghost(old(chunk)@), Ghost(chunk@))
            },
            Expression::Bool(b) => {
                let op = if *b { OpCode::True } else { OpCode::False };
                chunk.add_instruction(op, NO_LINE);
                proof {
                    assert(chunk@.bytes =~= old(chunk)@.bytes + seq![opcode_byte(op)]);
                    assert(chunk@.lines =~= old(chunk)@.lines + no_lines(1));
                    assert(chunk@.consts =~= old(chunk)@.consts + seq![]);
                }
                Ok(())
            },
            Expression::Infix { op, lhs, rhs } => {
                if let Err(e) = self.compile_expr(arena, module, chunk, *lhs) {
                    return Err(e);
                }
                let ghost mid = chunk@;
                let res = self.compile_expr(arena, module, chunk, *rhs);
                proof {
                    lemma_appended_trans(old(chunk)@, mid, chunk@);
                }
                if let Err(e) = res {
                    return Err(e);
                }
                let lty = match module.get_type(*lhs) {
                    Some(t) => t,
                    None => return Err(Error::MissingType(*lhs)),
                };
                let rty = match module.get_type(*rhs) {
                    Some(t) => t,
                    None => return Err(Error::MissingType(*rhs)),
                };
                match select_infix(*op, lty, rty) {
                    Some(code) => {
                        chunk.add_instruction(code, NO_LINE);
                        proof {
                            let (b1, c1) = emit_expr(a, types, lhs.0 as nat, pool)->Ok_0;
                            let (b2, c2) = emit_expr(a, types, rhs.0 as nat, pool + c1.len())->Ok_0;
                            assert(chunk@.bytes =~= old(chunk)@.bytes + (b1 + b2 + seq![opcode_byte(code)]));
                            assert(chunk@.consts =~= old(chunk)@.consts + (c1 + c2));
                            assert(chunk@.lines =~= old(chunk)@.lines + no_lines((b1 + b2 + seq![opcode_byte(code)]).len()));
                        }
                        Ok(())
                    },
                    None => Err(Error::UnsupportedInfix(*op, lty, rty)),
                }
            },
            Expression::Prefix { op, exp } => {
                if let Err(e) = self.compile_expr(arena, module, chunk, *exp) {
                    return Err(e);
                }
                let ty = match module.get_type(id) {
                    Some(t) => t,
                    None => return Err(Error::MissingType(id)),
                };
                match (op, ty) {
                    (Prefix::Plus, _) => Err(Error::PrefixPlus),
                    (Prefix::Minus, Type::Int64) => {
                        let res = chunk.add_int64(-1, NO_LINE);
                        if res.is_err() {
                            return Err(Error::TooManyConstants);
                        }
                        chunk.add_instruction(OpCode::I64Mul, NO_LINE);
                        proof {
                            let (b1, c1) = emit_expr(a, types, exp.0 as nat, pool)->Ok_0;
                            let (b2, c2) = emit_const(Value::Int64(-1i64), pool + c1.len())->Ok_0;
                            assert(chunk@.bytes =~= old(chunk)@.bytes + (b1 + b2 + seq![opcode_byte(OpCode::I64Mul)]));
                            assert(chunk@.consts =~= old(chunk)@.consts + (c1 + c2));
                            assert(chunk@.lines =~= old(chunk)@.lines + no_lines((b1 + b2 + seq![opcode_byte(OpCode::I64Mul)]).len()));
                        }
                        Ok(())
                    },
                    (Prefix::Minus, Type::Float64) => {
                        let res = chunk.add_float64(F64_MINUS_ONE_BITS, NO_LINE);
                        if res.is_err() {
                            return Err(Error::TooManyConstants);
                        }
                        chunk.add_instruction(OpCode::F64Mul, NO_LINE);
                        proof {
                            let (b1, c1) = emit_expr(a, types, exp.0 as nat, pool)->Ok_0;
                            let (b2, c2) = emit_const(Value::Float64(F64_MINUS_ONE_BITS), pool + c1.len())->Ok_0;
                            assert(chunk@.bytes =~= old(chunk)@.bytes + (b1 + b2 + seq![opcode_byte(OpCode::F64Mul)]));
                            assert(chunk@.consts =~= old(chunk)@.consts + (c1 + c2));
                            assert(chunk@.lines =~= old(chunk)@.lines + no_lines((b1 + b2 + seq![opcode_byte(OpCode::F64Mul)]).len()));
                        }
                        Ok(())
                    },
                    (Prefix::Negate, Type::Bool) => {
                        chunk.add_instruction(OpCode::BoolNot, NO_LINE);
                        proof {
                            let (b1, c1) = emit_expr(a, types, exp.0 as nat, pool)->Ok_0;
                            assert(chunk@.bytes =~= old(chunk)@.bytes + (b1 + seq![opcode_byte(OpCode::BoolNot)]));
                            assert(chunk@.consts =~= old(chunk)@.consts + c1);
                            assert(chunk@.lines =~= old(chunk)@.lines + no_lines((b1 + seq![opcode_byte(OpCode::BoolNot)]).len()));
                        }
                        Ok(())
                    },
                    _ => Err(Error::UnsupportedPrefix(*op, ty)),
                }
            },
        }
    }

    /// Maps the outcome of adding a literal constant to the outcome of
    /// compiling the literal.
    fn finish_const(res: Result<u16, EncodingError>, v: Ghost<Value>, before: Ghost<ChunkView>, after: Ghost<ChunkView>) -> (r: Result<(), Error>)
        requires
            before@.consts.len() < MAX_CONSTANTS <==> res is Ok,
            match res {
                Ok(idx) => idx == before@.consts.len() && after@ == (ChunkView {
                    bytes: before@.bytes + seq![opcode_byte(OpCode::Const)] + encode_u16(idx),
                    lines: before@.lines + seq![NO_LINE, NO_LINE, NO_LINE],
                    consts: before@.consts.push(v@),
                }),
                Err(_) => true,
            },
        ensures
            match emit_const(v@, before@.consts.len()) {
                Ok((b, c)) => r is Ok && after@ == (ChunkView {
                    bytes: before@.bytes + b,
                    lines: before@.lines + no_lines(b.len()),
                    consts: before@.consts + c,
                }),
                Err(x) => r == Err::<(), Error>(x),
            },
    {
        match res {
            Ok(_) => {
                proof {
                    assert(after@.bytes =~= before@.bytes + (seq![opcode_byte(OpCode::Const)] + encode_u16(res->Ok_0)));
                    assert(after@.lines =~= before@.lines + no_lines(3));
                    assert(after@.consts =~= before@.consts + seq![v@]);
                }
                Ok(())
            },
            Err(_) => Err(Error::TooManyConstants),
        }
    }
}

/// A block whose first `j` statements fail to compile fails with the same error.
proof fn lemma_block_error_persists(
    a: ArenaView,
    types: Seq<Option<Type>>,
    parent: nat,
    ss: Seq<StmtId>,
    keep: bool,
    pool: nat,
    j: int,
)
    requires
        0 <= j < ss.len(),
        emit_block(a, types, parent, ss.take(j), false, pool) is Err,
    ensures
        emit_block(a, types, parent, ss, keep, pool) == emit_block(a, types, parent, ss.take(j), false, pool),
    decreases ss.len(),
{
    if j == ss.len() - 1 {
        assert(ss.drop_last() =~= ss.take(j));
    } else {
        assert(ss.drop_last().take(j) =~= ss.take(j));
        lemma_block_error_persists(a, types, parent, ss.drop_last(), false, pool, j);
    }
}

} // verus!
