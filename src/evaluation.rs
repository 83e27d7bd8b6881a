//! Direct evaluation of expressions, and the proof that running compiled
//! code gives what direct evaluation gives.

use vstd::prelude::*;

use crate::chunk::{encode_u16, lemma_code_fits, lemma_index_round_trip, MAX_CONSTANTS};
use crate::codegen::{compiled_from, emit_expr, infix_opcode};
use crate::grammar::{expr_children_before, ArenaView, Expression};
use crate::opcode::{lemma_opcode_round_trip, opcode_byte, OpCode};
use crate::program::Program;
use crate::semantic::{Infix, Prefix, Type};
use crate::typechecker::{expr_reaches, lemma_reach_bound, resolve_expr, resolve_stmt, type_map, type_of};
use crate::value::Value;
use crate::vm::{initial_state, run_from, step, value_type, with_ip, CallFrame, Error, Exec, Step, VmState};

verus! {

/// Whether the tree of expression `e` holds integer and boolean literals only.
pub open spec fn integral(a: ArenaView, e: nat) -> bool
    decreases e,
{
    e < a.exprs.len() && match a.exprs[e as int] {
        Expression::Int64(_) | Expression::Uint64(_) | Expression::Bool(_) => true,
        Expression::Float64(_) | Expression::Unit => false,
        Expression::Infix { lhs, rhs, .. } => lhs.0 < e && rhs.0 < e && integral(a, lhs.0 as nat)
            && integral(a, rhs.0 as nat),
        Expression::Prefix { exp, .. } => exp.0 < e && integral(a, exp.0 as nat),
    }
}

pub open spec fn checked_int64(r: Option<i64>) -> Result<Value, Error> {
    match r {
        Some(v) => Ok(Value::Int64(v)),
        None => Err(Error::ArithmeticOverflow),
    }
}

pub open spec fn checked_uint64(r: Option<u64>) -> Result<Value, Error> {
    match r {
        Some(v) => Ok(Value::Uint64(v)),
        None => Err(Error::ArithmeticOverflow),
    }
}

/// `l op r` in the native arithmetic of the operands' type: a result that
/// does not fit, or a division by zero, is an error.
pub open spec fn native_infix(op: Infix, l: Value, r: Value) -> Result<Value, Error> {
    match (l, r) {
        (Value::Int64(x), Value::Int64(y)) => match op {
            Infix::Plus => checked_int64(x.checked_add(y)),
            Infix::Minus => checked_int64(x.checked_sub(y)),
            Infix::Mul => checked_int64(x.checked_mul(y)),
            Infix::Div => if y == 0 {
                Err(Error::DivisionByZero)
            } else {
                checked_int64(x.checked_div(y))
            },
            Infix::Equal => Ok(Value::Bool(x == y)),
            Infix::NotEqual => Ok(Value::Bool(x != y)),
            Infix::Less => Ok(Value::Bool(x < y)),
            Infix::LessEqual => Ok(Value::Bool(x <= y)),
            Infix::Greater => Ok(Value::Bool(x > y)),
            Infix::GreaterEqual => Ok(Value::Bool(x >= y)),
        },
        (Value::Uint64(x), Value::Uint64(y)) => match op {
            Infix::Plus => checked_uint64(x.checked_add(y)),
            Infix::Minus => checked_uint64(x.checked_sub(y)),
            Infix::Mul => checked_uint64(x.checked_mul(y)),
            Infix::Div => if y == 0 {
                Err(Error::DivisionByZero)
            } else {
                Ok(Value::Uint64(x / y))
            },
            Infix::Equal => Ok(Value::Bool(x == y)),
            Infix::NotEqual => Ok(Value::Bool(x != y)),
            Infix::Less => Ok(Value::Bool(x < y)),
            Infix::LessEqual => Ok(Value::Bool(x <= y)),
            Infix::Greater => Ok(Value::Bool(x > y)),
            Infix::GreaterEqual => Ok(Value::Bool(x >= y)),
        },
        _ => Err(Error::TypeMismatch(value_type(l))),
    }
}

/// `op v` in native arithmetic: negation of the least `Int64` does not fit.
pub open spec fn native_prefix(op: Prefix, v: Value) -> Result<Value, Error> {
    match (op, v) {
        (Prefix::Minus, Value::Int64(x)) => if x == i64::MIN {
            Err(Error::ArithmeticOverflow)
        } else {
            Ok(Value::Int64((-x) as i64))
        },
        (Prefix::Negate, Value::Bool(b)) => Ok(Value::Bool(!b)),
        _ => Err(Error::TypeMismatch(value_type(v))),
    }
}

/// The value of expression `e`, computed directly from the tree, operands
/// left to right.
pub open spec fn eval(a: ArenaView, e: nat) -> Result<Value, Error>
    decreases e,
{
    if e < a.exprs.len() {
        match a.exprs[e as int] {
            Expression::Int64(i) => Ok(Value::Int64(i)),
            Expression::Uint64(u) => Ok(Value::Uint64(u)),
            Expression::Float64(f) => Ok(Value::Float64(f)),
            Expression::Bool(b) => Ok(Value::Bool(b)),
            Expression::Unit => Ok(Value::Unit),
            Expression::Infix { op, lhs, rhs } => if lhs.0 < e && rhs.0 < e {
                match eval(a, lhs.0 as nat) {
                    Err(x) => Err(x),
                    Ok(l) => match eval(a, rhs.0 as nat) {
                        Err(x) => Err(x),
                        Ok(r) => native_infix(op, l, r),
                    },
                }
            } else {
                Err(Error::InvalidOpCode)
            },
            Expression::Prefix { op, exp } => if exp.0 < e {
                match eval(a, exp.0 as nat) {
                    Err(x) => Err(x),
                    Ok(v) => native_prefix(op, v),
                }
            } else {
                Err(Error::InvalidOpCode)
            },
        }
    } else {
        Err(Error::InvalidOpCode)
    }
}

/// The number of machine steps that the code of an integral expression takes.
pub open spec fn steps_of(a: ArenaView, e: nat) -> nat
    decreases e,
{
    if e < a.exprs.len() {
        match a.exprs[e as int] {
            Expression::Infix { lhs, rhs, .. } => if lhs.0 < e && rhs.0 < e {
                steps_of(a, lhs.0 as nat) + steps_of(a, rhs.0 as nat) + 1
            } else {
                0
            },
            Expression::Prefix { op, exp } => if exp.0 < e {
                steps_of(a, exp.0 as nat) + if op == Prefix::Minus { 2nat } else { 1nat }
            } else {
                0
            },
            _ => 1,
        }
    } else {
        0
    }
}

/// The state after `n` steps that each finish their instruction, if none stops the run.
pub open spec fn run_n(p: Program, s: VmState, n: nat) -> Option<VmState>
    decreases n,
{
    if n == 0 {
        Some(s)
    } else {
        match step(p, s) {
            Step::Continue(t) => run_n(p, t, (n - 1) as nat),
            _ => None,
        }
    }
}

/// The running frame of `s` is about to execute `code`, which loads the
/// constants `consts` from index `pool` of its chunk's pool on.
pub open spec fn code_at(p: Program, s: VmState, code: Seq<u8>, pool: nat, consts: Seq<Value>) -> bool {
    s.frames.len() > 0 && {
        let f = s.frames.last();
        let c = p.functions@[f.function as int].chunk@;
        &&& f.function < p.functions@.len()
        &&& f.ip + code.len() <= c.bytes.len()
        &&& c.bytes.len() <= usize::MAX
        &&& c.bytes.subrange(f.ip as int, f.ip + code.len()) == code
        &&& pool + consts.len() <= c.consts.len()
        &&& c.consts.subrange(pool as int, (pool + consts.len()) as int) == consts
    }
}

/// The resolved types recorded for the tree of `e` are those resolution gives.
pub open spec fn types_agree(a: ArenaView, types: Seq<Option<Type>>, e: nat) -> bool {
    forall|i: nat| #[trigger] expr_reaches(a, e, i) ==> i < types.len() && types[i as int] == type_of(a, i)
}

proof fn lemma_run_n_compose(p: Program, s: VmState, n1: nat, n2: nat)
    requires
        run_n(p, s, n1) is Some,
    ensures
        run_n(p, s, n1 + n2) == run_n(p, run_n(p, s, n1)->Some_0, n2),
    decreases n1,
{
    if n1 > 0 {
        if let Step::Continue(t) = step(p, s) {
            lemma_run_n_compose(p, t, (n1 - 1) as nat, n2);
            assert((n1 + n2 - 1) as nat == (n1 - 1) as nat + n2);
        }
    }
}

proof fn lemma_run_from_after(p: Program, s: VmState, n: nat, fuel: nat)
    requires
        run_n(p, s, n) is Some,
        fuel >= n,
    ensures
        run_from(p, s, fuel) == run_from(p, run_n(p, s, n)->Some_0, (fuel - n) as nat),
    decreases n,
{
    if n > 0 {
        if let Step::Continue(t) = step(p, s) {
            lemma_run_from_after(p, t, (n - 1) as nat, (fuel - 1) as nat);
        }
    }
}

proof fn lemma_with_ip_twice(frames: Seq<CallFrame>, x: int, y: int)
    requires
        frames.len() > 0,
    ensures
        with_ip(with_ip(frames, x), y) == with_ip(frames, y),
        with_ip(frames, x).len() == frames.len(),
        with_ip(frames, x).last().function == frames.last().function,
        with_ip(frames, x).last().ip == x as usize,
{
    assert(with_ip(with_ip(frames, x), y) =~= with_ip(frames, y));
}

/// The value of a well-typed integral expression has its resolved type.
pub proof fn lemma_eval_type(a: ArenaView, e: nat)
    requires
        a.wf(),
        integral(a, e),
        resolve_expr(a, e) is Ok,
        eval(a, e) is Ok,
    ensures
        value_type(eval(a, e)->Ok_0) == resolve_expr(a, e)->Ok_0,
        resolve_expr(a, e)->Ok_0 != Type::Float64,
        resolve_expr(a, e)->Ok_0 != Type::Unit,
    decreases e,
{
    match a.exprs[e as int] {
        Expression::Infix { op, lhs, rhs } => {
            lemma_eval_type(a, lhs.0 as nat);
            lemma_eval_type(a, rhs.0 as nat);
        },
        Expression::Prefix { op, exp } => {
            lemma_eval_type(a, exp.0 as nat);
        },
        _ => {},
    }
}

proof fn lemma_one_step(p: Program, s: VmState, t: VmState)
    requires
        step(p, s) == Step::Continue(t),
    ensures
        run_n(p, s, 1) == Some(t),
{
    assert(run_n(p, t, 0) == Some(t));
}

/// The bytes of `code` at its place in the running chunk, and the constants
/// of `consts` at theirs.
proof fn lemma_code_at_parts(p: Program, s: VmState, code: Seq<u8>, pool: nat, consts: Seq<Value>, k: int)
    requires
        code_at(p, s, code, pool, consts),
        0 <= k < code.len(),
    ensures
        p.functions@[s.frames.last().function as int].chunk@.bytes[s.frames.last().ip + k] == code[k],
        forall|j: int|
            0 <= j < consts.len() ==> p.functions@[s.frames.last().function as int].chunk@.consts[pool + j]
                == #[trigger] consts[j],
{
    let f = s.frames.last();
    let c = p.functions@[f.function as int].chunk@;
    assert(c.bytes.subrange(f.ip as int, f.ip + code.len())[k] == c.bytes[f.ip + k]);
    assert forall|j: int| 0 <= j < consts.len() implies c.consts[pool + j] == #[trigger] consts[j] by {
        assert(c.consts.subrange(pool as int, (pool + consts.len()) as int)[j] == c.consts[pool + j]);
    }
}

/// Splits the placement of `b1 + b2` into that of `b1` and, after it, `b2`.
proof fn lemma_code_at_split(
    p: Program,
    s: VmState,
    b1: Seq<u8>,
    b2: Seq<u8>,
    pool: nat,
    c1: Seq<Value>,
    c2: Seq<Value>,
    t: VmState,
)
    requires
        code_at(p, s, b1 + b2, pool, c1 + c2),
        t.frames == with_ip(s.frames, s.frames.last().ip + b1.len()),
    ensures
        code_at(p, s, b1, pool, c1),
        code_at(p, t, b2, pool + c1.len(), c2),
{
    let f = s.frames.last();
    let c = p.functions@[f.function as int].chunk@;
    let b = b1 + b2;
    let cs = c1 + c2;
    lemma_with_ip_twice(s.frames, f.ip + b1.len(), 0);
    assert(c.bytes.subrange(f.ip as int, f.ip + b1.len()) =~= c.bytes.subrange(f.ip as int, f.ip + b.len()).subrange(0, b1.len() as int));
    assert(b.subrange(0, b1.len() as int) =~= b1);
    assert(c.bytes.subrange(f.ip + b1.len(), f.ip + b1.len() + b2.len()) =~= c.bytes.subrange(f.ip as int, f.ip + b.len()).subrange(b1.len() as int, b.len() as int));
    assert(b.subrange(b1.len() as int, b.len() as int) =~= b2);
    assert(c.consts.subrange(pool as int, (pool + c1.len()) as int) =~= c.consts.subrange(pool as int, (pool + cs.len()) as int).subrange(0, c1.len() as int));
    assert(cs.subrange(0, c1.len() as int) =~= c1);
    assert(c.consts.subrange((pool + c1.len()) as int, (pool + c1.len() + c2.len()) as int) =~= c.consts.subrange(pool as int, (pool + cs.len()) as int).subrange(c1.len() as int, cs.len() as int));
    assert(cs.subrange(c1.len() as int, cs.len() as int) =~= c2);
}

/// A step on a `Const` instruction whose operand is `pool`.
proof fn lemma_const_step(p: Program, s: VmState, v: Value, pool: nat)
    requires
        pool < MAX_CONSTANTS,
        code_at(p, s, seq![opcode_byte(OpCode::Const)] + encode_u16(pool as u16), pool, seq![v]),
    ensures
        step(p, s) == Step::Continue(VmState {
            frames: with_ip(s.frames, s.frames.last().ip + 3),
            stack: s.stack.push(v),
        }),
{
    let code = seq![opcode_byte(OpCode::Const)] + encode_u16(pool as u16);
    lemma_code_at_parts(p, s, code, pool, seq![v], 0);
    lemma_code_at_parts(p, s, code, pool, seq![v], 1);
    lemma_code_at_parts(p, s, code, pool, seq![v], 2);
    lemma_opcode_round_trip(OpCode::Const, 0);
    lemma_index_round_trip(pool as u16);
    assert(seq![v][0] == v);
}

/// A step on a one-byte instruction.
proof fn lemma_simple_step(p: Program, s: VmState, op: OpCode, pool: nat)
    requires
        code_at(p, s, seq![opcode_byte(op)], pool, seq![]),
    ensures
        s.frames.len() > 0,
        p.functions@[s.frames.last().function as int].chunk@.bytes[s.frames.last().ip as int] == opcode_byte(op),
        crate::opcode::opcode_of(opcode_byte(op)) == Some(op),
{
    lemma_code_at_parts(p, s, seq![opcode_byte(op)], pool, seq![], 0);
    lemma_opcode_round_trip(op, 0);
}

/// The code generated for a well-typed integral expression whose value
/// can be computed runs, in `steps_of` steps, to the state that has the
/// value pushed and the instruction pointer past the code.
#[verifier::spinoff_prover]
#[verifier::rlimit(100)]
pub proof fn lemma_code_runs(p: Program, a: ArenaView, types: Seq<Option<Type>>, e: nat, pool: nat, s: VmState)
    requires
        a.wf(),
        integral(a, e),
        types_agree(a, types, e),
        resolve_expr(a, e) is Ok,
        eval(a, e) is Ok,
        emit_expr(a, types, e, pool) is Ok,
        code_at(p, s, emit_expr(a, types, e, pool)->Ok_0.0, pool, emit_expr(a, types, e, pool)->Ok_0.1),
    ensures
        run_n(p, s, steps_of(a, e)) == Some(VmState {
            frames: with_ip(s.frames, s.frames.last().ip + emit_expr(a, types, e, pool)->Ok_0.0.len()),
            stack: s.stack.push(eval(a, e)->Ok_0),
        }),
    decreases e,
{
    let (b, c) = emit_expr(a, types, e, pool)->Ok_0;
    let v = eval(a, e)->Ok_0;
    let f = s.frames.last();
    assert(expr_children_before(a.exprs[e as int], e as int));
    match a.exprs[e as int] {
        Expression::Int64(i) => {
            lemma_const_step(p, s, Value::Int64(i), pool);
            lemma_one_step(p, s, VmState { frames: with_ip(s.frames, f.ip + 3), stack: s.stack.push(v) });
        },
        Expression::Uint64(u) => {
            lemma_const_step(p, s, Value::Uint64(u), pool);
            lemma_one_step(p, s, VmState { frames: with_ip(s.frames, f.ip + 3), stack: s.stack.push(v) });
        },
        Expression::Bool(bv) => {
            let op = if bv { OpCode::True } else { OpCode::False };
            lemma_simple_step(p, s, op, pool);
            lemma_one_step(p, s, VmState { frames: with_ip(s.frames, f.ip + 1), stack: s.stack.push(v) });
        },
        Expression::Infix { op, lhs, rhs } => {
            let (b1, c1) = emit_expr(a, types, lhs.0 as nat, pool)->Ok_0;
            let (b2, c2) = emit_expr(a, types, rhs.0 as nat, pool + c1.len())->Ok_0;
            assert(expr_reaches(a, lhs.0 as nat, lhs.0 as nat));
            assert(expr_reaches(a, rhs.0 as nat, rhs.0 as nat));
            assert(expr_reaches(a, e, lhs.0 as nat));
            assert(expr_reaches(a, e, rhs.0 as nat));
            assert forall|i: nat| #[trigger] expr_reaches(a, lhs.0 as nat, i) implies i < types.len()
                && types[i as int] == type_of(a, i) by {
                assert(expr_reaches(a, e, i));
            }
            assert forall|i: nat| #[trigger] expr_reaches(a, rhs.0 as nat, i) implies i < types.len()
                && types[i as int] == type_of(a, i) by {
                assert(expr_reaches(a, e, i));
            }
            let lt = resolve_expr(a, lhs.0 as nat)->Ok_0;
            let rt = resolve_expr(a, rhs.0 as nat)->Ok_0;
            lemma_eval_type(a, lhs.0 as nat);
            lemma_eval_type(a, rhs.0 as nat);
            let code = infix_opcode(op, lt, rt)->Some_0;
            let lv = eval(a, lhs.0 as nat)->Ok_0;
            let rv = eval(a, rhs.0 as nat)->Ok_0;
            assert(b == b1 + (b2 + seq![opcode_byte(code)]));
            assert(c == c1 + (c2 + seq![]));
            let s1 = VmState { frames: with_ip(s.frames, f.ip + b1.len()), stack: s.stack.push(lv) };
            lemma_code_at_split(p, s, b1, b2 + seq![opcode_byte(code)], pool, c1, c2 + seq![], s1);
            lemma_code_runs(p, a, types, lhs.0 as nat, pool, s);
            lemma_with_ip_twice(s.frames, f.ip + b1.len(), f.ip + b1.len() + b2.len());
            let s2 = VmState { frames: with_ip(s.frames, f.ip + b1.len() + b2.len()), stack: s1.stack.push(rv) };
            lemma_code_at_split(p, s1, b2, seq![opcode_byte(code)], pool + c1.len(), c2, seq![], s2);
            assert(c2 + seq![] =~= c2);
            lemma_code_runs(p, a, types, rhs.0 as nat, pool + c1.len(), s1);
            lemma_simple_step(p, s2, code, pool + c1.len() + c2.len());
            lemma_with_ip_twice(s.frames, f.ip + b1.len() + b2.len(), f.ip + b.len());
            assert(s2.stack.drop_last().drop_last() =~= s.stack);
            assert(s2.stack.last() == rv);
            assert(s2.stack.drop_last().last() == lv);
            let s3 = VmState { frames: with_ip(s.frames, f.ip + b.len()), stack: s.stack.push(v) };
            assert(step(p, s2) == Step::Continue(s3));
            lemma_one_step(p, s2, s3);
            lemma_run_n_compose(p, s, steps_of(a, lhs.0 as nat), steps_of(a, rhs.0 as nat));
            lemma_run_n_compose(p, s, steps_of(a, lhs.0 as nat) + steps_of(a, rhs.0 as nat), 1);
        },
        Expression::Prefix { op, exp } => {
            let (b1, c1) = emit_expr(a, types, exp.0 as nat, pool)->Ok_0;
            assert(expr_reaches(a, exp.0 as nat, exp.0 as nat));
            assert(expr_reaches(a, e, exp.0 as nat));
            assert(expr_reaches(a, e, e));
            assert forall|i: nat| #[trigger] expr_reaches(a, exp.0 as nat, i) implies i < types.len()
                && types[i as int] == type_of(a, i) by {
                assert(expr_reaches(a, e, i));
            }
            lemma_eval_type(a, exp.0 as nat);
            let xv = eval(a, exp.0 as nat)->Ok_0;
            let s1 = VmState { frames: with_ip(s.frames, f.ip + b1.len()), stack: s.stack.push(xv) };
            if op == Prefix::Minus {
                let (b2, c2) = emit_expr_const_minus_one(pool + c1.len());
                let tail = b2 + seq![opcode_byte(OpCode::I64Mul)];
                assert(b == b1 + tail);
                assert(c == c1 + c2);
                lemma_code_at_split(p, s, b1, tail, pool, c1, c2, s1);
                lemma_code_runs(p, a, types, exp.0 as nat, pool, s);
                let s2 = VmState { frames: with_ip(s.frames, f.ip + b1.len() + 3), stack: s1.stack.push(Value::Int64(-1i64)) };
                lemma_with_ip_twice(s.frames, f.ip + b1.len(), f.ip + b1.len() + 3);
                lemma_code_at_split(p, s1, b2, seq![opcode_byte(OpCode::I64Mul)], pool + c1.len(), c2, seq![], s2);
                assert(c2 + seq![] =~= c2);
                lemma_const_step(p, s1, Value::Int64(-1i64), pool + c1.len());
                lemma_one_step(p, s1, s2);
                lemma_simple_step(p, s2, OpCode::I64Mul, pool + c1.len() + c2.len());
                lemma_with_ip_twice(s.frames, f.ip + b1.len() + 3, f.ip + b.len());
                assert(s2.stack.drop_last().drop_last() =~= s.stack);
                assert(s2.stack.last() == Value::Int64(-1i64));
                assert(s2.stack.drop_last().last() == xv);
                let s3 = VmState { frames: with_ip(s.frames, f.ip + b.len()), stack: s.stack.push(v) };
                assert(step(p, s2) == Step::Continue(s3));
                lemma_one_step(p, s2, s3);
                lemma_run_n_compose(p, s, steps_of(a, exp.0 as nat), 1);
                lemma_run_n_compose(p, s, steps_of(a, exp.0 as nat) + 1, 1);
            } else {
                let tail = seq![opcode_byte(OpCode::BoolNot)];
                assert(b == b1 + tail);
                assert(c =~= c1 + seq![]);
                lemma_code_at_split(p, s, b1, tail, pool, c1, seq![], s1);
                lemma_code_runs(p, a, types, exp.0 as nat, pool, s);
                lemma_simple_step(p, s1, OpCode::BoolNot, pool + c1.len());
                lemma_with_ip_twice(s.frames, f.ip + b1.len(), f.ip + b.len());
                assert(s1.stack.drop_last() =~= s.stack);
                let s3 = VmState { frames: with_ip(s.frames, f.ip + b.len()), stack: s.stack.push(v) };
                assert(step(p, s1) == Step::Continue(s3));
                lemma_one_step(p, s1, s3);
                lemma_run_n_compose(p, s, steps_of(a, exp.0 as nat), 1);
            }
        },
        _ => {},
    }
}

/// The number of steps after which the code of an integral expression whose
/// evaluation fails reaches the failing instruction.
pub open spec fn fail_steps(a: ArenaView, e: nat) -> nat
    decreases e,
{
    if e < a.exprs.len() {
        match a.exprs[e as int] {
            Expression::Infix { lhs, rhs, .. } => if lhs.0 < e && rhs.0 < e {
                if eval(a, lhs.0 as nat) is Err {
                    fail_steps(a, lhs.0 as nat)
                } else if eval(a, rhs.0 as nat) is Err {
                    steps_of(a, lhs.0 as nat) + fail_steps(a, rhs.0 as nat)
                } else {
                    steps_of(a, lhs.0 as nat) + steps_of(a, rhs.0 as nat)
                }
            } else {
                0
            },
            Expression::Prefix { exp, .. } => if exp.0 < e {
                if eval(a, exp.0 as nat) is Err {
                    fail_steps(a, exp.0 as nat)
                } else {
                    steps_of(a, exp.0 as nat) + 1
                }
            } else {
                0
            },
            _ => 0,
        }
    } else {
        0
    }
}

/// The code generated for a well-typed integral expression whose direct
/// evaluation fails runs, in `fail_steps` steps, to an instruction that
/// stops the run with the same error.
#[verifier::spinoff_prover]
#[verifier::rlimit(100)]
pub proof fn lemma_code_fails(p: Program, a: ArenaView, types: Seq<Option<Type>>, e: nat, pool: nat, s: VmState)
    requires
        a.wf(),
        integral(a, e),
        types_agree(a, types, e),
        resolve_expr(a, e) is Ok,
        eval(a, e) is Err,
        emit_expr(a, types, e, pool) is Ok,
        code_at(p, s, emit_expr(a, types, e, pool)->Ok_0.0, pool, emit_expr(a, types, e, pool)->Ok_0.1),
    ensures
        run_n(p, s, fail_steps(a, e)) is Some,
        step(p, run_n(p, s, fail_steps(a, e))->Some_0) == Step::Halt(Err(eval(a, e)->Err_0)),
        fail_steps(a, e) <= steps_of(a, e),
    decreases e,
{
    let (b, c) = emit_expr(a, types, e, pool)->Ok_0;
    let f = s.frames.last();
    assert(expr_children_before(a.exprs[e as int], e as int));
    match a.exprs[e as int] {
        Expression::Infix { op, lhs, rhs } => {
            let (b1, c1) = emit_expr(a, types, lhs.0 as nat, pool)->Ok_0;
            let (b2, c2) = emit_expr(a, types, rhs.0 as nat, pool + c1.len())->Ok_0;
            assert(expr_reaches(a, lhs.0 as nat, lhs.0 as nat));
            assert(expr_reaches(a, rhs.0 as nat, rhs.0 as nat));
            assert(expr_reaches(a, e, lhs.0 as nat));
            assert(expr_reaches(a, e, rhs.0 as nat));
            assert forall|i: nat| #[trigger] expr_reaches(a, lhs.0 as nat, i) implies i < types.len()
                && types[i as int] == type_of(a, i) by {
                assert(expr_reaches(a, e, i));
            }
            assert forall|i: nat| #[trigger] expr_reaches(a, rhs.0 as nat, i) implies i < types.len()
                && types[i as int] == type_of(a, i) by {
                assert(expr_reaches(a, e, i));
            }
            let lt = resolve_expr(a, lhs.0 as nat)->Ok_0;
            let rt = resolve_expr(a, rhs.0 as nat)->Ok_0;
            let code = infix_opcode(op, lt, rt)->Some_0;
            assert(b == b1 + (b2 + seq![opcode_byte(code)]));
            assert(c == c1 + (c2 + seq![]));
            if eval(a, lhs.0 as nat) is Err {
                let s1 = VmState { frames: with_ip(s.frames, f.ip + b1.len()), stack: s.stack };
                lemma_code_at_split(p, s, b1, b2 + seq![opcode_byte(code)], pool, c1, c2 + seq![], s1);
                lemma_code_fails(p, a, types, lhs.0 as nat, pool, s);
            } else {
                lemma_eval_type(a, lhs.0 as nat);
                let lv = eval(a, lhs.0 as nat)->Ok_0;
                let s1 = VmState { frames: with_ip(s.frames, f.ip + b1.len()), stack: s.stack.push(lv) };
                lemma_code_at_split(p, s, b1, b2 + seq![opcode_byte(code)], pool, c1, c2 + seq![], s1);
                lemma_code_runs(p, a, types, lhs.0 as nat, pool, s);
                lemma_with_ip_twice(s.frames, f.ip + b1.len(), f.ip + b1.len() + b2.len());
                if eval(a, rhs.0 as nat) is Err {
                    let s2 = VmState { frames: with_ip(s.frames, f.ip + b1.len() + b2.len()), stack: s1.stack };
                    lemma_code_at_split(p, s1, b2, seq![opcode_byte(code)], pool + c1.len(), c2, seq![], s2);
                    assert(c2 + seq![] =~= c2);
                    lemma_code_fails(p, a, types, rhs.0 as nat, pool + c1.len(), s1);
                    lemma_run_n_compose(p, s, steps_of(a, lhs.0 as nat), fail_steps(a, rhs.0 as nat));
                } else {
                    lemma_eval_type(a, rhs.0 as nat);
                    let rv = eval(a, rhs.0 as nat)->Ok_0;
                    let s2 = VmState { frames: with_ip(s.frames, f.ip + b1.len() + b2.len()), stack: s1.stack.push(rv) };
                    lemma_code_at_split(p, s1, b2, seq![opcode_byte(code)], pool + c1.len(), c2, seq![], s2);
                    assert(c2 + seq![] =~= c2);
                    lemma_code_runs(p, a, types, rhs.0 as nat, pool + c1.len(), s1);
                    lemma_simple_step(p, s2, code, pool + c1.len() + c2.len());
                    assert(s2.stack.last() == rv);
                    assert(s2.stack.drop_last().last() == lv);
                    lemma_run_n_compose(p, s, steps_of(a, lhs.0 as nat), steps_of(a, rhs.0 as nat));
                }
            }
        },
        Expression::Prefix { op, exp } => {
            let (b1, c1) = emit_expr(a, types, exp.0 as nat, pool)->Ok_0;
            assert(expr_reaches(a, exp.0 as nat, exp.0 as nat));
            assert(expr_reaches(a, e, exp.0 as nat));
            assert(expr_reaches(a, e, e));
            assert forall|i: nat| #[trigger] expr_reaches(a, exp.0 as nat, i) implies i < types.len()
                && types[i as int] == type_of(a, i) by {
                assert(expr_reaches(a, e, i));
            }
            if eval(a, exp.0 as nat) is Err {
                let s1 = VmState { frames: with_ip(s.frames, f.ip + b1.len()), stack: s.stack };
                let tail = b.subrange(b1.len() as int, b.len() as int);
                let ctail = c.subrange(c1.len() as int, c.len() as int);
                assert(b =~= b1 + tail);
                assert(c =~= c1 + ctail);
                lemma_code_at_split(p, s, b1, tail, pool, c1, ctail, s1);
                lemma_code_fails(p, a, types, exp.0 as nat, pool, s);
            } else {
                lemma_eval_type(a, exp.0 as nat);
                let xv = eval(a, exp.0 as nat)->Ok_0;
                let s1 = VmState { frames: with_ip(s.frames, f.ip + b1.len()), stack: s.stack.push(xv) };
                let (b2, c2) = emit_expr_const_minus_one(pool + c1.len());
                let tail = b2 + seq![opcode_byte(OpCode::I64Mul)];
                assert(b == b1 + tail);
                assert(c == c1 + c2);
                lemma_code_at_split(p, s, b1, tail, pool, c1, c2, s1);
                lemma_code_runs(p, a, types, exp.0 as nat, pool, s);
                let s2 = VmState { frames: with_ip(s.frames, f.ip + b1.len() + 3), stack: s1.stack.push(Value::Int64(-1i64)) };
                lemma_with_ip_twice(s.frames, f.ip + b1.len(), f.ip + b1.len() + 3);
                lemma_code_at_split(p, s1, b2, seq![opcode_byte(OpCode::I64Mul)], pool + c1.len(), c2, seq![], s2);
                assert(c2 + seq![] =~= c2);
                lemma_const_step(p, s1, Value::Int64(-1i64), pool + c1.len());
                lemma_one_step(p, s1, s2);
                lemma_simple_step(p, s2, OpCode::I64Mul, pool + c1.len() + c2.len());
                assert(s2.stack.last() == Value::Int64(-1i64));
                assert(s2.stack.drop_last().last() == xv);
                lemma_run_n_compose(p, s, steps_of(a, exp.0 as nat), 1);
            }
        },
        _ => {},
    }
}

spec fn emit_expr_const_minus_one(pool: nat) -> (Seq<u8>, Seq<Value>) {
    (seq![opcode_byte(OpCode::Const)] + encode_u16(pool as u16), seq![Value::Int64(-1i64)])
}

/// The code of an expression takes no more steps than it has bytes.
proof fn lemma_steps_bounded(a: ArenaView, types: Seq<Option<Type>>, e: nat, pool: nat)
    requires
        a.wf(),
        emit_expr(a, types, e, pool) is Ok,
    ensures
        steps_of(a, e) <= emit_expr(a, types, e, pool)->Ok_0.0.len(),
    decreases e,
{
    if e < a.exprs.len() {
        assert(expr_children_before(a.exprs[e as int], e as int));
        match a.exprs[e as int] {
            Expression::Infix { lhs, rhs, .. } => {
                let (b1, c1) = emit_expr(a, types, lhs.0 as nat, pool)->Ok_0;
                lemma_steps_bounded(a, types, lhs.0 as nat, pool);
                lemma_steps_bounded(a, types, rhs.0 as nat, pool + c1.len());
            },
            Expression::Prefix { exp, .. } => {
                lemma_steps_bounded(a, types, exp.0 as nat, pool);
            },
            _ => {},
        }
    }
}

/// Compiling a well-typed expression built from integer and boolean
/// literals and the arithmetic, comparison and negation operators, and
/// running the program on the machine, gives what evaluating the expression
/// directly in the native arithmetic of its type gives: the same value, or
/// the same error where that arithmetic fails (overflow, division by zero).
///
/// `program` is any program with what `compile` promises for a syntax unit
/// of arena `a`; `Vm::run` and `Vm::run_value` run it with a budget of
/// `u64::MAX` steps. Its code is no longer than an allocation can be.
pub proof fn lemma_compiled_run_matches_evaluation(a: ArenaView, program: Program)
    requires
        a.wf(),
        a.stmts[a.root.0 as int] is Expression,
        integral(a, a.stmts[a.root.0 as int]->Expression_0.0 as nat),
        resolve_stmt(a, a.root.0 as nat) is Ok,
        compiled_from(a, type_map(a), program),
        program.functions@[0].chunk@.bytes.len() <= isize::MAX,
    ensures
        run_from(program, initial_state(program), u64::MAX as nat).0 == match eval(
            a,
            a.stmts[a.root.0 as int]->Expression_0.0 as nat,
        ) {
            Ok(v) => Exec::Finished(v),
            Err(x) => Exec::Failed(x),
        },
        eval(a, a.stmts[a.root.0 as int]->Expression_0.0 as nat) is Ok ==> value_type(
            eval(a, a.stmts[a.root.0 as int]->Expression_0.0 as nat)->Ok_0,
        ) == resolve_expr(a, a.stmts[a.root.0 as int]->Expression_0.0 as nat)->Ok_0,
{
    let types = type_map(a);
    let root = a.root.0 as nat;
    let e = a.stmts[root as int]->Expression_0.0 as nat;
    let (b, c) = emit_expr(a, types, e, 0)->Ok_0;
    let s0 = initial_state(program);
    let chunk = program.functions@[0].chunk;
    assert(crate::grammar::stmt_refs_in(a.stmts[root as int], a.exprs.len()));
    assert(resolve_expr(a, e) is Ok);
    assert forall|i: nat| #[trigger] expr_reaches(a, e, i) implies i < types.len() && types[i as int]
        == type_of(a, i) by {
        lemma_reach_bound(a, e, i);
        assert(crate::typechecker::stmt_reaches(a, root, i));
    }
    lemma_code_fits(chunk);
    assert(chunk@.bytes.subrange(0, b.len() as int) =~= b);
    assert(chunk@.consts.subrange(0, c.len() as int) =~= c);
    lemma_steps_bounded(a, types, e, 0);
    assert(isize::MAX < u64::MAX - 2);
    if eval(a, e) is Ok {
        lemma_eval_type(a, e);
        let v = eval(a, e)->Ok_0;
        lemma_code_runs(program, a, types, e, 0, s0);
        let n = steps_of(a, e);
        let s1 = VmState { frames: with_ip(s0.frames, b.len() as int), stack: s0.stack.push(v) };
        lemma_run_from_after(program, s0, n, u64::MAX as nat);
        lemma_opcode_round_trip(OpCode::Return, 0);
        let s2 = VmState { frames: s1.frames.drop_last(), stack: s1.stack };
        assert(s1.frames.drop_last() =~= seq![]);
        assert(step(program, s1) == Step::Continue(s2));
        assert(step(program, s2) == Step::Halt(Ok::<Value, Error>(v)));
        let rest = (u64::MAX - n) as nat;
        assert(run_from(program, s1, rest) == run_from(program, s2, (rest - 1) as nat));
        assert(run_from(program, s2, (rest - 1) as nat).0 == Exec::Finished(v));
    } else {
        lemma_code_fails(program, a, types, e, 0, s0);
        let n = fail_steps(a, e);
        lemma_run_from_after(program, s0, n, u64::MAX as nat);
        let s1 = run_n(program, s0, n)->Some_0;
        let rest = (u64::MAX - n) as nat;
        assert(run_from(program, s1, rest).0 == Exec::Failed(eval(a, e)->Err_0));
    }
}

} // verus!
