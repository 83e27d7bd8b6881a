//! The virtual machine: one step at a time over a stack of call frames and
//! a shared operand stack. Floating-point instructions are handed to the host.

use vstd::prelude::*;

use crate::chunk::{decode_u16, Chunk};
use crate::opcode::{opcode_of, OpCode};
use crate::program::Program;
use crate::semantic::Type;
use crate::value::Value;

verus! {

/// Why a run of the virtual machine stopped without a result.
#[derive(Debug, Clone, Copy, PartialEq, Eq, Structural)]
pub enum Error {
    /// A value was popped from an empty stack.
    StackUnderflow,
    /// A popped value does not have the type the instruction needs.
    TypeMismatch(Type),
    /// A global variable that was never defined was read.
    GlobalNotDefined(u16),
    /// The instruction pointer left the chunk, or an operand runs past its end.
    InvalidJumpTarget,
    /// A byte that is no instruction, or an instruction the machine does not run.
    InvalidOpCode,
    /// A constant index past the end of the constant pool.
    UndefinedConstant(u16),
    /// A function index past the end of the program's function table.
    UndefinedFunction(usize),
    /// Integer division by zero.
    DivisionByZero,
    /// An integer result that does not fit its type.
    ArithmeticOverflow,
    /// A floating-point instruction, which only a host can carry out
    /// (see `Vm::run_steps`).
    NeedsHost(OpCode),
    /// The step budget ran out.
    BudgetExhausted,
}

/// Execution state of one function invocation: which function of the
/// program, the offset of the next byte to read in its chunk, and where its
/// window of the shared operand stack begins.
#[derive(Debug, Clone, Copy, PartialEq, Eq, Structural)]
pub struct CallFrame {
    pub function: usize,
    pub ip: usize,
    pub stack_base: usize,
}

/// The state of the machine, for specifications: the frame stack (the last
/// frame runs) and the operand stack (the last value is the top).
pub struct VmState {
    pub frames: Seq<CallFrame>,
    pub stack: Seq<Value>,
}

/// What one step of the machine does.
pub enum Step {
    /// The step is done; the machine is in the new state.
    Continue(VmState),
    /// A floating-point instruction popped its operands (bit patterns of the
    /// left and right operand); the host pushes its result.
    Float(OpCode, u64, u64, VmState),
    /// The run is over, with the program's result or an error.
    Halt(Result<Value, Error>),
}

/// How a bounded run of the machine ended.
#[derive(Debug, Clone, Copy, PartialEq, Eq, Structural)]
pub enum Exec {
    /// The last frame returned and this value was left on the stack.
    Finished(Value),
    /// The run stopped on an error.
    Failed(Error),
    /// A floating-point instruction waits for the host: the instruction and
    /// the bit patterns of its left and right operands. The host computes the
    /// result, hands it to `Vm::complete_float`, and runs on.
    Float(OpCode, u64, u64),
    /// The step budget ran out before the run was over.
    OutOfBudget,
}

pub open spec fn value_type(v: Value) -> Type {
    match v {
        Value::Int64(_) => Type::Int64,
        Value::Uint64(_) => Type::Uint64,
        Value::Float64(_) => Type::Float64,
        Value::Bool(_) => Type::Bool,
        Value::Unit => Type::Unit,
    }
}

/// Pops one value of type `t`: the value and the rest of the stack.
pub open spec fn pop_typed(stack: Seq<Value>, t: Type) -> Result<(Value, Seq<Value>), Error> {
    if stack.len() == 0 {
        Err(Error::StackUnderflow)
    } else if value_type(stack.last()) != t {
        Err(Error::TypeMismatch(t))
    } else {
        Ok((stack.last(), stack.drop_last()))
    }
}

/// Pops the right operand, then the left one, both of type `t`: the left
/// operand, the right operand and the rest of the stack.
pub open spec fn pop_operands(stack: Seq<Value>, t: Type) -> Result<(Value, Value, Seq<Value>), Error> {
    match pop_typed(stack, t) {
        Err(e) => Err(e),
        Ok((rhs, rest)) => match pop_typed(rest, t) {
            Err(e) => Err(e),
            Ok((lhs, rest2)) => Ok((lhs, rhs, rest2)),
        },
    }
}

pub open spec fn is_int64_op(op: OpCode) -> bool {
    match op {
        OpCode::I64Add | OpCode::I64Sub | OpCode::I64Mul | OpCode::I64Div | OpCode::I64Equal
        | OpCode::I64NotEqual | OpCode::I64Less | OpCode::I64LessEqual | OpCode::I64Greater
        | OpCode::I64GreaterEqual => true,
        _ => false,
    }
}

pub open spec fn is_uint64_op(op: OpCode) -> bool {
    match op {
        OpCode::U64Add | OpCode::U64Sub | OpCode::U64Mul | OpCode::U64Div | OpCode::U64Equal
        | OpCode::U64NotEqual | OpCode::U64Less | OpCode::U64LessEqual | OpCode::U64Greater
        | OpCode::U64GreaterEqual => true,
        _ => false,
    }
}

pub open spec fn is_float64_op(op: OpCode) -> bool {
    match op {
        OpCode::F64Add | OpCode::F64Sub | OpCode::F64Mul | OpCode::F64Div | OpCode::F64Equal
        | OpCode::F64NotEqual | OpCode::F64Less | OpCode::F64LessEqual | OpCode::F64Greater
        | OpCode::F64GreaterEqual => true,
        _ => false,
    }
}

/// The result of a signed integer instruction on its operands: arithmetic
/// that does not fit, or division by zero, is an error.
pub open spec fn int64_result(op: OpCode, l: i64, r: i64) -> Result<Value, Error> {
    match op {
        OpCode::I64Add => match l.checked_add(r) {
            Some(v) => Ok(Value::Int64(v)),
            None => Err(Error::ArithmeticOverflow),
        },
        OpCode::I64Sub => match l.checked_sub(r) {
            Some(v) => Ok(Value::Int64(v)),
            None => Err(Error::ArithmeticOverflow),
        },
        OpCode::I64Mul => match l.checked_mul(r) {
            Some(v) => Ok(Value::Int64(v)),
            None => Err(Error::ArithmeticOverflow),
        },
        OpCode::I64Div => if r == 0 {
            Err(Error::DivisionByZero)
        } else {
            match l.checked_div(r) {
                Some(v) => Ok(Value::Int64(v)),
                None => Err(Error::ArithmeticOverflow),
            }
        },
        OpCode::I64Equal => Ok(Value::Bool(l == r)),
        OpCode::I64NotEqual => Ok(Value::Bool(l != r)),
        OpCode::I64Less => Ok(Value::Bool(l < r)),
        OpCode::I64LessEqual => Ok(Value::Bool(l <= r)),
        OpCode::I64Greater => Ok(Value::Bool(l > r)),
        _ => Ok(Value::Bool(l >= r)),
    }
}

/// The result of an unsigned integer instruction on its operands.
pub open spec fn uint64_result(op: OpCode, l: u64, r: u64) -> Result<Value, Error> {
    match op {
        OpCode::U64Add => match l.checked_add(r) {
            Some(v) => Ok(Value::Uint64(v)),
            None => Err(Error::ArithmeticOverflow),
        },
        OpCode::U64Sub => match l.checked_sub(r) {
            Some(v) => Ok(Value::Uint64(v)),
            None => Err(Error::ArithmeticOverflow),
        },
        OpCode::U64Mul => match l.checked_mul(r) {
            Some(v) => Ok(Value::Uint64(v)),
            None => Err(Error::ArithmeticOverflow),
        },
        OpCode::U64Div => if r == 0 {
            Err(Error::DivisionByZero)
        } else {
            Ok(Value::Uint64(l / r))
        },
        OpCode::U64Equal => Ok(Value::Bool(l == r)),
        OpCode::U64NotEqual => Ok(Value::Bool(l != r)),
        OpCode::U64Less => Ok(Value::Bool(l < r)),
        OpCode::U64LessEqual => Ok(Value::Bool(l <= r)),
        OpCode::U64Greater => Ok(Value::Bool(l > r)),
        _ => Ok(Value::Bool(l >= r)),
    }
}

/// The result of the instruction `op` on two operands of its type.
pub open spec fn binary_result(op: OpCode, lhs: Value, rhs: Value) -> Result<Value, Error> {
    match (lhs, rhs) {
        (Value::Int64(l), Value::Int64(r)) => int64_result(op, l, r),
        (Value::Uint64(l), Value::Uint64(r)) => uint64_result(op, l, r),
        _ => Err(Error::InvalidOpCode),
    }
}

/// The frame stack with the running frame's instruction pointer set to `ip`.
pub open spec fn with_ip(frames: Seq<CallFrame>, ip: int) -> Seq<CallFrame> {
    frames.update(frames.len() - 1, CallFrame { ip: ip as usize, ..frames.last() })
}

/// One step of the machine on program `p`. With no frame left, the run is
/// over and its result is the top of the stack. Otherwise the running
/// frame's next instruction is decoded and carried out.
pub open spec fn step(p: Program, s: VmState) -> Step {
    if s.frames.len() == 0 {
        if s.stack.len() == 0 {
            Step::Halt(Err(Error::StackUnderflow))
        } else {
            Step::Halt(Ok(s.stack.last()))
        }
    } else {
        let f = s.frames.last();
        if f.function >= p.functions@.len() {
            Step::Halt(Err(Error::UndefinedFunction(f.function)))
        } else {
            let c = p.functions@[f.function as int].chunk@;
            if f.ip >= c.bytes.len() {
                Step::Halt(Err(Error::InvalidJumpTarget))
            } else {
                match opcode_of(c.bytes[f.ip as int]) {
                    None => Step::Halt(Err(Error::InvalidOpCode)),
                    Some(op) => {
                        let ip = f.ip + 1;
                        let next = with_ip(s.frames, ip);
                        if op == OpCode::Const || op == OpCode::Call {
                            if ip + 1 >= c.bytes.len() {
                                Step::Halt(Err(Error::InvalidJumpTarget))
                            } else {
                                let idx = decode_u16(c.bytes[ip], c.bytes[ip + 1]);
                                let after = with_ip(s.frames, ip + 2);
                                if op == OpCode::Const {
                                    if idx >= c.consts.len() {
                                        Step::Halt(Err(Error::UndefinedConstant(idx)))
                                    } else {
                                        Step::Continue(
                                            VmState { frames: after, stack: s.stack.push(c.consts[idx as int]) },
                                        )
                                    }
                                } else if idx >= p.functions@.len() {
                                    Step::Halt(Err(Error::UndefinedFunction(idx as usize)))
                                } else if s.stack.len() < p.functions@[idx as int].arity {
                                    Step::Halt(Err(Error::StackUnderflow))
                                } else {
                                    let frame = CallFrame {
                                        function: idx as usize,
                                        ip: 0,
                                        stack_base: (s.stack.len() - p.functions@[idx as int].arity) as usize,
                                    };
                                    Step::Continue(VmState { frames: after.push(frame), stack: s.stack })
                                }
                            }
                        } else if op == OpCode::True || op == OpCode::False {
                            Step::Continue(
                                VmState { frames: next, stack: s.stack.push(Value::Bool(op == OpCode::True)) },
                            )
                        } else if is_int64_op(op) || is_uint64_op(op) {
                            let t = if is_int64_op(op) { Type::Int64 } else { Type::Uint64 };
                            match pop_operands(s.stack, t) {
                                Err(e) => Step::Halt(Err(e)),
                                Ok((lhs, rhs, rest)) => match binary_result(op, lhs, rhs) {
                                    Err(e) => Step::Halt(Err(e)),
                                    Ok(v) => Step::Continue(VmState { frames: next, stack: rest.push(v) }),
                                },
                            }
                        } else if is_float64_op(op) {
                            match pop_operands(s.stack, Type::Float64) {
                                Err(e) => Step::Halt(Err(e)),
                                Ok((lhs, rhs, rest)) => Step::Float(
                                    op,
                                    lhs->Float64_0,
                                    rhs->Float64_0,
                                    VmState { frames: next, stack: rest },
                                ),
                            }
                        } else if op == OpCode::BoolNot {
                            match pop_typed(s.stack, Type::Bool) {
                                Err(e) => Step::Halt(Err(e)),
                                Ok((v, rest)) => Step::Continue(
                                    VmState { frames: next, stack: rest.push(Value::Bool(!(v->Bool_0))) },
                                ),
                            }
                        } else if op == OpCode::Pop {
                            if s.stack.len() == 0 {
                                Step::Halt(Err(Error::StackUnderflow))
                            } else {
                                Step::Continue(VmState { frames: next, stack: s.stack.drop_last() })
                            }
                        } else if op == OpCode::Return {
                            Step::Continue(VmState { frames: s.frames.drop_last(), stack: s.stack })
                        } else {
                            Step::Halt(Err(Error::InvalidOpCode))
                        }
                    },
                }
            }
        }
    }
}

/// The outcome of running at most `fuel` steps from state `s`, and the
/// state the machine is left in when it stops for the host or the budget.
pub open spec fn run_from(p: Program, s: VmState, fuel: nat) -> (Exec, VmState)
    decreases fuel,
{
    if fuel == 0 {
        (Exec::OutOfBudget, s)
    } else {
        match step(p, s) {
            Step::Continue(next) => run_from(p, next, (fuel - 1) as nat),
            Step::Float(op, l, r, next) => (Exec::Float(op, l, r), next),
            Step::Halt(Ok(v)) => (Exec::Finished(v), s),
            Step::Halt(Err(e)) => (Exec::Failed(e), s),
        }
    }
}

/// The initial state of a run of `p`: one frame, on the entry function.
pub open spec fn initial_state(p: Program) -> VmState {
    VmState { frames: seq![CallFrame { function: p.entry, ip: 0, stack_base: 0 }], stack: seq![] }
}

impl CallFrame {
    pub fn new(function: usize, stack_base: usize) -> (r: Self)
        ensures
            r == (CallFrame { function, ip: 0, stack_base }),
    {
        CallFrame { function, ip: 0, stack_base }
    }

    /// Reads the instruction at the instruction pointer and advances past it.
    pub fn read_opcode(&mut self, chunk: &Chunk) -> (r: Result<OpCode, Error>)
        ensures
            old(self).ip >= chunk@.bytes.len() ==> r == Err::<OpCode, Error>(Error::InvalidJumpTarget)
                && final(self).ip == old(self).ip,
            old(self).ip < chunk@.bytes.len() ==> final(self).ip == old(self).ip + 1,
            old(self).ip < chunk@.bytes.len() ==> r == match opcode_of(chunk@.bytes[old(self).ip as int]) {
                Some(op) => Ok(op),
                None => Err::<OpCode, Error>(Error::InvalidOpCode),
            },
            final(self).function == old(self).function,
            final(self).stack_base == old(self).stack_base,
    {
        if self.ip >= chunk.len() {
            return Err(Error::InvalidJumpTarget);
        }
        let byte = chunk.get_byte(self.ip);
        self.ip = self.ip + 1;
        match OpCode::from_byte(byte) {
            Some(op) => Ok(op),
            None => Err(Error::InvalidOpCode),
        }
    }

    /// Reads a two-byte operand, high byte first, and advances past it.
    pub fn read_u16(&mut self, chunk: &Chunk) -> (r: Result<u16, Error>)
        ensures
            old(self).ip + 1 >= chunk@.bytes.len() ==> r == Err::<u16, Error>(Error::InvalidJumpTarget)
                && final(self).ip == old(self).ip,
            old(self).ip + 1 < chunk@.bytes.len() ==> final(self).ip == old(self).ip + 2,
            old(self).ip + 1 < chunk@.bytes.len() ==> r == Ok::<u16, Error>(
                decode_u16(chunk@.bytes[old(self).ip as int], chunk@.bytes[old(self).ip + 1]),
            ),
            final(self).function == old(self).function,
            final(self).stack_base == old(self).stack_base,
    {
        if self.ip >= chunk.len() || self.ip + 1 >= chunk.len() {
            return Err(Error::InvalidJumpTarget);
        }
        let hi = chunk.get_byte(self.ip);
        let lo = chunk.get_byte(self.ip + 1);
        self.ip = self.ip + 2;
        Ok((hi as u16) * 256 + (lo as u16))
    }

    /// The constant of `chunk` at `idx`.
    pub fn get_const(&self, chunk: &Chunk, idx: u16) -> (r: Result<Value, Error>)
        ensures
            idx < chunk@.consts.len() ==> r == Ok::<Value, Error>(chunk@.consts[idx as int]),
            idx >= chunk@.consts.len() ==> r == Err::<Value, Error>(Error::UndefinedConstant(idx)),
    {
        if (idx as usize) < chunk.const_count() {
            Ok(chunk.get_const(idx as usize))
        } else {
            Err(Error::UndefinedConstant(idx))
        }
    }
}

/// Whether a step finished the work of the instruction, or the run stopped.
enum Progress {
    Continue,
    Stop(Exec),
}

/// Carries out a signed integer instruction.
fn int64_op(op: OpCode, l: i64, r: i64) -> (res: Result<Value, Error>)
    requires
        is_int64_op(op),
    ensures
        res == int64_result(op, l, r),
{
    match op {
        OpCode::I64Add => match l.checked_add(r) {
            Some(v) => Ok(Value::Int64(v)),
            None => Err(Error::ArithmeticOverflow),
        },
        OpCode::I64Sub => match l.checked_sub(r) {
            Some(v) => Ok(Value::Int64(v)),
            None => Err(Error::ArithmeticOverflow),
        },
        OpCode::I64Mul => match l.checked_mul(r) {
            Some(v) => Ok(Value::Int64(v)),
            None => Err(Error::ArithmeticOverflow),
        },
        OpCode::I64Div => {
            if r == 0 {
                Err(Error::DivisionByZero)
            } else {
                match l.checked_div(r) {
                    Some(v) => Ok(Value::Int64(v)),
                    None => Err(Error::ArithmeticOverflow),
                }
            }
        },
        OpCode::I64Equal => Ok(Value::Bool(l == r)),
        OpCode::I64NotEqual => Ok(Value::Bool(l != r)),
        OpCode::I64Less => Ok(Value::Bool(l < r)),
        OpCode::I64LessEqual => Ok(Value::Bool(l <= r)),
        OpCode::I64Greater => Ok(Value::Bool(l > r)),
        _ => Ok(Value::Bool(l >= r)),
    }
}

/// Carries out an unsigned integer instruction.
fn uint64_op(op: OpCode, l: u64, r: u64) -> (res: Result<Value, Error>)
    requires
        is_uint64_op(op),
    ensures
        res == uint64_result(op, l, r),
{
    match op {
        OpCode::U64Add => match l.checked_add(r) {
            Some(v) => Ok(Value::Uint64(v)),
            None => Err(Error::ArithmeticOverflow),
        },
        OpCode::U64Sub => match l.checked_sub(r) {
            Some(v) => Ok(Value::Uint64(v)),
            None => Err(Error::ArithmeticOverflow),
        },
        OpCode::U64Mul => match l.checked_mul(r) {
            Some(v) => Ok(Value::Uint64(v)),
            None => Err(Error::ArithmeticOverflow),
        },
        OpCode::U64Div => {
            if r == 0 {
                Err(Error::DivisionByZero)
            } else {
                Ok(Value::Uint64(l / r))
            }
        },
        OpCode::U64Equal => Ok(Value::Bool(l == r)),
        OpCode::U64NotEqual => Ok(Value::Bool(l != r)),
        OpCode::U64Less => Ok(Value::Bool(l < r)),
        OpCode::U64LessEqual => Ok(Value::Bool(l <= r)),
        OpCode::U64Greater => Ok(Value::Bool(l > r)),
        _ => Ok(Value::Bool(l >= r)),
    }
}

/// The virtual machine: runs a program through a stack of call frames and
/// one operand stack shared by all frames.
#[derive(Debug)]
pub struct Vm<'p> {
    program: &'p Program,
    frames: Vec<CallFrame>,
    stack: Vec<Value>,
}

impl<'p> Vm<'p> {
    pub closed spec fn program(&self) -> Program {
        *self.program
    }

    pub closed spec fn state(&self) -> VmState {
        VmState { frames: self.frames@, stack: self.stack@ }
    }

    /// A machine ready to run `program` from its entry function.
    pub fn from(program: &'p Program) -> (r: Self)
        ensures
            r.program() == *program,
            r.state() == initial_state(*program),
    {
        let mut frames: Vec<CallFrame> = Vec::new();
        frames.push(CallFrame::new(program.entry, 0));
        let r = Vm { program, frames, stack: Vec::new() };
        proof {
            assert(r.state().frames =~= initial_state(*program).frames);
            assert(r.state().stack =~= initial_state(*program).stack);
        }
        r
    }

    /// The call frames, the running one last; for tracing a run step by step.
    pub fn frames(&self) -> (r: &Vec<CallFrame>)
        ensures
            r@ == self.state().frames,
    {
        &self.frames
    }

    /// The operand stack, its top last; for tracing a run step by step.
    pub fn stack(&self) -> (r: &Vec<Value>)
        ensures
            r@ == self.state().stack,
    {
        &self.stack
    }

    /// Pops the top of the operand stack.
    pub fn pop(&mut self) -> (r: Result<Value, Error>)
        ensures
            final(self).program() == old(self).program(),
            final(self).state().frames == old(self).state().frames,
            old(self).state().stack.len() == 0 ==> r == Err::<Value, Error>(Error::StackUnderflow)
                && final(self).state() == old(self).state(),
            old(self).state().stack.len() > 0 ==> r == Ok::<Value, Error>(old(self).state().stack.last())
                && final(self).state().stack == old(self).state().stack.drop_last(),
    {
        match self.stack.pop() {
            Some(v) => Ok(v),
            None => Err(Error::StackUnderflow),
        }
    }

    /// Pops the top of the operand stack, which must be a `Bool`.
    pub fn pop_bool(&mut self) -> (r: Result<bool, Error>)
        ensures
            final(self).program() == old(self).program(),
            final(self).state().frames == old(self).state().frames,
            match pop_typed(old(self).state().stack, Type::Bool) {
                Ok((v, rest)) => r == Ok::<bool, Error>(v->Bool_0) && final(self).state().stack == rest,
                Err(e) => r == Err::<bool, Error>(e),
            },
            old(self).state().stack.len() == 0 ==> final(self).state() == old(self).state(),
    {
        match self.pop() {
            Ok(Value::Bool(b)) => Ok(b),
            Ok(_) => Err(Error::TypeMismatch(Type::Bool)),
            Err(e) => Err(e),
        }
    }

    /// Pops the top of the operand stack, which must be an `Int64`.
    pub fn pop_int64(&mut self) -> (r: Result<i64, Error>)
        ensures
            final(self).program() == old(self).program(),
            final(self).state().frames == old(self).state().frames,
            match pop_typed(old(self).state().stack, Type::Int64) {
                Ok((v, rest)) => r == Ok::<i64, Error>(v->Int64_0) && final(self).state().stack == rest,
                Err(e) => r == Err::<i64, Error>(e),
            },
            old(self).state().stack.len() == 0 ==> final(self).state() == old(self).state(),
    {
        match self.pop() {
            Ok(Value::Int64(i)) => Ok(i),
            Ok(_) => Err(Error::TypeMismatch(Type::Int64)),
            Err(e) => Err(e),
        }
    }

    /// Pops the top of the operand stack, which must be a `Uint64`.
    pub fn pop_uint64(&mut self) -> (r: Result<u64, Error>)
        ensures
            final(self).program() == old(self).program(),
            final(self).state().frames == old(self).state().frames,
            match pop_typed(old(self).state().stack, Type::Uint64) {
                Ok((v, rest)) => r == Ok::<u64, Error>(v->Uint64_0) && final(self).state().stack == rest,
                Err(e) => r == Err::<u64, Error>(e),
            },
            old(self).state().stack.len() == 0 ==> final(self).state() == old(self).state(),
    {
        match self.pop() {
            Ok(Value::Uint64(u)) => Ok(u),
            Ok(_) => Err(Error::TypeMismatch(Type::Uint64)),
            Err(e) => Err(e),
        }
    }

    /// Pops the top of the operand stack, which must be a `Float64`; gives
    /// its bit pattern.
    pub fn pop_float64(&mut self) -> (r: Result<u64, Error>)
        ensures
            final(self).program() == old(self).program(),
            final(self).state().frames == old(self).state().frames,
            match pop_typed(old(self).state().stack, Type::Float64) {
                Ok((v, rest)) => r == Ok::<u64, Error>(v->Float64_0) && final(self).state().stack == rest,
                Err(e) => r == Err::<u64, Error>(e),
            },
            old(self).state().stack.len() == 0 ==> final(self).state() == old(self).state(),
    {
        match self.pop() {
            Ok(Value::Float64(f)) => Ok(f),
            Ok(_) => Err(Error::TypeMismatch(Type::Float64)),
            Err(e) => Err(e),
        }
    }

    /// Pushes the result of the floating-point instruction that stopped the
    /// last run (see `Exec::Float`).
    pub fn complete_float(&mut self, result: Value)
        ensures
            final(self).program() == old(self).program(),
            final(self).state() == (VmState {
                frames: old(self).state().frames,
                stack: old(self).state().stack.push(result),
            }),
    {
        self.stack.push(result);
    }

    /// Carries out one step (see `step`).
    fn step_once(&mut self) -> (r: Progress)
        ensures
            final(self).program() == old(self).program(),
            match step(old(self).program(), old(self).state()) {
                Step::Continue(next) => r is Continue && final(self).state() == next,
                Step::Float(op, l, rr, next) => r == Progress::Stop(Exec::Float(op, l, rr))
                    && final(self).state() == next,
                Step::Halt(Ok(v)) => r == Progress::Stop(Exec::Finished(v)),
                Step::Halt(Err(e)) => r == Progress::Stop(Exec::Failed(e)),
            },
    {
        if self.frames.len() == 0 {
            return match self.pop() {
                Ok(v) => Progress::Stop(Exec::Finished(v)),
                Err(e) => Progress::Stop(Exec::Failed(e)),
            };
        }
        let last = self.frames.len() - 1;
        let mut frame = self.frames[last];
        if frame.function >= self.program.functions.len() {
            return Progress::Stop(Exec::Failed(Error::UndefinedFunction(frame.function)));
        }
        let program = self.program;
        let chunk = &program.functions[frame.function].chunk;
        let op = match frame.read_opcode(chunk) {
            Ok(op) => op,
            Err(e) => return Progress::Stop(Exec::Failed(e)),
        };
        match op {
            OpCode::Const => {
                let idx = match frame.read_u16(chunk) {
                    Ok(i) => i,
                    Err(e) => return Progress::Stop(Exec::Failed(e)),
                };
                        let v = match frame.get_const(chunk, idx) {
                    Ok(v) => v,
                    Err(e) => return Progress::Stop(Exec::Failed(e)),
                };
                self.frames.set(last, frame);
                self.stack.push(v);
                Progress::Continue
            },
            OpCode::Call => {
                let idx = match frame.read_u16(chunk) {
                    Ok(i) => i,
                    Err(e) => return Progress::Stop(Exec::Failed(e)),
                };
                if idx as usize >= program.functions.len() {
                    return Progress::Stop(Exec::Failed(Error::UndefinedFunction(idx as usize)));
                }
                let arity = program.functions[idx as usize].arity as usize;
                if self.stack.len() < arity {
                    return Progress::Stop(Exec::Failed(Error::StackUnderflow));
                }
                self.frames.set(last, frame);
                self.frames.push(CallFrame::new(idx as usize, self.stack.len() - arity));
                Progress::Continue
            },
            OpCode::True | OpCode::False => {
                self.frames.set(last, frame);
                self.stack.push(Value::Bool(op == OpCode::True));
                Progress::Continue
            },
            OpCode::I64Add | OpCode::I64Sub | OpCode::I64Mul | OpCode::I64Div | OpCode::I64Equal | OpCode::I64NotEqual | OpCode::I64Less | OpCode::I64LessEqual | OpCode::I64Greater | OpCode::I64GreaterEqual => {
                let rhs = match self.pop_int64() {
                    Ok(x) => x,
                    Err(e) => return Progress::Stop(Exec::Failed(e)),
                };
                let lhs = match self.pop_int64() {
                    Ok(x) => x,
                    Err(e) => return Progress::Stop(Exec::Failed(e)),
                };
                let v = match int64_op(op, lhs, rhs) {
                    Ok(v) => v,
                    Err(e) => return Progress::Stop(Exec::Failed(e)),
                };
                self.frames.set(last, frame);
                self.stack.push(v);
                Progress::Continue
            },
            OpCode::U64Add | OpCode::U64Sub | OpCode::U64Mul | OpCode::U64Div | OpCode::U64Equal | OpCode::U64NotEqual | OpCode::U64Less | OpCode::U64LessEqual | OpCode::U64Greater | OpCode::U64GreaterEqual => {
                let rhs = match self.pop_uint64() {
                    Ok(x) => x,
                    Err(e) => return Progress::Stop(Exec::Failed(e)),
                };
                let lhs = match self.pop_uint64() {
                    Ok(x) => x,
                    Err(e) => return Progress::Stop(Exec::Failed(e)),
                };
                let v = match uint64_op(op, lhs, rhs) {
                    Ok(v) => v,
                    Err(e) => return Progress::Stop(Exec::Failed(e)),
                };
                self.frames.set(last, frame);
                self.stack.push(v);
                Progress::Continue
            },
            OpCode::F64Add | OpCode::F64Sub | OpCode::F64Mul | OpCode::F64Div | OpCode::F64Equal | OpCode::F64NotEqual | OpCode::F64Less | OpCode::F64LessEqual | OpCode::F64Greater | OpCode::F64GreaterEqual => {
                let rhs = match self.pop_float64() {
                    Ok(x) => x,
                    Err(e) => return Progress::Stop(Exec::Failed(e)),
                };
                let lhs = match self.pop_float64() {
                    Ok(x) => x,
                    Err(e) => return Progress::Stop(Exec::Failed(e)),
                };
                self.frames.set(last, frame);
                Progress::Stop(Exec::Float(op, lhs, rhs))
            },
            OpCode::BoolNot => {
                let b = match self.pop_bool() {
                    Ok(b) => b,
                    Err(e) => return Progress::Stop(Exec::Failed(e)),
                };
                self.frames.set(last, frame);
                self.stack.push(Value::Bool(!b));
                Progress::Continue
            },
            OpCode::Pop => {
                if let Err(e) = self.pop() {
                    return Progress::Stop(Exec::Failed(e));
                }
                self.frames.set(last, frame);
                Progress::Continue
            },
            OpCode::Return => {
                self.frames.pop();
                Progress::Continue
            },
            _ => Progress::Stop(Exec::Failed(Error::InvalidOpCode)),
        }
    }

    /// Runs at most `budget` steps: until the last frame has returned and
    /// the result is popped, an error, a floating-point instruction that the
    /// host must carry out, or the end of the budget.
    pub fn run_steps(&mut self, budget: u64) -> (r: Exec)
        ensures
            final(self).program() == old(self).program(),
            r == run_from(old(self).program(), old(self).state(), budget as nat).0,
            r is Float || r is OutOfBudget ==> final(self).state() == run_from(
                old(self).program(),
                old(self).state(),
                budget as nat,
            ).1,
    {
        let ghost p = self.program();
        let ghost s0 = self.state();
        let mut remaining = budget;
        while remaining > 0
            invariant
                self.program() == p,
                p == old(self).program(),
                s0 == old(self).state(),
                run_from(p, s0, budget as nat) == run_from(p, self.state(), remaining as nat),
            decreases remaining,
        {
            match self.step_once() {
                Progress::Continue => {
                    remaining = remaining - 1;
                },
                Progress::Stop(e) => {
                    return e;
                },
            }
        }
        Exec::OutOfBudget
    }

    /// Runs the program to its end and gives the value it leaves. Fails on
    /// the first error, on a floating-point instruction (which needs a host:
    /// see `run_steps`), and after `u64::MAX` steps.
    pub fn run_value(&mut self) -> (r: Result<Value, Error>)
        ensures
            r == match run_from(old(self).program(), old(self).state(), u64::MAX as nat).0 {
                Exec::Finished(v) => Ok(v),
                Exec::Failed(e) => Err(e),
                Exec::Float(op, _, _) => Err(Error::NeedsHost(op)),
                Exec::OutOfBudget => Err(Error::BudgetExhausted),
            },
    {
        match self.run_steps(u64::MAX) {
            Exec::Finished(v) => Ok(v),
            Exec::Failed(e) => Err(e),
            Exec::Float(op, _, _) => Err(Error::NeedsHost(op)),
            Exec::OutOfBudget => Err(Error::BudgetExhausted),
        }
    }

    /// Runs the program to its end; its result must be an `Int64`.
    pub fn run(&mut self) -> (r: Result<i64, Error>)
        ensures
            r == match run_from(old(self).program(), old(self).state(), u64::MAX as nat).0 {
                Exec::Finished(Value::Int64(i)) => Ok(i),
                Exec::Finished(_) => Err(Error::TypeMismatch(Type::Int64)),
                Exec::Failed(e) => Err(e),
                Exec::Float(op, _, _) => Err(Error::NeedsHost(op)),
                Exec::OutOfBudget => Err(Error::BudgetExhausted),
            },
    {
        match self.run_value() {
            Ok(Value::Int64(i)) => Ok(i),
            Ok(_) => Err(Error::TypeMismatch(Type::Int64)),
            Err(e) => Err(e),
        }
    }
}

} // verus!
