use rail::chunk::{Chunk, EncodingError, MAX_CONSTANTS};
use rail::codegen::CodeGen;
use rail::disassembler::disassemble;
use rail::grammar::{Arena, ExprId, Syntax};
use rail::opcode::OpCode;
use rail::program::Program;
use rail::semantic::{Infix, Prefix, ResolveError, Type, TypeEnv};
use rail::typechecker::{Module, Typer};
use rail::value::Value;
use rail::vm::{Error, Exec, Vm};

fn syntax_of(mut arena: Arena, root: ExprId) -> Syntax {
    let stmt = arena.push_expression_statement(root);
    arena.set_root(stmt);
    Syntax { arena }
}

fn check(syntax: Syntax) -> Result<Module, ResolveError> {
    let env = TypeEnv::new();
    let typer = Typer::new(&env);
    typer.check(syntax)
}

fn compile(syntax: Syntax) -> Program {
    let module = check(syntax).expect("type error");
    CodeGen::new().compile(module).expect("codegen error")
}

fn bytes_of(chunk: &Chunk) -> Vec<u8> {
    (0..chunk.len()).map(|i| chunk.get_byte(i)).collect()
}

fn add_4_7() -> Syntax {
    let mut arena = Arena::new();
    let l = arena.make_int64(4);
    let r = arena.make_int64(7);
    let e = arena.make_infix(Infix::Plus, l, r);
    syntax_of(arena, e)
}

#[test]
fn add_compiles_to_two_consts_an_add_and_a_return() {
    let program = compile(add_4_7());
    let chunk = &program.functions[0].chunk;
    let expected = vec![
        OpCode::Const.to_byte(),
        0,
        0,
        OpCode::Const.to_byte(),
        0,
        1,
        OpCode::I64Add.to_byte(),
        OpCode::Return.to_byte(),
    ];
    assert_eq!(bytes_of(chunk), expected);
    assert_eq!(chunk.get_const(0), Value::Int64(4));
    assert_eq!(chunk.get_const(1), Value::Int64(7));
    assert_eq!(program.functions[0].name, "main");
    assert_eq!(program.functions[0].arity, 0);
    assert_eq!(Vm::from(&program).run(), Ok(11));
}

#[test]
fn multiplication_gives_42() {
    let mut arena = Arena::new();
    let l = arena.make_int64(6);
    let r = arena.make_int64(7);
    let e = arena.make_infix(Infix::Mul, l, r);
    let program = compile(syntax_of(arena, e));
    assert_eq!(Vm::from(&program).run(), Ok(42));
}

#[test]
fn negation_multiplies_by_minus_one() {
    let mut arena = Arena::new();
    let five = arena.make_int64(5);
    let e = arena.make_prefix(Prefix::Minus, five);
    let program = compile(syntax_of(arena, e));
    let chunk = &program.functions[0].chunk;
    let expected = vec![
        OpCode::Const.to_byte(),
        0,
        0,
        OpCode::Const.to_byte(),
        0,
        1,
        OpCode::I64Mul.to_byte(),
        OpCode::Return.to_byte(),
    ];
    assert_eq!(bytes_of(chunk), expected);
    assert_eq!(chunk.get_const(0), Value::Int64(5));
    assert_eq!(chunk.get_const(1), Value::Int64(-1));
    assert_eq!(Vm::from(&program).run(), Ok(-5));
}

#[test]
fn not_true_is_false() {
    let mut arena = Arena::new();
    let t = arena.make_bool(true);
    let e = arena.make_prefix(Prefix::Negate, t);
    let program = compile(syntax_of(arena, e));
    let chunk = &program.functions[0].chunk;
    let expected = vec![
        OpCode::True.to_byte(),
        OpCode::BoolNot.to_byte(),
        OpCode::Return.to_byte(),
    ];
    assert_eq!(bytes_of(chunk), expected);
    assert_eq!(Vm::from(&program).run_value(), Ok(Value::Bool(false)));
    assert_eq!(Vm::from(&program).run(), Err(Error::TypeMismatch(Type::Int64)));
}

#[test]
fn unsigned_division_by_zero_is_an_error() {
    let mut arena = Arena::new();
    let l = arena.make_uint64(10);
    let r = arena.make_uint64(0);
    let e = arena.make_infix(Infix::Div, l, r);
    let program = compile(syntax_of(arena, e));
    assert_eq!(Vm::from(&program).run(), Err(Error::DivisionByZero));
}

#[test]
fn grouping_is_already_in_the_tree() {
    let mut arena = Arena::new();
    let one = arena.make_int64(1);
    let two = arena.make_int64(2);
    let sum = arena.make_infix(Infix::Plus, one, two);
    let three = arena.make_int64(3);
    let e = arena.make_infix(Infix::Mul, sum, three);
    let program = compile(syntax_of(arena, e));
    assert_eq!(Vm::from(&program).run(), Ok(9));
}

#[test]
fn int_plus_float_is_rejected_by_resolution() {
    let mut arena = Arena::new();
    let l = arena.make_int64(3);
    let r = arena.make_float64(2.0f64.to_bits());
    let e = arena.make_infix(Infix::Plus, l, r);
    let result = check(syntax_of(arena, e));
    assert_eq!(
        result.err(),
        Some(ResolveError::UnresolvedInfix(Infix::Plus, Type::Int64, Type::Float64))
    );
}

#[test]
fn negating_unsigned_is_rejected() {
    let mut arena = Arena::new();
    let u = arena.make_uint64(3);
    let e = arena.make_prefix(Prefix::Minus, u);
    let result = check(syntax_of(arena, e));
    assert_eq!(
        result.err(),
        Some(ResolveError::UnresolvedPrefix(Prefix::Minus, Type::Uint64))
    );
}

#[test]
fn unary_plus_is_rejected() {
    let mut arena = Arena::new();
    let i = arena.make_int64(3);
    let e = arena.make_prefix(Prefix::Plus, i);
    let result = check(syntax_of(arena, e));
    assert_eq!(
        result.err(),
        Some(ResolveError::UnresolvedPrefix(Prefix::Plus, Type::Int64))
    );
}

#[test]
fn first_error_is_reported() {
    let mut arena = Arena::new();
    let b = arena.make_bool(true);
    let i = arena.make_int64(1);
    let bad_left = arena.make_infix(Infix::Plus, b, i);
    let u = arena.make_uint64(1);
    let bad_right = arena.make_prefix(Prefix::Minus, u);
    let e = arena.make_infix(Infix::Mul, bad_left, bad_right);
    let result = check(syntax_of(arena, e));
    assert_eq!(
        result.err(),
        Some(ResolveError::UnresolvedInfix(Infix::Plus, Type::Bool, Type::Int64))
    );
}

#[test]
fn comparison_resolves_to_bool() {
    let env = TypeEnv::new();
    assert_eq!(env.resolve_infix(Infix::Less, Type::Float64, Type::Float64), Ok(Type::Bool));
    assert_eq!(env.resolve_infix(Infix::Div, Type::Uint64, Type::Uint64), Ok(Type::Uint64));
    assert_eq!(
        env.resolve_infix(Infix::Equal, Type::Bool, Type::Bool),
        Err(ResolveError::UnresolvedInfix(Infix::Equal, Type::Bool, Type::Bool))
    );
    assert_eq!(env.resolve_prefix(Prefix::Negate, Type::Bool), Ok(Type::Bool));
    assert_eq!(
        env.resolve_prefix(Prefix::Minus, Type::Unit),
        Err(ResolveError::UnresolvedPrefix(Prefix::Minus, Type::Unit))
    );
}

fn mixed_tree() -> Syntax {
    let mut arena = Arena::new();
    let unused = arena.make_bool(false);
    let a = arena.make_uint64(8);
    let b = arena.make_uint64(2);
    let q = arena.make_infix(Infix::Div, a, b);
    let c = arena.make_uint64(4);
    let e = arena.make_infix(Infix::GreaterEqual, q, c);
    let _ = unused;
    syntax_of(arena, e)
}

#[test]
fn resolution_twice_gives_the_same_types() {
    let first = check(mixed_tree()).unwrap();
    let second = check(mixed_tree()).unwrap();
    let n = first.arena().expression_count();
    assert_eq!(n, second.arena().expression_count());
    for i in 0..n {
        assert_eq!(first.get_type(ExprId(i)), second.get_type(ExprId(i)));
    }
    assert_eq!(first.get_type(ExprId(0)), None);
    assert_eq!(first.get_type(ExprId(3)), Some(Type::Uint64));
    assert_eq!(first.get_type(ExprId(5)), Some(Type::Bool));
}

#[test]
fn disassembly_twice_is_identical() {
    let first = disassemble(&compile(add_4_7()).functions[0].chunk);
    let second = disassemble(&compile(add_4_7()).functions[0].chunk);
    assert_eq!(first, second);
    assert_eq!(
        first,
        vec![
            "0000 line:0000 - Const 0".to_string(),
            "0003 line:0000 - Const 1".to_string(),
            "0006 line:0000 - I64Add".to_string(),
            "0007 line:0000 - Return".to_string(),
        ]
    );
}

#[test]
fn disassembly_shows_lines_and_call_operands() {
    let mut chunk = Chunk::new();
    chunk.add_instruction(OpCode::True, 12);
    chunk.add_call(258, 3);
    chunk.add_instruction(OpCode::Return, 12345);
    assert_eq!(
        disassemble(&chunk),
        vec![
            "0000 line:0012 - True".to_string(),
            "0001 line:0003 - Call 258".to_string(),
            "0004 line:12345 - Return".to_string(),
        ]
    );
}

#[test]
fn block_discards_all_but_the_last_value() {
    let mut arena = Arena::new();
    let a = arena.make_int64(4);
    let b = arena.make_int64(7);
    let sum = arena.make_infix(Infix::Plus, a, b);
    let first = arena.push_expression_statement(sum);
    let c = arena.make_int64(6);
    let d = arena.make_int64(7);
    let product = arena.make_infix(Infix::Mul, c, d);
    let second = arena.push_expression_statement(product);
    let block = arena.push_block(vec![first, second]);
    arena.set_root(block);
    let program = compile(Syntax { arena });
    let chunk = &program.functions[0].chunk;
    assert_eq!(chunk.get_byte(7), OpCode::Pop.to_byte());
    assert_eq!(chunk.len(), 16);
    assert_eq!(Vm::from(&program).run(), Ok(42));
}

#[test]
fn float_negation_uses_minus_one() {
    let mut arena = Arena::new();
    let x = arena.make_float64(2.5f64.to_bits());
    let e = arena.make_prefix(Prefix::Minus, x);
    let program = compile(syntax_of(arena, e));
    let chunk = &program.functions[0].chunk;
    assert_eq!(chunk.get_const(1), Value::Float64((-1.0f64).to_bits()));
    assert_eq!(chunk.get_byte(6), OpCode::F64Mul.to_byte());
    let mut vm = Vm::from(&program);
    assert_eq!(
        vm.run_steps(10),
        Exec::Float(OpCode::F64Mul, 2.5f64.to_bits(), (-1.0f64).to_bits())
    );
}

#[test]
fn unit_literal_is_a_constant() {
    let mut arena = Arena::new();
    let u = arena.make_unit();
    let program = compile(syntax_of(arena, u));
    assert_eq!(program.functions[0].chunk.get_const(0), Value::Unit);
    assert_eq!(Vm::from(&program).run_value(), Ok(Value::Unit));
}

#[test]
fn constant_pool_is_capped() {
    let mut chunk = Chunk::new();
    for i in 0..MAX_CONSTANTS {
        assert_eq!(chunk.add_bool(i % 2 == 0, 0), Ok(i as u16));
    }
    let len = chunk.len();
    assert_eq!(chunk.add_int64(1, 0), Err(EncodingError::TooManyConstants));
    assert_eq!(chunk.len(), len);
    assert_eq!(chunk.const_count(), MAX_CONSTANTS);
}

#[test]
fn opcode_bytes_round_trip() {
    for b in 0..=255u8 {
        if let Some(op) = OpCode::from_byte(b) {
            assert_eq!(op.to_byte(), b);
        }
    }
    assert_eq!(OpCode::from_byte(30), Some(OpCode::I64Add));
    assert_eq!(OpCode::from_byte(3), None);
    assert_eq!(OpCode::BoolNot.name(), "BoolNot");
}

#[test]
fn mixed_expression_matches_direct_evaluation() {
    // -(2 - 9) * 3 == 21, and (12u64 / 5u64) <= 2u64
    let mut arena = Arena::new();
    let two = arena.make_int64(2);
    let nine = arena.make_int64(9);
    let diff = arena.make_infix(Infix::Minus, two, nine);
    let neg = arena.make_prefix(Prefix::Minus, diff);
    let three = arena.make_int64(3);
    let product = arena.make_infix(Infix::Mul, neg, three);
    let expected = -(2i64 - 9) * 3;
    let program = compile(syntax_of(arena, product));
    assert_eq!(Vm::from(&program).run(), Ok(expected));

    let mut arena = Arena::new();
    let twelve = arena.make_uint64(12);
    let five = arena.make_uint64(5);
    let quotient = arena.make_infix(Infix::Div, twelve, five);
    let two = arena.make_uint64(2);
    let cmp = arena.make_infix(Infix::LessEqual, quotient, two);
    let negated = arena.make_prefix(Prefix::Negate, cmp);
    let program = compile(syntax_of(arena, negated));
    assert_eq!(
        Vm::from(&program).run_value(),
        Ok(Value::Bool(!(12u64 / 5u64 <= 2u64)))
    );
}

#[test]
fn negating_the_least_int_overflows() {
    let mut arena = Arena::new();
    let min = arena.make_int64(i64::MIN);
    let e = arena.make_prefix(Prefix::Minus, min);
    let program = compile(syntax_of(arena, e));
    assert_eq!(Vm::from(&program).run(), Err(Error::ArithmeticOverflow));
}

#[test]
fn codegen_fails_when_the_pool_overflows() {
    let mut arena = Arena::new();
    let mut level: Vec<ExprId> = (0..(MAX_CONSTANTS as i64 + 1))
        .map(|i| arena.make_int64(i))
        .collect();
    while level.len() > 1 {
        let mut next = Vec::new();
        let mut k = 0;
        while k + 1 < level.len() {
            next.push(arena.make_infix(Infix::Plus, level[k], level[k + 1]));
            k += 2;
        }
        if k < level.len() {
            next.push(level[k]);
        }
        level = next;
    }
    let module = check(syntax_of(arena, level[0])).expect("well typed");
    assert_eq!(
        CodeGen::new().compile(module).err(),
        Some(rail::codegen::Error::TooManyConstants)
    );
}

#[test]
fn empty_block_leaves_no_result() {
    let mut arena = Arena::new();
    let block = arena.push_block(Vec::new());
    arena.set_root(block);
    let program = compile(Syntax { arena });
    assert_eq!(program.functions[0].chunk.len(), 1);
    assert_eq!(Vm::from(&program).run(), Err(Error::StackUnderflow));
}

#[test]
fn compile_reports_the_failing_phase() {
    let mut arena = Arena::new();
    let l = arena.make_bool(true);
    let r = arena.make_bool(false);
    let e = arena.make_infix(Infix::Less, l, r);
    assert_eq!(
        rail::codegen::compile(syntax_of(arena, e)).err(),
        Some(rail::codegen::CompileError::Type(ResolveError::UnresolvedInfix(
            Infix::Less,
            Type::Bool,
            Type::Bool
        )))
    );

    let program = rail::codegen::compile(add_4_7()).expect("compiles");
    assert_eq!(Vm::from(&program).run(), Ok(11));
}
