use rail::chunk::Chunk;
use rail::opcode::OpCode;
use rail::program::{Function, Program};
use rail::value::Value;
use rail::vm::{CallFrame, Error, Exec, Vm};

fn program_of(chunk: Chunk) -> Program {
    let main_fn = Function {
        name: "main".to_string(),
        chunk,
        arity: 0,
    };
    let mut program = Program::new();
    program.functions.push(main_fn);
    program.entry = 0;
    program
}

#[test]
fn i64_add_two_consts() {
    let mut chunk = Chunk::new();
    chunk.add_int64(4, 0).unwrap();
    chunk.add_int64(7, 0).unwrap();
    chunk.add_instruction(OpCode::I64Add, 0);
    chunk.add_instruction(OpCode::Return, 1);

    let main_fn = Function {
        name: "main".to_string(),
        chunk,
        arity: 0,
    };

    let mut program = Program::new();
    program.functions.push(main_fn);
    program.entry = 0;

    let mut vm = Vm::from(&program);
    let result = vm.run().expect("vm run failed");

    assert_eq!(result, 11);
}

#[test]
fn empty_stack_at_return_underflows() {
    let mut chunk = Chunk::new();
    chunk.add_instruction(OpCode::Return, 0);
    let program = program_of(chunk);
    assert_eq!(Vm::from(&program).run(), Err(Error::StackUnderflow));
}

#[test]
fn operand_of_wrong_type_is_a_mismatch() {
    let mut chunk = Chunk::new();
    chunk.add_int64(1, 0).unwrap();
    chunk.add_float64(2.0f64.to_bits(), 0).unwrap();
    chunk.add_instruction(OpCode::I64Add, 0);
    chunk.add_instruction(OpCode::Return, 0);
    let program = program_of(chunk);
    assert_eq!(
        Vm::from(&program).run(),
        Err(Error::TypeMismatch(rail::semantic::Type::Int64))
    );
}

#[test]
fn reserved_instruction_is_invalid() {
    let mut chunk = Chunk::new();
    chunk.add_instruction(OpCode::GetLocal, 0);
    chunk.add_instruction(OpCode::Return, 0);
    let program = program_of(chunk);
    assert_eq!(Vm::from(&program).run(), Err(Error::InvalidOpCode));
}

#[test]
fn running_off_the_chunk_is_an_invalid_jump() {
    let mut chunk = Chunk::new();
    chunk.add_int64(1, 0).unwrap();
    let program = program_of(chunk);
    assert_eq!(Vm::from(&program).run(), Err(Error::InvalidJumpTarget));
}

#[test]
fn call_to_missing_function_fails() {
    let mut chunk = Chunk::new();
    chunk.add_call(3, 0);
    chunk.add_instruction(OpCode::Return, 0);
    let program = program_of(chunk);
    assert_eq!(Vm::from(&program).run(), Err(Error::UndefinedFunction(3)));
}

#[test]
fn entry_past_the_table_fails() {
    let mut program = program_of(Chunk::new());
    program.entry = 2;
    assert_eq!(Vm::from(&program).run(), Err(Error::UndefinedFunction(2)));
}

#[test]
fn call_runs_the_callee_and_comes_back() {
    let mut main_chunk = Chunk::new();
    main_chunk.add_int64(5, 0).unwrap();
    main_chunk.add_call(1, 0);
    main_chunk.add_int64(2, 0).unwrap();
    main_chunk.add_instruction(OpCode::I64Mul, 0);
    main_chunk.add_instruction(OpCode::Return, 0);
    let mut callee = Chunk::new();
    callee.add_int64(3, 0).unwrap();
    callee.add_instruction(OpCode::I64Add, 0);
    callee.add_instruction(OpCode::Return, 0);
    let mut program = program_of(main_chunk);
    program.functions.push(Function {
        name: "add_three".to_string(),
        chunk: callee,
        arity: 1,
    });
    assert_eq!(Vm::from(&program).run(), Ok(16));
}

#[test]
fn call_without_its_arguments_underflows() {
    let mut main_chunk = Chunk::new();
    main_chunk.add_call(1, 0);
    main_chunk.add_instruction(OpCode::Return, 0);
    let mut program = program_of(main_chunk);
    program.functions.push(Function {
        name: "one_arg".to_string(),
        chunk: Chunk::new(),
        arity: 1,
    });
    assert_eq!(Vm::from(&program).run(), Err(Error::StackUnderflow));
}

#[test]
fn signed_overflow_is_an_error() {
    let mut chunk = Chunk::new();
    chunk.add_int64(i64::MAX, 0).unwrap();
    chunk.add_int64(1, 0).unwrap();
    chunk.add_instruction(OpCode::I64Add, 0);
    chunk.add_instruction(OpCode::Return, 0);
    let program = program_of(chunk);
    assert_eq!(Vm::from(&program).run(), Err(Error::ArithmeticOverflow));
}

#[test]
fn min_divided_by_minus_one_overflows() {
    let mut chunk = Chunk::new();
    chunk.add_int64(i64::MIN, 0).unwrap();
    chunk.add_int64(-1, 0).unwrap();
    chunk.add_instruction(OpCode::I64Div, 0);
    chunk.add_instruction(OpCode::Return, 0);
    let program = program_of(chunk);
    assert_eq!(Vm::from(&program).run(), Err(Error::ArithmeticOverflow));
}

#[test]
fn signed_division_truncates_toward_zero() {
    let mut chunk = Chunk::new();
    chunk.add_int64(-7, 0).unwrap();
    chunk.add_int64(2, 0).unwrap();
    chunk.add_instruction(OpCode::I64Div, 0);
    chunk.add_instruction(OpCode::Return, 0);
    let program = program_of(chunk);
    assert_eq!(Vm::from(&program).run(), Ok(-3));
}

#[test]
fn unsigned_underflow_is_an_error() {
    let mut chunk = Chunk::new();
    chunk.add_uint64(1, 0).unwrap();
    chunk.add_uint64(2, 0).unwrap();
    chunk.add_instruction(OpCode::U64Sub, 0);
    chunk.add_instruction(OpCode::Return, 0);
    let program = program_of(chunk);
    assert_eq!(Vm::from(&program).run_value(), Err(Error::ArithmeticOverflow));
}

#[test]
fn comparisons_push_booleans() {
    let mut chunk = Chunk::new();
    chunk.add_uint64(3, 0).unwrap();
    chunk.add_uint64(9, 0).unwrap();
    chunk.add_instruction(OpCode::U64Less, 0);
    chunk.add_instruction(OpCode::Return, 0);
    let program = program_of(chunk);
    assert_eq!(Vm::from(&program).run_value(), Ok(Value::Bool(true)));
}

#[test]
fn pop_discards_the_top() {
    let mut chunk = Chunk::new();
    chunk.add_int64(1, 0).unwrap();
    chunk.add_int64(2, 0).unwrap();
    chunk.add_instruction(OpCode::Pop, 0);
    chunk.add_instruction(OpCode::Return, 0);
    let program = program_of(chunk);
    assert_eq!(Vm::from(&program).run(), Ok(1));
}

#[test]
fn float_instruction_is_handed_to_the_host() {
    let mut chunk = Chunk::new();
    chunk.add_float64(1.5f64.to_bits(), 0).unwrap();
    chunk.add_float64(2.25f64.to_bits(), 0).unwrap();
    chunk.add_instruction(OpCode::F64Add, 0);
    chunk.add_instruction(OpCode::Return, 0);
    let program = program_of(chunk);
    let mut vm = Vm::from(&program);
    let exec = vm.run_steps(100);
    assert_eq!(
        exec,
        Exec::Float(OpCode::F64Add, 1.5f64.to_bits(), 2.25f64.to_bits())
    );
    vm.complete_float(Value::Float64((1.5f64 + 2.25f64).to_bits()));
    assert_eq!(
        vm.run_steps(100),
        Exec::Finished(Value::Float64(3.75f64.to_bits()))
    );
}

#[test]
fn float_instruction_without_host_fails() {
    let mut chunk = Chunk::new();
    chunk.add_float64(1.0f64.to_bits(), 0).unwrap();
    chunk.add_float64(2.0f64.to_bits(), 0).unwrap();
    chunk.add_instruction(OpCode::F64Less, 0);
    chunk.add_instruction(OpCode::Return, 0);
    let program = program_of(chunk);
    assert_eq!(
        Vm::from(&program).run(),
        Err(Error::NeedsHost(OpCode::F64Less))
    );
}

#[test]
fn budget_runs_out() {
    let mut chunk = Chunk::new();
    chunk.add_int64(1, 0).unwrap();
    chunk.add_int64(2, 0).unwrap();
    chunk.add_instruction(OpCode::I64Add, 0);
    chunk.add_instruction(OpCode::Return, 0);
    let program = program_of(chunk);
    let mut vm = Vm::from(&program);
    assert_eq!(vm.run_steps(2), Exec::OutOfBudget);
    assert_eq!(vm.run_steps(3), Exec::Finished(Value::Int64(3)));
}

#[test]
fn operand_reader_decodes_high_byte_first() {
    let mut chunk = Chunk::new();
    let mut last = 0;
    for i in 0..301 {
        last = chunk.add_int64(i, 0).unwrap();
    }
    assert_eq!(last, 300);
    let offset = 300 * 3;
    assert_eq!(chunk.get_byte(offset), OpCode::Const.to_byte());
    assert_eq!(chunk.get_byte(offset + 1), 1);
    assert_eq!(chunk.get_byte(offset + 2), 44);
    let mut frame = CallFrame::new(0, 0);
    frame.ip = offset;
    assert_eq!(frame.read_opcode(&chunk), Ok(OpCode::Const));
    assert_eq!(frame.read_u16(&chunk), Ok(300));
    assert_eq!(frame.ip, offset + 3);
    assert_eq!(frame.get_const(&chunk, 300), Ok(Value::Int64(300)));
    assert_eq!(frame.get_const(&chunk, 301), Err(Error::UndefinedConstant(301)));
}

#[test]
fn pops_check_the_type_of_the_top() {
    let mut chunk = Chunk::new();
    chunk.add_instruction(OpCode::Return, 0);
    let program = program_of(chunk);
    let mut vm = Vm::from(&program);
    assert_eq!(vm.pop(), Err(Error::StackUnderflow));
    vm.complete_float(Value::Bool(true));
    assert_eq!(vm.pop_int64(), Err(Error::TypeMismatch(rail::semantic::Type::Int64)));
    vm.complete_float(Value::Uint64(4));
    assert_eq!(vm.pop_uint64(), Ok(4));
    vm.complete_float(Value::Float64(7));
    assert_eq!(vm.pop_float64(), Ok(7));
    vm.complete_float(Value::Bool(false));
    assert_eq!(vm.pop_bool(), Ok(false));
}

#[test]
fn single_steps_expose_the_state() {
    let mut chunk = Chunk::new();
    chunk.add_int64(4, 0).unwrap();
    chunk.add_int64(7, 0).unwrap();
    chunk.add_instruction(OpCode::I64Sub, 0);
    chunk.add_instruction(OpCode::Return, 0);
    let program = program_of(chunk);
    let mut vm = Vm::from(&program);
    assert_eq!(vm.frames().len(), 1);
    assert_eq!(vm.frames()[0], CallFrame::new(0, 0));
    assert_eq!(vm.run_steps(1), Exec::OutOfBudget);
    assert_eq!(vm.frames()[0].ip, 3);
    assert_eq!(vm.stack().clone(), vec![Value::Int64(4)]);
    assert_eq!(vm.run_steps(2), Exec::OutOfBudget);
    assert_eq!(vm.stack().clone(), vec![Value::Int64(-3)]);
    assert_eq!(vm.run_steps(1), Exec::OutOfBudget);
    assert!(vm.frames().is_empty());
    assert_eq!(vm.run_steps(1), Exec::Finished(Value::Int64(-3)));
}

#[test]
fn typed_pops_on_an_empty_stack_leave_it_empty() {
    let mut chunk = Chunk::new();
    chunk.add_instruction(OpCode::Return, 0);
    let program = program_of(chunk);
    let mut vm = Vm::from(&program);
    assert_eq!(vm.pop_bool(), Err(Error::StackUnderflow));
    assert_eq!(vm.pop_int64(), Err(Error::StackUnderflow));
    assert_eq!(vm.pop_uint64(), Err(Error::StackUnderflow));
    assert_eq!(vm.pop_float64(), Err(Error::StackUnderflow));
    assert!(vm.stack().is_empty());
    assert_eq!(vm.frames().len(), 1);
}
