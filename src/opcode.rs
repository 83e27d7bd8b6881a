//! The instruction set and its fixed one-byte encoding.

use vstd::prelude::*;

verus! {

/// The instructions of the virtual machine. Each is one byte in a chunk;
/// the byte of each instruction is fixed (see `opcode_byte`) so that the
/// compiler, the disassembler and the machine agree on a chunk.
#[derive(Debug, Clone, Copy, PartialEq, Eq, Structural)]
pub enum OpCode {
    Const,
    True,
    False,
    GetLocal,
    SetLocal,
    GetGlobal,
    SetGlobal,
    DefineGlobal,
    Jump,
    JumpIfFalse,
    Loop,
    I64Add,
    I64Sub,
    I64Mul,
    I64Div,
    I64Equal,
    I64NotEqual,
    I64Less,
    I64LessEqual,
    I64Greater,
    I64GreaterEqual,
    U64Add,
    U64Sub,
    U64Mul,
    U64Div,
    U64Equal,
    U64NotEqual,
    U64Less,
    U64LessEqual,
    U64Greater,
    U64GreaterEqual,
    F64Add,
    F64Sub,
    F64Mul,
    F64Div,
    F64Equal,
    F64NotEqual,
    F64Less,
    F64LessEqual,
    F64Greater,
    F64GreaterEqual,
    BoolNot,
    Pop,
    Return,
    Call,
}

/// The byte that encodes each instruction.
pub open spec fn opcode_byte(op: OpCode) -> u8 {
    match op {
        OpCode::Const => 0,
        OpCode::True => 1,
        OpCode::False => 2,
        OpCode::GetLocal => 10,
        OpCode::SetLocal => 11,
        OpCode::GetGlobal => 12,
        OpCode::SetGlobal => 13,
        OpCode::DefineGlobal => 14,
        OpCode::Jump => 20,
        OpCode::JumpIfFalse => 21,
        OpCode::Loop => 22,
        OpCode::I64Add => 30,
        OpCode::I64Sub => 31,
        OpCode::I64Mul => 32,
        OpCode::I64Div => 33,
        OpCode::I64Equal => 34,
        OpCode::I64NotEqual => 35,
        OpCode::I64Less => 36,
        OpCode::I64LessEqual => 37,
        OpCode::I64Greater => 38,
        OpCode::I64GreaterEqual => 39,
        OpCode::U64Add => 40,
        OpCode::U64Sub => 41,
        OpCode::U64Mul => 42,
        OpCode::U64Div => 43,
        OpCode::U64Equal => 44,
        OpCode::U64NotEqual => 45,
        OpCode::U64Less => 46,
        OpCode::U64LessEqual => 47,
        OpCode::U64Greater => 48,
        OpCode::U64GreaterEqual => 49,
        OpCode::F64Add => 50,
        OpCode::F64Sub => 51,
        OpCode::F64Mul => 52,
        OpCode::F64Div => 53,
        OpCode::F64Equal => 54,
        OpCode::F64NotEqual => 55,
        OpCode::F64Less => 56,
        OpCode::F64LessEqual => 57,
        OpCode::F64Greater => 58,
        OpCode::F64GreaterEqual => 59,
        OpCode::BoolNot => 80,
        OpCode::Pop => 90,
        OpCode::Return => 91,
        OpCode::Call => 92,
    }
}

/// The name of each instruction.
pub open spec fn opcode_name(op: OpCode) -> Seq<char> {
    match op {
        OpCode::Const => "Const"@,
        OpCode::True => "True"@,
        OpCode::False => "False"@,
        OpCode::GetLocal => "GetLocal"@,
        OpCode::SetLocal => "SetLocal"@,
        OpCode::GetGlobal => "GetGlobal"@,
        OpCode::SetGlobal => "SetGlobal"@,
        OpCode::DefineGlobal => "DefineGlobal"@,
        OpCode::Jump => "Jump"@,
        OpCode::JumpIfFalse => "JumpIfFalse"@,
        OpCode::Loop => "Loop"@,
        OpCode::I64Add => "I64Add"@,
        OpCode::I64Sub => "I64Sub"@,
        OpCode::I64Mul => "I64Mul"@,
        OpCode::I64Div => "I64Div"@,
        OpCode::I64Equal => "I64Equal"@,
        OpCode::I64NotEqual => "I64NotEqual"@,
        OpCode::I64Less => "I64Less"@,
        OpCode::I64LessEqual => "I64LessEqual"@,
        OpCode::I64Greater => "I64Greater"@,
        OpCode::I64GreaterEqual => "I64GreaterEqual"@,
        OpCode::U64Add => "U64Add"@,
        OpCode::U64Sub => "U64Sub"@,
        OpCode::U64Mul => "U64Mul"@,
        OpCode::U64Div => "U64Div"@,
        OpCode::U64Equal => "U64Equal"@,
        OpCode::U64NotEqual => "U64NotEqual"@,
        OpCode::U64Less => "U64Less"@,
        OpCode::U64LessEqual => "U64LessEqual"@,
        OpCode::U64Greater => "U64Greater"@,
        OpCode::U64GreaterEqual => "U64GreaterEqual"@,
        OpCode::F64Add => "F64Add"@,
        OpCode::F64Sub => "F64Sub"@,
        OpCode::F64Mul => "F64Mul"@,
        OpCode::F64Div => "F64Div"@,
        OpCode::F64Equal => "F64Equal"@,
        OpCode::F64NotEqual => "F64NotEqual"@,
        OpCode::F64Less => "F64Less"@,
        OpCode::F64LessEqual => "F64LessEqual"@,
        OpCode::F64Greater => "F64Greater"@,
        OpCode::F64GreaterEqual => "F64GreaterEqual"@,
        OpCode::BoolNot => "BoolNot"@,
        OpCode::Pop => "Pop"@,
        OpCode::Return => "Return"@,
        OpCode::Call => "Call"@,
    }
}

/// The instruction that a byte encodes, if any.
pub open spec fn opcode_of(byte: u8) -> Option<OpCode> {
    match byte {
        0 => Some(OpCode::Const),
        1 => Some(OpCode::True),
        2 => Some(OpCode::False),
        10 => Some(OpCode::GetLocal),
        11 => Some(OpCode::SetLocal),
        12 => Some(OpCode::GetGlobal),
        13 => Some(OpCode::SetGlobal),
        14 => Some(OpCode::DefineGlobal),
        20 => Some(OpCode::Jump),
        21 => Some(OpCode::JumpIfFalse),
        22 => Some(OpCode::Loop),
        30 => Some(OpCode::I64Add),
        31 => Some(OpCode::I64Sub),
        32 => Some(OpCode::I64Mul),
        33 => Some(OpCode::I64Div),
        34 => Some(OpCode::I64Equal),
        35 => Some(OpCode::I64NotEqual),
        36 => Some(OpCode::I64Less),
        37 => Some(OpCode::I64LessEqual),
        38 => Some(OpCode::I64Greater),
        39 => Some(OpCode::I64GreaterEqual),
        40 => Some(OpCode::U64Add),
        41 => Some(OpCode::U64Sub),
        42 => Some(OpCode::U64Mul),
        43 => Some(OpCode::U64Div),
        44 => Some(OpCode::U64Equal),
        45 => Some(OpCode::U64NotEqual),
        46 => Some(OpCode::U64Less),
        47 => Some(OpCode::U64LessEqual),
        48 => Some(OpCode::U64Greater),
        49 => Some(OpCode::U64GreaterEqual),
        50 => Some(OpCode::F64Add),
        51 => Some(OpCode::F64Sub),
        52 => Some(OpCode::F64Mul),
        53 => Some(OpCode::F64Div),
        54 => Some(OpCode::F64Equal),
        55 => Some(OpCode::F64NotEqual),
        56 => Some(OpCode::F64Less),
        57 => Some(OpCode::F64LessEqual),
        58 => Some(OpCode::F64Greater),
        59 => Some(OpCode::F64GreaterEqual),
        80 => Some(OpCode::BoolNot),
        90 => Some(OpCode::Pop),
        91 => Some(OpCode::Return),
        92 => Some(OpCode::Call),
        _ => None,
    }
}

/// Decoding the byte of an instruction gives the instruction back, and a
/// byte decodes to an instruction only when it is that instruction's byte.
pub proof fn lemma_opcode_round_trip(op: OpCode, byte: u8)
    ensures
        opcode_of(opcode_byte(op)) == Some(op),
        opcode_of(byte) == Some(op) <==> opcode_byte(op) == byte,
{
}

impl OpCode {
    /// The instruction that `byte` encodes, if any.
    pub fn from_byte(byte: u8) -> (r: Option<OpCode>)
        ensures
            r == opcode_of(byte),
    {
        match byte {
            0 => Some(OpCode::Const),
            1 => Some(OpCode::True),
            2 => Some(OpCode::False),
            10 => Some(OpCode::GetLocal),
            11 => Some(OpCode::SetLocal),
            12 => Some(OpCode::GetGlobal),
            13 => Some(OpCode::SetGlobal),
            14 => Some(OpCode::DefineGlobal),
            20 => Some(OpCode::Jump),
            21 => Some(OpCode::JumpIfFalse),
            22 => Some(OpCode::Loop),
            30 => Some(OpCode::I64Add),
            31 => Some(OpCode::I64Sub),
            32 => Some(OpCode::I64Mul),
            33 => Some(OpCode::I64Div),
            34 => Some(OpCode::I64Equal),
            35 => Some(OpCode::I64NotEqual),
            36 => Some(OpCode::I64Less),
            37 => Some(OpCode::I64LessEqual),
            38 => Some(OpCode::I64Greater),
            39 => Some(OpCode::I64GreaterEqual),
            40 => Some(OpCode::U64Add),
            41 => Some(OpCode::U64Sub),
            42 => Some(OpCode::U64Mul),
            43 => Some(OpCode::U64Div),
            44 => Some(OpCode::U64Equal),
            45 => Some(OpCode::U64NotEqual),
            46 => Some(OpCode::U64Less),
            47 => Some(OpCode::U64LessEqual),
            48 => Some(OpCode::U64Greater),
            49 => Some(OpCode::U64GreaterEqual),
            50 => Some(OpCode::F64Add),
            51 => Some(OpCode::F64Sub),
            52 => Some(OpCode::F64Mul),
            53 => Some(OpCode::F64Div),
            54 => Some(OpCode::F64Equal),
            55 => Some(OpCode::F64NotEqual),
            56 => Some(OpCode::F64Less),
            57 => Some(OpCode::F64LessEqual),
            58 => Some(OpCode::F64Greater),
            59 => Some(OpCode::F64GreaterEqual),
            80 => Some(OpCode::BoolNot),
            90 => Some(OpCode::Pop),
            91 => Some(OpCode::Return),
            92 => Some(OpCode::Call),
            _ => None,
        }
    }

    pub fn to_byte(self) -> (r: u8)
        ensures
            r == opcode_byte(self),
    {
        match self {
            OpCode::Const => 0,
            OpCode::True => 1,
            OpCode::False => 2,
            OpCode::GetLocal => 10,
            OpCode::SetLocal => 11,
            OpCode::GetGlobal => 12,
            OpCode::SetGlobal => 13,
            OpCode::DefineGlobal => 14,
            OpCode::Jump => 20,
            OpCode::JumpIfFalse => 21,
            OpCode::Loop => 22,
            OpCode::I64Add => 30,
            OpCode::I64Sub => 31,
            OpCode::I64Mul => 32,
            OpCode::I64Div => 33,
            OpCode::I64Equal => 34,
            OpCode::I64NotEqual => 35,
            OpCode::I64Less => 36,
            OpCode::I64LessEqual => 37,
            OpCode::I64Greater => 38,
            OpCode::I64GreaterEqual => 39,
            OpCode::U64Add => 40,
            OpCode::U64Sub => 41,
            OpCode::U64Mul => 42,
            OpCode::U64Div => 43,
            OpCode::U64Equal => 44,
            OpCode::U64NotEqual => 45,
            OpCode::U64Less => 46,
            OpCode::U64LessEqual => 47,
            OpCode::U64Greater => 48,
            OpCode::U64GreaterEqual => 49,
            OpCode::F64Add => 50,
            OpCode::F64Sub => 51,
            OpCode::F64Mul => 52,
            OpCode::F64Div => 53,
            OpCode::F64Equal => 54,
            OpCode::F64NotEqual => 55,
            OpCode::F64Less => 56,
            OpCode::F64LessEqual => 57,
            OpCode::F64Greater => 58,
            OpCode::F64GreaterEqual => 59,
            OpCode::BoolNot => 80,
            OpCode::Pop => 90,
            OpCode::Return => 91,
            OpCode::Call => 92,
        }
    }

    pub fn name(&self) -> (r: &'static str)
        ensures
            r@ == opcode_name(*self),
    {
        match self {
            OpCode::Const => "Const",
            OpCode::True => "True",
            OpCode::False => "False",
            OpCode::GetLocal => "GetLocal",
            OpCode::SetLocal => "SetLocal",
            OpCode::GetGlobal => "GetGlobal",
            OpCode::SetGlobal => "SetGlobal",
            OpCode::DefineGlobal => "DefineGlobal",
            OpCode::Jump => "Jump",
            OpCode::JumpIfFalse => "JumpIfFalse",
            OpCode::Loop => "Loop",
            OpCode::I64Add => "I64Add",
            OpCode::I64Sub => "I64Sub",
            OpCode::I64Mul => "I64Mul",
            OpCode::I64Div => "I64Div",
            OpCode::I64Equal => "I64Equal",
            OpCode::I64NotEqual => "I64NotEqual",
            OpCode::I64Less => "I64Less",
            OpCode::I64LessEqual => "I64LessEqual",
            OpCode::I64Greater => "I64Greater",
            OpCode::I64GreaterEqual => "I64GreaterEqual",
            OpCode::U64Add => "U64Add",
            OpCode::U64Sub => "U64Sub",
            OpCode::U64Mul => "U64Mul",
            OpCode::U64Div => "U64Div",
            OpCode::U64Equal => "U64Equal",
            OpCode::U64NotEqual => "U64NotEqual",
            OpCode::U64Less => "U64Less",
            OpCode::U64LessEqual => "U64LessEqual",
            OpCode::U64Greater => "U64Greater",
            OpCode::U64GreaterEqual => "U64GreaterEqual",
            OpCode::F64Add => "F64Add",
            OpCode::F64Sub => "F64Sub",
            OpCode::F64Mul => "F64Mul",
            OpCode::F64Div => "F64Div",
            OpCode::F64Equal => "F64Equal",
            OpCode::F64NotEqual => "F64NotEqual",
            OpCode::F64Less => "F64Less",
            OpCode::F64LessEqual => "F64LessEqual",
            OpCode::F64Greater => "F64Greater",
            OpCode::F64GreaterEqual => "F64GreaterEqual",
            OpCode::BoolNot => "BoolNot",
            OpCode::Pop => "Pop",
            OpCode::Return => "Return",
            OpCode::Call => "Call",
        }
    }
}

} // verus!
