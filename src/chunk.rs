//! Bytecode chunks: instruction bytes, a source line per byte, and a
//! constant pool addressed by two-byte indices.

use vstd::prelude::*;

use crate::opcode::{opcode_byte, OpCode};
use crate::value::Value;

verus! {

/// The largest number of constants a chunk can hold: an index is two bytes.
pub const MAX_CONSTANTS: usize = 65536;

/// The two bytes of a constant or function index, high byte first.
pub open spec fn encode_u16(v: u16) -> Seq<u8> {
    seq![(v / 256) as u8, (v % 256) as u8]
}

/// The index that two operand bytes stand for, high byte first.
pub open spec fn decode_u16(hi: u8, lo: u8) -> u16 {
    (hi * 256 + lo) as u16
}

/// Decoding the two bytes written for an index gives that index back.
pub proof fn lemma_index_round_trip(v: u16)
    ensures
        decode_u16(encode_u16(v)[0], encode_u16(v)[1]) == v,
{
}

/// The operand that `add_const` writes after `Const` decodes, as the
/// machine's operand reader decodes it, to the index that `add_const`
/// returned.
pub proof fn lemma_const_operand_round_trip(before: ChunkView, after: ChunkView, idx: u16)
    requires
        after.bytes == before.bytes + seq![opcode_byte(OpCode::Const)] + encode_u16(idx),
    ensures
        decode_u16(after.bytes[before.bytes.len() as int + 1], after.bytes[before.bytes.len() as int + 2]) == idx,
{
    let n = before.bytes.len() as int;
    assert(after.bytes[n + 1] == encode_u16(idx)[0]);
    assert(after.bytes[n + 2] == encode_u16(idx)[1]);
    lemma_index_round_trip(idx);
}

/// `after` extends `before` at the ends only: its bytes, lines and constants
/// begin with those of `before`, and one line is added per byte added.
pub open spec fn appended(before: ChunkView, after: ChunkView) -> bool {
    &&& before.bytes.len() <= after.bytes.len()
    &&& after.bytes.subrange(0, before.bytes.len() as int) == before.bytes
    &&& before.lines.len() <= after.lines.len()
    &&& after.lines.subrange(0, before.lines.len() as int) == before.lines
    &&& before.consts.len() <= after.consts.len()
    &&& after.consts.subrange(0, before.consts.len() as int) == before.consts
    &&& after.lines.len() - before.lines.len() == after.bytes.len() - before.bytes.len()
}

/// Extending a chunk is reflexive and transitive.
pub proof fn lemma_appended_trans(a: ChunkView, b: ChunkView, c: ChunkView)
    ensures
        appended(a, a),
        appended(a, b) && appended(b, c) ==> appended(a, c),
{
    assert(a.bytes.subrange(0, a.bytes.len() as int) =~= a.bytes);
    assert(a.lines.subrange(0, a.lines.len() as int) =~= a.lines);
    assert(a.consts.subrange(0, a.consts.len() as int) =~= a.consts);
    if appended(a, b) && appended(b, c) {
        assert(c.bytes.subrange(0, a.bytes.len() as int) =~= c.bytes.subrange(0, b.bytes.len() as int).subrange(0, a.bytes.len() as int));
        assert(c.lines.subrange(0, a.lines.len() as int) =~= c.lines.subrange(0, b.lines.len() as int).subrange(0, a.lines.len() as int));
        assert(c.consts.subrange(0, a.consts.len() as int) =~= c.consts.subrange(0, b.consts.len() as int).subrange(0, a.consts.len() as int));
    }
}

/// Appending sequences to a chunk's parts extends it.
pub proof fn lemma_appended_concat(a: ChunkView, bytes: Seq<u8>, lines: Seq<usize>, consts: Seq<Value>)
    requires
        lines.len() == bytes.len(),
    ensures
        appended(a, ChunkView { bytes: a.bytes + bytes, lines: a.lines + lines, consts: a.consts + consts }),
{
    assert((a.bytes + bytes).subrange(0, a.bytes.len() as int) =~= a.bytes);
    assert((a.lines + lines).subrange(0, a.lines.len() as int) =~= a.lines);
    assert((a.consts + consts).subrange(0, a.consts.len() as int) =~= a.consts);
}

/// What a chunk holds, for specifications.
pub struct ChunkView {
    pub bytes: Seq<u8>,
    pub lines: Seq<usize>,
    pub consts: Seq<Value>,
}

/// The bytecode of one function: the instruction bytes, the source line of
/// each byte, and the constant pool.
#[derive(Debug, Clone)]
pub struct Chunk {
    bytes: Vec<u8>,
    lines: Vec<usize>,
    consts: Vec<Value>,
}

/// The constant pool is full.
#[derive(Debug, Clone, Copy, PartialEq, Eq, Structural)]
pub enum EncodingError {
    TooManyConstants,
}

impl View for Chunk {
    type V = ChunkView;

    closed spec fn view(&self) -> ChunkView {
        ChunkView { bytes: self.bytes@, lines: self.lines@, consts: self.consts@ }
    }
}

/// The code of a chunk is shorter than the address space.
pub proof fn lemma_code_fits(c: Chunk)
    ensures
        c@.bytes.len() <= usize::MAX,
{
    assert(c.bytes.len() == c.bytes@.len());
}

impl Chunk {
    /// One line per byte, and no more constants than an index can name.
    pub open spec fn wf(&self) -> bool {
        &&& self@.lines.len() == self@.bytes.len()
        &&& self@.consts.len() <= MAX_CONSTANTS
    }

    pub fn new() -> (r: Self)
        ensures
            r@.bytes.len() == 0,
            r@.lines.len() == 0,
            r@.consts.len() == 0,
    {
        Chunk { bytes: Vec::new(), lines: Vec::new(), consts: Vec::new() }
    }

    fn push_byte(&mut self, byte: u8, line: usize)
        ensures
            final(self)@ == (ChunkView {
                bytes: old(self)@.bytes.push(byte),
                lines: old(self)@.lines.push(line),
                consts: old(self)@.consts,
            }),
    {
        self.bytes.push(byte);
        self.lines.push(line);
    }

    /// Appends an index operand, high byte first.
    fn push_u16(&mut self, value: u16, line: usize)
        ensures
            final(self)@ == (ChunkView {
                bytes: old(self)@.bytes + encode_u16(value),
                lines: old(self)@.lines + seq![line, line],
                consts: old(self)@.consts,
            }),
    {
        let hi = (value / 256) as u8;
        let lo = (value % 256) as u8;
        self.push_byte(hi, line);
        self.push_byte(lo, line);
        proof {
            assert(final(self)@.bytes =~= old(self)@.bytes + encode_u16(value));
            assert(final(self)@.lines =~= old(self)@.lines + seq![line, line]);
        }
    }

    pub fn add_instruction(&mut self, op: OpCode, line: usize)
        ensures
            final(self)@ == (ChunkView {
                bytes: old(self)@.bytes.push(opcode_byte(op)),
                lines: old(self)@.lines.push(line),
                consts: old(self)@.consts,
            }),
    {
        self.push_byte(op.to_byte(), line);
    }

    /// Appends `value` to the constant pool and a `Const` instruction that
    /// loads it; returns its index. Fails, changing nothing, when the pool
    /// is full.
    pub fn add_const(&mut self, value: Value, line: usize) -> (r: Result<u16, EncodingError>)
        ensures
            old(self)@.consts.len() < MAX_CONSTANTS ==> r == Ok::<u16, EncodingError>(
                old(self)@.consts.len() as u16,
            ),
            old(self)@.consts.len() >= MAX_CONSTANTS ==> r == Err::<u16, EncodingError>(
                EncodingError::TooManyConstants,
            ),
            match r {
                Ok(idx) => final(self)@ == (ChunkView {
                    bytes: old(self)@.bytes + seq![opcode_byte(OpCode::Const)] + encode_u16(idx),
                    lines: old(self)@.lines + seq![line, line, line],
                    consts: old(self)@.consts.push(value),
                }),
                Err(_) => final(self)@ == old(self)@,
            },
    {
        if self.consts.len() >= MAX_CONSTANTS {
            return Err(EncodingError::TooManyConstants);
        }
        let idx = self.consts.len() as u16;
        self.consts.push(value);
        self.add_instruction(OpCode::Const, line);
        self.push_u16(idx, line);
        proof {
            assert(final(self)@.bytes =~= old(self)@.bytes + seq![opcode_byte(OpCode::Const)] + encode_u16(idx));
            assert(final(self)@.lines =~= old(self)@.lines + seq![line, line, line]);
        }
        Ok(idx)
    }

    pub fn add_int64(&mut self, i: i64, line: usize) -> (r: Result<u16, EncodingError>)
        ensures
            old(self)@.consts.len() < MAX_CONSTANTS <==> r is Ok,
            match r {
                Ok(idx) => idx == old(self)@.consts.len() && final(self)@ == (ChunkView {
                    bytes: old(self)@.bytes + seq![opcode_byte(OpCode::Const)] + encode_u16(idx),
                    lines: old(self)@.lines + seq![line, line, line],
                    consts: old(self)@.consts.push(Value::Int64(i)),
                }),
                Err(e) => e == EncodingError::TooManyConstants && final(self)@ == old(self)@,
            },
    {
        self.add_const(Value::Int64(i), line)
    }

    pub fn add_uint64(&mut self, u: u64, line: usize) -> (r: Result<u16, EncodingError>)
        ensures
            old(self)@.consts.len() < MAX_CONSTANTS <==> r is Ok,
            match r {
                Ok(idx) => idx == old(self)@.consts.len() && final(self)@ == (ChunkView {
                    bytes: old(self)@.bytes + seq![opcode_byte(OpCode::Const)] + encode_u16(idx),
                    lines: old(self)@.lines + seq![line, line, line],
                    consts: old(self)@.consts.push(Value::Uint64(u)),
                }),
                Err(e) => e == EncodingError::TooManyConstants && final(self)@ == old(self)@,
            },
    {
        self.add_const(Value::Uint64(u), line)
    }

    /// Adds a float constant given by its IEEE-754 bit pattern.
    pub fn add_float64(&mut self, bits: u64, line: usize) -> (r: Result<u16, EncodingError>)
        ensures
            old(self)@.consts.len() < MAX_CONSTANTS <==> r is Ok,
            match r {
                Ok(idx) => idx == old(self)@.consts.len() && final(self)@ == (ChunkView {
                    bytes: old(self)@.bytes + seq![opcode_byte(OpCode::Const)] + encode_u16(idx),
                    lines: old(self)@.lines + seq![line, line, line],
                    consts: old(self)@.consts.push(Value::Float64(bits)),
                }),
                Err(e) => e == EncodingError::TooManyConstants && final(self)@ == old(self)@,
            },
    {
        self.add_const(Value::Float64(bits), line)
    }

    pub fn add_bool(&mut self, b: bool, line: usize) -> (r: Result<u16, EncodingError>)
        ensures
            old(self)@.consts.len() < MAX_CONSTANTS <==> r is Ok,
            match r {
                Ok(idx) => idx == old(self)@.consts.len() && final(self)@ == (ChunkView {
                    bytes: old(self)@.bytes + seq![opcode_byte(OpCode::Const)] + encode_u16(idx),
                    lines: old(self)@.lines + seq![line, line, line],
                    consts: old(self)@.consts.push(Value::Bool(b)),
                }),
                Err(e) => e == EncodingError::TooManyConstants && final(self)@ == old(self)@,
            },
    {
        self.add_const(Value::Bool(b), line)
    }

    /// Appends a `Call` instruction naming function `function` of the program.
    pub fn add_call(&mut self, function: u16, line: usize)
        ensures
            final(self)@ == (ChunkView {
                bytes: old(self)@.bytes + seq![opcode_byte(OpCode::Call)] + encode_u16(function),
                lines: old(self)@.lines + seq![line, line, line],
                consts: old(self)@.consts,
            }),
    {
        self.add_instruction(OpCode::Call, line);
        self.push_u16(function, line);
        proof {
            assert(final(self)@.bytes =~= old(self)@.bytes + seq![opcode_byte(OpCode::Call)] + encode_u16(function));
            assert(final(self)@.lines =~= old(self)@.lines + seq![line, line, line]);
        }
    }

    /// Number of bytes in the code stream.
    pub fn len(&self) -> (r: usize)
        ensures
            r == self@.bytes.len(),
    {
        self.bytes.len()
    }

    pub fn const_count(&self) -> (r: usize)
        ensures
            r == self@.consts.len(),
    {
        self.consts.len()
    }

    pub fn get_line(&self, idx: usize) -> (r: usize)
        requires
            idx < self@.lines.len(),
        ensures
            r == self@.lines[idx as int],
    {
        self.lines[idx]
    }

    pub fn get_byte(&self, idx: usize) -> (r: u8)
        requires
            idx < self@.bytes.len(),
        ensures
            r == self@.bytes[idx as int],
    {
        self.bytes[idx]
    }

    pub fn get_const(&self, idx: usize) -> (r: Value)
        requires
            idx < self@.consts.len(),
        ensures
            r == self@.consts[idx as int],
    {
        self.consts[idx]
    }
}

} // verus!
