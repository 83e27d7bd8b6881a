//! A line of text per instruction, for tests and debugging.

use vstd::prelude::*;

use crate::chunk::{decode_u16, Chunk, ChunkView};
use crate::codegen::compiled_from;
use crate::opcode::{opcode_name, opcode_of, OpCode};
use crate::program::Program;
use crate::typechecker::Module;

verus! {

/// The character of decimal digit `d`.
pub open spec fn digit_char(d: nat) -> char {
    if d == 0 {
        '0'
    } else if d == 1 {
        '1'
    } else if d == 2 {
        '2'
    } else if d == 3 {
        '3'
    } else if d == 4 {
        '4'
    } else if d == 5 {
        '5'
    } else if d == 6 {
        '6'
    } else if d == 7 {
        '7'
    } else if d == 8 {
        '8'
    } else {
        '9'
    }
}

/// The decimal numeral of `n`, without leading zeros.
pub open spec fn decimal(n: nat) -> Seq<char>
    decreases n,
{
    if n < 10 {
        seq![digit_char(n)]
    } else {
        decimal(n / 10).push(digit_char(n % 10))
    }
}

/// The decimal numeral of `n`, padded with zeros to at least `width` characters.
pub open spec fn padded(n: nat, width: nat) -> Seq<char> {
    let d = decimal(n);
    if d.len() < width {
        Seq::new((width - d.len()) as nat, |i: int| '0') + d
    } else {
        d
    }
}

/// Whether `op` is followed by a two-byte index operand.
pub open spec fn has_operand(op: OpCode) -> bool {
    op == OpCode::Const || op == OpCode::Call
}

/// The text of the instruction at offset `i` and the number of bytes it
/// takes. The text is the offset and the source line, both padded to four
/// digits, then the instruction's name and its operand where it has one;
/// a byte that is no instruction reads `unknown` and its value.
pub open spec fn instruction_text(c: ChunkView, i: nat) -> (Seq<char>, nat) {
    let prefix = padded(i, 4) + " line:"@ + padded(c.lines[i as int] as nat, 4) + " - "@;
    let byte = c.bytes[i as int];
    match opcode_of(byte) {
        None => (prefix + "unknown "@ + decimal(byte as nat), 1),
        Some(op) => if has_operand(op) {
            if i + 2 < c.bytes.len() {
                (
                    prefix + opcode_name(op) + " "@ + decimal(
                        decode_u16(c.bytes[i as int + 1], c.bytes[i as int + 2]) as nat,
                    ),
                    3,
                )
            } else {
                (prefix + opcode_name(op), (c.bytes.len() - i) as nat)
            }
        } else {
            (prefix + opcode_name(op), 1)
        },
    }
}

/// One line of text per instruction from offset `i` to the end of the chunk.
pub open spec fn disassembly_from(c: ChunkView, i: nat) -> Seq<Seq<char>>
    decreases c.bytes.len() - i,
{
    if i >= c.bytes.len() || c.lines.len() != c.bytes.len() {
        seq![]
    } else {
        let (text, width) = instruction_text(c, i);
        if width == 0 {
            seq![]
        } else {
            seq![text] + disassembly_from(c, i + width)
        }
    }
}

/// The text of each digit.
fn digit_str(d: usize) -> (r: &'static str)
    requires
        d < 10,
    ensures
        r@ == seq![digit_char(d as nat)],
{
    match d {
        0 => {
            proof {
                reveal_strlit("0");
            }
            "0"
        },
        1 => {
            proof {
                reveal_strlit("1");
            }
            "1"
        },
        2 => {
            proof {
                reveal_strlit("2");
            }
            "2"
        },
        3 => {
            proof {
                reveal_strlit("3");
            }
            "3"
        },
        4 => {
            proof {
                reveal_strlit("4");
            }
            "4"
        },
        5 => {
            proof {
                reveal_strlit("5");
            }
            "5"
        },
        6 => {
            proof {
                reveal_strlit("6");
            }
            "6"
        },
        7 => {
            proof {
                reveal_strlit("7");
            }
            "7"
        },
        8 => {
            proof {
                reveal_strlit("8");
            }
            "8"
        },
        _ => {
            proof {
                reveal_strlit("9");
            }
            "9"
        },
    }
}

/// Appends the decimal numeral of `n`.
fn append_decimal(s: &mut String, n: usize)
    ensures
        final(s)@ == old(s)@ + decimal(n as nat),
    decreases n,
{
    if n >= 10 {
        append_decimal(s, n / 10);
    }
    s.append(digit_str(n % 10));
    proof {
        if n >= 10 {
            assert(final(s)@ =~= old(s)@ + decimal(n as nat));
        }
    }
}

/// The number of digits of the decimal numeral of `n`.
fn decimal_len(n: usize) -> (r: usize)
    ensures
        r == decimal(n as nat).len(),
        r <= n as nat + 1,
    decreases n,
{
    if n < 10 {
        1
    } else {
        decimal_len(n / 10) + 1
    }
}

/// Appends the decimal numeral of `n`, padded with zeros to at least four characters.
fn append_padded(s: &mut String, n: usize)
    ensures
        final(s)@ == old(s)@ + padded(n as nat, 4),
{
    let len = decimal_len(n);
    let ghost start = s@;
    let mut k: usize = len;
    while k < 4
        invariant
            len == decimal(n as nat).len(),
            len <= k <= 4 || (len > 4 && k == len),
            s@ == start + Seq::new((k - len) as nat, |i: int| '0'),
        decreases 4 - k,
    {
        s.append("0");
        k = k + 1;
        proof {
            reveal_strlit("0");
            assert(s@ =~= start + Seq::new((k - len) as nat, |i: int| '0'));
        }
    }
    append_decimal(s, n);
    proof {
        if len < 4 {
            assert(s@ =~= start + padded(n as nat, 4));
        } else {
            assert(s@ =~= start + padded(n as nat, 4));
        }
    }
}

/// One human-readable line per instruction of `chunk`, in order.
pub fn disassemble(chunk: &Chunk) -> (r: Vec<String>)
    requires
        chunk@.lines.len() == chunk@.bytes.len(),
    ensures
        r@.map_values(|s: String| s@) == disassembly_from(chunk@, 0),
{
    let ghost c = chunk@;
    let n = chunk.len();
    let mut result: Vec<String> = Vec::new();
    let mut i: usize = 0;
    assert(result@.map_values(|s: String| s@) =~= seq![]);
    while i < n
        invariant
            c == chunk@,
            c.lines.len() == c.bytes.len(),
            n == c.bytes.len(),
            i <= n,
            result@.map_values(|s: String| s@) + disassembly_from(c, i as nat) == disassembly_from(c, 0),
        decreases n - i,
    {
        let byte = chunk.get_byte(i);
        let mut text = String::new();
        append_padded(&mut text, i);
        text.append(" line:");
        append_padded(&mut text, chunk.get_line(i));
        text.append(" - ");
        let width: usize = match OpCode::from_byte(byte) {
            None => {
                text.append("unknown ");
                append_decimal(&mut text, byte as usize);
                1
            },
            Some(op) => {
                text.append(op.name());
                if op == OpCode::Const || op == OpCode::Call {
                    if n - i > 2 {
                        let operand = (chunk.get_byte(i + 1) as u16) * 256 + (chunk.get_byte(i + 2) as u16);
                        text.append(" ");
                        append_decimal(&mut text, operand as usize);
                        3
                    } else {
                        n - i
                    }
                } else {
                    1
                }
            },
        };
        proof {
            let (t, w) = instruction_text(c, i as nat);
            assert(text@ =~= t);
            assert(width == w);
            assert(disassembly_from(c, i as nat) == seq![t] + disassembly_from(c, (i + width) as nat));
        }
        let ghost prev = result@;
        result.push(text);
        proof {
            assert(result@.map_values(|s: String| s@) =~= prev.map_values(|s: String| s@).push(text@));
            assert(result@.map_values(|s: String| s@) + disassembly_from(c, (i + width) as nat)
                =~= prev.map_values(|s: String| s@) + disassembly_from(c, i as nat));
        }
        i = i + width;
    }
    assert(result@.map_values(|s: String| s@) + disassembly_from(c, i as nat) =~= result@.map_values(|s: String| s@));
    result
}

/// Compilation is deterministic, and so is the disassembly of its result:
/// two programs compiled from modules of one arena disassemble to the same
/// lines.
pub proof fn lemma_disassembly_deterministic(first: Module, second: Module, p1: Program, p2: Program)
    requires
        first.wf(),
        second.wf(),
        first.arena_view() == second.arena_view(),
        compiled_from(first.arena_view(), first.type_view(), p1),
        compiled_from(second.arena_view(), second.type_view(), p2),
    ensures
        p1.functions@[0].chunk@ == p2.functions@[0].chunk@,
        disassembly_from(p1.functions@[0].chunk@, 0) == disassembly_from(p2.functions@[0].chunk@, 0),
{
    let c1 = p1.functions@[0].chunk@;
    let c2 = p2.functions@[0].chunk@;
    assert(c1.bytes =~= c2.bytes);
    assert(c1.lines =~= c2.lines);
    assert(c1.consts =~= c2.consts);
}

} // verus!
