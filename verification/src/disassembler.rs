//! A textual rendering of a chunk: every instruction at its offset with
//! its source line, mnemonic and operands, pinned word for word by a
//! specification of the whole listing.

use vstd::prelude::*;

verus! {

use crate::chunk::{Chunk, ChunkV};
use crate::text::{spec_u64_dec, u64_to_string};
use crate::value_text::{display_string, spec_value_display};
use crate::vm::{
    OP_ADD, OP_AND, OP_ASSIGN, OP_BITAND, OP_BITOR, OP_BITXOR, OP_CALL, OP_CALL_BUILTIN,
    OP_CONSTANT, OP_DEF_LIST, OP_DEF_MAP, OP_DIVIDE, OP_EQUAL, OP_GET, OP_GREATER,
    OP_GREATER_EQUAL, OP_LESS, OP_LESS_EQUAL, OP_LIST_GET, OP_MULTIPLY, OP_NEGATE, OP_NOT,
    OP_NOT_EQUAL, OP_OR, OP_PRINT, OP_RETURN, OP_SHL, OP_SHR, OP_SUBTRACT,
};

/// A number in at least four digits, filled out with leading zeroes.
pub open spec fn spec_pad4(n: int) -> Seq<char> {
    let digits = spec_u64_dec(n);
    if digits.len() >= 4 {
        digits
    } else {
        Seq::new((4 - digits.len()) as nat, |i: int| '0') + digits
    }
}

/// How many digits a number renders to, by magnitude.
proof fn lemma_u64_dec_len(n: int)
    requires
        n >= 0,
    ensures
        n < 10 ==> spec_u64_dec(n).len() == 1,
        10 <= n < 100 ==> spec_u64_dec(n).len() == 2,
        100 <= n < 1000 ==> spec_u64_dec(n).len() == 3,
        n >= 1000 ==> spec_u64_dec(n).len() >= 4,
    decreases n,
{
    if n >= 10 {
        lemma_u64_dec_len(n / 10);
    }
}

/// The mnemonic of an instruction that takes no operand, if it is one.
pub open spec fn spec_simple_name(op: u16) -> Option<Seq<char>> {
    if op == OP_ADD {
        Some("ADD"@)
    } else if op == OP_SUBTRACT {
        Some("SUB"@)
    } else if op == OP_MULTIPLY {
        Some("MUL"@)
    } else if op == OP_DIVIDE {
        Some("DIV"@)
    } else if op == OP_NEGATE {
        Some("NEG"@)
    } else if op == OP_PRINT {
        Some("PRT"@)
    } else if op == OP_RETURN {
        Some("RET"@)
    } else if op == OP_AND {
        Some("AND"@)
    } else if op == OP_OR {
        Some("OR"@)
    } else if op == OP_NOT {
        Some("NOT"@)
    } else if op == OP_EQUAL {
        Some("EQ"@)
    } else if op == OP_NOT_EQUAL {
        Some("NEQ"@)
    } else if op == OP_GREATER {
        Some("GT"@)
    } else if op == OP_GREATER_EQUAL {
        Some("GTE"@)
    } else if op == OP_LESS {
        Some("LT"@)
    } else if op == OP_LESS_EQUAL {
        Some("LTE"@)
    } else if op == OP_BITAND {
        Some("BITAND"@)
    } else if op == OP_BITOR {
        Some("BITOR"@)
    } else if op == OP_BITXOR {
        Some("BITXOR"@)
    } else if op == OP_SHR {
        Some("SHR"@)
    } else if op == OP_SHL {
        Some("SHL"@)
    } else if op == OP_LIST_GET {
        Some("LISTGET"@)
    } else {
        None
    }
}

/// The code word at an offset in decimal, or a question mark where the
/// code ends before it.
pub open spec fn spec_operand(c: ChunkV, k: int) -> Seq<char> {
    if 0 <= k < c.code.len() {
        spec_u64_dec(c.code[k] as int)
    } else {
        "?"@
    }
}

/// The display form of the constant whose index stands at an offset, or
/// a question mark where the code or the constant pool ends before it.
pub open spec fn spec_const_at(c: ChunkV, k: int) -> Seq<char> {
    if 0 <= k < c.code.len() {
        let idx = c.code[k] as int;
        if idx < c.constants.len() {
            spec_value_display(c.constants[idx])
        } else {
            "?"@
        }
    } else {
        "?"@
    }
}

/// The source-line column of one listing row: a bar where the line
/// repeats the row above, else the line in four digits.
pub open spec fn spec_line_col(c: ChunkV, off: int) -> Seq<char> {
    if off > 0 && off < c.lines.len() && c.lines[off] == c.lines[off - 1] {
        "   | "@
    } else if 0 <= off < c.lines.len() {
        spec_pad4(c.lines[off] as int) + " "@
    } else {
        "???? "@
    }
}

/// One rendered instruction and the offset where the next begins.
pub open spec fn spec_inst(c: ChunkV, off: int) -> (Seq<char>, int) {
    let op = c.code[off];
    if op == OP_CONSTANT {
        ("LDC "@ + spec_operand(c, off + 1) + ": "@ + spec_const_at(c, off + 1), off + 2)
    } else if op == OP_GET {
        ("GET "@ + spec_operand(c, off + 1), off + 2)
    } else if op == OP_ASSIGN {
        ("ASSIGN "@ + spec_operand(c, off + 1), off + 2)
    } else if op == OP_DEF_LIST {
        ("DEFLIST len: "@ + spec_operand(c, off + 1), off + 2)
    } else if op == OP_DEF_MAP {
        ("DEFMAP len: "@ + spec_operand(c, off + 1), off + 2)
    } else if op == OP_CALL {
        (
            "CALL "@ + spec_operand(c, off + 1) + ":"@ + spec_const_at(c, off + 1) + "("@
                + spec_operand(c, off + 2) + ")"@,
            off + 3,
        )
    } else if op == OP_CALL_BUILTIN {
        (
            "CALLB "@ + spec_const_at(c, off + 2) + "."@ + spec_const_at(c, off + 1) + "("@
                + spec_operand(c, off + 3) + ")"@,
            off + 4,
        )
    } else {
        match spec_simple_name(op) {
            Some(name) => (name, off + 1),
            None => ("Unknown instruction "@ + spec_u64_dec(op as int), off + 1),
        }
    }
}

/// The listing of the code from an offset on: one row per instruction,
/// each ended by a line break.
pub open spec fn spec_disassemble_at(c: ChunkV, off: int) -> Seq<char>
    decreases c.code.len() - off,
{
    if off < 0 || off >= c.code.len() {
        Seq::empty()
    } else {
        let (text, after) = spec_inst(c, off);
        let next = if after <= c.code.len() {
            after
        } else {
            c.code.len() as int
        };
        spec_pad4(off) + " "@ + spec_line_col(c, off) + text + "\n"@ + spec_disassemble_at(c, next)
    }
}

/// The whole listing of a chunk: a header with its name, its
/// instructions in order, and a closing blank line.
pub open spec fn spec_disassemble(c: ChunkV) -> Seq<char> {
    "== "@ + c.name + " ==\n"@ + spec_disassemble_at(c, 0) + "\n"@
}

/// A number in at least four digits, filled out with leading zeroes.
fn pad4(n: u64) -> (s: String)
    ensures
        s@ == spec_pad4(n as int),
{
    proof {
        lemma_u64_dec_len(n as int);
    }
    let digits = u64_to_string(n);
    let mut s: String;
    if n < 10 {
        s = "000".to_owned();
        proof {
            reveal_strlit("000");
            assert(s@ =~= Seq::new(3, |i: int| '0'));
        }
    } else if n < 100 {
        s = "00".to_owned();
        proof {
            reveal_strlit("00");
            assert(s@ =~= Seq::new(2, |i: int| '0'));
        }
    } else if n < 1000 {
        s = "0".to_owned();
        proof {
            reveal_strlit("0");
            assert(s@ =~= Seq::new(1, |i: int| '0'));
        }
    } else {
        s = "".to_owned();
        proof {
            reveal_strlit("");
            assert(s@ =~= Seq::<char>::empty());
        }
    }
    s.append(digits.as_str());
    proof {
        assert(s@ =~= spec_pad4(n as int));
    }
    s
}

/// An instruction mnemonic that takes no operand, if the word is one.
fn simple_name(op: u16) -> (r: Option<&'static str>)
    ensures
        (match r {
            Some(s) => spec_simple_name(op) == Some(s@),
            None => spec_simple_name(op) is None,
        }),
{
    if op == OP_ADD {
        Some("ADD")
    } else if op == OP_SUBTRACT {
        Some("SUB")
    } else if op == OP_MULTIPLY {
        Some("MUL")
    } else if op == OP_DIVIDE {
        Some("DIV")
    } else if op == OP_NEGATE {
        Some("NEG")
    } else if op == OP_PRINT {
        Some("PRT")
    } else if op == OP_RETURN {
        Some("RET")
    } else if op == OP_AND {
        Some("AND")
    } else if op == OP_OR {
        Some("OR")
    } else if op == OP_NOT {
        Some("NOT")
    } else if op == OP_EQUAL {
        Some("EQ")
    } else if op == OP_NOT_EQUAL {
        Some("NEQ")
    } else if op == OP_GREATER {
        Some("GT")
    } else if op == OP_GREATER_EQUAL {
        Some("GTE")
    } else if op == OP_LESS {
        Some("LT")
    } else if op == OP_LESS_EQUAL {
        Some("LTE")
    } else if op == OP_BITAND {
        Some("BITAND")
    } else if op == OP_BITOR {
        Some("BITOR")
    } else if op == OP_BITXOR {
        Some("BITXOR")
    } else if op == OP_SHR {
        Some("SHR")
    } else if op == OP_SHL {
        Some("SHL")
    } else if op == OP_LIST_GET {
        Some("LISTGET")
    } else {
        None
    }
}

impl Chunk {
    /// The code word at an offset in decimal, or a question mark where
    /// the code ends before it.
    fn operand_text(&self, k: usize) -> (s: String)
        ensures
            s@ == spec_operand(self@, k as int),
    {
        if k < self.code.len() {
            u64_to_string(self.code[k] as u64)
        } else {
            "?".to_owned()
        }
    }

    /// The display form of the constant whose index stands at an offset,
    /// or a question mark where code or pool end before it.
    fn constant_text(&self, k: usize) -> (s: String)
        ensures
            s@ == spec_const_at(self@, k as int),
    {
        broadcast use crate::value::lemma_list_view;

        if k < self.code.len() {
            let idx = self.code[k] as usize;
            if idx < self.constants.len() {
                display_string(&self.constants[idx])
            } else {
                "?".to_owned()
            }
        } else {
            "?".to_owned()
        }
    }

    /// Render this chunk as its instruction listing.
    #[verifier::loop_isolation(false)]
    #[verifier::rlimit(100)]
    pub fn disassemble(&self) -> (s: String)
        ensures
            s@ == spec_disassemble(self@),
    {
        let mut out: String = "== ".to_owned();
        out.append(self.name.as_str());
        out.append(" ==\n");
        let ghost header = out@;
        let n = self.code.len();
        let mut off: usize = 0;
        while off < n
            invariant
                n == self@.code.len(),
                off <= n,
                out@ + spec_disassemble_at(self@, off as int) + "\n"@ == spec_disassemble(self@),
            decreases n - off,
        {
            let ghost start = out@;
            out.append(pad4(off as u64).as_str());
            out.append(" ");
            if off > 0 && off < self.lines.len() && self.lines[off] == self.lines[off - 1] {
                out.append("   | ");
            } else if off < self.lines.len() {
                out.append(pad4(self.lines[off] as u64).as_str());
                out.append(" ");
            } else {
                out.append("???? ");
            }
            proof {
                assert(out@ =~= start + spec_pad4(off as int) + " "@ + spec_line_col(
                    self@,
                    off as int,
                ));
            }
            let op = self.code[off];
            let k1: usize = if n - off > 1 {
                off + 1
            } else {
                n
            };
            let k2: usize = if n - off > 2 {
                off + 2
            } else {
                n
            };
            let k3: usize = if n - off > 3 {
                off + 3
            } else {
                n
            };
            proof {
                assert(spec_operand(self@, k1 as int) == spec_operand(self@, off as int + 1));
                assert(spec_const_at(self@, k1 as int) == spec_const_at(self@, off as int + 1));
                assert(spec_operand(self@, k2 as int) == spec_operand(self@, off as int + 2));
                assert(spec_const_at(self@, k2 as int) == spec_const_at(self@, off as int + 2));
                assert(spec_operand(self@, k3 as int) == spec_operand(self@, off as int + 3));
            }
            let width: usize;
            if op == OP_CONSTANT {
                out.append("LDC ");
                out.append(self.operand_text(k1).as_str());
                out.append(": ");
                out.append(self.constant_text(k1).as_str());
                width = 2;
            } else if op == OP_GET {
                out.append("GET ");
                out.append(self.operand_text(k1).as_str());
                width = 2;
            } else if op == OP_ASSIGN {
                out.append("ASSIGN ");
                out.append(self.operand_text(k1).as_str());
                width = 2;
            } else if op == OP_DEF_LIST {
                out.append("DEFLIST len: ");
                out.append(self.operand_text(k1).as_str());
                width = 2;
            } else if op == OP_DEF_MAP {
                out.append("DEFMAP len: ");
                out.append(self.operand_text(k1).as_str());
                width = 2;
            } else if op == OP_CALL {
                out.append("CALL ");
                out.append(self.operand_text(k1).as_str());
                out.append(":");
                out.append(self.constant_text(k1).as_str());
                out.append("(");
                out.append(self.operand_text(k2).as_str());
                out.append(")");
                width = 3;
            } else if op == OP_CALL_BUILTIN {
                out.append("CALLB ");
                out.append(self.constant_text(k2).as_str());
                out.append(".");
                out.append(self.constant_text(k1).as_str());
                out.append("(");
                out.append(self.operand_text(k3).as_str());
                out.append(")");
                width = 4;
            } else {
                match simple_name(op) {
                    Some(name) => out.append(name),
                    None => {
                        out.append("Unknown instruction ");
                        out.append(u64_to_string(op as u64).as_str());
                    }
                }
                width = 1;
            }
            out.append("\n");
            let step = if width <= n - off {
                width
            } else {
                n - off
            };
            proof {
                assert(out@ =~= start + spec_pad4(off as int) + " "@ + spec_line_col(
                    self@,
                    off as int,
                ) + spec_inst(self@, off as int).0 + "\n"@);
                assert(spec_disassemble_at(self@, off as int) =~= spec_pad4(off as int) + " "@
                    + spec_line_col(self@, off as int) + spec_inst(self@, off as int).0 + "\n"@
                    + spec_disassemble_at(self@, (off + step) as int));
                assert(out@ + spec_disassemble_at(self@, (off + step) as int) + "\n"@ =~= start
                    + spec_disassemble_at(self@, off as int) + "\n"@);
            }
            off = off + step;
        }
        proof {
            assert(spec_disassemble_at(self@, n as int) =~= Seq::<char>::empty());
            assert(out@ + Seq::<char>::empty() + "\n"@ =~= out@ + "\n"@);
        }
        out.append("\n");
        proof {
            assert(out@ =~= spec_disassemble(self@));
        }
        out
    }
}

} // verus!
