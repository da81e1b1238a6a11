//! The disassembler: rendering decoded instructions as assembler-syntax
//! text, with explicit operand-size annotations and self-relative jump
//! targets, behind character-level specifications.

use vstd::prelude::*;

use crate::decode::spec_decode_all;
use crate::encode::spec_encode_all;
use crate::inst::{EffAddr, Inst, Operand, Register};
use crate::machine::{spec_flag_set, Flag, State};
use crate::roundtrip::lemma_encode_all_decode_all;

verus! {

// ---------------------------------------------------------------------
// Decimal rendering
// ---------------------------------------------------------------------
/// The digit character for a decimal digit.
pub open spec fn spec_digit_char(d: int) -> char
    recommends
        0 <= d <= 9,
{
    if d == 0 {
        '0'
    } else if d == 1 {
        '1'
    } else if d == 2 {
        '2'
    } else if d == 3 {
        '3'
    } else if d == 4 {
        '4'
    } else if d == 5 {
        '5'
    } else if d == 6 {
        '6'
    } else if d == 7 {
        '7'
    } else if d == 8 {
        '8'
    } else {
        '9'
    }
}

/// The decimal digits of a nonnegative number, most significant first.
pub open spec fn spec_dec_str(n: int) -> Seq<char>
    recommends
        n >= 0,
    decreases n,
{
    if n < 10 {
        seq![spec_digit_char(n)]
    } else {
        spec_dec_str(n / 10) + seq![spec_digit_char(n % 10)]
    }
}

/// A possibly negative number in decimal, with a leading minus sign.
pub open spec fn spec_int_str(v: int) -> Seq<char> {
    if v < 0 {
        seq!['-'] + spec_dec_str(-v)
    } else {
        spec_dec_str(v)
    }
}

fn digit_str(d: u8) -> (r: &'static str)
    requires
        d < 10,
    ensures
        r@ == seq![spec_digit_char(d as int)],
{
    proof {
        reveal_strlit("0");
        reveal_strlit("1");
        reveal_strlit("2");
        reveal_strlit("3");
        reveal_strlit("4");
        reveal_strlit("5");
        reveal_strlit("6");
        reveal_strlit("7");
        reveal_strlit("8");
        reveal_strlit("9");
    }
    if d == 0 {
        "0"
    } else if d == 1 {
        "1"
    } else if d == 2 {
        "2"
    } else if d == 3 {
        "3"
    } else if d == 4 {
        "4"
    } else if d == 5 {
        "5"
    } else if d == 6 {
        "6"
    } else if d == 7 {
        "7"
    } else if d == 8 {
        "8"
    } else {
        "9"
    }
}

/// Render a nonnegative number in decimal.
pub fn u32_to_string(n: u32) -> (r: String)
    ensures
        r@ == spec_dec_str(n as int),
    decreases n,
{
    proof {
        lemma_u32_div10(n);
    }
    if n < 10 {
        String::from_str(digit_str(n as u8))
    } else {
        let mut s = u32_to_string(n / 10);
        s.append(digit_str((n % 10) as u8));
        s
    }
}

proof fn lemma_u32_div10(n: u32)
    by (bit_vector)
    ensures
        n >= 10 ==> n / 10 < n,
        n % 10 < 10,
        n < 10 ==> n % 256 == n,
{
}

/// Render a signed 16-bit number in decimal.
pub fn i16_to_string(v: i16) -> (r: String)
    ensures
        r@ == spec_int_str(v as int),
{
    if v >= 0 {
        u32_to_string(v as u32)
    } else {
        let mag: i32 = -(v as i32);
        let mut s = String::from_str("-");
        proof {
            reveal_strlit("-");
        }
        s.append(u32_to_string(mag as u32).as_str());
        s
    }
}

// ---------------------------------------------------------------------
// Register and operand rendering
// ---------------------------------------------------------------------
/// A register's lower-case mnemonic.
pub open spec fn spec_reg_name(reg: Register) -> Seq<char> {
    match reg {
        Register::AL => seq!['a', 'l'],
        Register::CL => seq!['c', 'l'],
        Register::DL => seq!['d', 'l'],
        Register::BL => seq!['b', 'l'],
        Register::AH => seq!['a', 'h'],
        Register::CH => seq!['c', 'h'],
        Register::DH => seq!['d', 'h'],
        Register::BH => seq!['b', 'h'],
        Register::AX => seq!['a', 'x'],
        Register::CX => seq!['c', 'x'],
        Register::DX => seq!['d', 'x'],
        Register::BX => seq!['b', 'x'],
        Register::SP => seq!['s', 'p'],
        Register::BP => seq!['b', 'p'],
        Register::SI => seq!['s', 'i'],
        Register::DI => seq!['d', 'i'],
    }
}

impl Register {
    /// The register's assembler mnemonic.
    pub fn to_string(&self) -> (r: String)
        ensures
            r@ == spec_reg_name(*self),
    {
        match self {
            Register::AL => {
                proof {
                    reveal_strlit("al");
                }
                String::from_str("al")
            },
            Register::CL => {
                proof {
                    reveal_strlit("cl");
                }
                String::from_str("cl")
            },
            Register::DL => {
                proof {
                    reveal_strlit("dl");
                }
                String::from_str("dl")
            },
            Register::BL => {
                proof {
                    reveal_strlit("bl");
                }
                String::from_str("bl")
            },
            Register::AH => {
                proof {
                    reveal_strlit("ah");
                }
                String::from_str("ah")
            },
            Register::CH => {
                proof {
                    reveal_strlit("ch");
                }
                String::from_str("ch")
            },
            Register::DH => {
                proof {
                    reveal_strlit("dh");
                }
                String::from_str("dh")
            },
            Register::BH => {
                proof {
                    reveal_strlit("bh");
                }
                String::from_str("bh")
            },
            Register::AX => {
                proof {
                    reveal_strlit("ax");
                }
                String::from_str("ax")
            },
            Register::CX => {
                proof {
                    reveal_strlit("cx");
                }
                String::from_str("cx")
            },
            Register::DX => {
                proof {
                    reveal_strlit("dx");
                }
                String::from_str("dx")
            },
            Register::BX => {
                proof {
                    reveal_strlit("bx");
                }
                String::from_str("bx")
            },
            Register::SP => {
                proof {
                    reveal_strlit("sp");
                }
                String::from_str("sp")
            },
            Register::BP => {
                proof {
                    reveal_strlit("bp");
                }
                String::from_str("bp")
            },
            Register::SI => {
                proof {
                    reveal_strlit("si");
                }
                String::from_str("si")
            },
            Register::DI => {
                proof {
                    reveal_strlit("di");
                }
                String::from_str("di")
            },
        }
    }
}

/// An effective address in brackets: base, then ` + index`, then the
/// displacement (` + d` or ` - d` beside a register, bare beside none),
/// each part elided when absent.
pub open spec fn spec_ea_str(ea: EffAddr) -> Seq<char> {
    seq!['['] + (match ea.base {
        Some(b) => spec_reg_name(b),
        None => Seq::empty(),
    }) + (match ea.index {
        Some(i) => seq![' ', '+', ' '] + spec_reg_name(i),
        None => Seq::empty(),
    }) + (match ea.offset {
        Some(o) => if ea.base is Some {
            if o < 0 {
                seq![' ', '-', ' '] + spec_dec_str(-(o as int))
            } else {
                seq![' ', '+', ' '] + spec_dec_str(o as int)
            }
        } else {
            spec_int_str(o as int)
        },
        None => Seq::empty(),
    }) + seq![']']
}

impl EffAddr {
    /// The bracketed assembler form of this effective address.
    #[verifier::rlimit(100)]
    pub fn to_string(&self) -> (r: String)
        ensures
            r@ == spec_ea_str(*self),
    {
        proof {
            reveal_strlit("[");
            reveal_strlit("]");
            reveal_strlit(" + ");
            reveal_strlit(" - ");
        }
        let mut s = String::from_str("[");
        match self.base {
            Some(b) => {
                s.append(b.to_string().as_str());
            },
            None => {
            },
        }
        match self.index {
            Some(i) => {
                s.append(" + ");
                s.append(i.to_string().as_str());
            },
            None => {
            },
        }
        match self.offset {
            Some(o) => {
                if self.base.is_some() {
                    if o < 0 {
                        s.append(" - ");
                        let mag: i32 = -(o as i32);
                        s.append(u32_to_string(mag as u32).as_str());
                    } else {
                        s.append(" + ");
                        s.append(u32_to_string(o as u32).as_str());
                    }
                } else {
                    s.append(i16_to_string(o).as_str());
                }
            },
            None => {
            },
        }
        s.append("]");
        assert(s@ =~= spec_ea_str(*self));
        s
    }
}

/// A jump operand in self-relative form: the encoded offset plus two (the
/// jump's own length), rendered as `$+n+0`, `$+0`, or `$-n+0`.
pub open spec fn spec_rel_str(x: i8) -> Seq<char> {
    let off = x + 2;
    if off > 0 {
        seq!['$', '+'] + spec_dec_str(off as int) + seq!['+', '0']
    } else if off == 0 {
        seq!['$', '+', '0']
    } else {
        seq!['$'] + spec_int_str(off as int) + seq!['+', '0']
    }
}

/// An operand in assembler syntax: bare register mnemonics, immediates
/// and memory references annotated with their `byte`/`word` size, and
/// self-relative jump targets.
pub open spec fn spec_operand_str(op: Operand) -> Seq<char> {
    match op {
        Operand::Reg(r) => spec_reg_name(r),
        Operand::ImmByte(x) => seq!['b', 'y', 't', 'e', ' '] + spec_dec_str(x as int),
        Operand::ImmWord(x) => seq!['w', 'o', 'r', 'd', ' '] + spec_dec_str(x as int),
        Operand::MemByte(ea) => seq!['b', 'y', 't', 'e', ' '] + spec_ea_str(ea),
        Operand::MemWord(ea) => seq!['w', 'o', 'r', 'd', ' '] + spec_ea_str(ea),
        Operand::RelOffsetByte(x) => spec_rel_str(x),
    }
}

impl Operand {
    /// The assembler form of this operand.
    pub fn to_string(&self) -> (r: String)
        ensures
            r@ == spec_operand_str(*self),
    {
        proof {
            reveal_strlit("byte ");
            reveal_strlit("word ");
            reveal_strlit("$+");
            reveal_strlit("$+0");
            reveal_strlit("$");
            reveal_strlit("+0");
        }
        match self {
            Operand::Reg(r) => r.to_string(),
            Operand::ImmByte(x) => {
                let mut s = String::from_str("byte ");
                s.append(u32_to_string(*x as u32).as_str());
                s
            },
            Operand::ImmWord(x) => {
                let mut s = String::from_str("word ");
                s.append(u32_to_string(*x as u32).as_str());
                s
            },
            Operand::MemByte(ea) => {
                let mut s = String::from_str("byte ");
                s.append(ea.to_string().as_str());
                s
            },
            Operand::MemWord(ea) => {
                let mut s = String::from_str("word ");
                s.append(ea.to_string().as_str());
                s
            },
            Operand::RelOffsetByte(x) => {
                let off: i16 = *x as i16 + 2;
                if off > 0 {
                    let mut s = String::from_str("$+");
                    s.append(u32_to_string(off as u32).as_str());
                    s.append("+0");
                    s
                } else if off == 0 {
                    String::from_str("$+0")
                } else {
                    let mut s = String::from_str("$");
                    s.append(i16_to_string(off).as_str());
                    s.append("+0");
                    s
                }
            },
        }
    }
}

// ---------------------------------------------------------------------
// Instruction rendering
// ---------------------------------------------------------------------
/// The mnemonic of an instruction.
pub open spec fn spec_mnemonic(i: Inst) -> Seq<char> {
    match i {
        Inst::MOV(_, _) => seq!['m', 'o', 'v'],
        Inst::ADD(_, _) => seq!['a', 'd', 'd'],
        Inst::SUB(_, _) => seq!['s', 'u', 'b'],
        Inst::CMP(_, _) => seq!['c', 'm', 'p'],
        Inst::JO(_) => seq!['j', 'o'],
        Inst::JNO(_) => seq!['j', 'n', 'o'],
        Inst::JB(_) => seq!['j', 'b'],
        Inst::JNB(_) => seq!['j', 'n', 'b'],
        Inst::JE(_) => seq!['j', 'e'],
        Inst::JNE(_) => seq!['j', 'n', 'e'],
        Inst::JBE(_) => seq!['j', 'b', 'e'],
        Inst::JNBE(_) => seq!['j', 'n', 'b', 'e'],
        Inst::JS(_) => seq!['j', 's'],
        Inst::JNS(_) => seq!['j', 'n', 's'],
        Inst::JP(_) => seq!['j', 'p'],
        Inst::JNP(_) => seq!['j', 'n', 'p'],
        Inst::JL(_) => seq!['j', 'l'],
        Inst::JNL(_) => seq!['j', 'n', 'l'],
        Inst::JLE(_) => seq!['j', 'l', 'e'],
        Inst::JNLE(_) => seq!['j', 'n', 'l', 'e'],
        Inst::LOOPNZ(_) => seq!['l', 'o', 'o', 'p', 'n', 'z'],
        Inst::LOOPZ(_) => seq!['l', 'o', 'o', 'p', 'z'],
        Inst::LOOP(_) => seq!['l', 'o', 'o', 'p'],
        Inst::JCXZ(_) => seq!['j', 'c', 'x', 'z'],
        Inst::HLT => seq!['h', 'l', 't'],
    }
}

/// One instruction in assembler syntax: the mnemonic, then its operands
/// separated by a comma.
pub open spec fn spec_inst_str(i: Inst) -> Seq<char> {
    match i {
        Inst::MOV(op1, op2) => spec_mnemonic(i) + seq![' '] + spec_operand_str(op1) + seq![
            ',',
            ' ',
        ] + spec_operand_str(op2),
        Inst::ADD(op1, op2) => spec_mnemonic(i) + seq![' '] + spec_operand_str(op1) + seq![
            ',',
            ' ',
        ] + spec_operand_str(op2),
        Inst::SUB(op1, op2) => spec_mnemonic(i) + seq![' '] + spec_operand_str(op1) + seq![
            ',',
            ' ',
        ] + spec_operand_str(op2),
        Inst::CMP(op1, op2) => spec_mnemonic(i) + seq![' '] + spec_operand_str(op1) + seq![
            ',',
            ' ',
        ] + spec_operand_str(op2),
        Inst::HLT => spec_mnemonic(i),
        Inst::JO(op) => spec_mnemonic(i) + seq![' '] + spec_operand_str(op),
        Inst::JNO(op) => spec_mnemonic(i) + seq![' '] + spec_operand_str(op),
        Inst::JB(op) => spec_mnemonic(i) + seq![' '] + spec_operand_str(op),
        Inst::JNB(op) => spec_mnemonic(i) + seq![' '] + spec_operand_str(op),
        Inst::JE(op) => spec_mnemonic(i) + seq![' '] + spec_operand_str(op),
        Inst::JNE(op) => spec_mnemonic(i) + seq![' '] + spec_operand_str(op),
        Inst::JBE(op) => spec_mnemonic(i) + seq![' '] + spec_operand_str(op),
        Inst::JNBE(op) => spec_mnemonic(i) + seq![' '] + spec_operand_str(op),
        Inst::JS(op) => spec_mnemonic(i) + seq![' '] + spec_operand_str(op),
        Inst::JNS(op) => spec_mnemonic(i) + seq![' '] + spec_operand_str(op),
        Inst::JP(op) => spec_mnemonic(i) + seq![' '] + spec_operand_str(op),
        Inst::JNP(op) => spec_mnemonic(i) + seq![' '] + spec_operand_str(op),
        Inst::JL(op) => spec_mnemonic(i) + seq![' '] + spec_operand_str(op),
        Inst::JNL(op) => spec_mnemonic(i) + seq![' '] + spec_operand_str(op),
        Inst::JLE(op) => spec_mnemonic(i) + seq![' '] + spec_operand_str(op),
        Inst::JNLE(op) => spec_mnemonic(i) + seq![' '] + spec_operand_str(op),
        Inst::LOOPNZ(op) => spec_mnemonic(i) + seq![' '] + spec_operand_str(op),
        Inst::LOOPZ(op) => spec_mnemonic(i) + seq![' '] + spec_operand_str(op),
        Inst::LOOP(op) => spec_mnemonic(i) + seq![' '] + spec_operand_str(op),
        Inst::JCXZ(op) => spec_mnemonic(i) + seq![' '] + spec_operand_str(op),
    }
}

fn mnemonic_str(i: &Inst) -> (r: &'static str)
    ensures
        r@ == spec_mnemonic(*i),
{
    proof {
        reveal_strlit("mov");
        reveal_strlit("add");
        reveal_strlit("sub");
        reveal_strlit("cmp");
        reveal_strlit("jo");
        reveal_strlit("jno");
        reveal_strlit("jb");
        reveal_strlit("jnb");
        reveal_strlit("je");
        reveal_strlit("jne");
        reveal_strlit("jbe");
        reveal_strlit("jnbe");
        reveal_strlit("js");
        reveal_strlit("jns");
        reveal_strlit("jp");
        reveal_strlit("jnp");
        reveal_strlit("jl");
        reveal_strlit("jnl");
        reveal_strlit("jle");
        reveal_strlit("jnle");
        reveal_strlit("loopnz");
        reveal_strlit("loopz");
        reveal_strlit("loop");
        reveal_strlit("jcxz");
        reveal_strlit("hlt");
    }
    match i {
        Inst::MOV(_, _) => "mov",
        Inst::ADD(_, _) => "add",
        Inst::SUB(_, _) => "sub",
        Inst::CMP(_, _) => "cmp",
        Inst::JO(_) => "jo",
        Inst::JNO(_) => "jno",
        Inst::JB(_) => "jb",
        Inst::JNB(_) => "jnb",
        Inst::JE(_) => "je",
        Inst::JNE(_) => "jne",
        Inst::JBE(_) => "jbe",
        Inst::JNBE(_) => "jnbe",
        Inst::JS(_) => "js",
        Inst::JNS(_) => "jns",
        Inst::JP(_) => "jp",
        Inst::JNP(_) => "jnp",
        Inst::JL(_) => "jl",
        Inst::JNL(_) => "jnl",
        Inst::JLE(_) => "jle",
        Inst::JNLE(_) => "jnle",
        Inst::LOOPNZ(_) => "loopnz",
        Inst::LOOPZ(_) => "loopz",
        Inst::LOOP(_) => "loop",
        Inst::JCXZ(_) => "jcxz",
        Inst::HLT => "hlt",
    }
}

impl Inst {
    /// The assembler line for this instruction (without a newline).
    pub fn to_string(&self) -> (r: String)
        ensures
            r@ == spec_inst_str(*self),
    {
        proof {
            reveal_strlit(" ");
            reveal_strlit(", ");
        }
        let mut s = String::from_str(mnemonic_str(self));
        match self {
            Inst::MOV(op1, op2) => {
                s.append(" ");
                s.append(op1.to_string().as_str());
                s.append(", ");
                s.append(op2.to_string().as_str());
            },
            Inst::ADD(op1, op2) => {
                s.append(" ");
                s.append(op1.to_string().as_str());
                s.append(", ");
                s.append(op2.to_string().as_str());
            },
            Inst::SUB(op1, op2) => {
                s.append(" ");
                s.append(op1.to_string().as_str());
                s.append(", ");
                s.append(op2.to_string().as_str());
            },
            Inst::CMP(op1, op2) => {
                s.append(" ");
                s.append(op1.to_string().as_str());
                s.append(", ");
                s.append(op2.to_string().as_str());
            },
            Inst::HLT => {
            },
            Inst::JO(op) => {
                s.append(" ");
                s.append(op.to_string().as_str());
            },
            Inst::JNO(op) => {
                s.append(" ");
                s.append(op.to_string().as_str());
            },
            Inst::JB(op) => {
                s.append(" ");
                s.append(op.to_string().as_str());
            },
            Inst::JNB(op) => {
                s.append(" ");
                s.append(op.to_string().as_str());
            },
            Inst::JE(op) => {
                s.append(" ");
                s.append(op.to_string().as_str());
            },
            Inst::JNE(op) => {
                s.append(" ");
                s.append(op.to_string().as_str());
            },
            Inst::JBE(op) => {
                s.append(" ");
                s.append(op.to_string().as_str());
            },
            Inst::JNBE(op) => {
                s.append(" ");
                s.append(op.to_string().as_str());
            },
            Inst::JS(op) => {
                s.append(" ");
                s.append(op.to_string().as_str());
            },
            Inst::JNS(op) => {
                s.append(" ");
                s.append(op.to_string().as_str());
            },
            Inst::JP(op) => {
                s.append(" ");
                s.append(op.to_string().as_str());
            },
            Inst::JNP(op) => {
                s.append(" ");
                s.append(op.to_string().as_str());
            },
            Inst::JL(op) => {
                s.append(" ");
                s.append(op.to_string().as_str());
            },
            Inst::JNL(op) => {
                s.append(" ");
                s.append(op.to_string().as_str());
            },
            Inst::JLE(op) => {
                s.append(" ");
                s.append(op.to_string().as_str());
            },
            Inst::JNLE(op) => {
                s.append(" ");
                s.append(op.to_string().as_str());
            },
            Inst::LOOPNZ(op) => {
                s.append(" ");
                s.append(op.to_string().as_str());
            },
            Inst::LOOPZ(op) => {
                s.append(" ");
                s.append(op.to_string().as_str());
            },
            Inst::LOOP(op) => {
                s.append(" ");
                s.append(op.to_string().as_str());
            },
            Inst::JCXZ(op) => {
                s.append(" ");
                s.append(op.to_string().as_str());
            },
        }
        s
    }
}

// ---------------------------------------------------------------------
// Whole listings
// ---------------------------------------------------------------------
/// The fixed header declaring 16-bit mode, required by an assembler to
/// re-encode the listing correctly.
pub open spec fn spec_header() -> Seq<char> {
    seq!['b', 'i', 't', 's', ' ', '1', '6', '\n', '\n']
}

/// Each instruction's line followed by a newline.
pub open spec fn spec_lines(insts: Seq<Inst>) -> Seq<char>
    decreases insts.len(),
{
    if insts.len() == 0 {
        Seq::empty()
    } else {
        spec_inst_str(insts[0]) + seq!['\n'] + spec_lines(insts.skip(1))
    }
}

/// A whole disassembly: the 16-bit-mode header, then one line per
/// instruction.
pub open spec fn spec_disassemble(insts: Seq<Inst>) -> Seq<char> {
    spec_header() + spec_lines(insts)
}

/// Peeling one instruction's line off the end of a prefix.
proof fn lemma_lines_take_step(insts: Seq<Inst>, k: int)
    requires
        0 <= k < insts.len(),
    ensures
        spec_lines(insts.take(k + 1)) == spec_lines(insts.take(k)) + (spec_inst_str(insts[k])
            + seq!['\n']),
    decreases k,
{
    if k == 0 {
        let single = seq![insts[0]];
        assert(insts.take(1) =~= single);
        assert(single.skip(1) =~= Seq::<Inst>::empty());
        assert(insts.take(0) =~= Seq::<Inst>::empty());
        assert(spec_lines(Seq::<Inst>::empty()) == Seq::<char>::empty());
        assert(spec_lines(single) == spec_inst_str(single[0]) + seq!['\n'] + spec_lines(
            single.skip(1),
        ));
        assert(single[0] == insts[0]);
        assert(spec_inst_str(insts[0]) + seq!['\n'] + Seq::<char>::empty() =~= Seq::<
            char,
        >::empty() + (spec_inst_str(insts[0]) + seq!['\n']));
    } else {
        lemma_lines_take_step(insts.skip(1), k - 1);
        assert(insts.take(k + 1).skip(1) =~= insts.skip(1).take(k));
        assert(insts.take(k).skip(1) =~= insts.skip(1).take(k - 1));
        assert(insts.take(k + 1)[0] == insts[0]);
        assert(insts.take(k)[0] == insts[0]);
        assert(insts.skip(1)[k - 1] == insts[k]);
        assert(spec_inst_str(insts[0]) + seq!['\n'] + (spec_lines(insts.skip(1).take(k - 1)) + (
        spec_inst_str(insts[k]) + seq!['\n'])) =~= (spec_inst_str(insts[0]) + seq!['\n']
            + spec_lines(insts.skip(1).take(k - 1))) + (spec_inst_str(insts[k]) + seq!['\n']));
    }
}

/// Render an ordered sequence of decoded instructions as assembler text,
/// beginning with the fixed 16-bit-mode header.
pub fn disassemble(insts: &Vec<Inst>) -> (r: String)
    ensures
        r@ == spec_disassemble(insts@),
{
    proof {
        reveal_strlit("bits 16\n\n");
        reveal_strlit("\n");
    }
    let mut s = String::from_str("bits 16\n\n");
    assert(s@ =~= spec_header());
    let n = insts.len();
    let mut k: usize = 0;
    assert(insts@.take(0) =~= Seq::<Inst>::empty());
    while k < n
        invariant
            k <= n,
            n == insts@.len(),
            s@ == spec_header() + spec_lines(insts@.take(k as int)),
        decreases n - k,
    {
        proof {
            reveal_strlit("\n");
            lemma_lines_take_step(insts@, k as int);
        }
        s.append(insts[k].to_string().as_str());
        s.append("\n");
        proof {
            assert((spec_header() + spec_lines(insts@.take(k as int))) + spec_inst_str(
                insts@[k as int],
            ) + seq!['\n'] =~= spec_header() + spec_lines(insts@.take(k as int + 1)));
        }
        k = k + 1;
    }
    assert(insts@.take(n as int) =~= insts@);
    s
}

// ---------------------------------------------------------------------
// Flags as text
// ---------------------------------------------------------------------
/// The set flags in the fixed order P, Z, S; one letter each.
pub open spec fn spec_flags_str(flags: u16) -> Seq<char> {
    (if spec_flag_set(flags, Flag::Parity) {
        seq!['P']
    } else {
        Seq::<char>::empty()
    }) + (if spec_flag_set(flags, Flag::Zero) {
        seq!['Z']
    } else {
        Seq::<char>::empty()
    }) + (if spec_flag_set(flags, Flag::Signed) {
        seq!['S']
    } else {
        Seq::<char>::empty()
    })
}

impl State {
    /// The set flags as a string of their letters, in the order P, Z, S.
    pub fn flags_as_string(&self) -> (r: String)
        ensures
            r@ == spec_flags_str(self.flags),
    {
        proof {
            reveal_strlit("P");
            reveal_strlit("Z");
            reveal_strlit("S");
        }
        let mut s = String::new();
        if self.is_set(Flag::Parity) {
            s.append("P");
        }
        if self.is_set(Flag::Zero) {
            s.append("Z");
        }
        if self.is_set(Flag::Signed) {
            s.append("S");
        }
        assert(s@ =~= spec_flags_str(self.flags));
        s
    }
}

// ---------------------------------------------------------------------
// Idempotent formatting
// ---------------------------------------------------------------------
/// Law: disassembling, re-encoding the instructions, and decoding the
/// bytes again yields the same instruction sequence, so the second
/// disassembly is character-for-character the first.
pub proof fn lemma_disassembly_idempotent(insts: Seq<Inst>)
    requires
        forall|k: int| 0 <= k < insts.len() ==> insts[k].spec_canon(),
    ensures
        spec_decode_all(spec_encode_all(insts), 0) == Some(insts),
        spec_disassemble(spec_decode_all(spec_encode_all(insts), 0)->Some_0) == spec_disassemble(
            insts,
        ),
{
    lemma_encode_all_decode_all(insts);
}

} // verus!
