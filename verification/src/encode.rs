//! The canonical encoder: renders a canonical instruction back into bytes,
//! and the round-trip theorems tying it to the decoder.
//!
//! `spec_encode` fixes one byte encoding for every canonical instruction.
//! The round-trip theorems tying it to the decoder stand beside it in the
//! `roundtrip` module.

use vstd::prelude::*;

use crate::inst::{spec_ea_rm, EffAddr, Inst, Operand, Register};

verus! {

// ---------------------------------------------------------------------
// Byte-level building blocks
// ---------------------------------------------------------------------
/// The two little-endian bytes of a 16-bit word.
pub open spec fn spec_le_bytes(v: u16) -> Seq<u8> {
    seq![(v % 256) as u8, (v / 256) as u8]
}

/// A mod-reg-r/m byte from its three fields.
pub open spec fn spec_modrm(mode: u8, mid: u8, rm: u8) -> u8
    recommends
        mode < 4,
        mid < 8,
        rm < 8,
{
    (mode * 64 + mid * 8 + rm) as u8
}

impl Register {
    /// The register's 3-bit encoding number.
    pub fn code(&self) -> (r: u8)
        ensures
            r == self.spec_code(),
            r < 8,
    {
        match self {
            Register::AL => 0,
            Register::CL => 1,
            Register::DL => 2,
            Register::BL => 3,
            Register::AH => 4,
            Register::CH => 5,
            Register::DH => 6,
            Register::BH => 7,
            Register::AX => 0,
            Register::CX => 1,
            Register::DX => 2,
            Register::BX => 3,
            Register::SP => 4,
            Register::BP => 5,
            Register::SI => 6,
            Register::DI => 7,
        }
    }

    /// Whether this is a 16-bit register.
    pub fn is_wide(&self) -> (r: bool)
        ensures
            r == self.spec_is_wide(),
    {
        match self {
            Register::AX => true,
            Register::CX => true,
            Register::DX => true,
            Register::BX => true,
            Register::SP => true,
            Register::BP => true,
            Register::SI => true,
            Register::DI => true,
            _ => false,
        }
    }
}

// ---------------------------------------------------------------------
// Effective-address encoding
// ---------------------------------------------------------------------
/// The mode field the encoder picks for a canonical effective address:
/// direct addresses use mode 0 (with r/m 6); a bare BP uses mode 1 with a
/// zero displacement byte, since mode 0 with r/m 6 means "direct"; other
/// displacement-free pairings use mode 0; a short displacement uses mode
/// 1, a long one mode 2.
pub open spec fn spec_enc_ea_mode(ea: EffAddr) -> u8
    recommends
        ea.spec_canon(),
{
    if ea.spec_is_direct() {
        0
    } else {
        match ea.offset {
            None => if spec_ea_rm(ea) == Some(6u8) {
                1
            } else {
                0
            },
            Some(d) => if -128 <= d <= 127 {
                1
            } else {
                2
            },
        }
    }
}

/// The r/m field the encoder picks for a canonical effective address.
pub open spec fn spec_enc_ea_rm(ea: EffAddr) -> u8
    recommends
        ea.spec_canon(),
{
    if ea.spec_is_direct() {
        6
    } else {
        match spec_ea_rm(ea) {
            Some(rm) => rm,
            None => 0,
        }
    }
}

/// The displacement bytes the encoder emits for a canonical effective
/// address.
pub open spec fn spec_enc_ea_disp(ea: EffAddr) -> Seq<u8>
    recommends
        ea.spec_canon(),
{
    if ea.spec_is_direct() {
        match ea.offset {
            Some(d) => spec_le_bytes(d as u16),
            None => Seq::empty(),
        }
    } else {
        match ea.offset {
            None => if spec_ea_rm(ea) == Some(6u8) {
                seq![0u8]
            } else {
                Seq::empty()
            },
            Some(d) => if -128 <= d <= 127 {
                seq![d as u8]
            } else {
                spec_le_bytes(d as u16)
            },
        }
    }
}

// ---------------------------------------------------------------------
// Operand-position encodings
// ---------------------------------------------------------------------
/// The mode field for a register-or-memory destination.
pub open spec fn spec_dst_mode(dst: Operand) -> u8 {
    match dst {
        Operand::Reg(_) => 3,
        Operand::MemByte(ea) => spec_enc_ea_mode(ea),
        Operand::MemWord(ea) => spec_enc_ea_mode(ea),
        _ => 0,
    }
}

/// The r/m field for a register-or-memory destination.
pub open spec fn spec_dst_rm(dst: Operand) -> u8 {
    match dst {
        Operand::Reg(r) => r.spec_code(),
        Operand::MemByte(ea) => spec_enc_ea_rm(ea),
        Operand::MemWord(ea) => spec_enc_ea_rm(ea),
        _ => 0,
    }
}

/// The displacement bytes for a register-or-memory destination.
pub open spec fn spec_dst_disp(dst: Operand) -> Seq<u8> {
    match dst {
        Operand::MemByte(ea) => spec_enc_ea_disp(ea),
        Operand::MemWord(ea) => spec_enc_ea_disp(ea),
        _ => Seq::empty(),
    }
}

/// The mod-reg-r/m byte and displacement for a register-or-memory operand,
/// with `mid` in the middle field.
pub open spec fn spec_enc_dst(mid: u8, dst: Operand) -> Seq<u8>
    recommends
        mid < 8,
{
    seq![spec_modrm(spec_dst_mode(dst), mid, spec_dst_rm(dst))] + spec_dst_disp(dst)
}

/// A whole reg/rm-layout instruction: the opcode byte (base plus direction
/// and width bits), the mod-reg-r/m byte, and any displacement.
pub open spec fn spec_enc_reg_rm(base: int, d: bool, reg: Register, rmop: Operand) -> Seq<u8> {
    seq![
        (base + (if d {
            2int
        } else {
            0int
        }) + (if reg.spec_is_wide() {
            1int
        } else {
            0int
        })) as u8,
    ] + spec_enc_dst(reg.spec_code(), rmop)
}

// ---------------------------------------------------------------------
// Instruction encodings
// ---------------------------------------------------------------------
/// The canonical encoding of a MOV.
pub open spec fn spec_enc_mov(op1: Operand, op2: Operand) -> Seq<u8> {
    match (op1, op2) {
        (Operand::Reg(a), Operand::Reg(_)) => spec_enc_reg_rm(0x88, true, a, op2),
        (Operand::Reg(a), Operand::MemByte(_)) => spec_enc_reg_rm(0x88, true, a, op2),
        (Operand::Reg(a), Operand::MemWord(_)) => spec_enc_reg_rm(0x88, true, a, op2),
        (Operand::MemByte(_), Operand::Reg(b)) => spec_enc_reg_rm(0x88, false, b, op1),
        (Operand::MemWord(_), Operand::Reg(b)) => spec_enc_reg_rm(0x88, false, b, op1),
        (Operand::Reg(a), Operand::ImmByte(v)) => seq![(0xb0 + a.spec_code()) as u8, v],
        (Operand::Reg(a), Operand::ImmWord(v)) => seq![(0xb8 + a.spec_code()) as u8]
            + spec_le_bytes(v),
        (Operand::MemByte(_), Operand::ImmByte(v)) => seq![0xc6u8] + spec_enc_dst(0, op1)
            + seq![v],
        (Operand::MemWord(_), Operand::ImmWord(v)) => seq![0xc7u8] + spec_enc_dst(0, op1)
            + spec_le_bytes(v),
        _ => Seq::empty(),
    }
}

/// The canonical encoding of an ADD/SUB/CMP with arithmetic sub-opcode
/// `c`.
pub open spec fn spec_enc_arith(c: u8, op1: Operand, op2: Operand) -> Seq<u8>
    recommends
        c == 0 || c == 5 || c == 7,
{
    match (op1, op2) {
        (Operand::Reg(a), Operand::Reg(_)) => spec_enc_reg_rm(c * 8, true, a, op2),
        (Operand::Reg(a), Operand::MemByte(_)) => spec_enc_reg_rm(c * 8, true, a, op2),
        (Operand::Reg(a), Operand::MemWord(_)) => spec_enc_reg_rm(c * 8, true, a, op2),
        (Operand::MemByte(_), Operand::Reg(b)) => spec_enc_reg_rm(c * 8, false, b, op1),
        (Operand::MemWord(_), Operand::Reg(b)) => spec_enc_reg_rm(c * 8, false, b, op1),
        (Operand::Reg(a), Operand::ImmByte(v)) => (if a.spec_is_wide() {
            seq![0x83u8]
        } else {
            seq![0x80u8]
        }) + spec_enc_dst(c, op1) + seq![v],
        (Operand::Reg(_), Operand::ImmWord(v)) => seq![0x81u8] + spec_enc_dst(c, op1)
            + spec_le_bytes(v),
        (Operand::MemByte(_), Operand::ImmByte(v)) => seq![0x80u8] + spec_enc_dst(c, op1)
            + seq![v],
        (Operand::MemWord(_), Operand::ImmByte(v)) => seq![0x83u8] + spec_enc_dst(c, op1)
            + seq![v],
        (Operand::MemWord(_), Operand::ImmWord(v)) => seq![0x81u8] + spec_enc_dst(c, op1)
            + spec_le_bytes(v),
        _ => Seq::empty(),
    }
}

/// The two bytes of a conditional jump with condition code `cc`.
pub open spec fn spec_enc_jmp(cc: u8, op: Operand) -> Seq<u8>
    recommends
        cc < 16,
        op is RelOffsetByte,
{
    seq![(0x70 + cc) as u8, op->RelOffsetByte_0 as u8]
}

/// The two bytes of a loop-family instruction with code `cc`.
pub open spec fn spec_enc_loop(cc: u8, op: Operand) -> Seq<u8>
    recommends
        cc < 4,
        op is RelOffsetByte,
{
    seq![(0xe0 + cc) as u8, op->RelOffsetByte_0 as u8]
}

/// The canonical byte encoding of an instruction. Meaningful exactly for
/// canonical instructions.
pub open spec fn spec_encode(i: Inst) -> Seq<u8>
    recommends
        i.spec_canon(),
{
    match i {
        Inst::MOV(op1, op2) => spec_enc_mov(op1, op2),
        Inst::ADD(op1, op2) => spec_enc_arith(0, op1, op2),
        Inst::SUB(op1, op2) => spec_enc_arith(5, op1, op2),
        Inst::CMP(op1, op2) => spec_enc_arith(7, op1, op2),
        Inst::JO(op) => spec_enc_jmp(0, op),
        Inst::JNO(op) => spec_enc_jmp(1, op),
        Inst::JB(op) => spec_enc_jmp(2, op),
        Inst::JNB(op) => spec_enc_jmp(3, op),
        Inst::JE(op) => spec_enc_jmp(4, op),
        Inst::JNE(op) => spec_enc_jmp(5, op),
        Inst::JBE(op) => spec_enc_jmp(6, op),
        Inst::JNBE(op) => spec_enc_jmp(7, op),
        Inst::JS(op) => spec_enc_jmp(8, op),
        Inst::JNS(op) => spec_enc_jmp(9, op),
        Inst::JP(op) => spec_enc_jmp(10, op),
        Inst::JNP(op) => spec_enc_jmp(11, op),
        Inst::JL(op) => spec_enc_jmp(12, op),
        Inst::JNL(op) => spec_enc_jmp(13, op),
        Inst::JLE(op) => spec_enc_jmp(14, op),
        Inst::JNLE(op) => spec_enc_jmp(15, op),
        Inst::LOOPNZ(op) => spec_enc_loop(0, op),
        Inst::LOOPZ(op) => spec_enc_loop(1, op),
        Inst::LOOP(op) => spec_enc_loop(2, op),
        Inst::JCXZ(op) => spec_enc_loop(3, op),
        Inst::HLT => seq![0xf4u8],
    }
}

/// The canonical encoding of a whole instruction sequence.
pub open spec fn spec_encode_all(insts: Seq<Inst>) -> Seq<u8>
    decreases insts.len(),
{
    if insts.len() == 0 {
        Seq::empty()
    } else {
        spec_encode(insts[0]) + spec_encode_all(insts.skip(1))
    }
}

// ---------------------------------------------------------------------
// The executable encoder
// ---------------------------------------------------------------------
impl EffAddr {
    /// Whether the encoder accepts this effective address.
    pub fn check_canon(&self) -> (r: bool)
        ensures
            r == self.spec_canon(),
    {
        match (self.base, self.index) {
            (None, None) => match self.offset {
                Some(d) => d != 0,
                None => false,
            },
            _ => {
                let pair_ok = match (self.base, self.index) {
                    (Some(Register::BX), Some(Register::SI)) => true,
                    (Some(Register::BX), Some(Register::DI)) => true,
                    (Some(Register::BP), Some(Register::SI)) => true,
                    (Some(Register::BP), Some(Register::DI)) => true,
                    (Some(Register::SI), None) => true,
                    (Some(Register::DI), None) => true,
                    (Some(Register::BP), None) => true,
                    (Some(Register::BX), None) => true,
                    _ => false,
                };
                let off_ok = match self.offset {
                    Some(d) => d != 0,
                    None => true,
                };
                pair_ok && off_ok
            },
        }
    }
}

fn ea_rm_code(ea: EffAddr) -> (r: u8)
    requires
        spec_ea_rm(ea) is Some,
    ensures
        Some(r) == spec_ea_rm(ea),
        r < 8,
{
    match (ea.base, ea.index) {
        (Some(Register::BX), Some(Register::SI)) => 0,
        (Some(Register::BX), Some(Register::DI)) => 1,
        (Some(Register::BP), Some(Register::SI)) => 2,
        (Some(Register::BP), Some(Register::DI)) => 3,
        (Some(Register::SI), None) => 4,
        (Some(Register::DI), None) => 5,
        (Some(Register::BP), None) => 6,
        (Some(Register::BX), None) => 7,
        _ => 0,
    }
}

fn push_le_bytes(out: &mut Vec<u8>, v: u16)
    ensures
        final(out)@ == old(out)@ + spec_le_bytes(v),
{
    out.push((v % 256) as u8);
    out.push((v / 256) as u8);
    assert(out@ =~= old(out)@ + spec_le_bytes(v));
}

/// Append the mod-reg-r/m byte and displacement bytes for a
/// register-or-memory operand.
fn push_dst(out: &mut Vec<u8>, mid: u8, dst: Operand)
    requires
        mid < 8,
        dst matches Operand::Reg(_) || (dst matches Operand::MemByte(ea) && ea.spec_canon()) || (
        dst matches Operand::MemWord(ea) && ea.spec_canon()),
    ensures
        final(out)@ == old(out)@ + spec_enc_dst(mid, dst),
{
    match dst {
        Operand::Reg(r) => {
            out.push(3 * 64 + mid * 8 + r.code());
            assert(out@ =~= old(out)@ + spec_enc_dst(mid, dst));
        },
        Operand::MemByte(ea) => {
            push_ea(out, mid, ea);
            assert(out@ =~= old(out)@ + spec_enc_dst(mid, dst));
        },
        Operand::MemWord(ea) => {
            push_ea(out, mid, ea);
            assert(out@ =~= old(out)@ + spec_enc_dst(mid, dst));
        },
        _ => {
        },
    }
}

fn push_ea(out: &mut Vec<u8>, mid: u8, ea: EffAddr)
    requires
        mid < 8,
        ea.spec_canon(),
    ensures
        final(out)@ == old(out)@ + seq![
            spec_modrm(spec_enc_ea_mode(ea), mid, spec_enc_ea_rm(ea)),
        ] + spec_enc_ea_disp(ea),
{
    match (ea.base, ea.index) {
        (None, None) => {
            // The direct-address form: mode 0, r/m 6, mandatory 16-bit
            // displacement.
            out.push(0 * 64 + mid * 8 + 6);
            let d = match ea.offset {
                Some(d) => d,
                None => 0,
            };
            push_le_bytes(out, d as u16);
            assert(out@ =~= old(out)@ + seq![
                spec_modrm(spec_enc_ea_mode(ea), mid, spec_enc_ea_rm(ea)),
            ] + spec_enc_ea_disp(ea));
        },
        _ => {
            let rm = ea_rm_code(ea);
            match ea.offset {
                None => {
                    if rm == 6 {
                        // A bare BP cannot use mode 0 (that means "direct");
                        // encode it as mode 1 with a zero displacement byte.
                        out.push(1 * 64 + mid * 8 + 6);
                        out.push(0);
                    } else {
                        out.push(0 * 64 + mid * 8 + rm);
                    }
                },
                Some(d) => {
                    if -128 <= d && d <= 127 {
                        out.push(1 * 64 + mid * 8 + rm);
                        out.push(d as u8);
                    } else {
                        out.push(2 * 64 + mid * 8 + rm);
                        push_le_bytes(out, d as u16);
                    }
                },
            }
            assert(out@ =~= old(out)@ + seq![
                spec_modrm(spec_enc_ea_mode(ea), mid, spec_enc_ea_rm(ea)),
            ] + spec_enc_ea_disp(ea));
        },
    }
}

impl Inst {
    /// Whether the encoder accepts this instruction: its operand shapes
    /// and widths fit some encoding and its effective addresses are
    /// canonical.
    pub fn check_canon(&self) -> (r: bool)
        ensures
            r == self.spec_canon(),
    {
        match self {
            Inst::MOV(op1, op2) => check_mov_operands(*op1, *op2),
            Inst::ADD(op1, op2) => check_arith_operands(*op1, *op2),
            Inst::SUB(op1, op2) => check_arith_operands(*op1, *op2),
            Inst::CMP(op1, op2) => check_arith_operands(*op1, *op2),
            Inst::HLT => true,
            Inst::JO(op) => matches!(op, Operand::RelOffsetByte(_)),
            Inst::JNO(op) => matches!(op, Operand::RelOffsetByte(_)),
            Inst::JB(op) => matches!(op, Operand::RelOffsetByte(_)),
            Inst::JNB(op) => matches!(op, Operand::RelOffsetByte(_)),
            Inst::JE(op) => matches!(op, Operand::RelOffsetByte(_)),
            Inst::JNE(op) => matches!(op, Operand::RelOffsetByte(_)),
            Inst::JBE(op) => matches!(op, Operand::RelOffsetByte(_)),
            Inst::JNBE(op) => matches!(op, Operand::RelOffsetByte(_)),
            Inst::JS(op) => matches!(op, Operand::RelOffsetByte(_)),
            Inst::JNS(op) => matches!(op, Operand::RelOffsetByte(_)),
            Inst::JP(op) => matches!(op, Operand::RelOffsetByte(_)),
            Inst::JNP(op) => matches!(op, Operand::RelOffsetByte(_)),
            Inst::JL(op) => matches!(op, Operand::RelOffsetByte(_)),
            Inst::JNL(op) => matches!(op, Operand::RelOffsetByte(_)),
            Inst::JLE(op) => matches!(op, Operand::RelOffsetByte(_)),
            Inst::JNLE(op) => matches!(op, Operand::RelOffsetByte(_)),
            Inst::LOOPNZ(op) => matches!(op, Operand::RelOffsetByte(_)),
            Inst::LOOPZ(op) => matches!(op, Operand::RelOffsetByte(_)),
            Inst::LOOP(op) => matches!(op, Operand::RelOffsetByte(_)),
            Inst::JCXZ(op) => matches!(op, Operand::RelOffsetByte(_)),
        }
    }
}

fn check_mov_operands(op1: Operand, op2: Operand) -> (r: bool)
    ensures
        r == crate::inst::spec_mov_operands_wf(op1, op2, true),
{
    match (op1, op2) {
        (Operand::Reg(a), Operand::Reg(b)) => a.is_wide() == b.is_wide(),
        (Operand::Reg(a), Operand::MemByte(ea)) => !a.is_wide() && ea.check_canon(),
        (Operand::Reg(a), Operand::MemWord(ea)) => a.is_wide() && ea.check_canon(),
        (Operand::MemByte(ea), Operand::Reg(b)) => !b.is_wide() && ea.check_canon(),
        (Operand::MemWord(ea), Operand::Reg(b)) => b.is_wide() && ea.check_canon(),
        (Operand::Reg(a), Operand::ImmByte(_)) => !a.is_wide(),
        (Operand::Reg(a), Operand::ImmWord(_)) => a.is_wide(),
        (Operand::MemByte(ea), Operand::ImmByte(_)) => ea.check_canon(),
        (Operand::MemWord(ea), Operand::ImmWord(_)) => ea.check_canon(),
        _ => false,
    }
}

fn check_arith_operands(op1: Operand, op2: Operand) -> (r: bool)
    ensures
        r == crate::inst::spec_arith_operands_wf(op1, op2, true),
{
    match (op1, op2) {
        (Operand::Reg(a), Operand::Reg(b)) => a.is_wide() == b.is_wide(),
        (Operand::Reg(a), Operand::MemByte(ea)) => !a.is_wide() && ea.check_canon(),
        (Operand::Reg(a), Operand::MemWord(ea)) => a.is_wide() && ea.check_canon(),
        (Operand::MemByte(ea), Operand::Reg(b)) => !b.is_wide() && ea.check_canon(),
        (Operand::MemWord(ea), Operand::Reg(b)) => b.is_wide() && ea.check_canon(),
        (Operand::Reg(_), Operand::ImmByte(_)) => true,
        (Operand::Reg(a), Operand::ImmWord(_)) => a.is_wide(),
        (Operand::MemByte(ea), Operand::ImmByte(_)) => ea.check_canon(),
        (Operand::MemWord(ea), Operand::ImmByte(_)) => ea.check_canon(),
        (Operand::MemWord(ea), Operand::ImmWord(_)) => ea.check_canon(),
        _ => false,
    }
}

/// Append the canonical encoding of a reg/rm-layout instruction.
fn push_reg_rm(out: &mut Vec<u8>, base: u8, d: bool, reg: Register, rmop: Operand)
    requires
        base == 0x88 || base == 0 || base == 40 || base == 56,
        rmop matches Operand::Reg(_) || (rmop matches Operand::MemByte(ea) && ea.spec_canon()) || (
        rmop matches Operand::MemWord(ea) && ea.spec_canon()),
    ensures
        final(out)@ == old(out)@ + spec_enc_reg_rm(base as int, d, reg, rmop),
{
    let mut b0: u8 = base;
    if d {
        b0 = b0 + 2;
    }
    if reg.is_wide() {
        b0 = b0 + 1;
    }
    out.push(b0);
    push_dst(out, reg.code(), rmop);
    assert(out@ =~= old(out)@ + spec_enc_reg_rm(base as int, d, reg, rmop));
}

/// Append the canonical encoding of a MOV or arithmetic instruction with
/// two operands; `base` is 0x88 for MOV and the shifted sub-opcode for
/// arithmetic, and the immediate opcode bytes follow `family`.
fn push_two_operand(out: &mut Vec<u8>, arith: Option<u8>, op1: Operand, op2: Operand)
    requires
        match arith {
            None => crate::inst::spec_mov_operands_wf(op1, op2, true),
            Some(c) => (c == 0 || c == 5 || c == 7) && crate::inst::spec_arith_operands_wf(
                op1,
                op2,
                true,
            ),
        },
    ensures
        final(out)@ == old(out)@ + match arith {
            None => spec_enc_mov(op1, op2),
            Some(c) => spec_enc_arith(c, op1, op2),
        },
{
    let base: u8 = match arith {
        None => 0x88,
        Some(c) => c * 8,
    };
    match (op1, op2) {
        (Operand::Reg(a), Operand::Reg(_)) => {
            push_reg_rm(out, base, true, a, op2);
        },
        (Operand::Reg(a), Operand::MemByte(_)) => {
            push_reg_rm(out, base, true, a, op2);
        },
        (Operand::Reg(a), Operand::MemWord(_)) => {
            push_reg_rm(out, base, true, a, op2);
        },
        (Operand::MemByte(_), Operand::Reg(b)) => {
            push_reg_rm(out, base, false, b, op1);
        },
        (Operand::MemWord(_), Operand::Reg(b)) => {
            push_reg_rm(out, base, false, b, op1);
        },
        (Operand::Reg(a), Operand::ImmByte(v)) => {
            match arith {
                None => {
                    out.push(0xb0 + a.code());
                    out.push(v);
                },
                Some(c) => {
                    if a.is_wide() {
                        out.push(0x83);
                    } else {
                        out.push(0x80);
                    }
                    push_dst(out, c, op1);
                    out.push(v);
                },
            }
        },
        (Operand::Reg(a), Operand::ImmWord(v)) => {
            match arith {
                None => {
                    out.push(0xb8 + a.code());
                    push_le_bytes(out, v);
                },
                Some(c) => {
                    out.push(0x81);
                    push_dst(out, c, op1);
                    push_le_bytes(out, v);
                },
            }
        },
        (Operand::MemByte(_), Operand::ImmByte(v)) => {
            match arith {
                None => {
                    out.push(0xc6);
                },
                Some(_) => {
                    out.push(0x80);
                },
            }
            let mid: u8 = match arith {
                None => 0,
                Some(c) => c,
            };
            push_dst(out, mid, op1);
            out.push(v);
        },
        (Operand::MemWord(_), Operand::ImmByte(v)) => {
            match arith {
                None => {
                },
                Some(c) => {
                    out.push(0x83);
                    push_dst(out, c, op1);
                    out.push(v);
                },
            }
        },
        (Operand::MemWord(_), Operand::ImmWord(v)) => {
            match arith {
                None => {
                    out.push(0xc7);
                    push_dst(out, 0, op1);
                    push_le_bytes(out, v);
                },
                Some(c) => {
                    out.push(0x81);
                    push_dst(out, c, op1);
                    push_le_bytes(out, v);
                },
            }
        },
        _ => {
        },
    }
    assert(out@ =~= old(out)@ + match arith {
        None => spec_enc_mov(op1, op2),
        Some(c) => spec_enc_arith(c, op1, op2),
    });
}

fn rel_byte(op: Operand) -> (r: u8)
    requires
        op is RelOffsetByte,
    ensures
        r == op->RelOffsetByte_0 as u8,
{
    match op {
        Operand::RelOffsetByte(x) => x as u8,
        _ => 0,
    }
}

impl Inst {
    /// The canonical byte encoding of this instruction, or `None` when the
    /// instruction is not canonical (its operand shapes fit no encoding).
    pub fn encode(&self) -> (r: Option<Vec<u8>>)
        ensures
            (r is Some) == self.spec_canon(),
            r matches Some(v) ==> v@ == spec_encode(*self),
    {
        if !self.check_canon() {
            return None;
        }
        let mut out: Vec<u8> = Vec::new();
        match self {
            Inst::MOV(op1, op2) => push_two_operand(&mut out, None, *op1, *op2),
            Inst::ADD(op1, op2) => push_two_operand(&mut out, Some(0), *op1, *op2),
            Inst::SUB(op1, op2) => push_two_operand(&mut out, Some(5), *op1, *op2),
            Inst::CMP(op1, op2) => push_two_operand(&mut out, Some(7), *op1, *op2),
            Inst::HLT => out.push(0xf4),
            Inst::JO(op) => {
                out.push(0x70);
                out.push(rel_byte(*op));
            },
            Inst::JNO(op) => {
                out.push(0x71);
                out.push(rel_byte(*op));
            },
            Inst::JB(op) => {
                out.push(0x72);
                out.push(rel_byte(*op));
            },
            Inst::JNB(op) => {
                out.push(0x73);
                out.push(rel_byte(*op));
            },
            Inst::JE(op) => {
                out.push(0x74);
                out.push(rel_byte(*op));
            },
            Inst::JNE(op) => {
                out.push(0x75);
                out.push(rel_byte(*op));
            },
            Inst::JBE(op) => {
                out.push(0x76);
                out.push(rel_byte(*op));
            },
            Inst::JNBE(op) => {
                out.push(0x77);
                out.push(rel_byte(*op));
            },
            Inst::JS(op) => {
                out.push(0x78);
                out.push(rel_byte(*op));
            },
            Inst::JNS(op) => {
                out.push(0x79);
                out.push(rel_byte(*op));
            },
            Inst::JP(op) => {
                out.push(0x7a);
                out.push(rel_byte(*op));
            },
            Inst::JNP(op) => {
                out.push(0x7b);
                out.push(rel_byte(*op));
            },
            Inst::JL(op) => {
                out.push(0x7c);
                out.push(rel_byte(*op));
            },
            Inst::JNL(op) => {
                out.push(0x7d);
                out.push(rel_byte(*op));
            },
            Inst::JLE(op) => {
                out.push(0x7e);
                out.push(rel_byte(*op));
            },
            Inst::JNLE(op) => {
                out.push(0x7f);
                out.push(rel_byte(*op));
            },
            Inst::LOOPNZ(op) => {
                out.push(0xe0);
                out.push(rel_byte(*op));
            },
            Inst::LOOPZ(op) => {
                out.push(0xe1);
                out.push(rel_byte(*op));
            },
            Inst::LOOP(op) => {
                out.push(0xe2);
                out.push(rel_byte(*op));
            },
            Inst::JCXZ(op) => {
                out.push(0xe3);
                out.push(rel_byte(*op));
            },
        }
        assert(out@ =~= spec_encode(*self));
        Some(out)
    }
}

/// Encode a whole instruction sequence, or `None` when some instruction
/// is not canonical.
pub fn encode_all(insts: &Vec<Inst>) -> (r: Option<Vec<u8>>)
    ensures
        (r is Some) == (forall|k: int| 0 <= k < insts@.len() ==> insts@[k].spec_canon()),
        r matches Some(v) ==> v@ == spec_encode_all(insts@),
{
    let mut out: Vec<u8> = Vec::new();
    let n = insts.len();
    for k in 0..n
        invariant
            n == insts@.len(),
            forall|j: int| 0 <= j < k ==> insts@[j].spec_canon(),
            out@ == spec_encode_all(insts@.take(k as int)),
    {
        match insts[k].encode() {
            None => {
                return None;
            },
            Some(enc) => {
                proof {
                    lemma_encode_all_take_step(insts@, k as int);
                }
                let mut enc = enc;
                out.append(&mut enc);
            },
        }
    }
    assert(insts@.take(n as int) =~= insts@);
    Some(out)
}

/// Peeling one instruction off the end of an encoded prefix.
proof fn lemma_encode_all_take_step(insts: Seq<Inst>, k: int)
    requires
        0 <= k < insts.len(),
    ensures
        spec_encode_all(insts.take(k + 1)) == spec_encode_all(insts.take(k)) + spec_encode(
            insts[k],
        ),
    decreases k,
{
    if k == 0 {
        assert(insts.take(1) =~= seq![insts[0]]);
        assert(insts.take(1).skip(1) =~= Seq::<Inst>::empty());
        assert(insts.take(0) =~= Seq::<Inst>::empty());
        assert(spec_encode_all(seq![insts[0]].skip(1)) == Seq::<u8>::empty());
        assert(spec_encode_all(insts.take(1)) =~= spec_encode(insts[0]) + Seq::<u8>::empty());
        assert(spec_encode(insts[0]) + Seq::<u8>::empty() =~= spec_encode(insts[0]));
        assert(Seq::<u8>::empty() + spec_encode(insts[0]) =~= spec_encode(insts[0]));
    } else {
        lemma_encode_all_take_step(insts.skip(1), k - 1);
        assert(insts.take(k + 1).skip(1) =~= insts.skip(1).take(k));
        assert(insts.take(k).skip(1) =~= insts.skip(1).take(k - 1));
        assert(insts.take(k + 1)[0] == insts[0]);
        assert(insts.take(k)[0] == insts[0]);
        assert(insts.skip(1)[k - 1] == insts[k]);
        assert(spec_encode_all(insts.take(k + 1)) == spec_encode(insts[0]) + spec_encode_all(
            insts.skip(1).take(k),
        ));
        assert(spec_encode_all(insts.take(k)) == spec_encode(insts[0]) + spec_encode_all(
            insts.skip(1).take(k - 1),
        ));
        assert(spec_encode(insts[0]) + (spec_encode_all(insts.skip(1).take(k - 1)) + spec_encode(
            insts[k],
        )) =~= (spec_encode(insts[0]) + spec_encode_all(insts.skip(1).take(k - 1))) + spec_encode(
            insts[k],
        ));
    }
}

} // verus!
