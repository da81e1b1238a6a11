//! The instruction decoder: ordered, first-match-wins classification of a
//! byte stream into one instruction plus its encoded length.
//!
//! Every decoding step is specified against `spec_decode_at`, a mathematical
//! description of the same ordered dispatch over a byte sequence. Missing
//! trailing bytes are an explicit decode failure (`None`), never a fault.

use vstd::prelude::*;

use crate::bits::{get_bit, get_bits, spec_get_bit, spec_get_bits};
use crate::inst::{
    spec_arith_operands_wf, spec_ea_table, spec_mov_operands_wf, spec_reg_encoding, EffAddr, Inst,
    Operand, Register,
};

verus! {

// ---------------------------------------------------------------------
// Little-endian words and sign extension
// ---------------------------------------------------------------------
/// The unsigned 16-bit value with low byte `lo` and high byte `hi`.
pub open spec fn spec_u16_le(lo: u8, hi: u8) -> u16 {
    (lo + 256 * hi) as u16
}

/// The signed 16-bit value with low byte `lo` and high byte `hi`.
pub open spec fn spec_i16_le(lo: u8, hi: u8) -> i16 {
    spec_u16_le(lo, hi) as i16
}

/// A byte sign-extended to 16 bits.
pub open spec fn spec_sx8(b: u8) -> i16 {
    (b as i8) as i16
}

pub fn u16_le(lo: u8, hi: u8) -> (r: u16)
    ensures
        r == spec_u16_le(lo, hi),
{
    lo as u16 + 256 * (hi as u16)
}

pub fn i16_le(lo: u8, hi: u8) -> (r: i16)
    ensures
        r == spec_i16_le(lo, hi),
{
    u16_le(lo, hi) as i16
}

pub fn sx8(b: u8) -> (r: i16)
    ensures
        r == spec_sx8(b),
{
    (b as i8) as i16
}

// ---------------------------------------------------------------------
// Immediate data and displacements
// ---------------------------------------------------------------------
/// The immediate data starting at `at`: two little-endian bytes unless the
/// `(sign_extend, wide)` pair calls for a single byte.
pub open spec fn spec_dec_data(sign_extend: bool, wide: bool, s: Seq<u8>, at: int) -> Option<
    (int, u16),
>
    recommends
        0 <= at <= s.len(),
{
    if !sign_extend && wide {
        if s.len() - at < 2 {
            None
        } else {
            Some((2int, spec_u16_le(s[at], s[at + 1])))
        }
    } else {
        if s.len() - at < 1 {
            None
        } else {
            Some((1int, s[at] as u16))
        }
    }
}

/// The immediate operand carrying `data`, byte-sized iff one byte was
/// consumed.
pub open spec fn spec_data_operand(n: int, data: u16) -> Operand {
    if n == 1 {
        Operand::ImmByte(data as u8)
    } else {
        Operand::ImmWord(data)
    }
}

fn get_data(sign_extend: bool, wide: bool, binary: &[u8], at: usize) -> (r: Option<(usize, u16)>)
    requires
        at <= binary@.len(),
    ensures
        (r is Some) == (spec_dec_data(sign_extend, wide, binary@, at as int) is Some),
        r matches Some((n, v)) ==> spec_dec_data(sign_extend, wide, binary@, at as int) == Some(
            (n as int, v),
        ) && at + n <= binary@.len() && 1 <= n <= 2,
{
    if !sign_extend && wide {
        if binary.len() - at < 2 {
            None
        } else {
            Some((2, u16_le(binary[at], binary[at + 1])))
        }
    } else {
        if binary.len() - at < 1 {
            None
        } else {
            Some((1, binary[at] as u16))
        }
    }
}

// ---------------------------------------------------------------------
// Effective addresses
// ---------------------------------------------------------------------
/// A zero displacement is normalized to "absent"; it contributes nothing
/// to address computation either way.
pub open spec fn spec_norm_ea(ea: EffAddr) -> EffAddr {
    if ea.offset matches Some(d) && d == 0 {
        EffAddr { offset: None, ..ea }
    } else {
        ea
    }
}

/// The effective address selected by the 2-bit mode and 3-bit r/m fields,
/// with its displacement bytes starting at `at`. Mode 0 with r/m 6 is the
/// direct-address special case.
pub open spec fn spec_dec_ea(rm: u8, mode: u8, s: Seq<u8>, at: int) -> Option<(int, EffAddr)>
    recommends
        rm < 8,
        mode < 3,
        0 <= at <= s.len(),
{
    if mode == 0 {
        if rm == 6 {
            if s.len() - at < 2 {
                None
            } else {
                Some(
                    (
                        2int,
                        spec_norm_ea(
                            EffAddr {
                                base: None,
                                index: None,
                                offset: Some(spec_i16_le(s[at], s[at + 1])),
                            },
                        ),
                    ),
                )
            }
        } else {
            Some((0int, spec_ea_table(rm)))
        }
    } else if mode == 1 {
        if s.len() - at < 1 {
            None
        } else {
            Some(
                (
                    1int,
                    spec_norm_ea(EffAddr { offset: Some(spec_sx8(s[at])), ..spec_ea_table(rm) }),
                ),
            )
        }
    } else {
        if s.len() - at < 2 {
            None
        } else {
            Some(
                (
                    2int,
                    spec_norm_ea(
                        EffAddr { offset: Some(spec_i16_le(s[at], s[at + 1])), ..spec_ea_table(rm) },
                    ),
                ),
            )
        }
    }
}

fn ea_table(rm: u8) -> (r: EffAddr)
    requires
        rm < 8,
    ensures
        r == spec_ea_table(rm),
{
    if rm == 0 {
        EffAddr { base: Some(Register::BX), index: Some(Register::SI), offset: None }
    } else if rm == 1 {
        EffAddr { base: Some(Register::BX), index: Some(Register::DI), offset: None }
    } else if rm == 2 {
        EffAddr { base: Some(Register::BP), index: Some(Register::SI), offset: None }
    } else if rm == 3 {
        EffAddr { base: Some(Register::BP), index: Some(Register::DI), offset: None }
    } else if rm == 4 {
        EffAddr { base: Some(Register::SI), index: None, offset: None }
    } else if rm == 5 {
        EffAddr { base: Some(Register::DI), index: None, offset: None }
    } else if rm == 6 {
        EffAddr { base: Some(Register::BP), index: None, offset: None }
    } else {
        EffAddr { base: Some(Register::BX), index: None, offset: None }
    }
}

fn norm_ea(ea: EffAddr) -> (r: EffAddr)
    ensures
        r == spec_norm_ea(ea),
{
    match ea.offset {
        Some(d) => {
            if d == 0 {
                EffAddr { base: ea.base, index: ea.index, offset: None }
            } else {
                ea
            }
        },
        None => ea,
    }
}

impl EffAddr {
    /// Decode the effective address for an r/m and mode field, reading its
    /// displacement bytes at `at`.
    pub fn from_encoding(rm: u8, mode: u8, binary: &[u8], at: usize) -> (r: Option<(usize, EffAddr)>)
        requires
            rm < 8,
            mode < 3,
            at <= binary@.len(),
        ensures
            (r is Some) == (spec_dec_ea(rm, mode, binary@, at as int) is Some),
            r matches Some((n, ea)) ==> spec_dec_ea(rm, mode, binary@, at as int) == Some(
                (n as int, ea),
            ) && at + n <= binary@.len() && n <= 2 && ea.spec_decoded_wf(),
    {
        if mode == 0 {
            if rm == 6 {
                if binary.len() - at < 2 {
                    None
                } else {
                    let disp = i16_le(binary[at], binary[at + 1]);
                    Some((2, norm_ea(EffAddr { base: None, index: None, offset: Some(disp) })))
                }
            } else {
                Some((0, ea_table(rm)))
            }
        } else if mode == 1 {
            if binary.len() - at < 1 {
                None
            } else {
                let disp = sx8(binary[at]);
                let base = ea_table(rm);
                Some((1, norm_ea(EffAddr { base: base.base, index: base.index, offset: Some(disp) })))
            }
        } else {
            if binary.len() - at < 2 {
                None
            } else {
                let disp = i16_le(binary[at], binary[at + 1]);
                let base = ea_table(rm);
                Some((2, norm_ea(EffAddr { base: base.base, index: base.index, offset: Some(disp) })))
            }
        }
    }
}

// ---------------------------------------------------------------------
// Operands from encoded fields
// ---------------------------------------------------------------------
/// The operand named by a mode/r-m pair: a register when mode is 3, else a
/// memory reference whose width follows the `(sign_extend, wide)` pair.
pub open spec fn spec_dec_rm_operand(
    sign_extend: bool,
    wide: bool,
    mode: u8,
    rm: u8,
    s: Seq<u8>,
    at: int,
) -> Option<(int, Operand)>
    recommends
        rm < 8,
        mode < 4,
        0 <= at <= s.len(),
{
    if mode == 3 {
        Some((0int, Operand::Reg(spec_reg_encoding(rm, wide))))
    } else {
        match spec_dec_ea(rm, mode, s, at) {
            None => None,
            Some((n, ea)) => Some(
                (
                    n,
                    if sign_extend || wide {
                        Operand::MemWord(ea)
                    } else {
                        Operand::MemByte(ea)
                    },
                ),
            ),
        }
    }
}

/// The shape of every operand produced from a mode/r-m pair.
pub open spec fn spec_rm_op_shape(op: Operand, sign_extend: bool, wide: bool) -> bool {
    match op {
        Operand::Reg(r) => r.spec_is_wide() == wide,
        Operand::MemWord(ea) => (sign_extend || wide) && ea.spec_decoded_wf(),
        Operand::MemByte(ea) => !(sign_extend || wide) && ea.spec_decoded_wf(),
        _ => false,
    }
}

/// A register field selects a register of the decoded width.
pub proof fn lemma_reg_encoding_wide(reg: u8, wide: bool)
    requires
        reg < 8,
    ensures
        spec_reg_encoding(reg, wide).spec_is_wide() == wide,
{
}

impl Operand {
    pub fn from_reg_encoding(reg: u8, wide: bool) -> (r: Operand)
        requires
            reg < 8,
        ensures
            r == Operand::Reg(spec_reg_encoding(reg, wide)),
    {
        Operand::Reg(Register::from_encoding(reg, wide))
    }

    pub fn from_rm_encoding(
        sign_extend: bool,
        wide: bool,
        mode: u8,
        rm: u8,
        binary: &[u8],
        at: usize,
    ) -> (r: Option<(usize, Operand)>)
        requires
            rm < 8,
            mode < 4,
            at <= binary@.len(),
        ensures
            (r is Some) == (spec_dec_rm_operand(sign_extend, wide, mode, rm, binary@, at as int)
                is Some),
            r matches Some((n, op)) ==> spec_dec_rm_operand(
                sign_extend,
                wide,
                mode,
                rm,
                binary@,
                at as int,
            ) == Some((n as int, op)) && at + n <= binary@.len() && n <= 2 && spec_rm_op_shape(
                op,
                sign_extend,
                wide,
            ),
    {
        if mode == 3 {
            proof {
                lemma_reg_encoding_wide(rm, wide);
            }
            Some((0, Operand::from_reg_encoding(rm, wide)))
        } else {
            match EffAddr::from_encoding(rm, mode, binary, at) {
                None => None,
                Some((n, ea)) => Some(
                    (
                        n,
                        if sign_extend || wide {
                            Operand::MemWord(ea)
                        } else {
                            Operand::MemByte(ea)
                        },
                    ),
                ),
            }
        }
    }

    pub fn from_data_encoding(sign_extend: bool, wide: bool, binary: &[u8], at: usize) -> (r: Option<
        (usize, Operand),
    >)
        requires
            at <= binary@.len(),
        ensures
            (r is Some) == (spec_dec_data(sign_extend, wide, binary@, at as int) is Some),
            r matches Some((n, op)) ==> spec_dec_data(sign_extend, wide, binary@, at as int)
                matches Some((sn, data)) && sn == n as int && op == spec_data_operand(
                n as int,
                data,
            ) && at + n <= binary@.len() && 1 <= n <= 2,
    {
        match get_data(sign_extend, wide, binary, at) {
            None => None,
            Some((n, data)) => {
                if n == 1 {
                    Some((n, Operand::ImmByte(data as u8)))
                } else {
                    Some((n, Operand::ImmWord(data)))
                }
            },
        }
    }
}

// ---------------------------------------------------------------------
// The three shared encoding layouts
// ---------------------------------------------------------------------
/// Layout of register/memory instructions with a mod-reg-r/m byte: the
/// direction bit chooses which operand is the destination.
pub open spec fn spec_dec_mod_reg_rm(s: Seq<u8>, at: int) -> Option<(int, Operand, Operand)>
    recommends
        0 <= at <= s.len(),
{
    if s.len() - at < 2 {
        None
    } else {
        let b1 = s[at];
        let b2 = s[at + 1];
        let dest = spec_get_bit(b1, 6);
        let wide = spec_get_bit(b1, 7);
        let mode = spec_get_bits(b2, 0, 2);
        let reg = spec_get_bits(b2, 2, 3);
        let rm = spec_get_bits(b2, 5, 3);
        let r1 = Operand::Reg(spec_reg_encoding(reg, wide));
        match spec_dec_rm_operand(false, wide, mode, rm, s, at + 2) {
            None => None,
            Some((dsz, r2)) => if dest {
                Some((2 + dsz, r1, r2))
            } else {
                Some((2 + dsz, r2, r1))
            },
        }
    }
}

/// Layout of immediate-to-register/memory instructions; only the
/// arithmetic family uses the sign-extension bit.
pub open spec fn spec_dec_imm_to_rm(arith: bool, s: Seq<u8>, at: int) -> Option<
    (int, Operand, Operand),
>
    recommends
        0 <= at <= s.len(),
{
    if s.len() - at < 2 {
        None
    } else {
        let b1 = s[at];
        let b2 = s[at + 1];
        let sign_extend = arith && spec_get_bit(b1, 6);
        let wide = spec_get_bit(b1, 7);
        let mode = spec_get_bits(b2, 0, 2);
        let rm = spec_get_bits(b2, 5, 3);
        match spec_dec_rm_operand(sign_extend, wide, mode, rm, s, at + 2) {
            None => None,
            Some((dsz, dest)) => match spec_dec_data(sign_extend, wide, s, at + 2 + dsz) {
                None => None,
                Some((n, data)) => Some((2 + dsz + n, dest, spec_data_operand(n, data))),
            },
        }
    }
}

/// Layout of the accumulator forms: a constant (an immediate, or a direct
/// address when `is_mem`) paired with AL/AX, flipped when the opcode says
/// the accumulator is the source.
pub open spec fn spec_dec_const_with_acc(flip: bool, is_mem: bool, s: Seq<u8>, at: int) -> Option<
    (int, Operand, Operand),
>
    recommends
        0 <= at <= s.len(),
{
    if s.len() - at < 1 {
        None
    } else {
        let wide = spec_get_bit(s[at], 7);
        match spec_dec_data(false, wide, s, at + 1) {
            None => None,
            Some((n, data)) => {
                let acc = Operand::Reg(
                    if wide {
                        Register::AX
                    } else {
                        Register::AL
                    },
                );
                let constant = if is_mem || flip {
                    let ea = EffAddr { base: None, index: None, offset: Some(data as i16) };
                    if wide {
                        Operand::MemWord(ea)
                    } else {
                        Operand::MemByte(ea)
                    }
                } else {
                    spec_data_operand(n, data)
                };
                if flip {
                    Some((1 + n, constant, acc))
                } else {
                    Some((1 + n, acc, constant))
                }
            },
        }
    }
}

fn mod_reg_rm(binary: &[u8], at: usize) -> (r: Option<(usize, Operand, Operand)>)
    requires
        at <= binary@.len(),
    ensures
        (r is Some) == (spec_dec_mod_reg_rm(binary@, at as int) is Some),
        r matches Some((n, o1, o2)) ==> spec_dec_mod_reg_rm(binary@, at as int) == Some(
            (n as int, o1, o2),
        ) && at + n <= binary@.len() && 2 <= n <= 4 && spec_mov_operands_wf(o1, o2, false)
            && spec_arith_operands_wf(o1, o2, false),
{
    if binary.len() - at < 2 {
        return None;
    }
    let b1 = binary[at];
    let b2 = binary[at + 1];
    let dest = get_bit(b1, 6);
    let wide = get_bit(b1, 7);
    let mode = get_bits(b2, 0, 2);
    let reg = get_bits(b2, 2, 3);
    let rm = get_bits(b2, 5, 3);
    proof {
        lemma_reg_encoding_wide(reg, wide);
    }
    let r1 = Operand::from_reg_encoding(reg, wide);
    match Operand::from_rm_encoding(false, wide, mode, rm, binary, at + 2) {
        None => None,
        Some((dsz, r2)) => {
            if dest {
                Some((2 + dsz, r1, r2))
            } else {
                Some((2 + dsz, r2, r1))
            }
        },
    }
}

fn imm_to_rm(arith: bool, binary: &[u8], at: usize) -> (r: Option<(usize, Operand, Operand)>)
    requires
        at <= binary@.len(),
    ensures
        (r is Some) == (spec_dec_imm_to_rm(arith, binary@, at as int) is Some),
        r matches Some((n, o1, o2)) ==> spec_dec_imm_to_rm(arith, binary@, at as int) == Some(
            (n as int, o1, o2),
        ) && at + n <= binary@.len() && 3 <= n <= 6 && spec_arith_operands_wf(o1, o2, false) && (
        !arith ==> spec_mov_operands_wf(o1, o2, false)),
{
    if binary.len() - at < 2 {
        return None;
    }
    let b1 = binary[at];
    let b2 = binary[at + 1];
    let sign_extend = if arith {
        get_bit(b1, 6)
    } else {
        false
    };
    let wide = get_bit(b1, 7);
    let mode = get_bits(b2, 0, 2);
    let rm = get_bits(b2, 5, 3);
    match Operand::from_rm_encoding(sign_extend, wide, mode, rm, binary, at + 2) {
        None => None,
        Some((dsz, dest)) => {
            match Operand::from_data_encoding(sign_extend, wide, binary, at + 2 + dsz) {
                None => None,
                Some((n, imm)) => Some((2 + dsz + n, dest, imm)),
            }
        },
    }
}

fn const_with_acc(flip: bool, is_mem: bool, binary: &[u8], at: usize) -> (r: Option<
    (usize, Operand, Operand),
>)
    requires
        at <= binary@.len(),
    ensures
        (r is Some) == (spec_dec_const_with_acc(flip, is_mem, binary@, at as int) is Some),
        r matches Some((n, o1, o2)) ==> spec_dec_const_with_acc(flip, is_mem, binary@, at as int)
            == Some((n as int, o1, o2)) && at + n <= binary@.len() && 2 <= n <= 3 && (is_mem
            ==> spec_mov_operands_wf(o1, o2, false)) && (!is_mem && !flip
            ==> spec_arith_operands_wf(o1, o2, false)),
{
    if binary.len() - at < 1 {
        return None;
    }
    let b1 = binary[at];
    let wide = get_bit(b1, 7);
    match get_data(false, wide, binary, at + 1) {
        None => None,
        Some((n, data)) => {
            let acc = Operand::Reg(
                if wide {
                    Register::AX
                } else {
                    Register::AL
                },
            );
            let constant = if is_mem || flip {
                let ea = EffAddr { base: None, index: None, offset: Some(data as i16) };
                if wide {
                    Operand::MemWord(ea)
                } else {
                    Operand::MemByte(ea)
                }
            } else {
                if wide {
                    Operand::ImmWord(data)
                } else {
                    Operand::ImmByte(data as u8)
                }
            };
            if flip {
                Some((1 + n, constant, acc))
            } else {
                Some((1 + n, acc, constant))
            }
        },
    }
}

// ---------------------------------------------------------------------
// The arithmetic sub-opcode
// ---------------------------------------------------------------------
/// The arithmetic operation selected by the shared 3-bit sub-field.
#[derive(Clone, Copy, Debug, PartialEq, Eq)]
pub enum ArithOps {
    ADD,
    SUB,
    CMP,
}

/// The arithmetic operation named by a 3-bit sub-field, if it is one of
/// the three this decoder covers.
pub open spec fn spec_arith_from_opcode(byte: u8) -> Option<ArithOps> {
    if byte == 0 {
        Some(ArithOps::ADD)
    } else if byte == 5 {
        Some(ArithOps::SUB)
    } else if byte == 7 {
        Some(ArithOps::CMP)
    } else {
        None
    }
}

impl ArithOps {
    pub fn from_opcode(byte: u8) -> (r: Option<ArithOps>)
        ensures
            r == spec_arith_from_opcode(byte),
    {
        if byte == 0 {
            Some(ArithOps::ADD)
        } else if byte == 5 {
            Some(ArithOps::SUB)
        } else if byte == 7 {
            Some(ArithOps::CMP)
        } else {
            None
        }
    }
}

pub open spec fn spec_new_arithmetic(arith: ArithOps, op1: Operand, op2: Operand) -> Inst {
    match arith {
        ArithOps::ADD => Inst::ADD(op1, op2),
        ArithOps::SUB => Inst::SUB(op1, op2),
        ArithOps::CMP => Inst::CMP(op1, op2),
    }
}

// ---------------------------------------------------------------------
// Jumps and loops
// ---------------------------------------------------------------------
/// The conditional jump selected by the trailing 4-bit condition code,
/// with its signed 8-bit relative offset.
pub open spec fn spec_dec_jmp(s: Seq<u8>, at: int) -> Option<(int, Inst)>
    recommends
        0 <= at <= s.len(),
{
    if s.len() - at < 2 {
        None
    } else {
        let data = Operand::RelOffsetByte(s[at + 1] as i8);
        let cc = spec_get_bits(s[at], 4, 4);
        let inst = if cc == 0 {
            Inst::JO(data)
        } else if cc == 1 {
            Inst::JNO(data)
        } else if cc == 2 {
            Inst::JB(data)
        } else if cc == 3 {
            Inst::JNB(data)
        } else if cc == 4 {
            Inst::JE(data)
        } else if cc == 5 {
            Inst::JNE(data)
        } else if cc == 6 {
            Inst::JBE(data)
        } else if cc == 7 {
            Inst::JNBE(data)
        } else if cc == 8 {
            Inst::JS(data)
        } else if cc == 9 {
            Inst::JNS(data)
        } else if cc == 10 {
            Inst::JP(data)
        } else if cc == 11 {
            Inst::JNP(data)
        } else if cc == 12 {
            Inst::JL(data)
        } else if cc == 13 {
            Inst::JNL(data)
        } else if cc == 14 {
            Inst::JLE(data)
        } else {
            Inst::JNLE(data)
        };
        Some((2int, inst))
    }
}

/// The loop-family instruction selected by the trailing 2-bit code, with
/// its signed 8-bit relative offset.
pub open spec fn spec_dec_loop(s: Seq<u8>, at: int) -> Option<(int, Inst)>
    recommends
        0 <= at <= s.len(),
{
    if s.len() - at < 2 {
        None
    } else {
        let data = Operand::RelOffsetByte(s[at + 1] as i8);
        let cc = spec_get_bits(s[at], 6, 2);
        let inst = if cc == 0 {
            Inst::LOOPNZ(data)
        } else if cc == 1 {
            Inst::LOOPZ(data)
        } else if cc == 2 {
            Inst::LOOP(data)
        } else {
            Inst::JCXZ(data)
        };
        Some((2int, inst))
    }
}

impl Inst {
    pub fn new_arithmetic(arith: ArithOps, op1: Operand, op2: Operand) -> (r: Inst)
        ensures
            r == spec_new_arithmetic(arith, op1, op2),
    {
        match arith {
            ArithOps::ADD => Inst::ADD(op1, op2),
            ArithOps::SUB => Inst::SUB(op1, op2),
            ArithOps::CMP => Inst::CMP(op1, op2),
        }
    }

    fn new_jmp(binary: &[u8], at: usize) -> (r: Option<(usize, Inst)>)
        requires
            at <= binary@.len(),
        ensures
            (r is Some) == (spec_dec_jmp(binary@, at as int) is Some),
            r matches Some((n, i)) ==> spec_dec_jmp(binary@, at as int) == Some((n as int, i)) && at
                + n <= binary@.len() && n == 2 && i.spec_decoded_wf(),
    {
        if binary.len() - at < 2 {
            return None;
        }
        let data = Operand::RelOffsetByte(binary[at + 1] as i8);
        let cc = get_bits(binary[at], 4, 4);
        let inst = if cc == 0 {
            Inst::JO(data)
        } else if cc == 1 {
            Inst::JNO(data)
        } else if cc == 2 {
            Inst::JB(data)
        } else if cc == 3 {
            Inst::JNB(data)
        } else if cc == 4 {
            Inst::JE(data)
        } else if cc == 5 {
            Inst::JNE(data)
        } else if cc == 6 {
            Inst::JBE(data)
        } else if cc == 7 {
            Inst::JNBE(data)
        } else if cc == 8 {
            Inst::JS(data)
        } else if cc == 9 {
            Inst::JNS(data)
        } else if cc == 10 {
            Inst::JP(data)
        } else if cc == 11 {
            Inst::JNP(data)
        } else if cc == 12 {
            Inst::JL(data)
        } else if cc == 13 {
            Inst::JNL(data)
        } else if cc == 14 {
            Inst::JLE(data)
        } else {
            Inst::JNLE(data)
        };
        Some((2, inst))
    }

    fn new_loop(binary: &[u8], at: usize) -> (r: Option<(usize, Inst)>)
        requires
            at <= binary@.len(),
        ensures
            (r is Some) == (spec_dec_loop(binary@, at as int) is Some),
            r matches Some((n, i)) ==> spec_dec_loop(binary@, at as int) == Some((n as int, i))
                && at + n <= binary@.len() && n == 2 && i.spec_decoded_wf(),
    {
        if binary.len() - at < 2 {
            return None;
        }
        let data = Operand::RelOffsetByte(binary[at + 1] as i8);
        let cc = get_bits(binary[at], 6, 2);
        let inst = if cc == 0 {
            Inst::LOOPNZ(data)
        } else if cc == 1 {
            Inst::LOOPZ(data)
        } else if cc == 2 {
            Inst::LOOP(data)
        } else {
            Inst::JCXZ(data)
        };
        Some((2, inst))
    }
}

// ---------------------------------------------------------------------
// The ordered dispatch
// ---------------------------------------------------------------------
/// Decode one instruction starting at `at`: ordered pattern matching from
/// the most to the least specific opcode mask, `None` when no pattern
/// matches or the buffer ends inside the matched pattern.
pub open spec fn spec_decode_at(s: Seq<u8>, at: int) -> Option<(int, Inst)>
    recommends
        0 <= at <= s.len(),
{
    if s.len() - at < 1 {
        None
    } else {
        let b = s[at];
        if b == 0xf4 {
            Some((1int, Inst::HLT))
        } else if spec_get_bits(b, 0, 6) == 0x22 {
            match spec_dec_mod_reg_rm(s, at) {
                None => None,
                Some((n, o1, o2)) => Some((n, Inst::MOV(o1, o2))),
            }
        } else if spec_get_bits(b, 0, 4) == 0xb {
            spec_dec_mov_imm_reg(s, at)
        } else if spec_get_bits(b, 0, 7) == 0x63 {
            match spec_dec_imm_to_rm(false, s, at) {
                None => None,
                Some((n, o1, o2)) => Some((n, Inst::MOV(o1, o2))),
            }
        } else if spec_get_bits(b, 0, 7) == 0x50 {
            match spec_dec_const_with_acc(false, true, s, at) {
                None => None,
                Some((n, o1, o2)) => Some((n, Inst::MOV(o1, o2))),
            }
        } else if spec_get_bits(b, 0, 7) == 0x51 {
            match spec_dec_const_with_acc(true, true, s, at) {
                None => None,
                Some((n, o1, o2)) => Some((n, Inst::MOV(o1, o2))),
            }
        } else if spec_get_bits(b, 0, 2) == 0 && !spec_get_bit(b, 5) {
            match spec_arith_from_opcode(spec_get_bits(b, 2, 3)) {
                None => None,
                Some(arith) => match spec_dec_mod_reg_rm(s, at) {
                    None => None,
                    Some((n, o1, o2)) => Some((n, spec_new_arithmetic(arith, o1, o2))),
                },
            }
        } else if spec_get_bits(b, 0, 6) == 0x20 {
            if s.len() - at < 2 {
                None
            } else {
                match spec_arith_from_opcode(spec_get_bits(s[at + 1], 2, 3)) {
                    None => None,
                    Some(arith) => match spec_dec_imm_to_rm(true, s, at) {
                        None => None,
                        Some((n, o1, o2)) => Some((n, spec_new_arithmetic(arith, o1, o2))),
                    },
                }
            }
        } else if spec_get_bits(b, 0, 2) == 0 && spec_get_bits(b, 5, 2) == 2 {
            match spec_arith_from_opcode(spec_get_bits(b, 2, 3)) {
                None => None,
                Some(arith) => match spec_dec_const_with_acc(false, false, s, at) {
                    None => None,
                    Some((n, o1, o2)) => Some((n, spec_new_arithmetic(arith, o1, o2))),
                },
            }
        } else if spec_get_bits(b, 0, 4) == 0x7 {
            spec_dec_jmp(s, at)
        } else if spec_get_bits(b, 0, 6) == 0x38 {
            spec_dec_loop(s, at)
        } else {
            None
        }
    }
}

/// The immediate-to-register MOV, whose register id and width live in the
/// opcode byte itself.
pub open spec fn spec_dec_mov_imm_reg(s: Seq<u8>, at: int) -> Option<(int, Inst)>
    recommends
        0 <= at <= s.len(),
        at < s.len(),
{
    let b = s[at];
    let wide = spec_get_bit(b, 4);
    let reg = spec_get_bits(b, 5, 3);
    let dest = Operand::Reg(spec_reg_encoding(reg, wide));
    match spec_dec_data(false, wide, s, at + 1) {
        None => None,
        Some((n, data)) => Some((1 + n, Inst::MOV(dest, spec_data_operand(n, data)))),
    }
}

fn mov_imm_reg(binary: &[u8], at: usize) -> (r: Option<(usize, Inst)>)
    requires
        at < binary@.len(),
    ensures
        (r is Some) == (spec_dec_mov_imm_reg(binary@, at as int) is Some),
        r matches Some((n, i)) ==> spec_dec_mov_imm_reg(binary@, at as int) == Some((n as int, i))
            && at + n <= binary@.len() && 2 <= n <= 3 && i.spec_decoded_wf(),
{
    let b = binary[at];
    let wide = get_bit(b, 4);
    let reg = get_bits(b, 5, 3);
    proof {
        lemma_reg_encoding_wide(reg, wide);
    }
    let dest = Operand::from_reg_encoding(reg, wide);
    match Operand::from_data_encoding(false, wide, binary, at + 1) {
        None => None,
        Some((n, imm)) => Some((1 + n, Inst::MOV(dest, imm))),
    }
}

/// Decode the instruction starting at byte offset `at` of `binary`.
pub(crate) fn decode_at(binary: &[u8], at: usize) -> (r: Option<(usize, Inst)>)
    requires
        at <= binary@.len(),
    ensures
        (r is Some) == (spec_decode_at(binary@, at as int) is Some),
        r matches Some((n, i)) ==> spec_decode_at(binary@, at as int) == Some((n as int, i)) && 1
            <= n && at + n <= binary@.len() && i.spec_decoded_wf(),
{
    if binary.len() - at < 1 {
        return None;
    }
    let b = binary[at];
    if b == 0xf4 {
        Some((1, Inst::HLT))
    } else if get_bits(b, 0, 6) == 0x22 {
        match mod_reg_rm(binary, at) {
            None => None,
            Some((n, o1, o2)) => Some((n, Inst::MOV(o1, o2))),
        }
    } else if get_bits(b, 0, 4) == 0xb {
        mov_imm_reg(binary, at)
    } else if get_bits(b, 0, 7) == 0x63 {
        match imm_to_rm(false, binary, at) {
            None => None,
            Some((n, o1, o2)) => Some((n, Inst::MOV(o1, o2))),
        }
    } else if get_bits(b, 0, 7) == 0x50 {
        match const_with_acc(false, true, binary, at) {
            None => None,
            Some((n, o1, o2)) => Some((n, Inst::MOV(o1, o2))),
        }
    } else if get_bits(b, 0, 7) == 0x51 {
        match const_with_acc(true, true, binary, at) {
            None => None,
            Some((n, o1, o2)) => Some((n, Inst::MOV(o1, o2))),
        }
    } else if get_bits(b, 0, 2) == 0 && !get_bit(b, 5) {
        match ArithOps::from_opcode(get_bits(b, 2, 3)) {
            None => None,
            Some(arith) => match mod_reg_rm(binary, at) {
                None => None,
                Some((n, o1, o2)) => Some((n, Inst::new_arithmetic(arith, o1, o2))),
            },
        }
    } else if get_bits(b, 0, 6) == 0x20 {
        if binary.len() - at < 2 {
            None
        } else {
            match ArithOps::from_opcode(get_bits(binary[at + 1], 2, 3)) {
                None => None,
                Some(arith) => match imm_to_rm(true, binary, at) {
                    None => None,
                    Some((n, o1, o2)) => Some((n, Inst::new_arithmetic(arith, o1, o2))),
                },
            }
        }
    } else if get_bits(b, 0, 2) == 0 && get_bits(b, 5, 2) == 2 {
        match ArithOps::from_opcode(get_bits(b, 2, 3)) {
            None => None,
            Some(arith) => match const_with_acc(false, false, binary, at) {
                None => None,
                Some((n, o1, o2)) => Some((n, Inst::new_arithmetic(arith, o1, o2))),
            },
        }
    } else if get_bits(b, 0, 4) == 0x7 {
        Inst::new_jmp(binary, at)
    } else if get_bits(b, 0, 6) == 0x38 {
        Inst::new_loop(binary, at)
    } else {
        None
    }
}

impl Inst {
    /// Decode the instruction at the start of `binary`: the number of bytes
    /// consumed and the instruction, or `None` when no opcode pattern
    /// matches (or the buffer ends inside a matched pattern).
    pub fn from_encoding(binary: &[u8]) -> (r: Option<(usize, Inst)>)
        ensures
            (r is Some) == (spec_decode_at(binary@, 0) is Some),
            r matches Some((n, i)) ==> spec_decode_at(binary@, 0) == Some((n as int, i)) && 1 <= n
                <= binary@.len() && i.spec_decoded_wf(),
    {
        decode_at(binary, 0)
    }
}

// ---------------------------------------------------------------------
// Decoding whole programs
// ---------------------------------------------------------------------
/// Decode a whole buffer from `at` to its end: the instruction sequence,
/// or `None` if any decode step fails before the end is reached.
pub open spec fn spec_decode_all(s: Seq<u8>, at: int) -> Option<Seq<Inst>>
    recommends
        0 <= at <= s.len(),
    decreases s.len() - at,
{
    if at >= s.len() {
        Some(Seq::empty())
    } else {
        match spec_decode_at(s, at) {
            None => None,
            Some((n, i)) => {
                if n < 1 || at + n > s.len() {
                    None
                } else {
                    match spec_decode_all(s, at + n) {
                        None => None,
                        Some(rest) => Some(seq![i] + rest),
                    }
                }
            },
        }
    }
}

/// An iterator-style cursor over the instructions encoded in a byte
/// buffer.
#[derive(Debug, Clone)]
pub struct InstStream {
    pub binary: Vec<u8>,
    pub iptr: usize,
}

impl InstStream {
    pub open spec fn spec_wf(self) -> bool {
        self.iptr <= self.binary@.len()
    }

    pub fn from_binary(binary: Vec<u8>) -> (r: InstStream)
        ensures
            r.binary@ == binary@,
            r.iptr == 0,
            r.spec_wf(),
    {
        InstStream { binary, iptr: 0 }
    }

    /// The next decodable instruction, advancing past its bytes; `None` at
    /// the end of the buffer or on the first undecodable position.
    pub fn next(&mut self) -> (r: Option<Inst>)
        requires
            old(self).spec_wf(),
        ensures
            final(self).spec_wf(),
            final(self).binary@ == old(self).binary@,
            match spec_decode_at(old(self).binary@, old(self).iptr as int) {
                None => r is None && final(self).iptr == old(self).iptr,
                Some((n, i)) => r == Some(i) && final(self).iptr == old(self).iptr + n,
            },
    {
        let len = self.binary.len();
        match decode_at(self.binary.as_slice(), self.iptr) {
            None => None,
            Some((n, inst)) => {
                assert(self.iptr + n <= len);
                self.iptr = self.iptr + n;
                Some(inst)
            },
        }
    }
}

/// Decode a whole buffer into its instruction sequence, or `None` when
/// some byte position fails to decode before the end of the buffer.
pub fn decode_all(binary: &[u8]) -> (r: Option<Vec<Inst>>)
    ensures
        (r is Some) == (spec_decode_all(binary@, 0) is Some),
        r matches Some(v) ==> spec_decode_all(binary@, 0) == Some(v@),
{
    let mut acc: Vec<Inst> = Vec::new();
    let mut at: usize = 0;
    loop
        invariant
            at <= binary@.len(),
            spec_decode_all(binary@, 0) == spec_opt_concat(acc@, spec_decode_all(binary@, at as int)),
        decreases binary@.len() - at,
    {
        if at >= binary.len() {
            assert(spec_decode_all(binary@, at as int) == Some(Seq::<Inst>::empty()));
            assert(acc@ + Seq::<Inst>::empty() =~= acc@);
            return Some(acc);
        }
        match decode_at(binary, at) {
            None => {
                return None;
            },
            Some((n, inst)) => {
                proof {
                    let s = binary@;
                    let a = at as int;
                    assert(spec_decode_all(s, a) == match spec_decode_all(s, a + n) {
                        None => None::<Seq<Inst>>,
                        Some(rest) => Some(seq![inst] + rest),
                    });
                    assert(spec_opt_concat(acc@, spec_decode_all(s, a)) == spec_opt_concat(
                        acc@.push(inst),
                        spec_decode_all(s, a + n),
                    )) by {
                        match spec_decode_all(s, a + n) {
                            None => {},
                            Some(rest) => {
                                assert(acc@ + (seq![inst] + rest) =~= acc@.push(inst) + rest);
                            },
                        }
                    }
                }
                acc.push(inst);
                at = at + n;
            },
        }
    }
}

/// Concatenation of a known prefix with an optional suffix.
pub open spec fn spec_opt_concat(prefix: Seq<Inst>, rest: Option<Seq<Inst>>) -> Option<Seq<Inst>> {
    match rest {
        None => None,
        Some(t) => Some(prefix + t),
    }
}

} // verus!
