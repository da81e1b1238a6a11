//! The operand and instruction model: registers, effective addresses,
//! operands, and the closed set of decoded instructions.

use vstd::prelude::*;

verus! {

/// One of the 16 register identifiers: eight 8-bit half-registers and eight
/// 16-bit registers. Each half-register aliases one byte of its parent
/// 16-bit register's storage slot.
#[derive(Clone, Copy, Debug, PartialEq, Eq)]
pub enum Register {
    AL,
    CL,
    DL,
    BL,
    AH,
    CH,
    DH,
    BH,
    AX,
    CX,
    DX,
    BX,
    SP,
    BP,
    SI,
    DI,
}

impl Register {
    /// Whether this is a 16-bit register.
    pub open spec fn spec_is_wide(self) -> bool {
        match self {
            Register::AX => true,
            Register::CX => true,
            Register::DX => true,
            Register::BX => true,
            Register::SP => true,
            Register::BP => true,
            Register::SI => true,
            Register::DI => true,
            _ => false,
        }
    }

    /// The 3-bit register number used by the instruction encoding.
    pub open spec fn spec_code(self) -> u8 {
        match self {
            Register::AL => 0,
            Register::CL => 1,
            Register::DL => 2,
            Register::BL => 3,
            Register::AH => 4,
            Register::CH => 5,
            Register::DH => 6,
            Register::BH => 7,
            Register::AX => 0,
            Register::CX => 1,
            Register::DX => 2,
            Register::BX => 3,
            Register::SP => 4,
            Register::BP => 5,
            Register::SI => 6,
            Register::DI => 7,
        }
    }
}

/// The register selected by a 3-bit register field, for the given width.
pub open spec fn spec_reg_encoding(reg: u8, wide: bool) -> Register
    recommends
        reg < 8,
{
    if wide {
        if reg == 0 {
            Register::AX
        } else if reg == 1 {
            Register::CX
        } else if reg == 2 {
            Register::DX
        } else if reg == 3 {
            Register::BX
        } else if reg == 4 {
            Register::SP
        } else if reg == 5 {
            Register::BP
        } else if reg == 6 {
            Register::SI
        } else {
            Register::DI
        }
    } else {
        if reg == 0 {
            Register::AL
        } else if reg == 1 {
            Register::CL
        } else if reg == 2 {
            Register::DL
        } else if reg == 3 {
            Register::BL
        } else if reg == 4 {
            Register::AH
        } else if reg == 5 {
            Register::CH
        } else if reg == 6 {
            Register::DH
        } else {
            Register::BH
        }
    }
}

impl Register {
    /// The register named by a 3-bit field and a width bit.
    pub fn from_encoding(reg: u8, wide: bool) -> (r: Register)
        requires
            reg < 8,
        ensures
            r == spec_reg_encoding(reg, wide),
    {
        if wide {
            if reg == 0 {
                Register::AX
            } else if reg == 1 {
                Register::CX
            } else if reg == 2 {
                Register::DX
            } else if reg == 3 {
                Register::BX
            } else if reg == 4 {
                Register::SP
            } else if reg == 5 {
                Register::BP
            } else if reg == 6 {
                Register::SI
            } else {
                Register::DI
            }
        } else {
            if reg == 0 {
                Register::AL
            } else if reg == 1 {
                Register::CL
            } else if reg == 2 {
                Register::DL
            } else if reg == 3 {
                Register::BL
            } else if reg == 4 {
                Register::AH
            } else if reg == 5 {
                Register::CH
            } else if reg == 6 {
                Register::DH
            } else {
                Register::BH
            }
        }
    }
}

/// Decoding a register's own code at its own width yields the register back.
pub proof fn lemma_reg_encoding_roundtrip(r: Register)
    ensures
        spec_reg_encoding(r.spec_code(), r.spec_is_wide()) == r,
{
}

/// An effective address: an optional base register, an optional index
/// register, and an optional signed 16-bit displacement.
#[derive(Clone, Copy, Debug, PartialEq, Eq)]
pub struct EffAddr {
    pub base: Option<Register>,
    pub index: Option<Register>,
    pub offset: Option<i16>,
}

/// The base/index register pairing selected by a 3-bit r/m field.
pub open spec fn spec_ea_table(rm: u8) -> EffAddr
    recommends
        rm < 8,
{
    if rm == 0 {
        EffAddr { base: Some(Register::BX), index: Some(Register::SI), offset: None }
    } else if rm == 1 {
        EffAddr { base: Some(Register::BX), index: Some(Register::DI), offset: None }
    } else if rm == 2 {
        EffAddr { base: Some(Register::BP), index: Some(Register::SI), offset: None }
    } else if rm == 3 {
        EffAddr { base: Some(Register::BP), index: Some(Register::DI), offset: None }
    } else if rm == 4 {
        EffAddr { base: Some(Register::SI), index: None, offset: None }
    } else if rm == 5 {
        EffAddr { base: Some(Register::DI), index: None, offset: None }
    } else if rm == 6 {
        EffAddr { base: Some(Register::BP), index: None, offset: None }
    } else {
        EffAddr { base: Some(Register::BX), index: None, offset: None }
    }
}

/// The r/m code whose table entry carries this base/index pairing, if any.
pub open spec fn spec_ea_rm(ea: EffAddr) -> Option<u8> {
    match (ea.base, ea.index) {
        (Some(Register::BX), Some(Register::SI)) => Some(0u8),
        (Some(Register::BX), Some(Register::DI)) => Some(1u8),
        (Some(Register::BP), Some(Register::SI)) => Some(2u8),
        (Some(Register::BP), Some(Register::DI)) => Some(3u8),
        (Some(Register::SI), None) => Some(4u8),
        (Some(Register::DI), None) => Some(5u8),
        (Some(Register::BP), None) => Some(6u8),
        (Some(Register::BX), None) => Some(7u8),
        _ => None,
    }
}

impl EffAddr {
    /// A direct address: no base, no index, only an absolute displacement.
    pub open spec fn spec_is_direct(self) -> bool {
        self.base is None && self.index is None
    }

    /// The normal form the decoder produces: either a direct address, or a
    /// base/index pairing from the r/m table whose displacement, if present,
    /// is nonzero (a zero displacement is normalized to "absent").
    pub open spec fn spec_decoded_wf(self) -> bool {
        if self.spec_is_direct() {
            true
        } else {
            &&& spec_ea_rm(self) is Some
            &&& (self.offset matches Some(d) ==> d != 0)
        }
    }

    /// The canonical form the encoder accepts: a decoded normal form whose
    /// direct addresses carry a nonzero displacement. (A zero direct
    /// displacement cannot survive the decoder's normalization.)
    pub open spec fn spec_canon(self) -> bool {
        &&& self.spec_decoded_wf()
        &&& self.spec_is_direct() ==> (self.offset matches Some(d) && d != 0)
    }
}

/// An operand: where a value lives. Immediates and relative offsets are
/// read-only.
#[derive(Clone, Copy, Debug, PartialEq, Eq)]
pub enum Operand {
    Reg(Register),
    ImmByte(u8),
    ImmWord(u16),
    MemByte(EffAddr),
    MemWord(EffAddr),
    RelOffsetByte(i8),
}

impl Operand {
    /// Whether a value may be stored into this operand.
    pub open spec fn spec_is_writable(self) -> bool {
        match self {
            Operand::Reg(_) => true,
            Operand::MemByte(_) => true,
            Operand::MemWord(_) => true,
            _ => false,
        }
    }

    /// Whether this operand can appear as a source without execution-time
    /// support (everything except a relative jump offset).
    pub open spec fn spec_is_readable(self) -> bool {
        !(self is RelOffsetByte)
    }
}

/// A decoded instruction. Produced only by the decoder; immutable once
/// built.
#[derive(Clone, Copy, Debug, PartialEq, Eq)]
pub enum Inst {
    MOV(Operand, Operand),
    ADD(Operand, Operand),
    SUB(Operand, Operand),
    CMP(Operand, Operand),
    JO(Operand),
    JNO(Operand),
    JB(Operand),
    JNB(Operand),
    JE(Operand),
    JNE(Operand),
    JBE(Operand),
    JNBE(Operand),
    JS(Operand),
    JNS(Operand),
    JP(Operand),
    JNP(Operand),
    JL(Operand),
    JNL(Operand),
    JLE(Operand),
    JNLE(Operand),
    LOOPNZ(Operand),
    LOOPZ(Operand),
    LOOP(Operand),
    JCXZ(Operand),
    HLT,
}

/// The operand shapes a decoded MOV can carry, with `canon` deciding
/// whether a memory operand must be in canonical (encodable) form or only
/// in the decoder's normal form.
pub open spec fn spec_mov_operands_wf(op1: Operand, op2: Operand, canon: bool) -> bool {
    match (op1, op2) {
        (Operand::Reg(a), Operand::Reg(b)) => a.spec_is_wide() == b.spec_is_wide(),
        (Operand::Reg(a), Operand::MemByte(ea)) => !a.spec_is_wide() && spec_ea_wf(ea, canon),
        (Operand::Reg(a), Operand::MemWord(ea)) => a.spec_is_wide() && spec_ea_wf(ea, canon),
        (Operand::MemByte(ea), Operand::Reg(b)) => !b.spec_is_wide() && spec_ea_wf(ea, canon),
        (Operand::MemWord(ea), Operand::Reg(b)) => b.spec_is_wide() && spec_ea_wf(ea, canon),
        (Operand::Reg(a), Operand::ImmByte(_)) => !a.spec_is_wide(),
        (Operand::Reg(a), Operand::ImmWord(_)) => a.spec_is_wide(),
        (Operand::MemByte(ea), Operand::ImmByte(_)) => spec_ea_wf(ea, canon),
        (Operand::MemWord(ea), Operand::ImmWord(_)) => spec_ea_wf(ea, canon),
        _ => false,
    }
}

/// The operand shapes a decoded ADD/SUB/CMP can carry. Unlike MOV, a word
/// destination may take a single sign-extended immediate byte.
pub open spec fn spec_arith_operands_wf(op1: Operand, op2: Operand, canon: bool) -> bool {
    match (op1, op2) {
        (Operand::Reg(a), Operand::Reg(b)) => a.spec_is_wide() == b.spec_is_wide(),
        (Operand::Reg(a), Operand::MemByte(ea)) => !a.spec_is_wide() && spec_ea_wf(ea, canon),
        (Operand::Reg(a), Operand::MemWord(ea)) => a.spec_is_wide() && spec_ea_wf(ea, canon),
        (Operand::MemByte(ea), Operand::Reg(b)) => !b.spec_is_wide() && spec_ea_wf(ea, canon),
        (Operand::MemWord(ea), Operand::Reg(b)) => b.spec_is_wide() && spec_ea_wf(ea, canon),
        (Operand::Reg(_), Operand::ImmByte(_)) => true,
        (Operand::Reg(a), Operand::ImmWord(_)) => a.spec_is_wide(),
        (Operand::MemByte(ea), Operand::ImmByte(_)) => spec_ea_wf(ea, canon),
        (Operand::MemWord(ea), Operand::ImmByte(_)) => spec_ea_wf(ea, canon),
        (Operand::MemWord(ea), Operand::ImmWord(_)) => spec_ea_wf(ea, canon),
        _ => false,
    }
}

pub open spec fn spec_ea_wf(ea: EffAddr, canon: bool) -> bool {
    if canon {
        ea.spec_canon()
    } else {
        ea.spec_decoded_wf()
    }
}

impl Inst {
    /// The shape every decoder output has: operand kinds and widths agree
    /// with some encoding, and every effective address is in the decoder's
    /// normal form.
    pub open spec fn spec_decoded_wf(self) -> bool {
        self.spec_wf(false)
    }

    /// The canonical instructions: exactly those the encoder can render
    /// back into bytes.
    pub open spec fn spec_canon(self) -> bool {
        self.spec_wf(true)
    }

    pub open spec fn spec_wf(self, canon: bool) -> bool {
        match self {
            Inst::MOV(op1, op2) => spec_mov_operands_wf(op1, op2, canon),
            Inst::ADD(op1, op2) => spec_arith_operands_wf(op1, op2, canon),
            Inst::SUB(op1, op2) => spec_arith_operands_wf(op1, op2, canon),
            Inst::CMP(op1, op2) => spec_arith_operands_wf(op1, op2, canon),
            Inst::HLT => true,
            Inst::JO(op) => op is RelOffsetByte,
            Inst::JNO(op) => op is RelOffsetByte,
            Inst::JB(op) => op is RelOffsetByte,
            Inst::JNB(op) => op is RelOffsetByte,
            Inst::JE(op) => op is RelOffsetByte,
            Inst::JNE(op) => op is RelOffsetByte,
            Inst::JBE(op) => op is RelOffsetByte,
            Inst::JNBE(op) => op is RelOffsetByte,
            Inst::JS(op) => op is RelOffsetByte,
            Inst::JNS(op) => op is RelOffsetByte,
            Inst::JP(op) => op is RelOffsetByte,
            Inst::JNP(op) => op is RelOffsetByte,
            Inst::JL(op) => op is RelOffsetByte,
            Inst::JNL(op) => op is RelOffsetByte,
            Inst::JLE(op) => op is RelOffsetByte,
            Inst::JNLE(op) => op is RelOffsetByte,
            Inst::LOOPNZ(op) => op is RelOffsetByte,
            Inst::LOOPZ(op) => op is RelOffsetByte,
            Inst::LOOP(op) => op is RelOffsetByte,
            Inst::JCXZ(op) => op is RelOffsetByte,
        }
    }

    /// A canonical instruction is in particular in the decoder's normal
    /// form.
    pub proof fn lemma_canon_decoded_wf(self)
        requires
            self.spec_canon(),
        ensures
            self.spec_decoded_wf(),
    {
    }
}

} // verus!
