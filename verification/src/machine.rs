//! The execution engine: a register file with aliased 8-bit halves, the
//! three modeled flags, a 64 KiB flat memory, an instruction pointer, and
//! a running cycle estimate, mutated by a fetch/execute loop.

use vstd::arithmetic::div_mod::{lemma_mod_add_multiples_vanish, lemma_small_mod};
use vstd::prelude::*;

use crate::decode::{decode_at, spec_decode_at, u16_le};
use crate::inst::{EffAddr, Inst, Operand, Register};

verus! {

// ---------------------------------------------------------------------
// The register file
// ---------------------------------------------------------------------
/// Byte offset and width of a register inside the 16-byte register file.
/// Each 8-bit half-register aliases one byte of its parent's 2-byte slot.
pub open spec fn spec_reg_pos(reg: Register) -> (int, bool) {
    match reg {
        Register::AL => (0int, false),
        Register::CL => (2int, false),
        Register::DL => (4int, false),
        Register::BL => (6int, false),
        Register::AH => (1int, false),
        Register::CH => (3int, false),
        Register::DH => (5int, false),
        Register::BH => (7int, false),
        Register::AX => (0int, true),
        Register::CX => (2int, true),
        Register::DX => (4int, true),
        Register::BX => (6int, true),
        Register::SP => (8int, true),
        Register::BP => (10int, true),
        Register::SI => (12int, true),
        Register::DI => (14int, true),
    }
}

/// The value a register reads from a 16-byte register file: its byte, or
/// its two bytes little-endian.
pub open spec fn spec_get_reg(regs: Seq<u8>, reg: Register) -> u16
    recommends
        regs.len() == 16,
{
    let (pos, wide) = spec_reg_pos(reg);
    if wide {
        (regs[pos] + 256 * regs[pos + 1]) as u16
    } else {
        regs[pos] as u16
    }
}

/// The register file after storing a value to a register: the low byte of
/// the value to its byte, and for a wide register the high byte beside it.
/// Writing a half-register stores the value truncated to its low byte.
pub open spec fn spec_set_reg(regs: Seq<u8>, reg: Register, val: u16) -> Seq<u8>
    recommends
        regs.len() == 16,
{
    let (pos, wide) = spec_reg_pos(reg);
    if wide {
        regs.update(pos, (val % 256) as u8).update(pos + 1, (val / 256) as u8)
    } else {
        regs.update(pos, (val % 256) as u8)
    }
}

proof fn lemma_u16_div_mod_256(v: u16)
    by (bit_vector)
    ensures
        v % 256 < 256,
        v / 256 < 256,
        v % 256 + 256 * (v / 256) == v,
{
}

/// The 20-byte-flat-lookup register file (8 wide registers, 2 bytes each).
pub struct GeneralRegisters {
    pub reg_array: Vec<u8>,
}

impl GeneralRegisters {
    pub open spec fn spec_wf(self) -> bool {
        self.reg_array@.len() == 16
    }

    /// A register file with every byte zero.
    pub fn new() -> (r: GeneralRegisters)
        ensures
            r.spec_wf(),
            forall|k: int| 0 <= k < 16 ==> r.reg_array@[k] == 0u8,
    {
        let mut v: Vec<u8> = Vec::new();
        while v.len() < 16
            invariant
                v@.len() <= 16,
                forall|k: int| 0 <= k < v@.len() ==> v@[k] == 0u8,
            decreases 16 - v@.len(),
        {
            v.push(0);
        }
        GeneralRegisters { reg_array: v }
    }

    fn reg_pos(reg: Register) -> (r: (usize, bool))
        ensures
            (r.0 as int, r.1) == spec_reg_pos(reg),
            r.1 ==> r.0 + 2 <= 16,
            !r.1 ==> r.0 + 1 <= 16,
    {
        match reg {
            Register::AL => (0, false),
            Register::CL => (2, false),
            Register::DL => (4, false),
            Register::BL => (6, false),
            Register::AH => (1, false),
            Register::CH => (3, false),
            Register::DH => (5, false),
            Register::BH => (7, false),
            Register::AX => (0, true),
            Register::CX => (2, true),
            Register::DX => (4, true),
            Register::BX => (6, true),
            Register::SP => (8, true),
            Register::BP => (10, true),
            Register::SI => (12, true),
            Register::DI => (14, true),
        }
    }

    /// Read a register's 8- or 16-bit value from its aliased bytes.
    pub fn get_reg(&self, reg: Register) -> (r: u16)
        requires
            self.spec_wf(),
        ensures
            r == spec_get_reg(self.reg_array@, reg),
    {
        let (pos, wide) = Self::reg_pos(reg);
        if wide {
            u16_le(self.reg_array[pos], self.reg_array[pos + 1])
        } else {
            self.reg_array[pos] as u16
        }
    }

    /// Store a value to a register without disturbing any other register's
    /// bytes; a half-register write keeps the value's low byte.
    pub fn set_reg(&mut self, reg: Register, val: u16)
        requires
            old(self).spec_wf(),
        ensures
            final(self).spec_wf(),
            final(self).reg_array@ == spec_set_reg(old(self).reg_array@, reg, val),
    {
        proof {
            lemma_u16_div_mod_256(val);
        }
        let (pos, wide) = Self::reg_pos(reg);
        if wide {
            self.reg_array.set(pos, (val % 256) as u8);
            self.reg_array.set(pos + 1, (val / 256) as u8);
        } else {
            self.reg_array.set(pos, (val % 256) as u8);
        }
    }
}

// ---------------------------------------------------------------------
// The register-aliasing laws
// ---------------------------------------------------------------------
/// The 16-bit registers that have named 8-bit halves.
pub open spec fn spec_has_halves(reg: Register) -> bool {
    match reg {
        Register::AX => true,
        Register::CX => true,
        Register::DX => true,
        Register::BX => true,
        _ => false,
    }
}

/// The low half of a 16-bit register with halves.
pub open spec fn spec_low_half(reg: Register) -> Register
    recommends
        spec_has_halves(reg),
{
    match reg {
        Register::AX => Register::AL,
        Register::CX => Register::CL,
        Register::DX => Register::DL,
        Register::BX => Register::BL,
        _ => reg,
    }
}

/// The high half of a 16-bit register with halves.
pub open spec fn spec_high_half(reg: Register) -> Register
    recommends
        spec_has_halves(reg),
{
    match reg {
        Register::AX => Register::AH,
        Register::CX => Register::CH,
        Register::DX => Register::DH,
        Register::BX => Register::BH,
        _ => reg,
    }
}

/// Law: storing a value to any register and reading it back yields the
/// value (truncated to its low byte for a half-register).
pub proof fn lemma_set_then_get(regs: Seq<u8>, reg: Register, val: u16)
    requires
        regs.len() == 16,
    ensures
        reg.spec_is_wide() ==> spec_get_reg(spec_set_reg(regs, reg, val), reg) == val,
        !reg.spec_is_wide() ==> spec_get_reg(spec_set_reg(regs, reg, val), reg) == val % 256,
{
    lemma_u16_div_mod_256(val);
}

/// Law: storing to a 16-bit register makes its halves read the value's
/// little-endian bytes.
pub proof fn lemma_wide_set_halves(regs: Seq<u8>, reg: Register, val: u16)
    requires
        regs.len() == 16,
        spec_has_halves(reg),
    ensures
        spec_get_reg(spec_set_reg(regs, reg, val), spec_low_half(reg)) == val % 256,
        spec_get_reg(spec_set_reg(regs, reg, val), spec_high_half(reg)) == val / 256,
{
    lemma_u16_div_mod_256(val);
}

/// Law: storing to one half of a 16-bit register leaves the other half
/// unchanged.
pub proof fn lemma_half_independence(regs: Seq<u8>, reg: Register, val: u16)
    requires
        regs.len() == 16,
        spec_has_halves(reg),
    ensures
        spec_get_reg(spec_set_reg(regs, spec_low_half(reg), val), spec_high_half(reg))
            == spec_get_reg(regs, spec_high_half(reg)),
        spec_get_reg(spec_set_reg(regs, spec_high_half(reg), val), spec_low_half(reg))
            == spec_get_reg(regs, spec_low_half(reg)),
{
}

/// Law: storing to any register leaves every other non-overlapping
/// register unchanged.
pub proof fn lemma_set_preserves_others(regs: Seq<u8>, reg: Register, other: Register, val: u16)
    requires
        regs.len() == 16,
        spec_reg_pos(reg).0 != spec_reg_pos(other).0 || spec_reg_pos(reg).1 != spec_reg_pos(
            other,
        ).1,
        !(spec_reg_pos(reg).1 && (spec_reg_pos(other).0 == spec_reg_pos(reg).0 || spec_reg_pos(
            other,
        ).0 == spec_reg_pos(reg).0 + 1)),
        !(spec_reg_pos(other).1 && (spec_reg_pos(reg).0 == spec_reg_pos(other).0 || spec_reg_pos(
            reg,
        ).0 == spec_reg_pos(other).0 + 1)),
    ensures
        spec_get_reg(spec_set_reg(regs, reg, val), other) == spec_get_reg(regs, other),
{
}

// ---------------------------------------------------------------------
// Flags
// ---------------------------------------------------------------------
/// The three modeled flag bits of the 16-bit flags word.
#[derive(Clone, Copy, Debug, PartialEq, Eq)]
pub enum Flag {
    Parity,
    Zero,
    Signed,
}

/// Each flag's bit in the flags word.
pub open spec fn spec_flag_mask(f: Flag) -> u16 {
    match f {
        Flag::Parity => 4,
        Flag::Zero => 64,
        Flag::Signed => 128,
    }
}

/// Whether a flag's bit is set in a flags word.
pub open spec fn spec_flag_set(flags: u16, f: Flag) -> bool {
    flags & spec_flag_mask(f) != 0
}

impl Flag {
    pub fn mask(self) -> (r: u16)
        ensures
            r == spec_flag_mask(self),
    {
        match self {
            Flag::Parity => 4,
            Flag::Zero => 64,
            Flag::Signed => 128,
        }
    }
}

/// The number of set bits in a byte.
pub open spec fn spec_popcount8(b: u8) -> int {
    ((b >> 0u8) & 1) + ((b >> 1u8) & 1) + ((b >> 2u8) & 1) + ((b >> 3u8) & 1) + ((b >> 4u8) & 1) + (
    (b >> 5u8) & 1) + ((b >> 6u8) & 1) + ((b >> 7u8) & 1)
}

/// Whether a byte has an even number of set bits.
pub open spec fn spec_parity_even(b: u8) -> bool {
    spec_popcount8(b) % 2 == 0
}

fn parity_even(b: u8) -> (r: bool)
    ensures
        r == spec_parity_even(b),
{
    proof {
        lemma_popcount8_bound(b);
    }
    let count = ((b >> 0u8) & 1) + ((b >> 1u8) & 1) + ((b >> 2u8) & 1) + ((b >> 3u8) & 1) + ((b
        >> 4u8) & 1) + ((b >> 5u8) & 1) + ((b >> 6u8) & 1) + ((b >> 7u8) & 1);
    count % 2 == 0
}

proof fn lemma_popcount8_bound(b: u8)
    by (bit_vector)
    ensures
        ((b >> 0u8) & 1) + ((b >> 1u8) & 1) + ((b >> 2u8) & 1) + ((b >> 3u8) & 1) + ((b >> 4u8) & 1)
            + ((b >> 5u8) & 1) + ((b >> 6u8) & 1) + ((b >> 7u8) & 1) <= 8,
        ((b >> 0u8) & 1) <= 1 && ((b >> 1u8) & 1) <= 1 && ((b >> 2u8) & 1) <= 1 && ((b >> 3u8) & 1)
            <= 1 && ((b >> 4u8) & 1) <= 1 && ((b >> 5u8) & 1) <= 1 && ((b >> 6u8) & 1) <= 1 && ((b
            >> 7u8) & 1) <= 1,
{
}

/// The flags word after an arithmetic result `val`: Zero iff the result
/// is zero, Signed iff it reads negative as a signed 16-bit value, Parity
/// iff its low byte has an even population count; all other bits kept.
pub open spec fn spec_flags_after(flags: u16, val: u16) -> u16 {
    let f1 = flags & !196u16;
    let f2 = if val == 0 {
        f1 | 64
    } else {
        f1
    };
    let f3 = if val > 32767 {
        f2 | 128
    } else {
        f2
    };
    if spec_parity_even(val as u8) {
        f3 | 4
    } else {
        f3
    }
}

proof fn lemma_flags_after_bits(flags: u16, val: u16)
    by (bit_vector)
    ensures
        ((spec_flags_after(flags, val) & 64u16) != 0) == (val == 0),
        ((spec_flags_after(flags, val) & 128u16) != 0) == (val > 32767),
        ((spec_flags_after(flags, val) & 4u16) != 0) == spec_parity_even(val as u8),
        spec_flags_after(flags, val) & !196u16 == flags & !196u16,
{
}

// ---------------------------------------------------------------------
// Wrapping 16-bit arithmetic
// ---------------------------------------------------------------------
/// Addition modulo 2^16.
pub open spec fn spec_add_wrap(a: u16, b: u16) -> u16 {
    ((a + b) % 65536) as u16
}

/// Subtraction modulo 2^16.
pub open spec fn spec_sub_wrap(a: u16, b: u16) -> u16 {
    ((a - b) % 65536) as u16
}

pub fn add_wrap(a: u16, b: u16) -> (r: u16)
    ensures
        r == spec_add_wrap(a, b),
{
    let s: u32 = a as u32 + b as u32;
    (s % 65536) as u16
}

pub fn sub_wrap(a: u16, b: u16) -> (r: u16)
    ensures
        r == spec_sub_wrap(a, b),
{
    if a >= b {
        proof {
            lemma_small_mod((a - b) as nat, 65536nat);
        }
        a - b
    } else {
        proof {
            lemma_mod_add_multiples_vanish(a - b, 65536);
            lemma_small_mod((65536 + a - b) as nat, 65536nat);
        }
        (65536u32 + a as u32 - b as u32) as u16
    }
}

// ---------------------------------------------------------------------
// Machine state
// ---------------------------------------------------------------------
/// The mathematical model of a machine state.
pub struct StateModel {
    pub regs: Seq<u8>,
    pub memory: Seq<u8>,
    pub iptr: int,
    pub flags: u16,
    pub cycles: int,
}

impl StateModel {
    pub open spec fn wf(self) -> bool {
        &&& self.regs.len() == 16
        &&& self.memory.len() == 65536
        &&& 0 <= self.iptr <= 65536
        &&& 0 <= self.cycles <= u64::MAX
    }
}

/// The machine state: register file, flags, 64 KiB memory, instruction
/// pointer, and the running cycle estimate.
pub struct State {
    pub regs: GeneralRegisters,
    pub memory: Vec<u8>,
    pub iptr: usize,
    pub flags: u16,
    pub cycles_estimate: u64,
}

impl View for State {
    type V = StateModel;

    open spec fn view(&self) -> StateModel {
        StateModel {
            regs: self.regs.reg_array@,
            memory: self.memory@,
            iptr: self.iptr as int,
            flags: self.flags,
            cycles: self.cycles_estimate as int,
        }
    }
}

/// The machine state a program starts in: zeroed registers and flags, the
/// program bytes at the start of memory, one HLT byte appended right
/// after them (so a fetch loop always stops), zeroes beyond.
pub open spec fn spec_initial_state(stream: Seq<u8>) -> StateModel {
    StateModel {
        regs: Seq::new(16, |k: int| 0u8),
        memory: Seq::new(
            65536,
            |k: int|
                if k < stream.len() {
                    stream[k]
                } else if k == stream.len() {
                    0xf4u8
                } else {
                    0u8
                },
        ),
        iptr: 0,
        flags: 0,
        cycles: 0,
    }
}

impl State {
    pub open spec fn spec_wf(self) -> bool {
        self@.wf()
    }

    /// A fresh machine state for a program: the program is copied to the
    /// start of memory and an HLT byte is appended after it.
    pub fn new(stream: &[u8]) -> (r: State)
        requires
            stream@.len() < 65536,
        ensures
            r.spec_wf(),
            r@ == spec_initial_state(stream@),
    {
        let n = stream.len();
        let mut memory: Vec<u8> = Vec::new();
        let mut k: usize = 0;
        while k < n
            invariant
                k <= n,
                n == stream@.len() < 65536,
                memory@.len() == k,
                forall|j: int| 0 <= j < k ==> memory@[j] == stream@[j],
            decreases n - k,
        {
            memory.push(stream[k]);
            k = k + 1;
        }
        memory.push(0xf4);
        while memory.len() < 65536
            invariant
                n == stream@.len() < 65536,
                n + 1 <= memory@.len() <= 65536,
                forall|j: int| 0 <= j < n ==> memory@[j] == stream@[j],
                memory@[n as int] == 0xf4u8,
                forall|j: int| n < j < memory@.len() ==> memory@[j] == 0u8,
            decreases 65536 - memory@.len(),
        {
            memory.push(0);
        }
        let r = State { regs: GeneralRegisters::new(), memory, iptr: 0, flags: 0, cycles_estimate: 0 };
        proof {
            assert(r@.regs =~= spec_initial_state(stream@).regs);
            assert(r@.memory =~= spec_initial_state(stream@).memory);
        }
        r
    }

    // -----------------------------------------------------------------
    // Operand access
    // -----------------------------------------------------------------
    /// Compute the effective address: base plus index plus displacement,
    /// as 16-bit arithmetic with wraparound modulo 65536.
    pub fn calc_addr(&self, eff_addr: EffAddr) -> (r: usize)
        requires
            self.spec_wf(),
        ensures
            r == spec_ea_addr(self@.regs, eff_addr),
            r < 65536,
    {
        let base: u32 = match eff_addr.base {
            Some(r) => self.regs.get_reg(r) as u32,
            None => 0,
        };
        let index: u32 = match eff_addr.index {
            Some(r) => self.regs.get_reg(r) as u32,
            None => 0,
        };
        let disp: u32 = match eff_addr.offset {
            Some(d) => (d as u16) as u32,
            None => 0,
        };
        ((base + index + disp) % 65536) as usize
    }

    /// Read an operand's 8- or 16-bit value. Relative jump offsets are
    /// not values and cannot be read.
    pub fn get_value(&self, op: Operand) -> (r: u16)
        requires
            self.spec_wf(),
            op.spec_is_readable(),
        ensures
            r == spec_get_value(self@, op),
    {
        match op {
            Operand::Reg(reg) => self.regs.get_reg(reg),
            Operand::ImmByte(imm) => imm as u16,
            Operand::ImmWord(imm) => imm,
            Operand::MemByte(ea) => self.memory[self.calc_addr(ea)] as u16,
            Operand::MemWord(ea) => {
                let addr = self.calc_addr(ea);
                let addr2 = (addr + 1) % 65536;
                u16_le(self.memory[addr], self.memory[addr2])
            },
            Operand::RelOffsetByte(_) => 0,
        }
    }

    /// Store a value to a register or memory operand; immediates and
    /// relative offsets are read-only.
    pub fn set_value(&mut self, op: Operand, val: u16)
        requires
            old(self).spec_wf(),
            op.spec_is_writable(),
        ensures
            final(self).spec_wf(),
            final(self)@ == spec_set_value(old(self)@, op, val),
    {
        proof {
            lemma_u16_div_mod_256(val);
        }
        match op {
            Operand::Reg(reg) => self.regs.set_reg(reg, val),
            Operand::MemByte(ea) => {
                let addr = self.calc_addr(ea);
                self.memory.set(addr, (val % 256) as u8);
            },
            Operand::MemWord(ea) => {
                let addr = self.calc_addr(ea);
                let addr2 = (addr + 1) % 65536;
                self.memory.set(addr, (val % 256) as u8);
                self.memory.set(addr2, (val / 256) as u8);
            },
            _ => {
            },
        }
    }

    // -----------------------------------------------------------------
    // Flags
    // -----------------------------------------------------------------
    pub fn set_flag(&mut self, flag: Flag)
        ensures
            final(self)@ == (StateModel { flags: old(self).flags | spec_flag_mask(flag), ..old(self)@ }),
    {
        self.flags = self.flags | flag.mask();
    }

    pub fn unset_flag(&mut self, flag: Flag)
        ensures
            final(self)@ == (StateModel {
                flags: old(self).flags & !spec_flag_mask(flag),
                ..old(self)@
            }),
    {
        self.flags = self.flags & !flag.mask();
    }

    pub fn is_set(&self, flag: Flag) -> (r: bool)
        ensures
            r == spec_flag_set(self.flags, flag),
    {
        (self.flags & flag.mask()) > 0
    }

    /// Set Zero, Signed, and Parity from an arithmetic result, leaving
    /// all other flag bits alone.
    pub fn update_flags_from_value(&mut self, val: u16)
        ensures
            final(self)@ == (StateModel { flags: spec_flags_after(old(self).flags, val), ..old(self)@ }),
            spec_flag_set(final(self).flags, Flag::Zero) == (val == 0),
            spec_flag_set(final(self).flags, Flag::Signed) == (val > 32767),
            spec_flag_set(final(self).flags, Flag::Parity) == spec_parity_even(val as u8),
    {
        proof {
            lemma_flags_after_bits(self.flags, val);
        }
        let mut nf: u16 = self.flags & !196u16;
        if val == 0 {
            nf = nf | 64;
        }
        if val > 32767 {
            nf = nf | 128;
        }
        if parity_even(val as u8) {
            nf = nf | 4;
        }
        self.flags = nf;
    }

    // -----------------------------------------------------------------
    // Control transfer
    // -----------------------------------------------------------------
    /// When the condition holds, move the instruction pointer: to an
    /// absolute immediate target, or by a signed relative offset (taken
    /// from the address of the byte after the jump), wrapping modulo
    /// 65536.
    pub fn jump(&mut self, op: Operand, condition: bool)
        requires
            old(self).spec_wf(),
            op is RelOffsetByte || op is ImmByte || op is ImmWord,
        ensures
            final(self).spec_wf(),
            condition ==> final(self)@ == (StateModel {
                iptr: spec_jump_target(old(self)@, op),
                ..old(self)@
            }),
            !condition ==> final(self)@ == old(self)@,
    {
        if condition {
            let jump_to: usize = match op {
                Operand::ImmByte(v) => v as usize,
                Operand::ImmWord(v) => v as usize,
                Operand::RelOffsetByte(r) => {
                    let t: i32 = self.iptr as i32 + r as i32;
                    proof {
                        lemma_mod_add_multiples_vanish(self.iptr + r, 65536);
                    }
                    ((t + 65536) % 65536) as usize
                },
                _ => 0,
            };
            self.iptr = jump_to;
        }
    }

    /// Decode the instruction under the instruction pointer and advance
    /// past it; `None` (leaving the state unchanged) when nothing
    /// decodes there.
    fn next_instr(&mut self) -> (r: Option<Inst>)
        requires
            old(self).spec_wf(),
        ensures
            final(self).spec_wf(),
            match spec_decode_at(old(self)@.memory, old(self)@.iptr) {
                None => r is None && final(self)@ == old(self)@,
                Some((n, i)) => r == Some(i) && final(self)@ == (StateModel {
                    iptr: old(self)@.iptr + n,
                    ..old(self)@
                }) && i.spec_decoded_wf(),
            },
    {
        let len = self.memory.len();
        match decode_at(self.memory.as_slice(), self.iptr) {
            None => None,
            Some((n, parsed)) => {
                assert(self.iptr + n <= len);
                self.iptr = self.iptr + n;
                Some(parsed)
            },
        }
    }

    /// Decrement an operand by one, wrapping.
    fn dec(&mut self, op: Operand)
        requires
            old(self).spec_wf(),
            op is Reg,
        ensures
            final(self).spec_wf(),
            final(self)@ == spec_set_value(
                old(self)@,
                op,
                spec_sub_wrap(spec_get_value(old(self)@, op), 1),
            ),
    {
        let dec = sub_wrap(self.get_value(op), 1);
        self.set_value(op, dec);
    }

    // -----------------------------------------------------------------
    // Cycle estimation
    // -----------------------------------------------------------------
    /// The fixed effective-address cost table, keyed on which of base,
    /// index, and displacement are present (and on the specific pairing
    /// when both base and index are).
    pub fn ea_cycles(ea: EffAddr) -> (r: u32)
        ensures
            r == spec_ea_cycles(ea),
    {
        match (ea.base, ea.index) {
            (None, None) => 6,
            (None, Some(_)) => {
                if ea.offset.is_some() {
                    9
                } else {
                    5
                }
            },
            (Some(_), None) => {
                if ea.offset.is_some() {
                    9
                } else {
                    5
                }
            },
            (Some(b), Some(i)) => {
                let fast = match (b, i) {
                    (Register::BP, Register::DI) => true,
                    (Register::BX, Register::SI) => true,
                    _ => false,
                };
                let slow = match (b, i) {
                    (Register::BP, Register::SI) => true,
                    (Register::BX, Register::DI) => true,
                    _ => false,
                };
                if fast {
                    if ea.offset.is_some() {
                        11
                    } else {
                        7
                    }
                } else if slow {
                    if ea.offset.is_some() {
                        12
                    } else {
                        8
                    }
                } else {
                    0
                }
            },
        }
    }

    /// The unaligned-transfer penalty: 4 cycles per word transfer when
    /// the computed effective address is odd.
    pub fn transfer_penalty(&self, transfers: u32, ea: EffAddr) -> (r: u32)
        requires
            self.spec_wf(),
            transfers <= 2,
        ensures
            r == spec_transfer_penalty(self@.regs, transfers, ea),
    {
        if self.calc_addr(ea) % 2 != 0 {
            transfers * 4
        } else {
            0
        }
    }

    /// Add an instruction's estimated cycle cost (base cost plus
    /// effective-address cost plus unaligned-transfer penalty) to the
    /// running total, saturating at the counter's maximum.
    pub fn estimate_cycles(&mut self, inst: &Inst)
        requires
            old(self).spec_wf(),
        ensures
            final(self).spec_wf(),
            final(self)@ == (StateModel {
                cycles: spec_sat_add_u64(old(self)@.cycles, spec_inst_cost(old(self)@, *inst)),
                ..old(self)@
            }),
    {
        let (base_cycles, ea_cycles, penalty_cycles): (u32, u32, u32) = match inst {
            Inst::MOV(op1, op2) => match (op1, op2) {
                (Operand::Reg(_), Operand::ImmByte(_)) => (4, 0, 0),
                (Operand::Reg(_), Operand::ImmWord(_)) => (4, 0, 0),
                (Operand::Reg(_), Operand::Reg(_)) => (2, 0, 0),
                (Operand::Reg(_), Operand::MemByte(ea)) => (
                    8,
                    Self::ea_cycles(*ea),
                    self.transfer_penalty(1, *ea),
                ),
                (Operand::Reg(_), Operand::MemWord(ea)) => (
                    8,
                    Self::ea_cycles(*ea),
                    self.transfer_penalty(1, *ea),
                ),
                (Operand::MemByte(ea), Operand::Reg(_)) => (
                    9,
                    Self::ea_cycles(*ea),
                    self.transfer_penalty(1, *ea),
                ),
                (Operand::MemWord(ea), Operand::Reg(_)) => (
                    9,
                    Self::ea_cycles(*ea),
                    self.transfer_penalty(1, *ea),
                ),
                _ => (0, 0, 0),
            },
            Inst::ADD(op1, op2) => match (op1, op2) {
                (Operand::Reg(_), Operand::ImmByte(_)) => (4, 0, 0),
                (Operand::Reg(_), Operand::ImmWord(_)) => (4, 0, 0),
                (Operand::Reg(_), Operand::Reg(_)) => (3, 0, 0),
                (Operand::Reg(_), Operand::MemByte(ea)) => (
                    9,
                    Self::ea_cycles(*ea),
                    self.transfer_penalty(1, *ea),
                ),
                (Operand::Reg(_), Operand::MemWord(ea)) => (
                    9,
                    Self::ea_cycles(*ea),
                    self.transfer_penalty(1, *ea),
                ),
                (Operand::MemByte(ea), Operand::Reg(_)) => (
                    16,
                    Self::ea_cycles(*ea),
                    self.transfer_penalty(2, *ea),
                ),
                (Operand::MemWord(ea), Operand::Reg(_)) => (
                    16,
                    Self::ea_cycles(*ea),
                    self.transfer_penalty(2, *ea),
                ),
                (Operand::MemByte(ea), Operand::ImmByte(_)) => (
                    17,
                    Self::ea_cycles(*ea),
                    self.transfer_penalty(2, *ea),
                ),
                (Operand::MemByte(ea), Operand::ImmWord(_)) => (
                    17,
                    Self::ea_cycles(*ea),
                    self.transfer_penalty(2, *ea),
                ),
                (Operand::MemWord(ea), Operand::ImmByte(_)) => (
                    17,
                    Self::ea_cycles(*ea),
                    self.transfer_penalty(2, *ea),
                ),
                (Operand::MemWord(ea), Operand::ImmWord(_)) => (
                    17,
                    Self::ea_cycles(*ea),
                    self.transfer_penalty(2, *ea),
                ),
                _ => (0, 0, 0),
            },
            Inst::HLT => (2, 0, 0),
            _ => (0, 0, 0),
        };
        let cycles: u32 = base_cycles + ea_cycles + penalty_cycles;
        if self.cycles_estimate <= u64::MAX - cycles as u64 {
            self.cycles_estimate = self.cycles_estimate + cycles as u64;
        } else {
            self.cycles_estimate = u64::MAX;
        }
    }
}

/// Addition capped at the largest value the cycle counter can hold.
pub open spec fn spec_sat_add_u64(a: int, b: int) -> int {
    if a + b <= u64::MAX {
        a + b
    } else {
        u64::MAX as int
    }
}

/// The effective address an operand denotes under a register file:
/// base plus index plus displacement, modulo 65536.
pub open spec fn spec_ea_addr(regs: Seq<u8>, ea: EffAddr) -> int
    recommends
        regs.len() == 16,
{
    let base = match ea.base {
        Some(r) => spec_get_reg(regs, r) as int,
        None => 0,
    };
    let index = match ea.index {
        Some(r) => spec_get_reg(regs, r) as int,
        None => 0,
    };
    let disp = match ea.offset {
        Some(d) => (d as u16) as int,
        None => 0,
    };
    (base + index + disp) % 65536
}

/// What an operand reads under a machine state.
pub open spec fn spec_get_value(m: StateModel, op: Operand) -> u16
    recommends
        m.wf(),
{
    match op {
        Operand::Reg(r) => spec_get_reg(m.regs, r),
        Operand::ImmByte(b) => b as u16,
        Operand::ImmWord(v) => v,
        Operand::MemByte(ea) => m.memory[spec_ea_addr(m.regs, ea)] as u16,
        Operand::MemWord(ea) => {
            let a = spec_ea_addr(m.regs, ea);
            (m.memory[a] + 256 * m.memory[(a + 1) % 65536]) as u16
        },
        Operand::RelOffsetByte(_) => 0,
    }
}

/// The state after storing a value to a register or memory operand.
pub open spec fn spec_set_value(m: StateModel, op: Operand, val: u16) -> StateModel
    recommends
        m.wf(),
        op.spec_is_writable(),
{
    match op {
        Operand::Reg(r) => StateModel { regs: spec_set_reg(m.regs, r, val), ..m },
        Operand::MemByte(ea) => StateModel {
            memory: m.memory.update(spec_ea_addr(m.regs, ea), (val % 256) as u8),
            ..m
        },
        Operand::MemWord(ea) => {
            let a = spec_ea_addr(m.regs, ea);
            StateModel {
                memory: m.memory.update(a, (val % 256) as u8).update(
                    (a + 1) % 65536,
                    (val / 256) as u8,
                ),
                ..m
            }
        },
        _ => m,
    }
}

/// Where a jump lands: an absolute immediate target, or the instruction
/// pointer plus a signed relative offset, modulo 65536.
pub open spec fn spec_jump_target(m: StateModel, op: Operand) -> int {
    match op {
        Operand::ImmByte(v) => v as int,
        Operand::ImmWord(v) => v as int,
        Operand::RelOffsetByte(r) => (m.iptr + r) % 65536,
        _ => m.iptr,
    }
}

/// The fixed effective-address cost table.
pub open spec fn spec_ea_cycles(ea: EffAddr) -> int {
    match (ea.base, ea.index) {
        (None, None) => 6,
        (None, Some(_)) => if ea.offset is Some {
            9
        } else {
            5
        },
        (Some(_), None) => if ea.offset is Some {
            9
        } else {
            5
        },
        (Some(b), Some(i)) => {
            if (b == Register::BP && i == Register::DI) || (b == Register::BX && i
                == Register::SI) {
                if ea.offset is Some {
                    11
                } else {
                    7
                }
            } else if (b == Register::BP && i == Register::SI) || (b == Register::BX && i
                == Register::DI) {
                if ea.offset is Some {
                    12
                } else {
                    8
                }
            } else {
                0
            }
        },
    }
}

/// The unaligned-transfer penalty.
pub open spec fn spec_transfer_penalty(regs: Seq<u8>, transfers: u32, ea: EffAddr) -> int {
    if spec_ea_addr(regs, ea) % 2 != 0 {
        4 * transfers
    } else {
        0
    }
}

/// The estimated cycle cost of one instruction under a machine state:
/// a base cost by instruction and operand kinds, plus the
/// effective-address cost, plus the unaligned-transfer penalty.
pub open spec fn spec_inst_cost(m: StateModel, inst: Inst) -> int {
    match inst {
        Inst::MOV(op1, op2) => match (op1, op2) {
            (Operand::Reg(_), Operand::ImmByte(_)) => 4,
            (Operand::Reg(_), Operand::ImmWord(_)) => 4,
            (Operand::Reg(_), Operand::Reg(_)) => 2,
            (Operand::Reg(_), Operand::MemByte(ea)) => 8 + spec_ea_cycles(ea)
                + spec_transfer_penalty(m.regs, 1, ea),
            (Operand::Reg(_), Operand::MemWord(ea)) => 8 + spec_ea_cycles(ea)
                + spec_transfer_penalty(m.regs, 1, ea),
            (Operand::MemByte(ea), Operand::Reg(_)) => 9 + spec_ea_cycles(ea)
                + spec_transfer_penalty(m.regs, 1, ea),
            (Operand::MemWord(ea), Operand::Reg(_)) => 9 + spec_ea_cycles(ea)
                + spec_transfer_penalty(m.regs, 1, ea),
            _ => 0,
        },
        Inst::ADD(op1, op2) => match (op1, op2) {
            (Operand::Reg(_), Operand::ImmByte(_)) => 4,
            (Operand::Reg(_), Operand::ImmWord(_)) => 4,
            (Operand::Reg(_), Operand::Reg(_)) => 3,
            (Operand::Reg(_), Operand::MemByte(ea)) => 9 + spec_ea_cycles(ea)
                + spec_transfer_penalty(m.regs, 1, ea),
            (Operand::Reg(_), Operand::MemWord(ea)) => 9 + spec_ea_cycles(ea)
                + spec_transfer_penalty(m.regs, 1, ea),
            (Operand::MemByte(ea), Operand::Reg(_)) => 16 + spec_ea_cycles(ea)
                + spec_transfer_penalty(m.regs, 2, ea),
            (Operand::MemWord(ea), Operand::Reg(_)) => 16 + spec_ea_cycles(ea)
                + spec_transfer_penalty(m.regs, 2, ea),
            (Operand::MemByte(ea), Operand::ImmByte(_)) => 17 + spec_ea_cycles(ea)
                + spec_transfer_penalty(m.regs, 2, ea),
            (Operand::MemByte(ea), Operand::ImmWord(_)) => 17 + spec_ea_cycles(ea)
                + spec_transfer_penalty(m.regs, 2, ea),
            (Operand::MemWord(ea), Operand::ImmByte(_)) => 17 + spec_ea_cycles(ea)
                + spec_transfer_penalty(m.regs, 2, ea),
            (Operand::MemWord(ea), Operand::ImmWord(_)) => 17 + spec_ea_cycles(ea)
                + spec_transfer_penalty(m.regs, 2, ea),
            _ => 0,
        },
        Inst::HLT => 2,
        _ => 0,
    }
}


// ---------------------------------------------------------------------
// The fetch/execute loop
// ---------------------------------------------------------------------
/// What one fetch/execute step did: ran an implemented instruction,
/// halted on HLT, stopped because nothing decodes at the instruction
/// pointer, or faulted on an instruction whose execution is not wired.
#[derive(Clone, Copy, Debug, PartialEq, Eq)]
pub enum StepOutcome {
    Ran,
    Halted,
    EndOfStream,
    Fault,
}

/// One fetch/execute step: decode at the instruction pointer, advance
/// past the instruction, add its cycle estimate, then apply its
/// semantics. Only MOV, ADD, SUB, CMP, JNE, LOOP, and HLT execute; the
/// other decoded jumps and loops fault rather than silently doing
/// nothing.
pub open spec fn spec_step(m: StateModel) -> (StateModel, StepOutcome) {
    match spec_decode_at(m.memory, m.iptr) {
        None => (m, StepOutcome::EndOfStream),
        Some((n, inst)) => {
            let m1 = StateModel { iptr: m.iptr + n, ..m };
            let m2 = StateModel {
                cycles: spec_sat_add_u64(m1.cycles, spec_inst_cost(m1, inst)),
                ..m1
            };
            match inst {
                Inst::MOV(op1, op2) => (spec_set_value(m2, op1, spec_get_value(m2, op2)),
                    StepOutcome::Ran),
                Inst::ADD(op1, op2) => {
                    let v = spec_add_wrap(spec_get_value(m2, op1), spec_get_value(m2, op2));
                    let m3 = spec_set_value(m2, op1, v);
                    (StateModel { flags: spec_flags_after(m3.flags, v), ..m3 }, StepOutcome::Ran)
                },
                Inst::SUB(op1, op2) => {
                    let v = spec_sub_wrap(spec_get_value(m2, op1), spec_get_value(m2, op2));
                    let m3 = spec_set_value(m2, op1, v);
                    (StateModel { flags: spec_flags_after(m3.flags, v), ..m3 }, StepOutcome::Ran)
                },
                Inst::CMP(op1, op2) => {
                    let v = spec_sub_wrap(spec_get_value(m2, op1), spec_get_value(m2, op2));
                    (StateModel { flags: spec_flags_after(m2.flags, v), ..m2 }, StepOutcome::Ran)
                },
                Inst::JNE(op) => (
                    if !spec_flag_set(m2.flags, Flag::Zero) {
                        StateModel { iptr: spec_jump_target(m2, op), ..m2 }
                    } else {
                        m2
                    },
                    StepOutcome::Ran,
                ),
                Inst::LOOP(op) => {
                    let cx = Operand::Reg(Register::CX);
                    let m3 = spec_set_value(m2, cx, spec_sub_wrap(spec_get_value(m2, cx), 1));
                    (
                        if spec_get_value(m3, cx) != 0 {
                            StateModel { iptr: spec_jump_target(m3, op), ..m3 }
                        } else {
                            m3
                        },
                        StepOutcome::Ran,
                    )
                },
                Inst::HLT => (m2, StepOutcome::Halted),
                _ => (m2, StepOutcome::Fault),
            }
        },
    }
}

/// Iterating `spec_step` until it stops running or the fuel runs out.
pub open spec fn spec_run(m: StateModel, fuel: nat) -> (StateModel, StepOutcome)
    decreases fuel,
{
    if fuel == 0 {
        (m, StepOutcome::Ran)
    } else {
        let (m1, o) = spec_step(m);
        if o == StepOutcome::Ran {
            spec_run(m1, (fuel - 1) as nat)
        } else {
            (m1, o)
        }
    }
}

/// Running one more step from a still-running iteration applies
/// `spec_step` to where it stood.
proof fn lemma_run_extend(m0: StateModel, steps: nat)
    requires
        spec_run(m0, steps).1 == StepOutcome::Ran,
    ensures
        spec_run(m0, (steps + 1) as nat) == spec_step(spec_run(m0, steps).0),
    decreases steps,
{
    if steps == 0 {
        let (m1, o) = spec_step(m0);
        if o == StepOutcome::Ran {
            assert(spec_run(m0, 1nat) == spec_run(m1, 0nat));
        }
    } else {
        let (m1, o1) = spec_step(m0);
        assert(o1 == StepOutcome::Ran);
        lemma_run_extend(m1, (steps - 1) as nat);
    }
}

impl State {
    /// One fetch/execute step against this state.
    pub fn step(&mut self) -> (r: StepOutcome)
        requires
            old(self).spec_wf(),
        ensures
            final(self).spec_wf(),
            (final(self)@, r) == spec_step(old(self)@),
    {
        match self.next_instr() {
            None => StepOutcome::EndOfStream,
            Some(inst) => {
                self.estimate_cycles(&inst);
                match inst {
                    Inst::MOV(op1, op2) => {
                        let v = self.get_value(op2);
                        self.set_value(op1, v);
                        StepOutcome::Ran
                    },
                    Inst::ADD(op1, op2) => {
                        let v = add_wrap(self.get_value(op1), self.get_value(op2));
                        self.set_value(op1, v);
                        self.update_flags_from_value(v);
                        StepOutcome::Ran
                    },
                    Inst::SUB(op1, op2) => {
                        let v = sub_wrap(self.get_value(op1), self.get_value(op2));
                        self.set_value(op1, v);
                        self.update_flags_from_value(v);
                        StepOutcome::Ran
                    },
                    Inst::CMP(op1, op2) => {
                        let v = sub_wrap(self.get_value(op1), self.get_value(op2));
                        self.update_flags_from_value(v);
                        StepOutcome::Ran
                    },
                    Inst::JNE(op) => {
                        let cond = !self.is_set(Flag::Zero);
                        self.jump(op, cond);
                        StepOutcome::Ran
                    },
                    Inst::LOOP(op) => {
                        self.dec(Operand::Reg(Register::CX));
                        let cond = self.get_value(Operand::Reg(Register::CX)) != 0;
                        self.jump(op, cond);
                        StepOutcome::Ran
                    },
                    Inst::HLT => StepOutcome::Halted,
                    _ => StepOutcome::Fault,
                }
            },
        }
    }

    /// The fetch/execute loop: step until the program halts, the stream
    /// ends, an unimplemented instruction faults, or the step budget runs
    /// out (the appended HLT sentinel normally stops the loop long before
    /// that). The final state is exactly the result of iterating the step
    /// function.
    pub fn run(&mut self, max_steps: u64) -> (r: StepOutcome)
        requires
            old(self).spec_wf(),
        ensures
            final(self).spec_wf(),
            exists|fuel: nat|
                fuel <= max_steps && #[trigger] spec_run(old(self)@, fuel) == (final(self)@, r),
            r == StepOutcome::Ran ==> spec_run(old(self)@, max_steps as nat) == (
                final(self)@,
                r,
            ),
    {
        let ghost m0 = self@;
        let ghost mut steps: nat = 0;
        let mut k: u64 = 0;
        while k < max_steps
            invariant
                self.spec_wf(),
                m0 == old(self)@,
                k <= max_steps,
                steps == k,
                spec_run(m0, steps) == (self@, StepOutcome::Ran),
            decreases max_steps - k,
        {
            let o = self.step();
            proof {
                lemma_run_extend(m0, steps);
                steps = (steps + 1) as nat;
            }
            k = k + 1;
            match o {
                StepOutcome::Ran => {},
                _ => {
                    assert(spec_run(m0, steps) == (self@, o));
                    return o;
                },
            }
        }
        StepOutcome::Ran
    }
}

/// Load a program into a fresh machine state and run it: the final state
/// and why the loop stopped. Identical input bytes always yield the
/// identical final state and outcome.
pub fn run_program(binary: &[u8], max_steps: u64) -> (r: (State, StepOutcome))
    requires
        binary@.len() < 65536,
    ensures
        r.0.spec_wf(),
        exists|fuel: nat|
            fuel <= max_steps && #[trigger] spec_run(spec_initial_state(binary@), fuel) == (
                r.0@,
                r.1,
            ),
{
    let mut state = State::new(binary);
    let outcome = state.run(max_steps);
    (state, outcome)
}

} // verus!
