//! The round-trip theorems: decoding a canonical encoding yields the
//! encoded instruction back, byte count and all, and decoding a whole
//! canonically encoded program yields the program back.

use vstd::prelude::*;

use crate::bits::{spec_get_bit, spec_get_bits};
use crate::decode::{
    spec_arith_from_opcode, spec_dec_data, spec_dec_ea, spec_dec_mod_reg_rm, spec_dec_mov_imm_reg,
    spec_dec_rm_operand, spec_decode_all, spec_decode_at, spec_i16_le, spec_new_arithmetic,
    spec_norm_ea, spec_sx8, spec_u16_le, ArithOps,
};
use crate::encode::{
    spec_dst_disp, spec_dst_mode, spec_dst_rm, spec_enc_arith, spec_enc_dst, spec_enc_ea_disp,
    spec_enc_ea_mode, spec_enc_ea_rm, spec_enc_jmp, spec_enc_loop, spec_enc_mov, spec_enc_reg_rm,
    spec_encode, spec_encode_all, spec_le_bytes, spec_modrm,
};
use crate::inst::{
    lemma_reg_encoding_roundtrip, spec_ea_rm, spec_ea_table, EffAddr, Inst, Operand, Register,
};

verus! {

/// The bytes of `enc` sit in `s` starting at `at`.
pub open spec fn bytes_at(s: Seq<u8>, at: int, enc: Seq<u8>) -> bool {
    forall|k: int| 0 <= k < enc.len() ==> s[at + k] == #[trigger] enc[k]
}

proof fn lemma_byte_at(s: Seq<u8>, at: int, enc: Seq<u8>, k: int)
    requires
        bytes_at(s, at, enc),
        0 <= k < enc.len(),
    ensures
        s[at + k] == enc[k],
{
    assert(enc[k] == enc[k]);
}

/// Splitting a placed concatenation into its two placed halves.
proof fn lemma_bytes_at_concat(s: Seq<u8>, at: int, a: Seq<u8>, b: Seq<u8>)
    requires
        bytes_at(s, at, a + b),
    ensures
        bytes_at(s, at, a),
        bytes_at(s, at + a.len(), b),
{
    assert forall|k: int| 0 <= k < a.len() implies s[at + k] == #[trigger] a[k] by {
        assert((a + b)[k] == a[k]);
        lemma_byte_at(s, at, a + b, k);
    }
    assert forall|k: int| 0 <= k < b.len() implies s[at + a.len() + k] == #[trigger] b[k] by {
        assert((a + b)[a.len() + k] == b[k]);
        lemma_byte_at(s, at, a + b, a.len() + k);
    }
}

/// A subrange equality places the bytes of the embedded encoding.
proof fn lemma_enc_bytes(s: Seq<u8>, at: int, enc: Seq<u8>)
    requires
        0 <= at,
        at + enc.len() <= s.len(),
        s.subrange(at, at + enc.len() as int) == enc,
    ensures
        bytes_at(s, at, enc),
{
    assert forall|k: int| 0 <= k < enc.len() implies s[at + k] == #[trigger] enc[k] by {
        assert(s.subrange(at, at + enc.len() as int)[k] == enc[k]);
    }
}

// ---------------------------------------------------------------------
// Byte-level facts, one lemma per opcode family
// ---------------------------------------------------------------------
proof fn lemma_byte_mov_rm(d: u8, w: u8)
    by (bit_vector)
    requires
        d < 2,
        w < 2,
    ensures
        (0x88 + d * 2 + w) as u8 != 0xf4,
        spec_get_bits((0x88 + d * 2 + w) as u8, 0, 6) == 0x22,
        spec_get_bit((0x88 + d * 2 + w) as u8, 6) == (d == 1),
        spec_get_bit((0x88 + d * 2 + w) as u8, 7) == (w == 1),
{
}

proof fn lemma_byte_mov_imm_reg(w: u8, reg: u8)
    by (bit_vector)
    requires
        w < 2,
        reg < 8,
    ensures
        (0xb0 + w * 8 + reg) as u8 != 0xf4,
        spec_get_bits((0xb0 + w * 8 + reg) as u8, 0, 6) != 0x22,
        spec_get_bits((0xb0 + w * 8 + reg) as u8, 0, 4) == 0xb,
        spec_get_bit((0xb0 + w * 8 + reg) as u8, 4) == (w == 1),
        spec_get_bits((0xb0 + w * 8 + reg) as u8, 5, 3) == reg,
{
}

proof fn lemma_byte_mov_imm_rm(w: u8)
    by (bit_vector)
    requires
        w < 2,
    ensures
        (0xc6 + w) as u8 != 0xf4,
        spec_get_bits((0xc6 + w) as u8, 0, 6) != 0x22,
        spec_get_bits((0xc6 + w) as u8, 0, 4) != 0xb,
        spec_get_bits((0xc6 + w) as u8, 0, 7) == 0x63,
        spec_get_bit((0xc6 + w) as u8, 7) == (w == 1),
{
}

proof fn lemma_byte_arith_rm(c: u8, d: u8, w: u8)
    by (bit_vector)
    requires
        c == 0 || c == 5 || c == 7,
        d < 2,
        w < 2,
    ensures
        (c * 8 + d * 2 + w) as u8 != 0xf4,
        spec_get_bits((c * 8 + d * 2 + w) as u8, 0, 6) != 0x22,
        spec_get_bits((c * 8 + d * 2 + w) as u8, 0, 4) != 0xb,
        spec_get_bits((c * 8 + d * 2 + w) as u8, 0, 7) != 0x63,
        spec_get_bits((c * 8 + d * 2 + w) as u8, 0, 7) != 0x50,
        spec_get_bits((c * 8 + d * 2 + w) as u8, 0, 7) != 0x51,
        spec_get_bits((c * 8 + d * 2 + w) as u8, 0, 2) == 0,
        !spec_get_bit((c * 8 + d * 2 + w) as u8, 5),
        spec_get_bits((c * 8 + d * 2 + w) as u8, 2, 3) == c,
        spec_get_bit((c * 8 + d * 2 + w) as u8, 6) == (d == 1),
        spec_get_bit((c * 8 + d * 2 + w) as u8, 7) == (w == 1),
{
}

proof fn lemma_byte_arith_imm(se: u8, w: u8)
    by (bit_vector)
    requires
        se < 2,
        w < 2,
    ensures
        (0x80 + se * 2 + w) as u8 != 0xf4,
        spec_get_bits((0x80 + se * 2 + w) as u8, 0, 6) != 0x22,
        spec_get_bits((0x80 + se * 2 + w) as u8, 0, 4) != 0xb,
        spec_get_bits((0x80 + se * 2 + w) as u8, 0, 7) != 0x63,
        spec_get_bits((0x80 + se * 2 + w) as u8, 0, 7) != 0x50,
        spec_get_bits((0x80 + se * 2 + w) as u8, 0, 7) != 0x51,
        spec_get_bits((0x80 + se * 2 + w) as u8, 0, 2) != 0,
        spec_get_bits((0x80 + se * 2 + w) as u8, 0, 6) == 0x20,
        spec_get_bit((0x80 + se * 2 + w) as u8, 6) == (se == 1),
        spec_get_bit((0x80 + se * 2 + w) as u8, 7) == (w == 1),
{
}

proof fn lemma_byte_jmp(cc: u8)
    by (bit_vector)
    requires
        cc < 16,
    ensures
        (0x70 + cc) as u8 != 0xf4,
        spec_get_bits((0x70 + cc) as u8, 0, 6) != 0x22,
        spec_get_bits((0x70 + cc) as u8, 0, 4) != 0xb,
        spec_get_bits((0x70 + cc) as u8, 0, 7) != 0x63,
        spec_get_bits((0x70 + cc) as u8, 0, 7) != 0x50,
        spec_get_bits((0x70 + cc) as u8, 0, 7) != 0x51,
        spec_get_bits((0x70 + cc) as u8, 0, 2) != 0,
        spec_get_bits((0x70 + cc) as u8, 0, 6) != 0x20,
        spec_get_bits((0x70 + cc) as u8, 0, 4) == 0x7,
        spec_get_bits((0x70 + cc) as u8, 4, 4) == cc,
{
}

proof fn lemma_byte_loop(cc: u8)
    by (bit_vector)
    requires
        cc < 4,
    ensures
        (0xe0 + cc) as u8 != 0xf4,
        spec_get_bits((0xe0 + cc) as u8, 0, 6) != 0x22,
        spec_get_bits((0xe0 + cc) as u8, 0, 4) != 0xb,
        spec_get_bits((0xe0 + cc) as u8, 0, 7) != 0x63,
        spec_get_bits((0xe0 + cc) as u8, 0, 7) != 0x50,
        spec_get_bits((0xe0 + cc) as u8, 0, 7) != 0x51,
        spec_get_bits((0xe0 + cc) as u8, 0, 2) != 0,
        spec_get_bits((0xe0 + cc) as u8, 0, 6) != 0x20,
        spec_get_bits((0xe0 + cc) as u8, 0, 4) != 0x7,
        spec_get_bits((0xe0 + cc) as u8, 0, 6) == 0x38,
        spec_get_bits((0xe0 + cc) as u8, 6, 2) == cc,
{
}

proof fn lemma_modrm_fields(mode: u8, mid: u8, rm: u8)
    by (bit_vector)
    requires
        mode < 4,
        mid < 8,
        rm < 8,
    ensures
        spec_get_bits(spec_modrm(mode, mid, rm), 0, 2) == mode,
        spec_get_bits(spec_modrm(mode, mid, rm), 2, 3) == mid,
        spec_get_bits(spec_modrm(mode, mid, rm), 5, 3) == rm,
{
}

proof fn lemma_u16_le_roundtrip(v: u16)
    by (bit_vector)
    ensures
        spec_u16_le((v % 256) as u8, (v / 256) as u8) == v,
{
}

proof fn lemma_i16_le_roundtrip(d: i16)
    by (bit_vector)
    ensures
        spec_i16_le(((d as u16) % 256) as u8, ((d as u16) / 256) as u8) == d,
{
}

proof fn lemma_sx8_roundtrip(d: i16)
    by (bit_vector)
    requires
        -128 <= d <= 127,
    ensures
        spec_sx8(d as u8) == d,
{
}

proof fn lemma_rel_roundtrip(x: i8)
    by (bit_vector)
    ensures
        (x as u8) as i8 == x,
{
}

// ---------------------------------------------------------------------
// Structural facts about effective addresses
// ---------------------------------------------------------------------
/// The r/m table entry of a pairing is the pairing itself, with no
/// displacement.
proof fn lemma_ea_table_inverse(ea: EffAddr)
    requires
        spec_ea_rm(ea) is Some,
    ensures
        spec_ea_rm(ea)->Some_0 < 8,
        spec_ea_table(spec_ea_rm(ea)->Some_0).base == ea.base,
        spec_ea_table(spec_ea_rm(ea)->Some_0).index == ea.index,
        spec_ea_table(spec_ea_rm(ea)->Some_0).offset is None,
{
}

/// The fields the encoder picks for an effective address are in range.
proof fn lemma_enc_ea_bounds(ea: EffAddr)
    requires
        ea.spec_canon(),
    ensures
        spec_enc_ea_mode(ea) < 3,
        spec_enc_ea_rm(ea) < 8,
{
    if !ea.spec_is_direct() {
        lemma_ea_table_inverse(ea);
    }
}

/// Reading the encoder's displacement bytes back yields the same
/// effective address.
proof fn lemma_ea_roundtrip(ea: EffAddr, s: Seq<u8>, at: int)
    requires
        ea.spec_canon(),
        0 <= at <= s.len(),
        at + spec_enc_ea_disp(ea).len() <= s.len(),
        bytes_at(s, at, spec_enc_ea_disp(ea)),
    ensures
        spec_dec_ea(spec_enc_ea_rm(ea), spec_enc_ea_mode(ea), s, at) == Some(
            (spec_enc_ea_disp(ea).len() as int, ea),
        ),
{
    let disp = spec_enc_ea_disp(ea);
    if ea.spec_is_direct() {
        let d = ea.offset->Some_0;
        let u = d as u16;
        lemma_byte_at(s, at, disp, 0);
        lemma_byte_at(s, at, disp, 1);
        assert(s[at] == (u % 256) as u8);
        assert(s[at + 1] == (u / 256) as u8);
        lemma_i16_le_roundtrip(d);
        assert(spec_i16_le(s[at], s[at + 1]) == d);
        assert(spec_norm_ea(EffAddr { base: None, index: None, offset: Some(d) }) == ea);
    } else {
        lemma_ea_table_inverse(ea);
        let rm = spec_ea_rm(ea)->Some_0;
        match ea.offset {
            None => {
                if rm == 6 {
                    // bare BP: mode 1 with a zero displacement byte
                    lemma_byte_at(s, at, disp, 0);
                    assert(s[at] == 0u8);
                    assert(spec_sx8(0u8) == 0i16) by (bit_vector);
                    assert(spec_norm_ea(EffAddr { offset: Some(0i16), ..spec_ea_table(6) })
                        == ea);
                } else {
                    assert(spec_ea_table(rm) == ea);
                }
            },
            Some(d) => {
                if -128 <= d <= 127 {
                    lemma_byte_at(s, at, disp, 0);
                    assert(s[at] == d as u8);
                    lemma_sx8_roundtrip(d);
                    assert(spec_norm_ea(EffAddr { offset: Some(d), ..spec_ea_table(rm) }) == ea);
                } else {
                    let u = d as u16;
                    lemma_byte_at(s, at, disp, 0);
                    lemma_byte_at(s, at, disp, 1);
                    assert(s[at] == (u % 256) as u8);
                    assert(s[at + 1] == (u / 256) as u8);
                    lemma_i16_le_roundtrip(d);
                    assert(spec_norm_ea(EffAddr { offset: Some(d), ..spec_ea_table(rm) }) == ea);
                }
            },
        }
    }
}

/// The shapes of register-or-memory destinations the encoder handles.
pub open spec fn spec_dst_shape(dst: Operand, sign_extend: bool, wide: bool) -> bool {
    match dst {
        Operand::Reg(r) => r.spec_is_wide() == wide,
        Operand::MemWord(ea) => ea.spec_canon() && (sign_extend || wide),
        Operand::MemByte(ea) => ea.spec_canon() && !(sign_extend || wide),
        _ => false,
    }
}

/// The encoder's mode and r/m fields for a destination are in range.
proof fn lemma_dst_bounds(rmop: Operand, sign_extend: bool, wide: bool)
    requires
        spec_dst_shape(rmop, sign_extend, wide),
    ensures
        spec_dst_mode(rmop) < 4,
        spec_dst_rm(rmop) < 8,
{
    match rmop {
        Operand::MemByte(ea) => lemma_enc_ea_bounds(ea),
        Operand::MemWord(ea) => lemma_enc_ea_bounds(ea),
        _ => (),
    }
}

/// Decoding the mode/r-m fields and displacement the encoder picked for a
/// destination yields the destination back.
proof fn lemma_dst_roundtrip(dst: Operand, sign_extend: bool, wide: bool, s: Seq<u8>, at: int)
    requires
        spec_dst_shape(dst, sign_extend, wide),
        0 <= at <= s.len(),
        at + spec_dst_disp(dst).len() <= s.len(),
        bytes_at(s, at, spec_dst_disp(dst)),
    ensures
        spec_dec_rm_operand(sign_extend, wide, spec_dst_mode(dst), spec_dst_rm(dst), s, at) == Some(
            (spec_dst_disp(dst).len() as int, dst),
        ),
{
    match dst {
        Operand::Reg(r) => {
            lemma_reg_encoding_roundtrip(r);
        },
        Operand::MemByte(ea) => {
            lemma_enc_ea_bounds(ea);
            lemma_ea_roundtrip(ea, s, at);
        },
        Operand::MemWord(ea) => {
            lemma_enc_ea_bounds(ea);
            lemma_ea_roundtrip(ea, s, at);
        },
        _ => {
        },
    }
}

/// The modrm-layout decode of an encoded reg/rm pair, shared by the MOV
/// and arithmetic families.
proof fn lemma_mod_reg_rm_roundtrip(reg: Register, rmop: Operand, d: bool, s: Seq<u8>, at: int)
    requires
        spec_dst_shape(rmop, false, reg.spec_is_wide()),
        0 <= at,
        at + 2 + spec_dst_disp(rmop).len() <= s.len(),
        spec_get_bit(s[at], 6) == d,
        spec_get_bit(s[at], 7) == reg.spec_is_wide(),
        s[at + 1] == spec_modrm(spec_dst_mode(rmop), reg.spec_code(), spec_dst_rm(rmop)),
        bytes_at(s, at + 2, spec_dst_disp(rmop)),
    ensures
        d ==> spec_dec_mod_reg_rm(s, at) == Some(
            (2 + spec_dst_disp(rmop).len() as int, Operand::Reg(reg), rmop),
        ),
        !d ==> spec_dec_mod_reg_rm(s, at) == Some(
            (2 + spec_dst_disp(rmop).len() as int, rmop, Operand::Reg(reg)),
        ),
{
    let w = reg.spec_is_wide();
    lemma_dst_bounds(rmop, false, w);
    lemma_modrm_fields(spec_dst_mode(rmop), reg.spec_code(), spec_dst_rm(rmop));
    lemma_reg_encoding_roundtrip(reg);
    lemma_dst_roundtrip(rmop, false, w, s, at + 2);
}

// ---------------------------------------------------------------------
// The per-instruction round trip
// ---------------------------------------------------------------------
/// Decoding a canonical instruction's encoding, wherever it sits inside a
/// larger buffer, yields exactly that instruction and its length.
pub proof fn lemma_encode_decode(i: Inst, s: Seq<u8>, at: int)
    requires
        i.spec_canon(),
        0 <= at,
        at + spec_encode(i).len() <= s.len(),
        s.subrange(at, at + spec_encode(i).len() as int) == spec_encode(i),
    ensures
        spec_decode_at(s, at) == Some((spec_encode(i).len() as int, i)),
{
    let enc = spec_encode(i);
    lemma_enc_bytes(s, at, enc);
    match i {
        Inst::MOV(op1, op2) => {
            lemma_mov_roundtrip(op1, op2, s, at);
        },
        Inst::ADD(op1, op2) => {
            lemma_arith_roundtrip(ArithOps::ADD, 0, op1, op2, s, at);
        },
        Inst::SUB(op1, op2) => {
            lemma_arith_roundtrip(ArithOps::SUB, 5, op1, op2, s, at);
        },
        Inst::CMP(op1, op2) => {
            lemma_arith_roundtrip(ArithOps::CMP, 7, op1, op2, s, at);
        },
        Inst::HLT => {
            lemma_byte_at(s, at, enc, 0);
            assert(s[at] == 0xf4u8);
        },
        Inst::JO(op) => lemma_jmp_roundtrip(i, 0, op, s, at),
        Inst::JNO(op) => lemma_jmp_roundtrip(i, 1, op, s, at),
        Inst::JB(op) => lemma_jmp_roundtrip(i, 2, op, s, at),
        Inst::JNB(op) => lemma_jmp_roundtrip(i, 3, op, s, at),
        Inst::JE(op) => lemma_jmp_roundtrip(i, 4, op, s, at),
        Inst::JNE(op) => lemma_jmp_roundtrip(i, 5, op, s, at),
        Inst::JBE(op) => lemma_jmp_roundtrip(i, 6, op, s, at),
        Inst::JNBE(op) => lemma_jmp_roundtrip(i, 7, op, s, at),
        Inst::JS(op) => lemma_jmp_roundtrip(i, 8, op, s, at),
        Inst::JNS(op) => lemma_jmp_roundtrip(i, 9, op, s, at),
        Inst::JP(op) => lemma_jmp_roundtrip(i, 10, op, s, at),
        Inst::JNP(op) => lemma_jmp_roundtrip(i, 11, op, s, at),
        Inst::JL(op) => lemma_jmp_roundtrip(i, 12, op, s, at),
        Inst::JNL(op) => lemma_jmp_roundtrip(i, 13, op, s, at),
        Inst::JLE(op) => lemma_jmp_roundtrip(i, 14, op, s, at),
        Inst::JNLE(op) => lemma_jmp_roundtrip(i, 15, op, s, at),
        Inst::LOOPNZ(op) => lemma_loop_roundtrip(i, 0, op, s, at),
        Inst::LOOPZ(op) => lemma_loop_roundtrip(i, 1, op, s, at),
        Inst::LOOP(op) => lemma_loop_roundtrip(i, 2, op, s, at),
        Inst::JCXZ(op) => lemma_loop_roundtrip(i, 3, op, s, at),
    }
}

/// Ties each condition code to its jump variant.
pub open spec fn spec_jmp_variant_matches(i: Inst, cc: u8, op: Operand) -> bool {
    match i {
        Inst::JO(o) => cc == 0 && o == op,
        Inst::JNO(o) => cc == 1 && o == op,
        Inst::JB(o) => cc == 2 && o == op,
        Inst::JNB(o) => cc == 3 && o == op,
        Inst::JE(o) => cc == 4 && o == op,
        Inst::JNE(o) => cc == 5 && o == op,
        Inst::JBE(o) => cc == 6 && o == op,
        Inst::JNBE(o) => cc == 7 && o == op,
        Inst::JS(o) => cc == 8 && o == op,
        Inst::JNS(o) => cc == 9 && o == op,
        Inst::JP(o) => cc == 10 && o == op,
        Inst::JNP(o) => cc == 11 && o == op,
        Inst::JL(o) => cc == 12 && o == op,
        Inst::JNL(o) => cc == 13 && o == op,
        Inst::JLE(o) => cc == 14 && o == op,
        Inst::JNLE(o) => cc == 15 && o == op,
        _ => false,
    }
}

proof fn lemma_jmp_roundtrip(i: Inst, cc: u8, op: Operand, s: Seq<u8>, at: int)
    requires
        cc < 16,
        op is RelOffsetByte,
        spec_encode(i) == spec_enc_jmp(cc, op),
        spec_jmp_variant_matches(i, cc, op),
        0 <= at,
        at + 2 <= s.len(),
        bytes_at(s, at, spec_enc_jmp(cc, op)),
    ensures
        spec_decode_at(s, at) == Some((2int, i)),
{
    lemma_byte_at(s, at, spec_enc_jmp(cc, op), 0);
    lemma_byte_at(s, at, spec_enc_jmp(cc, op), 1);
    assert(s[at] == (0x70 + cc) as u8);
    assert(s[at + 1] == op->RelOffsetByte_0 as u8);
    lemma_byte_jmp(cc);
    lemma_rel_roundtrip(op->RelOffsetByte_0);
    assert(s[at + 1] as i8 == op->RelOffsetByte_0);
    assert(op == Operand::RelOffsetByte(op->RelOffsetByte_0));
}

/// Ties each loop code to its variant.
pub open spec fn spec_loop_variant_matches(i: Inst, cc: u8, op: Operand) -> bool {
    match i {
        Inst::LOOPNZ(o) => cc == 0 && o == op,
        Inst::LOOPZ(o) => cc == 1 && o == op,
        Inst::LOOP(o) => cc == 2 && o == op,
        Inst::JCXZ(o) => cc == 3 && o == op,
        _ => false,
    }
}

proof fn lemma_loop_roundtrip(i: Inst, cc: u8, op: Operand, s: Seq<u8>, at: int)
    requires
        cc < 4,
        op is RelOffsetByte,
        spec_encode(i) == spec_enc_loop(cc, op),
        spec_loop_variant_matches(i, cc, op),
        0 <= at,
        at + 2 <= s.len(),
        bytes_at(s, at, spec_enc_loop(cc, op)),
    ensures
        spec_decode_at(s, at) == Some((2int, i)),
{
    lemma_byte_at(s, at, spec_enc_loop(cc, op), 0);
    lemma_byte_at(s, at, spec_enc_loop(cc, op), 1);
    assert(s[at] == (0xe0 + cc) as u8);
    assert(s[at + 1] == op->RelOffsetByte_0 as u8);
    lemma_byte_loop(cc);
    lemma_rel_roundtrip(op->RelOffsetByte_0);
    assert(s[at + 1] as i8 == op->RelOffsetByte_0);
    assert(op == Operand::RelOffsetByte(op->RelOffsetByte_0));
}

proof fn lemma_mov_roundtrip(op1: Operand, op2: Operand, s: Seq<u8>, at: int)
    requires
        crate::inst::spec_mov_operands_wf(op1, op2, true),
        0 <= at,
        at + spec_enc_mov(op1, op2).len() <= s.len(),
        bytes_at(s, at, spec_enc_mov(op1, op2)),
    ensures
        spec_decode_at(s, at) == Some((spec_enc_mov(op1, op2).len() as int, Inst::MOV(op1, op2))),
{
    let enc = spec_enc_mov(op1, op2);
    match (op1, op2) {
        (Operand::Reg(a), Operand::Reg(_)) => {
            lemma_mov_reg_rm(a, op2, true, s, at);
        },
        (Operand::Reg(a), Operand::MemByte(_)) => {
            lemma_mov_reg_rm(a, op2, true, s, at);
        },
        (Operand::Reg(a), Operand::MemWord(_)) => {
            lemma_mov_reg_rm(a, op2, true, s, at);
        },
        (Operand::MemByte(_), Operand::Reg(b)) => {
            lemma_mov_reg_rm(b, op1, false, s, at);
        },
        (Operand::MemWord(_), Operand::Reg(b)) => {
            lemma_mov_reg_rm(b, op1, false, s, at);
        },
        (Operand::Reg(a), Operand::ImmByte(v)) => {
            lemma_byte_at(s, at, enc, 0);
            lemma_byte_at(s, at, enc, 1);
            assert(s[at] == (0xb0 + 0 * 8 + a.spec_code()) as u8);
            assert(s[at + 1] == v);
            lemma_byte_mov_imm_reg(0, a.spec_code());
            lemma_reg_encoding_roundtrip(a);
            assert(spec_dec_data(false, false, s, at + 1) == Some((1int, v as u16)));
            assert((v as u16) as u8 == v);
            assert(spec_dec_mov_imm_reg(s, at) == Some((2int, Inst::MOV(op1, op2))));
        },
        (Operand::Reg(a), Operand::ImmWord(v)) => {
            lemma_byte_at(s, at, enc, 0);
            lemma_byte_at(s, at, enc, 1);
            lemma_byte_at(s, at, enc, 2);
            assert(s[at] == (0xb0 + 1 * 8 + a.spec_code()) as u8);
            assert(s[at + 1] == (v % 256) as u8);
            assert(s[at + 2] == (v / 256) as u8);
            lemma_byte_mov_imm_reg(1, a.spec_code());
            lemma_reg_encoding_roundtrip(a);
            lemma_u16_le_roundtrip(v);
            assert(spec_dec_data(false, true, s, at + 1) == Some((2int, v)));
            assert(spec_dec_mov_imm_reg(s, at) == Some((3int, Inst::MOV(op1, op2))));
        },
        (Operand::MemByte(_), Operand::ImmByte(_)) => {
            lemma_mov_imm_rm(op1, op2, s, at);
        },
        (Operand::MemWord(_), Operand::ImmWord(_)) => {
            lemma_mov_imm_rm(op1, op2, s, at);
        },
        _ => {
        },
    }
}

/// The register/memory MOV forms; the direction bit is set when the
/// register is the destination.
proof fn lemma_mov_reg_rm(reg: Register, rmop: Operand, d: bool, s: Seq<u8>, at: int)
    requires
        spec_dst_shape(rmop, false, reg.spec_is_wide()),
        d ==> spec_enc_mov(Operand::Reg(reg), rmop) == spec_enc_reg_rm(0x88, true, reg, rmop)
            && bytes_at(s, at, spec_enc_reg_rm(0x88, true, reg, rmop)) && at + spec_enc_reg_rm(
            0x88,
            true,
            reg,
            rmop,
        ).len() <= s.len(),
        !d ==> spec_enc_mov(rmop, Operand::Reg(reg)) == spec_enc_reg_rm(0x88, false, reg, rmop)
            && bytes_at(s, at, spec_enc_reg_rm(0x88, false, reg, rmop)) && at + spec_enc_reg_rm(
            0x88,
            false,
            reg,
            rmop,
        ).len() <= s.len(),
        0 <= at,
    ensures
        d ==> spec_decode_at(s, at) == Some(
            (
                spec_enc_reg_rm(0x88, true, reg, rmop).len() as int,
                Inst::MOV(Operand::Reg(reg), rmop),
            ),
        ),
        !d ==> spec_decode_at(s, at) == Some(
            (
                spec_enc_reg_rm(0x88, false, reg, rmop).len() as int,
                Inst::MOV(rmop, Operand::Reg(reg)),
            ),
        ),
{
    let w = reg.spec_is_wide();
    let du: u8 = if d {
        1
    } else {
        0
    };
    let wu: u8 = if w {
        1
    } else {
        0
    };
    let enc = spec_enc_reg_rm(0x88, d, reg, rmop);
    let b0: u8 = (0x88 + du * 2 + wu) as u8;
    assert(enc == seq![b0] + (seq![
        spec_modrm(spec_dst_mode(rmop), reg.spec_code(), spec_dst_rm(rmop)),
    ] + spec_dst_disp(rmop)));
    lemma_bytes_at_concat(s, at, seq![b0], seq![
        spec_modrm(spec_dst_mode(rmop), reg.spec_code(), spec_dst_rm(rmop)),
    ] + spec_dst_disp(rmop));
    lemma_bytes_at_concat(s, at + 1, seq![
        spec_modrm(spec_dst_mode(rmop), reg.spec_code(), spec_dst_rm(rmop)),
    ], spec_dst_disp(rmop));
    lemma_byte_at(s, at, seq![b0], 0);
    lemma_byte_at(s, at + 1, seq![
        spec_modrm(spec_dst_mode(rmop), reg.spec_code(), spec_dst_rm(rmop)),
    ], 0);
    assert(s[at] == b0);
    assert(s[at + 1] == spec_modrm(spec_dst_mode(rmop), reg.spec_code(), spec_dst_rm(rmop)));
    lemma_byte_mov_rm(du, wu);
    lemma_mod_reg_rm_roundtrip(reg, rmop, d, s, at);
}

/// The immediate-to-register/memory MOV (opcodes 0xc6 and 0xc7).
proof fn lemma_mov_imm_rm(op1: Operand, op2: Operand, s: Seq<u8>, at: int)
    requires
        crate::inst::spec_mov_operands_wf(op1, op2, true),
        op1 is MemByte || op1 is MemWord,
        op2 is ImmByte || op2 is ImmWord,
        0 <= at,
        at + spec_enc_mov(op1, op2).len() <= s.len(),
        bytes_at(s, at, spec_enc_mov(op1, op2)),
    ensures
        spec_decode_at(s, at) == Some((spec_enc_mov(op1, op2).len() as int, Inst::MOV(op1, op2))),
{
    let w = op1 is MemWord;
    let wu: u8 = if w {
        1
    } else {
        0
    };
    let enc = spec_enc_mov(op1, op2);
    let b0: u8 = (0xc6 + wu) as u8;
    let data: Seq<u8> = if w {
        spec_le_bytes(op2->ImmWord_0)
    } else {
        seq![op2->ImmByte_0]
    };
    assert(enc == (seq![b0] + spec_enc_dst(0, op1)) + data);
    lemma_bytes_at_concat(s, at, seq![b0] + spec_enc_dst(0, op1), data);
    lemma_bytes_at_concat(s, at, seq![b0], spec_enc_dst(0, op1));
    lemma_bytes_at_concat(s, at + 1, seq![
        spec_modrm(spec_dst_mode(op1), 0, spec_dst_rm(op1)),
    ], spec_dst_disp(op1));
    lemma_byte_at(s, at, seq![b0], 0);
    lemma_byte_at(s, at + 1, seq![spec_modrm(spec_dst_mode(op1), 0, spec_dst_rm(op1))], 0);
    assert(s[at] == b0);
    lemma_byte_mov_imm_rm(wu);
    assert(spec_dst_shape(op1, false, w));
    lemma_dst_bounds(op1, false, w);
    lemma_modrm_fields(spec_dst_mode(op1), 0, spec_dst_rm(op1));
    assert(s[at + 1] == spec_modrm(spec_dst_mode(op1), 0, spec_dst_rm(op1)));
    let dlen = spec_dst_disp(op1).len() as int;
    lemma_dst_roundtrip(op1, false, w, s, at + 2);
    if w {
        let v = op2->ImmWord_0;
        lemma_byte_at(s, at + 2 + dlen, data, 0);
        lemma_byte_at(s, at + 2 + dlen, data, 1);
        assert(s[at + 2 + dlen] == (v % 256) as u8);
        assert(s[at + 2 + dlen + 1] == (v / 256) as u8);
        lemma_u16_le_roundtrip(v);
        assert(spec_dec_data(false, true, s, at + 2 + dlen) == Some((2int, v)));
    } else {
        let v = op2->ImmByte_0;
        lemma_byte_at(s, at + 2 + dlen, data, 0);
        assert(s[at + 2 + dlen] == v);
        assert((v as u16) as u8 == v);
        assert(spec_dec_data(false, false, s, at + 2 + dlen) == Some((1int, v as u16)));
    }
}

proof fn lemma_arith_roundtrip(a: ArithOps, c: u8, op1: Operand, op2: Operand, s: Seq<u8>, at: int)
    requires
        c == 0 || c == 5 || c == 7,
        spec_arith_from_opcode(c) == Some(a),
        crate::inst::spec_arith_operands_wf(op1, op2, true),
        spec_encode(spec_new_arithmetic(a, op1, op2)) == spec_enc_arith(c, op1, op2),
        0 <= at,
        at + spec_enc_arith(c, op1, op2).len() <= s.len(),
        bytes_at(s, at, spec_enc_arith(c, op1, op2)),
    ensures
        spec_decode_at(s, at) == Some(
            (spec_enc_arith(c, op1, op2).len() as int, spec_new_arithmetic(a, op1, op2)),
        ),
{
    match (op1, op2) {
        (Operand::Reg(x), Operand::Reg(_)) => {
            lemma_arith_reg_rm(a, c, x, op2, true, s, at);
        },
        (Operand::Reg(x), Operand::MemByte(_)) => {
            lemma_arith_reg_rm(a, c, x, op2, true, s, at);
        },
        (Operand::Reg(x), Operand::MemWord(_)) => {
            lemma_arith_reg_rm(a, c, x, op2, true, s, at);
        },
        (Operand::MemByte(_), Operand::Reg(b)) => {
            lemma_arith_reg_rm(a, c, b, op1, false, s, at);
        },
        (Operand::MemWord(_), Operand::Reg(b)) => {
            lemma_arith_reg_rm(a, c, b, op1, false, s, at);
        },
        _ => {
            lemma_arith_imm(a, c, op1, op2, s, at);
        },
    }
}

proof fn lemma_arith_reg_rm(
    a: ArithOps,
    c: u8,
    reg: Register,
    rmop: Operand,
    d: bool,
    s: Seq<u8>,
    at: int,
)
    requires
        c == 0 || c == 5 || c == 7,
        spec_arith_from_opcode(c) == Some(a),
        spec_dst_shape(rmop, false, reg.spec_is_wide()),
        d ==> spec_enc_arith(c, Operand::Reg(reg), rmop) == spec_enc_reg_rm(
            (c * 8) as int,
            true,
            reg,
            rmop,
        ) && bytes_at(s, at, spec_enc_reg_rm((c * 8) as int, true, reg, rmop)) && at
            + spec_enc_reg_rm((c * 8) as int, true, reg, rmop).len() <= s.len(),
        !d ==> spec_enc_arith(c, rmop, Operand::Reg(reg)) == spec_enc_reg_rm(
            (c * 8) as int,
            false,
            reg,
            rmop,
        ) && bytes_at(s, at, spec_enc_reg_rm((c * 8) as int, false, reg, rmop)) && at
            + spec_enc_reg_rm((c * 8) as int, false, reg, rmop).len() <= s.len(),
        0 <= at,
    ensures
        d ==> spec_decode_at(s, at) == Some(
            (
                spec_enc_reg_rm((c * 8) as int, true, reg, rmop).len() as int,
                spec_new_arithmetic(a, Operand::Reg(reg), rmop),
            ),
        ),
        !d ==> spec_decode_at(s, at) == Some(
            (
                spec_enc_reg_rm((c * 8) as int, false, reg, rmop).len() as int,
                spec_new_arithmetic(a, rmop, Operand::Reg(reg)),
            ),
        ),
{
    let w = reg.spec_is_wide();
    let du: u8 = if d {
        1
    } else {
        0
    };
    let wu: u8 = if w {
        1
    } else {
        0
    };
    let enc = spec_enc_reg_rm((c * 8) as int, d, reg, rmop);
    let b0: u8 = (c * 8 + du * 2 + wu) as u8;
    assert(enc == seq![b0] + (seq![
        spec_modrm(spec_dst_mode(rmop), reg.spec_code(), spec_dst_rm(rmop)),
    ] + spec_dst_disp(rmop)));
    lemma_bytes_at_concat(s, at, seq![b0], seq![
        spec_modrm(spec_dst_mode(rmop), reg.spec_code(), spec_dst_rm(rmop)),
    ] + spec_dst_disp(rmop));
    lemma_bytes_at_concat(s, at + 1, seq![
        spec_modrm(spec_dst_mode(rmop), reg.spec_code(), spec_dst_rm(rmop)),
    ], spec_dst_disp(rmop));
    lemma_byte_at(s, at, seq![b0], 0);
    lemma_byte_at(s, at + 1, seq![
        spec_modrm(spec_dst_mode(rmop), reg.spec_code(), spec_dst_rm(rmop)),
    ], 0);
    assert(s[at] == b0);
    assert(s[at + 1] == spec_modrm(spec_dst_mode(rmop), reg.spec_code(), spec_dst_rm(rmop)));
    lemma_byte_arith_rm(c, du, wu);
    lemma_mod_reg_rm_roundtrip(reg, rmop, d, s, at);
}

/// The immediate arithmetic forms (opcodes 0x80, 0x81, 0x83).
proof fn lemma_arith_imm(a: ArithOps, c: u8, op1: Operand, op2: Operand, s: Seq<u8>, at: int)
    requires
        c == 0 || c == 5 || c == 7,
        spec_arith_from_opcode(c) == Some(a),
        crate::inst::spec_arith_operands_wf(op1, op2, true),
        op2 is ImmByte || op2 is ImmWord,
        op1 is Reg || op1 is MemByte || op1 is MemWord,
        0 <= at,
        at + spec_enc_arith(c, op1, op2).len() <= s.len(),
        bytes_at(s, at, spec_enc_arith(c, op1, op2)),
    ensures
        spec_decode_at(s, at) == Some(
            (spec_enc_arith(c, op1, op2).len() as int, spec_new_arithmetic(a, op1, op2)),
        ),
{
    let dst_wide = match op1 {
        Operand::Reg(r) => r.spec_is_wide(),
        Operand::MemWord(_) => true,
        _ => false,
    };
    let imm_wide = op2 is ImmWord;
    let se = dst_wide && !imm_wide;
    let seu: u8 = if se {
        1
    } else {
        0
    };
    let wu: u8 = if dst_wide {
        1
    } else {
        0
    };
    let enc = spec_enc_arith(c, op1, op2);
    let b0: u8 = (0x80 + seu * 2 + wu) as u8;
    let data: Seq<u8> = if imm_wide {
        spec_le_bytes(op2->ImmWord_0)
    } else {
        seq![op2->ImmByte_0]
    };
    assert(enc == (seq![b0] + spec_enc_dst(c, op1)) + data);
    lemma_bytes_at_concat(s, at, seq![b0] + spec_enc_dst(c, op1), data);
    lemma_bytes_at_concat(s, at, seq![b0], spec_enc_dst(c, op1));
    lemma_bytes_at_concat(s, at + 1, seq![
        spec_modrm(spec_dst_mode(op1), c, spec_dst_rm(op1)),
    ], spec_dst_disp(op1));
    lemma_byte_at(s, at, seq![b0], 0);
    lemma_byte_at(s, at + 1, seq![spec_modrm(spec_dst_mode(op1), c, spec_dst_rm(op1))], 0);
    assert(s[at] == b0);
    lemma_byte_arith_imm(seu, wu);
    assert(spec_dst_shape(op1, se, dst_wide));
    lemma_dst_bounds(op1, se, dst_wide);
    lemma_modrm_fields(spec_dst_mode(op1), c, spec_dst_rm(op1));
    assert(s[at + 1] == spec_modrm(spec_dst_mode(op1), c, spec_dst_rm(op1)));
    let dlen = spec_dst_disp(op1).len() as int;
    lemma_dst_roundtrip(op1, se, dst_wide, s, at + 2);
    if imm_wide {
        let v = op2->ImmWord_0;
        lemma_byte_at(s, at + 2 + dlen, data, 0);
        lemma_byte_at(s, at + 2 + dlen, data, 1);
        assert(s[at + 2 + dlen] == (v % 256) as u8);
        assert(s[at + 2 + dlen + 1] == (v / 256) as u8);
        lemma_u16_le_roundtrip(v);
        assert(spec_dec_data(se, dst_wide, s, at + 2 + dlen) == Some((2int, v)));
    } else {
        let v = op2->ImmByte_0;
        lemma_byte_at(s, at + 2 + dlen, data, 0);
        assert(s[at + 2 + dlen] == v);
        assert((v as u16) as u8 == v);
        assert(spec_dec_data(se, dst_wide, s, at + 2 + dlen) == Some((1int, v as u16)));
    }
}

// ---------------------------------------------------------------------
// Whole programs
// ---------------------------------------------------------------------
/// A canonical instruction encodes to at least one byte.
pub proof fn lemma_encode_len(i: Inst)
    requires
        i.spec_canon(),
    ensures
        1 <= spec_encode(i).len(),
{
}

/// Decoding the canonical encoding of a program, laid out at the tail of
/// a buffer, yields the program back.
proof fn lemma_decode_all_suffix(insts: Seq<Inst>, s: Seq<u8>, at: int)
    requires
        forall|k: int| 0 <= k < insts.len() ==> insts[k].spec_canon(),
        0 <= at <= s.len(),
        at + spec_encode_all(insts).len() == s.len(),
        s.subrange(at, s.len() as int) == spec_encode_all(insts),
    ensures
        spec_decode_all(s, at) == Some(insts),
    decreases insts.len(),
{
    if insts.len() == 0 {
        assert(at == s.len());
    } else {
        let i0 = insts[0];
        let enc0 = spec_encode(i0);
        let rest = spec_encode_all(insts.skip(1));
        assert(spec_encode_all(insts) == enc0 + rest);
        lemma_encode_len(i0);
        assert(s.subrange(at, at + enc0.len() as int) =~= enc0) by {
            assert forall|k: int|
                0 <= k < enc0.len() implies s.subrange(at, at + enc0.len() as int)[k] == enc0[k] by {
                assert(s.subrange(at, s.len() as int)[k] == (enc0 + rest)[k]);
            }
        }
        lemma_encode_decode(i0, s, at);
        let n0 = enc0.len() as int;
        assert(s.subrange(at + n0, s.len() as int) =~= rest) by {
            assert forall|k: int|
                0 <= k < rest.len() implies s.subrange(at + n0, s.len() as int)[k] == rest[k] by {
                assert(s.subrange(at, s.len() as int)[n0 + k] == (enc0 + rest)[n0 + k]);
            }
        }
        assert(forall|k: int| 0 <= k < insts.skip(1).len() ==> insts.skip(1)[k].spec_canon());
        lemma_decode_all_suffix(insts.skip(1), s, at + n0);
        assert(seq![i0] + insts.skip(1) =~= insts);
    }
}

/// The round-trip theorem: a program of canonical instructions, encoded
/// and then decoded, is unchanged. Every decoder output whose direct
/// addresses have nonzero displacements is canonical, so this is the
/// losslessness oracle for canonically encoded byte buffers.
pub proof fn lemma_encode_all_decode_all(insts: Seq<Inst>)
    requires
        forall|k: int| 0 <= k < insts.len() ==> insts[k].spec_canon(),
    ensures
        spec_decode_all(spec_encode_all(insts), 0) == Some(insts),
{
    let s = spec_encode_all(insts);
    assert(s.subrange(0, s.len() as int) =~= s);
    lemma_decode_all_suffix(insts, s, 0);
}

} // verus!
