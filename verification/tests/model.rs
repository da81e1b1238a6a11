//! Unit tests of the machine model: register aliasing, effective-address
//! wraparound, flag computation, and decoder classification on concrete
//! bytes.

use sim8086::decode::{decode_all, InstStream};
use sim8086::inst::{EffAddr, Inst, Operand, Register};
use sim8086::machine::{Flag, GeneralRegisters, State};

#[test]
fn register_set_then_get() {
    // Setting any 16-bit register and reading it back yields the value.
    let wides = [
        Register::AX,
        Register::CX,
        Register::DX,
        Register::BX,
        Register::SP,
        Register::BP,
        Register::SI,
        Register::DI,
    ];
    for (k, r) in wides.iter().enumerate() {
        let mut regs = GeneralRegisters::new();
        let v: u16 = 0x1111u16.wrapping_mul(k as u16 + 1);
        regs.set_reg(*r, v);
        assert_eq!(regs.get_reg(*r), v);
    }
    // A half-register keeps the value's low byte.
    let halves = [
        Register::AL,
        Register::CL,
        Register::DL,
        Register::BL,
        Register::AH,
        Register::CH,
        Register::DH,
        Register::BH,
    ];
    for r in halves {
        let mut regs = GeneralRegisters::new();
        regs.set_reg(r, 0x01fe);
        assert_eq!(regs.get_reg(r), 0xfe);
    }
}

#[test]
fn register_aliasing_halves() {
    // Setting a 16-bit register makes its halves read the little-endian
    // bytes of the value.
    let mut regs = GeneralRegisters::new();
    regs.set_reg(Register::AX, 0x1234);
    assert_eq!(regs.get_reg(Register::AL), 0x34);
    assert_eq!(regs.get_reg(Register::AH), 0x12);

    // Setting the low half leaves the high half alone, and conversely.
    regs.set_reg(Register::AL, 0xff);
    assert_eq!(regs.get_reg(Register::AH), 0x12);
    assert_eq!(regs.get_reg(Register::AX), 0x12ff);
    regs.set_reg(Register::AH, 0x01);
    assert_eq!(regs.get_reg(Register::AL), 0xff);
    assert_eq!(regs.get_reg(Register::AX), 0x01ff);

    // Unrelated registers are untouched.
    regs.set_reg(Register::CX, 0xbeef);
    assert_eq!(regs.get_reg(Register::AX), 0x01ff);
    assert_eq!(regs.get_reg(Register::CH), 0xbe);
    assert_eq!(regs.get_reg(Register::CL), 0xef);
}

#[test]
fn effective_address_wraparound() {
    // base + index + displacement wraps modulo 65536.
    let mut state = State::new(&[]);
    state.regs.set_reg(Register::BX, 0xffff);
    state.regs.set_reg(Register::SI, 2);
    let addr = state.calc_addr(EffAddr {
        base: Some(Register::BX),
        index: Some(Register::SI),
        offset: None,
    });
    assert_eq!(addr, 1);

    state.regs.set_reg(Register::BX, 0x8000);
    state.regs.set_reg(Register::SI, 0x8000);
    let addr = state.calc_addr(EffAddr {
        base: Some(Register::BX),
        index: Some(Register::SI),
        offset: Some(4),
    });
    assert_eq!(addr, 4);

    // A negative displacement acts as its 16-bit two's complement.
    state.regs.set_reg(Register::BX, 0);
    let addr = state.calc_addr(EffAddr { base: Some(Register::BX), index: None, offset: Some(-1) });
    assert_eq!(addr, 65535);
}

#[test]
fn word_access_wraps_at_memory_end() {
    // A word written at the last byte wraps its high byte to address 0.
    let mut state = State::new(&[]);
    let top = Operand::MemWord(EffAddr { base: None, index: None, offset: Some(-1) });
    state.set_value(top, 0xabcd);
    assert_eq!(state.memory[65535], 0xcd);
    assert_eq!(state.memory[0], 0xab);
    assert_eq!(state.get_value(top), 0xabcd);
}

#[test]
fn flag_computation() {
    let mut state = State::new(&[]);

    // Zero result: Zero set, and Parity set (zero bits are even).
    state.update_flags_from_value(0);
    assert!(state.is_set(Flag::Zero));
    assert!(state.is_set(Flag::Parity));
    assert!(!state.is_set(Flag::Signed));
    assert_eq!(state.flags_as_string(), "PZ");

    // 0x8000 reads negative as a signed 16-bit value: Signed set.
    state.update_flags_from_value(0x8000);
    assert!(state.is_set(Flag::Signed));
    assert!(!state.is_set(Flag::Zero));

    // Low byte 0b11: two set bits, even population count: Parity set.
    state.update_flags_from_value(3);
    assert!(state.is_set(Flag::Parity));
    assert!(!state.is_set(Flag::Zero));
    assert!(!state.is_set(Flag::Signed));
    assert_eq!(state.flags_as_string(), "P");

    // Low byte 0b1: odd population count: Parity clear.
    state.update_flags_from_value(1);
    assert!(!state.is_set(Flag::Parity));
    assert_eq!(state.flags_as_string(), "");

    // Parity looks at the low byte only.
    state.update_flags_from_value(0x0100);
    assert!(state.is_set(Flag::Parity));
}

#[test]
fn flag_bits_are_independent() {
    let mut state = State::new(&[]);
    state.set_flag(Flag::Zero);
    assert!(state.is_set(Flag::Zero));
    assert!(!state.is_set(Flag::Parity));
    state.set_flag(Flag::Parity);
    state.unset_flag(Flag::Zero);
    assert!(state.is_set(Flag::Parity));
    assert!(!state.is_set(Flag::Zero));
    state.set_flag(Flag::Signed);
    assert_eq!(state.flags_as_string(), "PS");
}

#[test]
fn decoder_classifies_concrete_bytes() {
    // Register-to-register MOV, direction bit clear.
    assert_eq!(
        Inst::from_encoding(&[0x89, 0xd9]),
        Some((2, Inst::MOV(Operand::Reg(Register::CX), Operand::Reg(Register::BX)))),
    );
    // Immediate-to-register MOV with the register in the opcode byte.
    assert_eq!(
        Inst::from_encoding(&[0xb1, 0x0c]),
        Some((2, Inst::MOV(Operand::Reg(Register::CL), Operand::ImmByte(12)))),
    );
    // HLT is a single exact byte.
    assert_eq!(Inst::from_encoding(&[0xf4]), Some((1, Inst::HLT)));
    // A conditional jump carries a signed relative offset.
    assert_eq!(
        Inst::from_encoding(&[0x75, 0xfe]),
        Some((2, Inst::JNE(Operand::RelOffsetByte(-2)))),
    );
    // Mode 0 with r/m 6 is the direct-address special case.
    assert_eq!(
        Inst::from_encoding(&[0x8b, 0x1e, 0x84, 0x03]),
        Some((
            4,
            Inst::MOV(
                Operand::Reg(Register::BX),
                Operand::MemWord(EffAddr { base: None, index: None, offset: Some(900) }),
            ),
        )),
    );
    // An opcode outside the covered subset fails to decode.
    assert_eq!(Inst::from_encoding(&[0x0f]), None);
    // A matched pattern cut short by the end of the buffer fails too.
    assert_eq!(Inst::from_encoding(&[0x89]), None);
    assert_eq!(Inst::from_encoding(&[]), None);
}

#[test]
fn zero_displacement_is_normalized() {
    // Mode 2 with a zero displacement decodes with the displacement
    // dropped: [bp + 0] and [bp] are the same effective address.
    let (n, inst) = Inst::from_encoding(&[0x8b, 0x96, 0x00, 0x00]).unwrap();
    assert_eq!(n, 4);
    assert_eq!(
        inst,
        Inst::MOV(
            Operand::Reg(Register::DX),
            Operand::MemWord(EffAddr { base: Some(Register::BP), index: None, offset: None }),
        ),
    );
}

#[test]
fn inst_stream_walks_a_buffer() {
    let mut stream = InstStream::from_binary(vec![0xb1, 0x0c, 0xf4, 0x0f]);
    assert_eq!(
        stream.next(),
        Some(Inst::MOV(Operand::Reg(Register::CL), Operand::ImmByte(12))),
    );
    assert_eq!(stream.next(), Some(Inst::HLT));
    // The undecodable byte ends the stream.
    assert_eq!(stream.next(), None);
    assert_eq!(stream.iptr, 3);
}

#[test]
fn decode_all_requires_every_byte_to_decode() {
    assert!(decode_all(&[0xb1, 0x0c, 0xf4]).is_some());
    assert!(decode_all(&[0xb1, 0x0c, 0x0f]).is_none());
    let insts = decode_all(&[0xb1, 0x0c, 0xf4]).unwrap();
    assert_eq!(insts.len(), 2);
    assert_eq!(insts[1], Inst::HLT);
}
