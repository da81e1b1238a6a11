//! Execution tests: programs are built as instruction values, rendered
//! into bytes by the verified encoder, and run against the machine model.

use sim8086::encode::encode_all;
use sim8086::inst::{EffAddr, Inst, Operand, Register};
use sim8086::machine::{run_program, StepOutcome};

fn reg(r: Register) -> Operand {
    Operand::Reg(r)
}

fn imm(v: u16) -> Operand {
    Operand::ImmWord(v)
}

fn imm8(v: u8) -> Operand {
    Operand::ImmByte(v)
}

fn mem(base: Option<Register>, index: Option<Register>, offset: Option<i16>) -> Operand {
    Operand::MemWord(EffAddr { base, index, offset })
}

fn assemble_insts(insts: &[Inst]) -> Vec<u8> {
    let v: Vec<Inst> = insts.to_vec();
    encode_all(&v).expect("program should be encodable")
}

#[test]
fn test_hw4() {
    // Immediate moves into every 16-bit register.
    let prog = assemble_insts(&[
        Inst::MOV(reg(Register::AX), imm(1)),
        Inst::MOV(reg(Register::BX), imm(2)),
        Inst::MOV(reg(Register::CX), imm(3)),
        Inst::MOV(reg(Register::DX), imm(4)),
        Inst::MOV(reg(Register::SP), imm(5)),
        Inst::MOV(reg(Register::BP), imm(6)),
        Inst::MOV(reg(Register::SI), imm(7)),
        Inst::MOV(reg(Register::DI), imm(8)),
    ]);
    let (state, outcome) = run_program(&prog, 1000);
    assert_eq!(outcome, StepOutcome::Halted);

    assert_eq!(state.get_value(reg(Register::AX)), 1);
    assert_eq!(state.get_value(reg(Register::BX)), 2);
    assert_eq!(state.get_value(reg(Register::CX)), 3);
    assert_eq!(state.get_value(reg(Register::DX)), 4);

    assert_eq!(state.get_value(reg(Register::SP)), 5);
    assert_eq!(state.get_value(reg(Register::BP)), 6);
    assert_eq!(state.get_value(reg(Register::SI)), 7);
    assert_eq!(state.get_value(reg(Register::DI)), 8);

    // Register-to-register moves shuffling the values around.
    let prog = assemble_insts(&[
        Inst::MOV(reg(Register::AX), imm(1)),
        Inst::MOV(reg(Register::BX), imm(2)),
        Inst::MOV(reg(Register::CX), imm(3)),
        Inst::MOV(reg(Register::DX), imm(4)),
        Inst::MOV(reg(Register::SP), reg(Register::AX)),
        Inst::MOV(reg(Register::BP), reg(Register::BX)),
        Inst::MOV(reg(Register::SI), reg(Register::CX)),
        Inst::MOV(reg(Register::DI), reg(Register::DX)),
        Inst::MOV(reg(Register::DX), reg(Register::SP)),
        Inst::MOV(reg(Register::CX), reg(Register::BP)),
        Inst::MOV(reg(Register::BX), reg(Register::SI)),
        Inst::MOV(reg(Register::AX), reg(Register::DI)),
    ]);
    let (state, outcome) = run_program(&prog, 1000);
    assert_eq!(outcome, StepOutcome::Halted);

    assert_eq!(state.get_value(reg(Register::AX)), 4);
    assert_eq!(state.get_value(reg(Register::BX)), 3);
    assert_eq!(state.get_value(reg(Register::CX)), 2);
    assert_eq!(state.get_value(reg(Register::DX)), 1);

    assert_eq!(state.get_value(reg(Register::SP)), 1);
    assert_eq!(state.get_value(reg(Register::BP)), 2);
    assert_eq!(state.get_value(reg(Register::SI)), 3);
    assert_eq!(state.get_value(reg(Register::DI)), 4);
}

#[test]
fn test_hw5() {
    // ADD/SUB/CMP over registers, leaving flags "PZ" after the last SUB.
    let prog = assemble_insts(&[
        Inst::MOV(reg(Register::BX), imm(61443)),  // -4093 as a 16-bit value
        Inst::MOV(reg(Register::CX), imm(3841)),
        Inst::SUB(reg(Register::BX), reg(Register::CX)),
        Inst::MOV(reg(Register::SP), imm(998)),
        Inst::MOV(reg(Register::BP), imm(999)),
        Inst::CMP(reg(Register::BP), reg(Register::SP)),
        Inst::ADD(reg(Register::BP), imm(1027)),
        Inst::SUB(reg(Register::BP), imm(2026)),
    ]);
    let (state, outcome) = run_program(&prog, 1000);
    assert_eq!(outcome, StepOutcome::Halted);

    assert_eq!(state.get_value(reg(Register::BX)), 0xe102);
    assert_eq!(state.get_value(reg(Register::CX)), 0x0f01);
    assert_eq!(state.get_value(reg(Register::SP)), 0x03e6);

    assert_eq!(state.flags_as_string(), "PZ");
}

#[test]
fn test_hw6() {
    // Arithmetic whose encoded length places the final instruction
    // pointer at a known offset.
    let prog = assemble_insts(&[
        Inst::MOV(reg(Register::CX), imm(200)),
        Inst::MOV(reg(Register::BX), reg(Register::CX)),
        Inst::ADD(reg(Register::CX), imm(1000)),
        Inst::MOV(reg(Register::BX), imm(2000)),
        Inst::SUB(reg(Register::CX), reg(Register::BX)),
    ]);
    assert_eq!(prog.len(), 14);
    let (state, outcome) = run_program(&prog, 1000);
    assert_eq!(outcome, StepOutcome::Halted);

    assert_eq!(state.get_value(reg(Register::BX)), 0x07d0);
    assert_eq!(state.get_value(reg(Register::CX)), 0xfce0);
    assert_eq!(state.iptr, 0x000f);

    assert_eq!(state.flags_as_string(), "S");

    // A counted loop out of JNE: three rounds of `add bx, 10`.
    let prog = assemble_insts(&[
        Inst::MOV(reg(Register::CX), imm(3)),
        Inst::MOV(reg(Register::BX), imm(1000)),
        Inst::ADD(reg(Register::BX), imm8(10)),
        Inst::SUB(reg(Register::CX), imm8(1)),
        Inst::JNE(Operand::RelOffsetByte(-8)),
    ]);
    assert_eq!(prog.len(), 14);
    let (state, outcome) = run_program(&prog, 1000);
    assert_eq!(outcome, StepOutcome::Halted);

    assert_eq!(state.get_value(reg(Register::BX)), 0x0406);
    assert_eq!(state.iptr, 0x000f);

    assert_eq!(state.flags_as_string(), "PZ");
}

#[test]
fn test_hw7() {
    // Word moves through memory, including one through a base register.
    let prog = assemble_insts(&[
        Inst::MOV(mem(None, None, Some(1000)), imm(1)),
        Inst::MOV(mem(None, None, Some(1002)), imm(2)),
        Inst::MOV(mem(None, None, Some(1004)), imm(3)),
        Inst::MOV(mem(None, None, Some(1006)), imm(4)),
        Inst::MOV(reg(Register::BX), imm(1000)),
        Inst::MOV(mem(Some(Register::BX), None, Some(4)), imm(10)),
        Inst::MOV(reg(Register::BX), mem(None, None, Some(1000))),
        Inst::MOV(reg(Register::CX), mem(None, None, Some(1002))),
        Inst::MOV(reg(Register::DX), mem(None, None, Some(1004))),
        Inst::MOV(reg(Register::BP), mem(None, None, Some(1006))),
    ]);
    let (state, outcome) = run_program(&prog, 1000);
    assert_eq!(outcome, StepOutcome::Halted);

    assert_eq!(state.get_value(reg(Register::BX)), 1);
    assert_eq!(state.get_value(reg(Register::CX)), 2);
    assert_eq!(state.get_value(reg(Register::DX)), 10);
    assert_eq!(state.get_value(reg(Register::BP)), 4);

    // Fill a table through [bp + si], then sum it with a JNE loop.
    let prog = assemble_insts(&[
        Inst::MOV(reg(Register::DX), imm(6)),
        Inst::MOV(reg(Register::BP), imm(1000)),
        Inst::MOV(reg(Register::SI), imm(0)),
        Inst::MOV(mem(Some(Register::BP), Some(Register::SI), None), reg(Register::SI)),
        Inst::ADD(reg(Register::SI), imm8(2)),
        Inst::CMP(reg(Register::SI), reg(Register::DX)),
        Inst::JNE(Operand::RelOffsetByte(-9)),
        Inst::MOV(reg(Register::BX), imm(0)),
        Inst::MOV(reg(Register::SI), imm(0)),
        Inst::MOV(reg(Register::CX), mem(Some(Register::BP), Some(Register::SI), None)),
        Inst::ADD(reg(Register::BX), reg(Register::CX)),
        Inst::ADD(reg(Register::SI), imm8(2)),
        Inst::CMP(reg(Register::SI), reg(Register::DX)),
        Inst::JNE(Operand::RelOffsetByte(-11)),
    ]);
    let (state, outcome) = run_program(&prog, 1000);
    assert_eq!(outcome, StepOutcome::Halted);

    assert_eq!(state.get_value(reg(Register::BX)), 6);

    // The same sum walked backwards through [bp + si].
    let prog = assemble_insts(&[
        Inst::MOV(reg(Register::DX), imm(6)),
        Inst::MOV(reg(Register::BP), imm(1000)),
        Inst::MOV(reg(Register::SI), imm(0)),
        Inst::MOV(mem(Some(Register::BP), Some(Register::SI), None), reg(Register::SI)),
        Inst::ADD(reg(Register::SI), imm8(2)),
        Inst::CMP(reg(Register::SI), reg(Register::DX)),
        Inst::JNE(Operand::RelOffsetByte(-9)),
        Inst::MOV(reg(Register::BX), imm(0)),
        Inst::MOV(reg(Register::SI), reg(Register::DX)),
        Inst::SUB(reg(Register::BP), imm8(2)),
        Inst::ADD(reg(Register::BX), mem(Some(Register::BP), Some(Register::SI), None)),
        Inst::SUB(reg(Register::SI), imm8(2)),
        Inst::JNE(Operand::RelOffsetByte(-7)),
    ]);
    let (state, outcome) = run_program(&prog, 1000);
    assert_eq!(outcome, StepOutcome::Halted);

    assert_eq!(state.get_value(reg(Register::BX)), 6);
}

#[test]
fn test_hw8() {
    // A reference program whose table-driven estimate totals exactly 194
    // cycles, all effective addresses falling on even boundaries.
    let prog = assemble_insts(&[
        Inst::MOV(reg(Register::BX), imm(1000)),
        Inst::MOV(reg(Register::BP), imm(2000)),
        Inst::MOV(reg(Register::SI), imm(3000)),
        Inst::MOV(reg(Register::DI), imm(4000)),
        Inst::MOV(reg(Register::CX), reg(Register::BX)),
        Inst::MOV(reg(Register::DX), imm(12)),
        Inst::MOV(reg(Register::DX), mem(None, None, Some(1000))),
        Inst::MOV(reg(Register::CX), mem(Some(Register::BX), None, None)),
        Inst::MOV(reg(Register::CX), mem(Some(Register::BP), None, None)),
        Inst::MOV(mem(Some(Register::SI), None, None), reg(Register::CX)),
        Inst::MOV(mem(Some(Register::DI), None, None), reg(Register::CX)),
        Inst::MOV(reg(Register::CX), mem(Some(Register::BX), None, Some(1000))),
        Inst::MOV(reg(Register::CX), mem(Some(Register::BP), None, Some(1000))),
        Inst::MOV(mem(Some(Register::SI), None, Some(1000)), reg(Register::CX)),
        Inst::MOV(mem(Some(Register::DI), None, Some(1000)), reg(Register::CX)),
        Inst::ADD(reg(Register::CX), reg(Register::DX)),
        Inst::ADD(mem(Some(Register::DI), None, Some(1000)), reg(Register::CX)),
        Inst::ADD(reg(Register::DX), imm8(50)),
    ]);
    let (state, outcome) = run_program(&prog, 1000);
    assert_eq!(outcome, StepOutcome::Halted);
    assert_eq!(state.cycles_estimate, 194);

    // A second reference program exercising the odd-address transfer
    // penalty; its estimate totals exactly 291 cycles.
    let prog = assemble_insts(&[
        Inst::MOV(reg(Register::BX), imm(1000)),
        Inst::MOV(reg(Register::BP), imm(2001)),
        Inst::MOV(reg(Register::SI), imm(3000)),
        Inst::MOV(reg(Register::DI), imm(4000)),
        Inst::MOV(reg(Register::CX), reg(Register::BX)),
        Inst::MOV(reg(Register::DX), imm(12)),
        Inst::MOV(reg(Register::DX), mem(None, None, Some(1000))),
        Inst::MOV(reg(Register::CX), mem(Some(Register::BX), None, None)),
        Inst::MOV(reg(Register::CX), mem(Some(Register::BP), None, None)),
        Inst::MOV(mem(Some(Register::SI), None, None), reg(Register::CX)),
        Inst::MOV(mem(Some(Register::DI), None, None), reg(Register::CX)),
        Inst::MOV(reg(Register::CX), mem(Some(Register::BX), None, Some(1000))),
        Inst::MOV(reg(Register::CX), mem(Some(Register::BP), None, Some(1000))),
        Inst::MOV(mem(Some(Register::SI), None, Some(1000)), reg(Register::CX)),
        Inst::MOV(mem(Some(Register::DI), None, Some(1000)), reg(Register::CX)),
        Inst::MOV(reg(Register::CX), reg(Register::DX)),
        Inst::ADD(mem(Some(Register::BP), None, None), reg(Register::CX)),
        Inst::ADD(mem(Some(Register::BP), None, Some(1000)), imm8(29)),
        Inst::ADD(reg(Register::CX), mem(Some(Register::BX), Some(Register::SI), None)),
        Inst::MOV(reg(Register::AX), mem(Some(Register::BP), Some(Register::DI), None)),
        Inst::MOV(mem(Some(Register::BP), Some(Register::SI), None), reg(Register::AX)),
    ]);
    let (state, outcome) = run_program(&prog, 1000);
    assert_eq!(outcome, StepOutcome::Halted);
    assert_eq!(state.cycles_estimate, 291);
}

#[test]
fn loop_decrements_cx_and_branches() {
    // LOOP: decrement CX, branch while CX is nonzero.
    let prog = assemble_insts(&[
        Inst::MOV(reg(Register::CX), imm(5)),
        Inst::MOV(reg(Register::BX), imm(0)),
        Inst::ADD(reg(Register::BX), imm8(3)),
        Inst::LOOP(Operand::RelOffsetByte(-5)),
    ]);
    let (state, outcome) = run_program(&prog, 1000);
    assert_eq!(outcome, StepOutcome::Halted);
    assert_eq!(state.get_value(reg(Register::CX)), 0);
    assert_eq!(state.get_value(reg(Register::BX)), 15);
}

#[test]
fn unimplemented_jump_faults() {
    // The decoded-but-unwired conditional jumps fail loudly.
    let (_, outcome) = run_program(&[0x70, 0x00], 1000);
    assert_eq!(outcome, StepOutcome::Fault);
}

#[test]
fn undecodable_byte_ends_the_stream() {
    // 0x0f matches no opcode pattern of the covered subset.
    let (state, outcome) = run_program(&[0x0f], 1000);
    assert_eq!(outcome, StepOutcome::EndOfStream);
    assert_eq!(state.iptr, 0);
}

#[test]
fn byte_sized_memory_and_half_registers() {
    // A byte store through memory only touches one byte, and a byte load
    // zero-extends.
    let prog = assemble_insts(&[
        Inst::MOV(reg(Register::AX), imm(0xabcd)),
        Inst::MOV(
            Operand::MemByte(EffAddr { base: None, index: None, offset: Some(2000) }),
            reg(Register::AH),
        ),
        Inst::MOV(
            reg(Register::BL),
            Operand::MemByte(EffAddr { base: None, index: None, offset: Some(2000) }),
        ),
    ]);
    let (state, outcome) = run_program(&prog, 1000);
    assert_eq!(outcome, StepOutcome::Halted);
    assert_eq!(state.memory[2000], 0xab);
    assert_eq!(state.memory[2001], 0);
    assert_eq!(state.get_value(reg(Register::BX)), 0x00ab);
}
