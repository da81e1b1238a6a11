//! Round-trip tests: assembling a listing, disassembling the decoded
//! instructions, and assembling the disassembly must reproduce the same
//! bytes. The assembler here is a small test-only helper that parses the
//! limited listing syntax into instruction values and lets the library's
//! verified encoder produce the bytes.

use sim8086::decode::decode_all;
use sim8086::inst::{EffAddr, Inst, Operand, Register};
use sim8086::text::disassemble;

fn reg_of(s: &str) -> Option<Register> {
    match s {
        "al" => Some(Register::AL),
        "cl" => Some(Register::CL),
        "dl" => Some(Register::DL),
        "bl" => Some(Register::BL),
        "ah" => Some(Register::AH),
        "ch" => Some(Register::CH),
        "dh" => Some(Register::DH),
        "bh" => Some(Register::BH),
        "ax" => Some(Register::AX),
        "cx" => Some(Register::CX),
        "dx" => Some(Register::DX),
        "bx" => Some(Register::BX),
        "sp" => Some(Register::SP),
        "bp" => Some(Register::BP),
        "si" => Some(Register::SI),
        "di" => Some(Register::DI),
        _ => None,
    }
}

#[derive(Clone, Copy, PartialEq)]
enum Width {
    B,
    W,
}

enum RawOp {
    R(Register),
    Imm(i64, Option<Width>),
    Mem(EffAddr, Option<Width>),
    Rel(i8),
}

fn parse_ea(inner: &str) -> EffAddr {
    let mut base: Option<Register> = None;
    let mut index: Option<Register> = None;
    let mut offset: i64 = 0;
    let mut has_off = false;
    let normalized = inner.replace('-', "+-");
    for tok in normalized.split('+') {
        let t = tok.trim();
        if t.is_empty() {
            continue;
        }
        if let Some(r) = reg_of(t) {
            if base.is_none() {
                base = Some(r);
            } else {
                index = Some(r);
            }
        } else {
            let n: i64 = t.replace(' ', "").parse().expect("bad displacement");
            offset += n;
            has_off = true;
        }
    }
    let offset = if base.is_none() && index.is_none() {
        Some(offset as i16)
    } else if has_off && offset != 0 {
        Some(offset as i16)
    } else {
        None
    };
    EffAddr { base, index, offset }
}

fn parse_rawop(s: &str) -> RawOp {
    let s = s.trim();
    let (w, s) = if let Some(rest) = s.strip_prefix("byte ") {
        (Some(Width::B), rest.trim())
    } else if let Some(rest) = s.strip_prefix("word ") {
        (Some(Width::W), rest.trim())
    } else {
        (None, s)
    };
    if s.starts_with('[') {
        let inner = s.trim_start_matches('[').trim_end_matches(']');
        RawOp::Mem(parse_ea(inner), w)
    } else if let Some(r) = reg_of(s) {
        RawOp::R(r)
    } else if let Some(body) = s.strip_prefix('$') {
        let body = body.strip_suffix("+0").unwrap_or(body);
        let off: i64 = if body.is_empty() { 0 } else { body.parse().expect("bad rel target") };
        RawOp::Rel((off - 2) as i8)
    } else {
        RawOp::Imm(s.parse().expect("bad immediate"), w)
    }
}

fn raw_width(op: &RawOp) -> Option<Width> {
    match op {
        RawOp::R(r) => Some(if r.is_wide() { Width::W } else { Width::B }),
        RawOp::Mem(_, w) => *w,
        RawOp::Imm(_, w) => *w,
        RawOp::Rel(_) => None,
    }
}

fn finalize(op: RawOp, w: Width, arith: bool) -> Operand {
    match op {
        RawOp::R(r) => Operand::Reg(r),
        RawOp::Mem(ea, explicit) => {
            let w = explicit.unwrap_or(w);
            if w == Width::W {
                Operand::MemWord(ea)
            } else {
                Operand::MemByte(ea)
            }
        }
        RawOp::Imm(v, explicit) => {
            let pick = match explicit {
                Some(e) => e,
                None => {
                    if arith && (-128..=127).contains(&v) {
                        Width::B
                    } else {
                        w
                    }
                }
            };
            if pick == Width::W {
                Operand::ImmWord((v & 0xffff) as u16)
            } else {
                Operand::ImmByte((v & 0xff) as u8)
            }
        }
        RawOp::Rel(x) => Operand::RelOffsetByte(x),
    }
}

fn parse_pair(rest: &str, arith: bool) -> (Operand, Operand) {
    let (a, b) = rest.split_once(',').expect("two operands expected");
    let ra = parse_rawop(a);
    let rb = parse_rawop(b);
    let w = raw_width(&ra).or(raw_width(&rb)).expect("operand width is ambiguous");
    (finalize(ra, w, arith), finalize(rb, w, arith))
}

fn parse_line(line: &str) -> Inst {
    let (mn, rest) = match line.split_once(' ') {
        Some((m, r)) => (m, r.trim()),
        None => (line, ""),
    };
    let rel = |r: &str| -> Operand {
        match parse_rawop(r) {
            RawOp::Rel(x) => Operand::RelOffsetByte(x),
            _ => panic!("jump target must be self-relative"),
        }
    };
    match mn {
        "hlt" => Inst::HLT,
        "mov" => {
            let (a, b) = parse_pair(rest, false);
            Inst::MOV(a, b)
        }
        "add" => {
            let (a, b) = parse_pair(rest, true);
            Inst::ADD(a, b)
        }
        "sub" => {
            let (a, b) = parse_pair(rest, true);
            Inst::SUB(a, b)
        }
        "cmp" => {
            let (a, b) = parse_pair(rest, true);
            Inst::CMP(a, b)
        }
        "jo" => Inst::JO(rel(rest)),
        "jno" => Inst::JNO(rel(rest)),
        "jb" => Inst::JB(rel(rest)),
        "jnb" => Inst::JNB(rel(rest)),
        "je" | "jz" => Inst::JE(rel(rest)),
        "jne" | "jnz" => Inst::JNE(rel(rest)),
        "jbe" => Inst::JBE(rel(rest)),
        "jnbe" => Inst::JNBE(rel(rest)),
        "js" => Inst::JS(rel(rest)),
        "jns" => Inst::JNS(rel(rest)),
        "jp" => Inst::JP(rel(rest)),
        "jnp" => Inst::JNP(rel(rest)),
        "jl" => Inst::JL(rel(rest)),
        "jnl" => Inst::JNL(rel(rest)),
        "jle" => Inst::JLE(rel(rest)),
        "jnle" => Inst::JNLE(rel(rest)),
        "loopnz" => Inst::LOOPNZ(rel(rest)),
        "loopz" => Inst::LOOPZ(rel(rest)),
        "loop" => Inst::LOOP(rel(rest)),
        "jcxz" => Inst::JCXZ(rel(rest)),
        other => panic!("unknown mnemonic: {}", other),
    }
}

fn assemble(text: &str) -> Vec<u8> {
    let mut out: Vec<u8> = Vec::new();
    for raw_line in text.lines() {
        let line = raw_line.split(';').next().unwrap().trim();
        if line.is_empty() || line == "bits 16" {
            continue;
        }
        let inst = parse_line(line);
        let enc = inst.encode().expect("instruction is not encodable");
        out.extend_from_slice(&enc);
    }
    out
}

fn test_against_string(test_asm: &str) {
    let expected = assemble(test_asm);
    let insts = decode_all(&expected).expect("assembled bytes failed to decode");
    let generated = disassemble(&insts);
    let actual = assemble(&generated);
    assert_eq!(expected, actual);
}

#[test]
fn mov_reg_to_reg() {
    test_against_string("mov cx, bx");
}

#[test]
fn test_hw1() {
    test_against_string("mov cx, bx");
    test_against_string(
        "bits 16\n\nmov cx, bx\nmov ch, ah\nmov dx, bx\nmov si, bx\nmov bx, di\nmov al, cl\nmov ch, ch\nmov bx, ax\nmov bx, si\nmov sp, di\nmov bp, ax\n",
    );
}

#[test]
fn mov_8_bit_imm_to_reg() {
    test_against_string("mov cl, 12");
}

#[test]
fn mov_16_bit_imm_to_reg() {
    test_against_string("mov cx, -3922");
}

#[test]
fn mov_src_addr_calc() {
    test_against_string("mov al, [bx + si]");
    test_against_string("mov bx, [bp + di]");
    test_against_string("mov dx, [bp]");
}

#[test]
fn mov_src_addr_calc_d8() {
    test_against_string("mov ah, [bx + si + 4]");
}

#[test]
fn mov_src_addr_calc_d16() {
    test_against_string("mov al, [bx + si + 4999]");
}

#[test]
fn dest_addr_calc() {
    test_against_string("mov [bx + di], cx");
    test_against_string("mov [bp + si], cl");
    test_against_string("mov [bp], ch");
}

#[test]
fn test_hw2() {
    test_against_string(
        "bits 16\n\nmov si, bx\nmov dh, al\nmov cl, 12\nmov ch, -12\nmov cx, 12\nmov cx, -12\nmov dx, 3948\nmov dx, -3948\nmov al, [bx + si]\nmov bx, [bp + di]\nmov dx, [bp]\nmov ah, [bx + si + 4]\nmov al, [bx + si + 4999]\nmov [bx + di], cx\nmov [bp + si], cl\nmov [bp], ch\n",
    );
}

#[test]
fn mov_signed_displacements() {
    test_against_string("mov ax, [bx + di - 37]");
    test_against_string("mov [si - 300], cx");
    test_against_string("mov dx, [bx - 32]");
}

#[test]
fn mov_explicit_sizes() {
    test_against_string("mov [bp + di], byte 7");
    test_against_string("mov [di + 901], word 347");
}

#[test]
fn mov_direct_address() {
    test_against_string("mov bp, [5]");
    test_against_string("mov bx, [3458]");
}

#[test]
fn mov_mem_to_acc() {
    test_against_string("mov ax, [2555]");
    test_against_string("mov ax, [16]");
}

#[test]
fn mov_acc_to_mem() {
    test_against_string("mov [2555], ax");
    test_against_string("mov [16], ax");
}

#[test]
fn test_hw2_challenge() {
    test_against_string(
        "bits 16\n\nmov ax, [bx + di - 37]\nmov [si - 300], cx\nmov dx, [bx - 32]\nmov [bp + di], byte 7\nmov [di + 901], word 347\nmov bp, [5]\nmov bx, [3458]\nmov ax, [2555]\nmov ax, [16]\nmov [2555], ax\nmov [16], ax\n",
    );
}

#[test]
fn test_add() {
    test_against_string("add bx, [bx+si]");
    test_against_string("add byte [bx], 34");
    test_against_string("add word [bp + si + 1000], 29");
}

#[test]
fn test_cmp() {
    test_against_string("cmp si, 2");
}

#[test]
fn test_hw3() {
    test_against_string(
        "bits 16\n\nadd bx, [bx+si]\nadd bx, [bp]\nadd si, 2\nadd bp, 2\nadd cx, 8\nadd bx, [bp + 0]\nadd cx, [bx + 2]\nadd bh, [bp + si + 4]\nadd di, [bp + di + 6]\nadd [bx+si], bx\nadd [bp], bx\nadd [bp + 0], bx\nadd [bx + 2], cx\nadd [bp + si + 4], bh\nadd [bp + di + 6], di\nadd byte [bx], 34\nadd word [bp + si + 1000], 29\nadd ax, [bp]\nadd al, [bx + si]\nadd ax, bx\nadd al, ah\nadd ax, 1000\nadd al, -30\nadd al, 9\nsub bx, [bx+si]\nsub bx, [bp]\nsub si, 2\nsub bp, 2\nsub cx, 8\nsub bx, [bp + 0]\nsub cx, [bx + 2]\nsub bh, [bp + si + 4]\nsub di, [bp + di + 6]\nsub [bx+si], bx\nsub [bp], bx\nsub al, 9\ncmp bx, [bx+si]\ncmp bx, [bp]\ncmp si, 2\ncmp bp, 2\ncmp cx, 8\ncmp al, 9\njnz $+4+0\njnz $-4+0\njz $+0\njl $-2+0\njb $+6+0\nloopnz $-6+0\nloopz $-8+0\nloop $-10+0\njcxz $+2+0\n",
    );
}

#[test]
fn jump_targets_roundtrip() {
    test_against_string("jne $+4+0\njne $+0\njne $-6+0\njo $+2+0\njnle $-2+0");
}

#[test]
fn disassembly_is_idempotent() {
    let programs = [
        "mov cx, bx\nmov cl, 12\nmov cx, -3922\nadd bx, [bx+si]\ncmp si, 2\nhlt",
        "mov [bp + di], byte 7\nmov [di + 901], word 347\nmov bp, [5]\njne $-4+0",
    ];
    for p in programs {
        let bytes = assemble(p);
        let insts = decode_all(&bytes).expect("decode failed");
        let text1 = disassemble(&insts);
        let bytes2 = assemble(&text1);
        let insts2 = decode_all(&bytes2).expect("second decode failed");
        let text2 = disassemble(&insts2);
        assert_eq!(text1, text2);
    }
}

#[test]
fn disassembly_exact_text() {
    let bytes = assemble("mov cx, bx");
    let insts = decode_all(&bytes).expect("decode failed");
    assert_eq!(disassemble(&insts), "bits 16\n\nmov cx, bx\n");
}

#[test]
fn encode_decode_battery() {
    // Every encodable operand shape: encoding then decoding is identity.
    let cases: Vec<Inst> = vec![
        Inst::MOV(Operand::Reg(Register::CX), Operand::Reg(Register::BX)),
        Inst::MOV(Operand::Reg(Register::AL), Operand::Reg(Register::BH)),
        Inst::MOV(
            Operand::Reg(Register::AX),
            Operand::MemWord(EffAddr {
                base: Some(Register::BX),
                index: Some(Register::SI),
                offset: None,
            }),
        ),
        Inst::MOV(
            Operand::MemByte(EffAddr {
                base: Some(Register::BP),
                index: None,
                offset: Some(-300),
            }),
            Operand::Reg(Register::CL),
        ),
        Inst::MOV(Operand::Reg(Register::CL), Operand::ImmByte(12)),
        Inst::MOV(Operand::Reg(Register::CX), Operand::ImmWord(61614)),
        Inst::MOV(
            Operand::MemWord(EffAddr { base: None, index: None, offset: Some(2555) }),
            Operand::ImmWord(347),
        ),
        Inst::ADD(Operand::Reg(Register::BX), Operand::ImmByte(34)),
        Inst::ADD(Operand::Reg(Register::BX), Operand::ImmWord(1000)),
        Inst::SUB(
            Operand::MemWord(EffAddr {
                base: Some(Register::BP),
                index: Some(Register::SI),
                offset: Some(1000),
            }),
            Operand::ImmByte(29),
        ),
        Inst::CMP(Operand::Reg(Register::SI), Operand::ImmByte(2)),
        Inst::JNE(Operand::RelOffsetByte(-8)),
        Inst::JCXZ(Operand::RelOffsetByte(127)),
        Inst::LOOP(Operand::RelOffsetByte(-128)),
        Inst::HLT,
    ];
    for inst in &cases {
        let enc = inst.encode().expect("case should encode");
        let (n, back) = Inst::from_encoding(&enc).expect("encoding should decode");
        assert_eq!(n, enc.len());
        assert_eq!(back, *inst);
    }
}

#[test]
fn unencodable_instructions_are_rejected() {
    // An immediate is never a destination, and widths must agree.
    assert!(Inst::MOV(Operand::ImmByte(1), Operand::ImmByte(2)).encode().is_none());
    assert!(Inst::MOV(Operand::Reg(Register::AX), Operand::ImmByte(7)).encode().is_none());
    assert!(
        Inst::MOV(Operand::Reg(Register::AL), Operand::Reg(Register::BX)).encode().is_none()
    );
    assert!(Inst::JNE(Operand::ImmByte(3)).encode().is_none());
    // A direct address with a zero displacement cannot survive the
    // decoder's normalization, so the encoder refuses it.
    assert!(Inst::MOV(
        Operand::Reg(Register::AX),
        Operand::MemWord(EffAddr { base: None, index: None, offset: Some(0) }),
    )
    .encode()
    .is_none());
}
