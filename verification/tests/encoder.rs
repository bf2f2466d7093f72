//! The encoder against byte sequences written out by hand and against a
//! disassembler: every instruction form, on every register it takes.

use iced_x86::{Decoder, DecoderOptions, Instruction, Mnemonic, OpKind, Register};
use wasm_jit::assembler::{
    mod_rm, opcode_rm_reg, ret, rex, sib, Add, Addressing, Call, Cmp, Je, Jmp, Mov, Movzx, Pop,
    Push, Register32, Register64, Register8, RegisterNumber, RegisterSize, Sete, Sub,
};

const R64: [Register64; 16] = [
    Register64::Rax,
    Register64::Rcx,
    Register64::Rdx,
    Register64::Rbx,
    Register64::Rsp,
    Register64::Rbp,
    Register64::Rsi,
    Register64::Rdi,
    Register64::R8,
    Register64::R9,
    Register64::R10,
    Register64::R11,
    Register64::R12,
    Register64::R13,
    Register64::R14,
    Register64::R15,
];

const R32: [Register32; 16] = [
    Register32::Eax,
    Register32::Ecx,
    Register32::Edx,
    Register32::Ebx,
    Register32::Esp,
    Register32::Ebp,
    Register32::Esi,
    Register32::Edi,
    Register32::R8d,
    Register32::R9d,
    Register32::R10d,
    Register32::R11d,
    Register32::R12d,
    Register32::R13d,
    Register32::R14d,
    Register32::R15d,
];

const R8: [Register8; 8] = [
    Register8::Al,
    Register8::Cl,
    Register8::Dl,
    Register8::Bl,
    Register8::Ah,
    Register8::Ch,
    Register8::Dh,
    Register8::Bh,
];

const NAME64: [Register; 16] = [
    Register::RAX,
    Register::RCX,
    Register::RDX,
    Register::RBX,
    Register::RSP,
    Register::RBP,
    Register::RSI,
    Register::RDI,
    Register::R8,
    Register::R9,
    Register::R10,
    Register::R11,
    Register::R12,
    Register::R13,
    Register::R14,
    Register::R15,
];

const NAME32: [Register; 16] = [
    Register::EAX,
    Register::ECX,
    Register::EDX,
    Register::EBX,
    Register::ESP,
    Register::EBP,
    Register::ESI,
    Register::EDI,
    Register::R8D,
    Register::R9D,
    Register::R10D,
    Register::R11D,
    Register::R12D,
    Register::R13D,
    Register::R14D,
    Register::R15D,
];

const NAME8: [Register; 8] = [
    Register::AL,
    Register::CL,
    Register::DL,
    Register::BL,
    Register::AH,
    Register::CH,
    Register::DH,
    Register::BH,
];

const OFFSETS: [i32; 13] =
    [0, 1, -1, 8, -8, 127, 128, -128, -129, 0x1234_5678, -0x1234_5678, i32::MAX, i32::MIN];

const IP: u64 = 0x40_0000;

/// Decodes one instruction and checks that it takes up all the bytes.
fn decode(bytes: &[u8]) -> Instruction {
    let mut decoder = Decoder::with_ip(64, bytes, IP, DecoderOptions::NONE);
    let instruction = decoder.decode();
    assert!(!instruction.is_invalid(), "invalid: {:02x?}", bytes);
    assert_eq!(instruction.len(), bytes.len(), "length of {:02x?}", bytes);
    instruction
}

fn is_memory(instruction: &Instruction, operand: u32, base: Register, offset: i32) -> bool {
    instruction.op_kind(operand) == OpKind::Memory
        && instruction.memory_base() == base
        && instruction.memory_index() == Register::None
        && instruction.memory_displacement64() == offset as i64 as u64
}

#[test]
fn encoding_bytes_by_formula() {
    assert_eq!(rex(false, false, false, false), 0x40);
    assert_eq!(rex(true, false, false, false), 0x48);
    assert_eq!(rex(false, true, false, false), 0x44);
    assert_eq!(rex(false, false, true, false), 0x42);
    assert_eq!(rex(false, false, false, true), 0x41);
    assert_eq!(rex(true, true, true, true), 0x4f);
    assert_eq!(mod_rm(3, 0, 0), 0xc0);
    assert_eq!(mod_rm(1, 2, 5), 0x55);
    assert_eq!(mod_rm(2, 7, 4), 0xbc);
    // only the low bits of each field count
    assert_eq!(mod_rm(7, 9, 12), mod_rm(3, 1, 4));
    assert_eq!(sib(0, 4, 4), 0x24);
    assert_eq!(sib(3, 1, 2), 0xca);
    assert_eq!(sib(4, 12, 13), sib(0, 4, 5));
}

#[test]
fn register_ordinals_and_sizes() {
    for (i, reg) in R64.iter().enumerate() {
        assert_eq!(reg.number() as usize, i);
        assert_eq!(reg.size(), 8);
        assert_eq!(Register32::from(*reg), R32[i]);
    }
    for (i, reg) in R32.iter().enumerate() {
        assert_eq!(reg.number() as usize, i);
        assert_eq!(reg.size(), 4);
    }
    for (i, reg) in R8.iter().enumerate() {
        assert_eq!(reg.number() as usize, i);
        assert_eq!(reg.size(), 1);
    }
}

#[test]
fn memory_operand_builders() {
    let mem = Register64::Rbp.with_offset(-8);
    assert_eq!(mem.base, Register64::Rbp);
    assert_eq!(mem.offset, -8);
    let mem = Register64::R11.to_mem();
    assert_eq!(mem.base, Register64::R11);
    assert_eq!(mem.offset, 0);
    let mem = mem.with_offset(24);
    assert_eq!(mem.base, Register64::R11);
    assert_eq!(mem.offset, 24);
}

#[test]
fn memory_operand_forms() {
    // no displacement
    assert_eq!(Register64::Rax.to_mem().to_code(3), vec![0x18]);
    // 8-bit displacement
    assert_eq!(Register64::Rax.with_offset(16).to_code(3), vec![0x58, 0x10]);
    assert_eq!(Register64::Rax.with_offset(-1).to_code(0), vec![0x40, 0xff]);
    // 32-bit displacement, little-endian
    assert_eq!(
        Register64::Rax.with_offset(0x1234_5678).to_code(0),
        vec![0x80, 0x78, 0x56, 0x34, 0x12]
    );
    assert_eq!(Register64::Rax.with_offset(128).to_code(0), vec![0x80, 0x80, 0, 0, 0]);
    assert_eq!(
        Register64::Rax.with_offset(-129).to_code(0),
        vec![0x80, 0x7f, 0xff, 0xff, 0xff]
    );
}

#[test]
fn sib_byte_for_rsp_and_r12() {
    for base in [Register64::Rsp, Register64::R12] {
        assert_eq!(base.to_mem().to_code(0), vec![0x04, 0x24]);
        assert_eq!(base.with_offset(8).to_code(0), vec![0x44, 0x24, 0x08]);
        assert_eq!(base.with_offset(-128).to_code(0), vec![0x44, 0x24, 0x80]);
        assert_eq!(base.with_offset(256).to_code(0), vec![0x84, 0x24, 0, 1, 0, 0]);
    }
    // every other base has none: the operand is one byte shorter
    for base in R64 {
        let with_sib = base == Register64::Rsp || base == Register64::R12;
        for offset in OFFSETS {
            let code = base.with_offset(offset).to_code(0);
            assert_eq!(code[0] & 7 == 4, with_sib);
            if with_sib {
                assert_eq!(code[1], 0x24);
            }
            let displacement = if offset == 0 && base != Register64::Rbp && base != Register64::R13
            {
                0
            } else if (-128..=127).contains(&offset) {
                1
            } else {
                4
            };
            assert_eq!(code.len(), 1 + with_sib as usize + displacement);
        }
    }
}

#[test]
fn forced_displacement_for_rbp_and_r13() {
    for base in [Register64::Rbp, Register64::R13] {
        assert_eq!(base.to_mem().to_code(0), vec![0x45, 0x00]);
        assert_eq!(base.to_mem().to_code(7), vec![0x7d, 0x00]);
    }
    let load = Register64::Rax.mov(Register64::Rbp.to_mem());
    assert_eq!(load, vec![0x48, 0x8b, 0x45, 0x00]);
    let load = Register64::Rax.mov(Register64::R13.to_mem());
    assert_eq!(load, vec![0x49, 0x8b, 0x45, 0x00]);
    let instruction = decode(&load);
    assert!(is_memory(&instruction, 1, Register::R13, 0));
}

#[test]
fn rex_bits_for_upper_registers() {
    // REX.B names the destination, REX.R the source
    assert_eq!(Register64::Rax.mov(Register64::Rcx), vec![0x48, 0x89, 0xc8]);
    assert_eq!(Register64::R8.mov(Register64::Rcx), vec![0x49, 0x89, 0xc8]);
    assert_eq!(Register64::Rax.mov(Register64::R9), vec![0x4c, 0x89, 0xc8]);
    assert_eq!(Register64::R8.mov(Register64::R9), vec![0x4d, 0x89, 0xc8]);
    assert_eq!(Register32::R15d.add(Register32::R8d), vec![0x45, 0x01, 0xc7]);
    for (d, dest) in R64.iter().enumerate() {
        for (s, src) in R64.iter().enumerate() {
            let code = dest.mov(*src);
            assert_eq!(code[0] & 0xf8, 0x48);
            assert_eq!(code[0] & 1 == 1, d >= 8);
            assert_eq!(code[0] & 4 == 4, s >= 8);
            assert_eq!(code[0] & 2, 0);
            assert_eq!((code[2] & 7) as usize, d % 8);
            assert_eq!(((code[2] >> 3) & 7) as usize, s % 8);
        }
    }
    // a register in the opcode byte is completed by REX.B
    assert_eq!(Register64::Rdi.push(), vec![0x57]);
    assert_eq!(Register64::R8.push(), vec![0x41, 0x50]);
    assert_eq!(Register64::R15.pop(), vec![0x41, 0x5f]);
    assert_eq!(Register64::R10.call(), vec![0x41, 0xff, 0xd2]);
    // the base of a memory operand is completed by REX.B
    assert_eq!(Register64::Rax.mov(Register64::R11.to_mem()), vec![0x49, 0x8b, 0x03]);
    assert_eq!(Register64::R11.to_mem().mov(Register64::R9), vec![0x4d, 0x89, 0x0b]);
    assert_eq!(Register64::R11.to_mem().push(), vec![0x41, 0xff, 0x33]);
}

#[test]
fn push_immediate_sign_extension_boundaries() {
    assert_eq!((-128i32).push(), vec![0x6a, 0x80]);
    assert_eq!(127i32.push(), vec![0x6a, 0x7f]);
    assert_eq!((-129i32).push(), vec![0x68, 0x7f, 0xff, 0xff, 0xff]);
    assert_eq!(128i32.push(), vec![0x68, 0x80, 0x00, 0x00, 0x00]);
    assert_eq!(0i32.push(), vec![0x6a, 0x00]);
    assert_eq!((-1i32).push(), vec![0x6a, 0xff]);
    assert_eq!(i32::MAX.push(), vec![0x68, 0xff, 0xff, 0xff, 0x7f]);
    assert_eq!(i32::MIN.push(), vec![0x68, 0x00, 0x00, 0x00, 0x80]);
    for value in [-128, 127, -129, 128, 0, -1, i32::MAX, i32::MIN] {
        let instruction = decode(&value.push());
        assert_eq!(instruction.mnemonic(), Mnemonic::Push);
        assert_eq!(instruction.immediate(0), value as i64 as u64);
    }
}

#[test]
fn exact_bytes_of_each_instruction() {
    assert_eq!(ret(), vec![0xc3]);
    assert_eq!(Register64::Rbp.push(), vec![0x55]);
    assert_eq!(Register64::Rbp.pop(), vec![0x5d]);
    assert_eq!(Register64::Rbp.mov(Register64::Rsp), vec![0x48, 0x89, 0xe5]);
    assert_eq!(Register32::Ecx.mov(Register32::Eax), vec![0x40, 0x89, 0xc1]);
    assert_eq!(Register32::Edx.mov(7), vec![0xba, 0x07, 0x00, 0x00, 0x00]);
    assert_eq!(Register32::R9d.mov(-2), vec![0x41, 0xb9, 0xfe, 0xff, 0xff, 0xff]);
    assert_eq!(
        Register64::Rax.mov(0x1122_3344_5566_7788i64),
        vec![0x48, 0xb8, 0x88, 0x77, 0x66, 0x55, 0x44, 0x33, 0x22, 0x11]
    );
    assert_eq!(
        Register64::R10.mov(-1i64),
        vec![0x49, 0xba, 0xff, 0xff, 0xff, 0xff, 0xff, 0xff, 0xff, 0xff]
    );
    assert_eq!(
        Register64::Rdi.mov(Register64::Rbp.with_offset(-8)),
        vec![0x48, 0x8b, 0x7d, 0xf8]
    );
    assert_eq!(Register64::R11.to_mem().mov(Register64::Rax), vec![0x49, 0x89, 0x03]);
    assert_eq!(Register64::Rax.call(), vec![0xff, 0xd0]);
    assert_eq!(Register64::Rax.add(Register64::Rcx), vec![0x48, 0x01, 0xc8]);
    assert_eq!(Register32::Eax.add(Register32::Ecx), vec![0x40, 0x01, 0xc8]);
    assert_eq!(Register64::R11.add(8), vec![0x49, 0x81, 0xc3, 0x08, 0x00, 0x00, 0x00]);
    assert_eq!(Register64::Rsp.add(-8), vec![0x48, 0x81, 0xc4, 0xf8, 0xff, 0xff, 0xff]);
    assert_eq!(Register64::Rax.sub(Register64::Rcx), vec![0x48, 0x29, 0xc8]);
    assert_eq!(Register32::Eax.sub(Register32::Ecx), vec![0x40, 0x29, 0xc8]);
    assert_eq!(Register64::Rax.cmp(Register64::Rcx), vec![0x48, 0x39, 0xc8]);
    assert_eq!(Register32::Eax.cmp(Register32::Ecx), vec![0x40, 0x39, 0xc8]);
    assert_eq!(Register32::Eax.cmp(0), vec![0x40, 0x81, 0xf8, 0x00, 0x00, 0x00, 0x00]);
    assert_eq!(Register8::Al.sete(), vec![0x0f, 0x94, 0xc0]);
    assert_eq!(Register8::Bh.sete(), vec![0x0f, 0x94, 0xc7]);
    assert_eq!(Register32::Eax.movzx(Register8::Al), vec![0x0f, 0xb6, 0xc0]);
    assert_eq!(Register32::R8d.movzx(Register8::Cl), vec![0x44, 0x0f, 0xb6, 0xc1]);
    assert_eq!(0i32.je(), vec![0x0f, 0x84, 0x00, 0x00, 0x00, 0x00]);
    assert_eq!(0x0102_0304i32.je(), vec![0x0f, 0x84, 0x04, 0x03, 0x02, 0x01]);
    assert_eq!(0i32.jmp(), vec![0xe9, 0x00, 0x00, 0x00, 0x00]);
    assert_eq!((-5i32).jmp(), vec![0xe9, 0xfb, 0xff, 0xff, 0xff]);
    assert_eq!(opcode_rm_reg(0x31, Register64::Rax, Register64::Rax), vec![0x48, 0x31, 0xc0]);
}

#[test]
fn push_and_pop_disassemble() {
    for (i, reg) in R64.iter().enumerate() {
        let instruction = decode(&reg.push());
        assert_eq!(instruction.mnemonic(), Mnemonic::Push);
        assert_eq!(instruction.op_count(), 1);
        assert_eq!(instruction.op_register(0), NAME64[i]);
        let instruction = decode(&reg.pop());
        assert_eq!(instruction.mnemonic(), Mnemonic::Pop);
        assert_eq!(instruction.op_count(), 1);
        assert_eq!(instruction.op_register(0), NAME64[i]);
        for offset in OFFSETS {
            let instruction = decode(&reg.with_offset(offset).push());
            assert_eq!(instruction.mnemonic(), Mnemonic::Push);
            assert_eq!(instruction.op_count(), 1);
            assert!(is_memory(&instruction, 0, NAME64[i], offset));
        }
    }
}

#[test]
fn register_moves_disassemble() {
    for (d, dest) in R64.iter().enumerate() {
        for (s, src) in R64.iter().enumerate() {
            let instruction = decode(&dest.mov(*src));
            assert_eq!(instruction.mnemonic(), Mnemonic::Mov);
            assert_eq!(instruction.op_register(0), NAME64[d]);
            assert_eq!(instruction.op_register(1), NAME64[s]);
            let instruction = decode(&R32[d].mov(R32[s]));
            assert_eq!(instruction.mnemonic(), Mnemonic::Mov);
            assert_eq!(instruction.op_register(0), NAME32[d]);
            assert_eq!(instruction.op_register(1), NAME32[s]);
        }
    }
}

#[test]
fn immediate_moves_disassemble() {
    let wide = [0i64, 1, -1, 0x7fff_ffff, 0x8000_0000, i64::MAX, i64::MIN, 0x1122_3344_5566_7788];
    for (i, reg) in R64.iter().enumerate() {
        for value in wide {
            let instruction = decode(&reg.mov(value));
            assert_eq!(instruction.mnemonic(), Mnemonic::Mov);
            assert_eq!(instruction.op_register(0), NAME64[i]);
            assert_eq!(instruction.op_kind(1), OpKind::Immediate64);
            assert_eq!(instruction.immediate(1), value as u64);
        }
        for value in OFFSETS {
            let instruction = decode(&R32[i].mov(value));
            assert_eq!(instruction.mnemonic(), Mnemonic::Mov);
            assert_eq!(instruction.op_register(0), NAME32[i]);
            assert_eq!(instruction.op_kind(1), OpKind::Immediate32);
            assert_eq!(instruction.immediate(1), value as u32 as u64);
        }
    }
}

#[test]
fn loads_and_stores_disassemble() {
    for (r, reg) in R64.iter().enumerate() {
        for (b, base) in R64.iter().enumerate() {
            for offset in OFFSETS {
                let mem = Addressing { base: *base, offset };
                let instruction = decode(&reg.mov(mem));
                assert_eq!(instruction.mnemonic(), Mnemonic::Mov);
                assert_eq!(instruction.op_register(0), NAME64[r]);
                assert!(is_memory(&instruction, 1, NAME64[b], offset));
                let instruction = decode(&mem.mov(*reg));
                assert_eq!(instruction.mnemonic(), Mnemonic::Mov);
                assert!(is_memory(&instruction, 0, NAME64[b], offset));
                assert_eq!(instruction.op_register(1), NAME64[r]);
            }
        }
    }
}

#[test]
fn arithmetic_disassembles() {
    for (d, dest) in R64.iter().enumerate() {
        for (s, src) in R64.iter().enumerate() {
            let wide = [
                (dest.add(*src), Mnemonic::Add),
                (dest.sub(*src), Mnemonic::Sub),
                (dest.cmp(*src), Mnemonic::Cmp),
            ];
            for (code, mnemonic) in wide {
                let instruction = decode(&code);
                assert_eq!(instruction.mnemonic(), mnemonic);
                assert_eq!(instruction.op_register(0), NAME64[d]);
                assert_eq!(instruction.op_register(1), NAME64[s]);
            }
            let narrow = [
                (R32[d].add(R32[s]), Mnemonic::Add),
                (R32[d].sub(R32[s]), Mnemonic::Sub),
                (R32[d].cmp(R32[s]), Mnemonic::Cmp),
            ];
            for (code, mnemonic) in narrow {
                let instruction = decode(&code);
                assert_eq!(instruction.mnemonic(), mnemonic);
                assert_eq!(instruction.op_register(0), NAME32[d]);
                assert_eq!(instruction.op_register(1), NAME32[s]);
            }
        }
        for value in OFFSETS {
            let instruction = decode(&dest.add(value));
            assert_eq!(instruction.mnemonic(), Mnemonic::Add);
            assert_eq!(instruction.op_register(0), NAME64[d]);
            assert_eq!(instruction.immediate(1), value as i64 as u64);
            let instruction = decode(&R32[d].cmp(value));
            assert_eq!(instruction.mnemonic(), Mnemonic::Cmp);
            assert_eq!(instruction.op_register(0), NAME32[d]);
            assert_eq!(instruction.immediate(1), value as u32 as u64);
        }
    }
}

#[test]
fn flag_instructions_disassemble() {
    for (s, src) in R8.iter().enumerate() {
        let instruction = decode(&src.sete());
        assert_eq!(instruction.mnemonic(), Mnemonic::Sete);
        assert_eq!(instruction.op_register(0), NAME8[s]);
        for (d, dest) in R32.iter().enumerate() {
            // the high byte registers have no encoding beside r8d..r15d
            if d >= 8 && s >= 4 {
                continue;
            }
            let instruction = decode(&dest.movzx(*src));
            assert_eq!(instruction.mnemonic(), Mnemonic::Movzx);
            assert_eq!(instruction.op_register(0), NAME32[d]);
            assert_eq!(instruction.op_register(1), NAME8[s]);
        }
    }
}

#[test]
fn jumps_calls_and_returns_disassemble() {
    for offset in OFFSETS {
        let code = offset.je();
        let instruction = decode(&code);
        assert_eq!(instruction.mnemonic(), Mnemonic::Je);
        assert_eq!(
            instruction.near_branch_target(),
            (IP + code.len() as u64).wrapping_add(offset as i64 as u64)
        );
        let code = offset.jmp();
        let instruction = decode(&code);
        assert_eq!(instruction.mnemonic(), Mnemonic::Jmp);
        assert_eq!(
            instruction.near_branch_target(),
            (IP + code.len() as u64).wrapping_add(offset as i64 as u64)
        );
    }
    for (i, reg) in R64.iter().enumerate() {
        let instruction = decode(&reg.call());
        assert_eq!(instruction.mnemonic(), Mnemonic::Call);
        assert_eq!(instruction.op_register(0), NAME64[i]);
    }
    let instruction = decode(&ret());
    assert_eq!(instruction.mnemonic(), Mnemonic::Ret);
    assert_eq!(instruction.op_count(), 0);
}
