//! Reading instructions back from their bytes.
//!
//! `decode` reads one instruction from the front of a byte sequence. It
//! is the inverse of the encoder: whatever follows the instruction, the
//! bytes of an instruction are read back as that instruction with those
//! operands, and as nothing else.

use crate::assembler::laws::{
    extended, field_mod, field_reg, field_rm, is_rex, lemma_modrm_fields, lemma_rex_bits, rex_b,
    rex_r, rex_w,
};
use crate::assembler::{
    bits_of_i32, bits_of_i64, fits_i8, imm32_bytes, imm64_bytes, imm8_byte, le_bytes_u32,
    mem_operand_bytes, modrm_byte, needs_disp, needs_sib, opcode_plus_reg_bytes, ret_bytes,
    rex_byte, rm_imm32_bytes, rm_reg_bytes, Add, Addressing, Call, Cmp, Je, Jmp, Mov, Movzx,
    Pop, Push, Register32, Register64, Register8, RegisterNumber, Sete, Sub,
};
use vstd::prelude::*;

verus! {

/// An instruction of the encoder with its operands.
pub enum Instruction {
    PushReg(Register64),
    PushImm(i32),
    PushMem(Addressing<Register64>),
    PopReg(Register64),
    MovReg64(Register64, Register64),
    MovReg32(Register32, Register32),
    MovImm32(Register32, i32),
    MovImm64(Register64, i64),
    Load(Register64, Addressing<Register64>),
    Store(Addressing<Register64>, Register64),
    CallReg(Register64),
    Ret,
    AddReg64(Register64, Register64),
    AddReg32(Register32, Register32),
    AddImm(Register64, i32),
    SubReg64(Register64, Register64),
    SubReg32(Register32, Register32),
    CmpReg64(Register64, Register64),
    CmpReg32(Register32, Register32),
    CmpImm(Register32, i32),
    Sete(Register8),
    Movzx(Register32, Register8),
    Je(i32),
    Jmp(i32),
}

impl Instruction {
    /// Whether the instruction set has an encoding for the instruction.
    pub open spec fn encodable(self) -> bool {
        match self {
            Instruction::Movzx(dest, src) => dest.movzx_encodable(src),
            _ => true,
        }
    }

    /// The bytes that the encoder gives the instruction.
    pub open spec fn bytes(self) -> Seq<u8> {
        match self {
            Instruction::PushReg(reg) => reg.push_bytes(),
            Instruction::PushImm(value) => value.push_bytes(),
            Instruction::PushMem(mem) => mem.push_bytes(),
            Instruction::PopReg(reg) => reg.pop_bytes(),
            Instruction::MovReg64(dest, src) => dest.mov_bytes(src),
            Instruction::MovReg32(dest, src) => dest.mov_bytes(src),
            Instruction::MovImm32(dest, value) => dest.mov_bytes(value),
            Instruction::MovImm64(dest, value) => dest.mov_bytes(value),
            Instruction::Load(dest, mem) => dest.mov_bytes(mem),
            Instruction::Store(mem, src) => mem.mov_bytes(src),
            Instruction::CallReg(reg) => reg.call_bytes(),
            Instruction::Ret => ret_bytes(),
            Instruction::AddReg64(dest, src) => dest.add_bytes(src),
            Instruction::AddReg32(dest, src) => dest.add_bytes(src),
            Instruction::AddImm(dest, value) => dest.add_bytes(value),
            Instruction::SubReg64(dest, src) => dest.sub_bytes(src),
            Instruction::SubReg32(dest, src) => dest.sub_bytes(src),
            Instruction::CmpReg64(dest, src) => dest.cmp_bytes(src),
            Instruction::CmpReg32(dest, src) => dest.cmp_bytes(src),
            Instruction::CmpImm(dest, value) => dest.cmp_bytes(value),
            Instruction::Sete(reg) => reg.sete_bytes(),
            Instruction::Movzx(dest, src) => dest.movzx_bytes(src),
            Instruction::Je(offset) => offset.je_bytes(),
            Instruction::Jmp(offset) => offset.jmp_bytes(),
        }
    }
}

/// The number of bytes of a piece of code.
pub open spec fn length(code: Seq<u8>) -> int {
    code.len() as int
}

/// The 64-bit register with the given ordinal.
pub open spec fn register64(n: int) -> Register64 {
    if n == 0 {
        Register64::Rax
    } else if n == 1 {
        Register64::Rcx
    } else if n == 2 {
        Register64::Rdx
    } else if n == 3 {
        Register64::Rbx
    } else if n == 4 {
        Register64::Rsp
    } else if n == 5 {
        Register64::Rbp
    } else if n == 6 {
        Register64::Rsi
    } else if n == 7 {
        Register64::Rdi
    } else if n == 8 {
        Register64::R8
    } else if n == 9 {
        Register64::R9
    } else if n == 10 {
        Register64::R10
    } else if n == 11 {
        Register64::R11
    } else if n == 12 {
        Register64::R12
    } else if n == 13 {
        Register64::R13
    } else if n == 14 {
        Register64::R14
    } else {
        Register64::R15
    }
}

/// The 32-bit register with the given ordinal.
pub open spec fn register32(n: int) -> Register32 {
    register64(n).low32()
}

/// The byte register with the given ordinal.
pub open spec fn register8(n: int) -> Register8 {
    if n == 0 {
        Register8::Al
    } else if n == 1 {
        Register8::Cl
    } else if n == 2 {
        Register8::Dl
    } else if n == 3 {
        Register8::Bl
    } else if n == 4 {
        Register8::Ah
    } else if n == 5 {
        Register8::Ch
    } else if n == 6 {
        Register8::Dh
    } else {
        Register8::Bh
    }
}

/// The unsigned number in the four bytes at `at`, least significant first.
#[verifier::opaque]
pub open spec fn u32_at(code: Seq<u8>, at: int) -> int {
    code[at] + 0x100 * code[at + 1] + 0x1_0000 * code[at + 2] + 0x100_0000 * code[at + 3]
}

/// The signed number in the byte at `at`.
#[verifier::opaque]
pub open spec fn i8_at(code: Seq<u8>, at: int) -> i32 {
    if code[at] >= 0x80 {
        (code[at] - 0x100) as i32
    } else {
        code[at] as i32
    }
}

/// The signed number in the four bytes at `at`.
#[verifier::opaque]
pub open spec fn i32_at(code: Seq<u8>, at: int) -> i32 {
    if u32_at(code, at) >= 0x8000_0000 {
        (u32_at(code, at) - 0x1_0000_0000) as i32
    } else {
        u32_at(code, at) as i32
    }
}

/// The signed number in the eight bytes at `at`.
#[verifier::opaque]
pub open spec fn i64_at(code: Seq<u8>, at: int) -> i64 {
    let bits = u32_at(code, at) + 0x1_0000_0000 * u32_at(code, at + 4);
    if bits >= 0x8000_0000_0000_0000 {
        (bits - 0x1_0000_0000_0000_0000) as i64
    } else {
        bits as i64
    }
}

/// A memory operand as it is read: the operand, the `reg` field beside it,
/// and the number of bytes it takes.
pub struct MemOperand {
    pub mem: Addressing<Register64>,
    pub reg: int,
    pub len: int,
}

/// The memory operand whose ModR/M byte stands at `at`. Only the forms of
/// the encoder are read: a base without index, and no address relative to
/// the instruction pointer.
#[verifier::opaque]
pub open spec fn mem_operand_at(code: Seq<u8>, at: int, b: bool) -> Option<MemOperand> {
    if at >= code.len() {
        None
    } else {
        let mode = field_mod(code[at]);
        let rm = field_rm(code[at]);
        let disp = at + 1 + if rm == 4 {
            1int
        } else {
            0
        };
        let base = register64(extended(b, rm));
        let reg = field_reg(code[at]);
        if mode == 3 || (mode == 0 && rm == 5) {
            None
        } else if rm == 4 && (disp > code.len() || code[at + 1] != 0x24) {
            None
        } else if mode == 0 {
            Some(MemOperand { mem: Addressing { base, offset: 0 }, reg, len: disp - at })
        } else if mode == 1 {
            if disp + 1 > code.len() {
                None
            } else {
                Some(
                    MemOperand {
                        mem: Addressing { base, offset: i8_at(code, disp) },
                        reg,
                        len: disp + 1 - at,
                    },
                )
            }
        } else {
            if disp + 4 > code.len() {
                None
            } else {
                Some(
                    MemOperand {
                        mem: Addressing { base, offset: i32_at(code, disp) },
                        reg,
                        len: disp + 4 - at,
                    },
                )
            }
        }
    }
}

/// The instruction whose opcode stands at `at`, behind a REX prefix with
/// the given bits or none, and the number of bytes up to its end.
#[verifier::opaque]
pub open spec fn decode_at(code: Seq<u8>, at: int, rex: bool, w: bool, r: bool, b: bool) -> Option<
    (Instruction, int),
> {
    let op = code[at];
    let modrm = code[at + 1];
    let dest = extended(b, field_rm(modrm));
    let src = extended(r, field_reg(modrm));
    let direct = at + 2 <= code.len() && field_mod(modrm) == 3;
    if op == 0xc3 {
        Some((Instruction::Ret, at + 1))
    } else if 0x50 <= op < 0x58 {
        Some((Instruction::PushReg(register64(extended(b, op - 0x50))), at + 1))
    } else if 0x58 <= op < 0x60 {
        Some((Instruction::PopReg(register64(extended(b, op - 0x58))), at + 1))
    } else if op == 0x6a && at + 2 <= code.len() {
        Some((Instruction::PushImm(i8_at(code, at + 1)), at + 2))
    } else if op == 0x68 && at + 5 <= code.len() {
        Some((Instruction::PushImm(i32_at(code, at + 1)), at + 5))
    } else if op == 0xe9 && at + 5 <= code.len() {
        Some((Instruction::Jmp(i32_at(code, at + 1)), at + 5))
    } else if 0xb8 <= op < 0xc0 && w && at + 9 <= code.len() {
        Some(
            (
                Instruction::MovImm64(register64(extended(b, op - 0xb8)), i64_at(code, at + 1)),
                at + 9,
            ),
        )
    } else if 0xb8 <= op < 0xc0 && !w && at + 5 <= code.len() {
        Some(
            (
                Instruction::MovImm32(register32(extended(b, op - 0xb8)), i32_at(code, at + 1)),
                at + 5,
            ),
        )
    } else if op == 0x89 && direct {
        Some(
            (
                if w {
                    Instruction::MovReg64(register64(dest), register64(src))
                } else {
                    Instruction::MovReg32(register32(dest), register32(src))
                },
                at + 2,
            ),
        )
    } else if op == 0x01 && direct {
        Some(
            (
                if w {
                    Instruction::AddReg64(register64(dest), register64(src))
                } else {
                    Instruction::AddReg32(register32(dest), register32(src))
                },
                at + 2,
            ),
        )
    } else if op == 0x29 && direct {
        Some(
            (
                if w {
                    Instruction::SubReg64(register64(dest), register64(src))
                } else {
                    Instruction::SubReg32(register32(dest), register32(src))
                },
                at + 2,
            ),
        )
    } else if op == 0x39 && direct {
        Some(
            (
                if w {
                    Instruction::CmpReg64(register64(dest), register64(src))
                } else {
                    Instruction::CmpReg32(register32(dest), register32(src))
                },
                at + 2,
            ),
        )
    } else if op == 0x81 && direct && at + 6 <= code.len() && w && field_reg(modrm) == 0 {
        Some((Instruction::AddImm(register64(dest), i32_at(code, at + 2)), at + 6))
    } else if op == 0x81 && direct && at + 6 <= code.len() && !w && field_reg(modrm) == 7 {
        Some((Instruction::CmpImm(register32(dest), i32_at(code, at + 2)), at + 6))
    } else if op == 0xff && direct && field_reg(modrm) == 2 {
        Some((Instruction::CallReg(register64(dest)), at + 2))
    } else if op == 0xff {
        match mem_operand_at(code, at + 1, b) {
            Some(found) => if found.reg == 6 {
                Some((Instruction::PushMem(found.mem), at + 1 + found.len))
            } else {
                None
            },
            None => None,
        }
    } else if op == 0x8b && w {
        match mem_operand_at(code, at + 1, b) {
            Some(found) => Some(
                (
                    Instruction::Load(register64(extended(r, found.reg)), found.mem),
                    at + 1 + found.len,
                ),
            ),
            None => None,
        }
    } else if op == 0x89 && w {
        match mem_operand_at(code, at + 1, b) {
            Some(found) => Some(
                (
                    Instruction::Store(found.mem, register64(extended(r, found.reg))),
                    at + 1 + found.len,
                ),
            ),
            None => None,
        }
    } else if op == 0x0f && at + 6 <= code.len() && code[at + 1] == 0x84 {
        Some((Instruction::Je(i32_at(code, at + 2)), at + 6))
    } else if op == 0x0f && at + 3 <= code.len() && code[at + 1] == 0x94 && field_mod(
        code[at + 2],
    ) == 3 && !rex {
        Some((Instruction::Sete(register8(field_rm(code[at + 2]))), at + 3))
    } else if op == 0x0f && at + 3 <= code.len() && code[at + 1] == 0xb6 && field_mod(
        code[at + 2],
    ) == 3 && (!rex || field_rm(code[at + 2]) < 4) {
        Some(
            (
                Instruction::Movzx(
                    register32(extended(r, field_reg(code[at + 2]))),
                    register8(field_rm(code[at + 2])),
                ),
                at + 3,
            ),
        )
    } else {
        None
    }
}

/// The instruction at the front of `code` and the number of its bytes, if
/// the bytes are those of an instruction of the encoder.
#[verifier::opaque]
pub open spec fn decode(code: Seq<u8>) -> Option<(Instruction, int)> {
    if code.len() == 0 {
        None
    } else if is_rex(code[0]) {
        if code.len() == 1 {
            None
        } else {
            decode_at(code, 1, true, rex_w(code[0]), rex_r(code[0]), rex_b(code[0]))
        }
    } else {
        decode_at(code, 0, false, false, false, false)
    }
}


/// A register is found again by its ordinal.
pub proof fn lemma_register_of_ordinal(wide: Register64, narrow: Register32, byte: Register8)
    ensures
        wide.ordinal() < 16,
        narrow.ordinal() < 16,
        byte.ordinal() < 8,
        register64(wide.ordinal() as int) == wide,
        register32(narrow.ordinal() as int) == narrow,
        register8(byte.ordinal() as int) == byte,
        wide.low32().ordinal() == wide.ordinal(),
{
}

/// An ordinal is found again from its low three bits and the REX bit.
pub proof fn lemma_extended(n: u8)
    requires
        n < 16,
    ensures
        extended(n >= 8, (n % 8) as int) == n,
{
}

proof fn lemma_le_bytes(x: u32)
    ensures
        x == x % 256 + 0x100 * (x / 0x100 % 256) + 0x1_0000 * (x / 0x1_0000 % 256) + 0x100_0000 * (x
            / 0x100_0000 % 256),
        x / 0x100_0000 % 256 == x / 0x100_0000,
{
    assert(x == x % 256 + 0x100 * (x / 0x100 % 256) + 0x1_0000 * (x / 0x1_0000 % 256) + 0x100_0000
        * (x / 0x100_0000 % 256)) by (bit_vector);
    assert(x / 0x100_0000 % 256 == x / 0x100_0000) by (bit_vector);
}

/// A 32-bit immediate is read back from its bytes.
pub proof fn lemma_imm32_at(code: Seq<u8>, at: int, v: i32)
    requires
        0 <= at,
        at + 4 <= code.len(),
        code.subrange(at, at + 4) == imm32_bytes(v),
    ensures
        i32_at(code, at) == v,
{
    reveal(i32_at);
    reveal(u32_at);
    let bytes = code.subrange(at, at + 4);
    assert(bytes[0] == code[at] && bytes[1] == code[at + 1] && bytes[2] == code[at + 2] && bytes[3]
        == code[at + 3]);
    lemma_le_bytes(bits_of_i32(v));
}

/// A 64-bit immediate is read back from its bytes.
pub proof fn lemma_imm64_at(code: Seq<u8>, at: int, v: i64)
    requires
        0 <= at,
        at + 8 <= code.len(),
        code.subrange(at, at + 8) == imm64_bytes(v),
    ensures
        i64_at(code, at) == v,
{
    reveal(i64_at);
    reveal(u32_at);
    let bytes = code.subrange(at, at + 8);
    assert(bytes[0] == code[at] && bytes[1] == code[at + 1] && bytes[2] == code[at + 2] && bytes[3]
        == code[at + 3]);
    assert(bytes[4] == code[at + 4] && bytes[5] == code[at + 5] && bytes[6] == code[at + 6]
        && bytes[7] == code[at + 7]);
    let bits = bits_of_i64(v);
    let low = (bits % 0x1_0000_0000) as u32;
    let high = (bits / 0x1_0000_0000) as u32;
    lemma_le_bytes(low);
    lemma_le_bytes(high);
    assert(le_bytes_u32(low).len() == 4);
    assert(bytes[0] == le_bytes_u32(low)[0]);
    assert(bytes[4] == le_bytes_u32(high)[0]);
    assert(u32_at(code, at) == low);
    assert(u32_at(code, at + 4) == high);
}

/// An 8-bit immediate is read back from its byte.
pub proof fn lemma_imm8_at(code: Seq<u8>, at: int, v: i32)
    requires
        0 <= at < code.len(),
        fits_i8(v),
        code[at] == imm8_byte(v),
    ensures
        i8_at(code, at) == v,
{
    reveal(i8_at);
}

/// A memory operand is read back from its bytes, with the `reg` field
/// beside it and its length, whatever stands before and behind it.
pub proof fn lemma_mem_operand_at(code: Seq<u8>, at: int, mem: Addressing<Register64>, reg: u8)
    requires
        0 <= at,
        reg < 8,
        at + mem_operand_bytes(mem.base.ordinal(), mem.offset, reg).len() <= code.len(),
        code.subrange(
            at,
            at + mem_operand_bytes(mem.base.ordinal(), mem.offset, reg).len(),
        ) == mem_operand_bytes(mem.base.ordinal(), mem.offset, reg),
    ensures
        mem_operand_at(code, at, mem.base.ordinal() >= 8) == Some(
            MemOperand {
                mem,
                reg: reg as int,
                len: mem_operand_bytes(mem.base.ordinal(), mem.offset, reg).len() as int,
            },
        ),
{
    reveal(mem_operand_at);
    let base = mem.base.ordinal();
    let bytes = mem_operand_bytes(base, mem.offset, reg);
    let part = code.subrange(at, at + bytes.len());
    assert(part[0] == code[at]);
    lemma_register_of_ordinal(mem.base, Register32::Eax, Register8::Al);
    lemma_extended(base);
    lemma_modrm_fields(0, reg, base);
    lemma_modrm_fields(1, reg, base);
    lemma_modrm_fields(2, reg, base);
    let sib: int = if needs_sib(base) {
        1
    } else {
        0
    };
    if needs_sib(base) {
        assert(part[1] == code[at + 1]);
    }
    if mem.offset == 0 && !needs_disp(base) {
        assert(mem_operand_at(code, at, base >= 8)->Some_0.mem == mem);
    } else if fits_i8(mem.offset) {
        assert(part[1 + sib] == code[at + 1 + sib]);
        lemma_imm8_at(code, at + 1 + sib, mem.offset);
        assert(mem_operand_at(code, at, base >= 8)->Some_0.mem == mem);
    } else {
        assert(code.subrange(at + 1 + sib, at + 1 + sib + 4) =~= imm32_bytes(mem.offset)) by {
            assert forall|k: int| 0 <= k < 4 implies code[at + 1 + sib + k] == imm32_bytes(
                mem.offset,
            )[k] by {
                assert(part[1 + sib + k] == code[at + 1 + sib + k]);
            }
        }
        lemma_imm32_at(code, at + 1 + sib, mem.offset);
        assert(mem_operand_at(code, at, base >= 8)->Some_0.mem == mem);
    }
}


proof fn lemma_decode_opcode_reg(opcode: u8, reg: Register64, rest: Seq<u8>)
    requires
        opcode == 0x50 || opcode == 0x58,
    ensures
        decode(opcode_plus_reg_bytes(opcode, reg.ordinal()) + rest) == Some(
            (
                if opcode == 0x50 {
                    Instruction::PushReg(reg)
                } else {
                    Instruction::PopReg(reg)
                },
                opcode_plus_reg_bytes(opcode, reg.ordinal()).len() as int,
            ),
        ),
{
    reveal(decode);
    reveal(decode_at);
    let n = reg.ordinal();
    let code = opcode_plus_reg_bytes(opcode, n) + rest;
    lemma_register_of_ordinal(reg, Register32::Eax, Register8::Al);
    lemma_rex_bits(false, false, false, true);
    if n < 8 {
        assert(code[0] == opcode + n);
    } else {
        assert(code[0] == rex_byte(false, false, false, true));
        assert(code[1] == opcode + n - 8);
    }
}

proof fn lemma_decode_push_imm(value: i32, rest: Seq<u8>)
    ensures
        decode(value.push_bytes() + rest) == Some(
            (Instruction::PushImm(value), value.push_bytes().len() as int),
        ),
{
    reveal(decode);
    reveal(decode_at);
    let code = value.push_bytes() + rest;
    if fits_i8(value) {
        assert(code[0] == 0x6a);
        assert(code[1] == imm8_byte(value));
        lemma_imm8_at(code, 1, value);
    } else {
        assert(code[0] == 0x68);
        assert(code.subrange(1, 5) =~= imm32_bytes(value));
        lemma_imm32_at(code, 1, value);
    }
}

proof fn lemma_decode_jump(offset: i32, rest: Seq<u8>)
    ensures
        decode(offset.je_bytes() + rest) == Some(
            (Instruction::Je(offset), offset.je_bytes().len() as int),
        ),
        decode(offset.jmp_bytes() + rest) == Some(
            (Instruction::Jmp(offset), offset.jmp_bytes().len() as int),
        ),
{
    reveal(decode);
    reveal(decode_at);
    let far = offset.je_bytes() + rest;
    assert(far[0] == 0x0f && far[1] == 0x84);
    assert(far.subrange(2, 6) =~= imm32_bytes(offset));
    lemma_imm32_at(far, 2, offset);
    let near = offset.jmp_bytes() + rest;
    assert(near[0] == 0xe9);
    assert(near.subrange(1, 5) =~= imm32_bytes(offset));
    lemma_imm32_at(near, 1, offset);
}

/// What a register-to-register instruction with this opcode is read as.
pub open spec fn reg_reg_instruction(opcode: u8, dest: int, src: int, wide: bool) -> Instruction {
    if opcode == 0x89 {
        if wide {
            Instruction::MovReg64(register64(dest), register64(src))
        } else {
            Instruction::MovReg32(register32(dest), register32(src))
        }
    } else if opcode == 0x01 {
        if wide {
            Instruction::AddReg64(register64(dest), register64(src))
        } else {
            Instruction::AddReg32(register32(dest), register32(src))
        }
    } else if opcode == 0x29 {
        if wide {
            Instruction::SubReg64(register64(dest), register64(src))
        } else {
            Instruction::SubReg32(register32(dest), register32(src))
        }
    } else {
        if wide {
            Instruction::CmpReg64(register64(dest), register64(src))
        } else {
            Instruction::CmpReg32(register32(dest), register32(src))
        }
    }
}

proof fn lemma_decode_reg_reg(opcode: u8, dest: u8, src: u8, wide: bool, rest: Seq<u8>)
    requires
        opcode == 0x89 || opcode == 0x01 || opcode == 0x29 || opcode == 0x39,
        dest < 16,
        src < 16,
    ensures
        decode(rm_reg_bytes(opcode, dest, src, wide) + rest) == Some(
            (reg_reg_instruction(opcode, dest as int, src as int, wide), 3int),
        ),
{
    reveal(decode);
    reveal(decode_at);
    let code = rm_reg_bytes(opcode, dest, src, wide) + rest;
    assert(code[0] == rex_byte(wide, src >= 8, false, dest >= 8));
    assert(code[1] == opcode);
    assert(code[2] == modrm_byte(3, src, dest));
    lemma_rex_bits(wide, src >= 8, false, dest >= 8);
    lemma_modrm_fields(3, src, dest);
    lemma_extended(dest);
    lemma_extended(src);
}

proof fn lemma_decode_reg_imm(opcode: u8, digit: u8, dest: u8, wide: bool, value: i32, rest: Seq<u8>)
    requires
        opcode == 0x81,
        dest < 16,
        (digit == 0 && wide) || (digit == 7 && !wide),
    ensures
        decode(rm_imm32_bytes(opcode, digit, dest, wide, value) + rest) == Some(
            (
                if wide {
                    Instruction::AddImm(register64(dest as int), value)
                } else {
                    Instruction::CmpImm(register32(dest as int), value)
                },
                7int,
            ),
        ),
{
    reveal(decode);
    reveal(decode_at);
    let code = rm_imm32_bytes(opcode, digit, dest, wide, value) + rest;
    assert(code[0] == rex_byte(wide, false, false, dest >= 8));
    assert(code[1] == opcode);
    assert(code[2] == modrm_byte(3, digit, dest));
    lemma_rex_bits(wide, false, false, dest >= 8);
    lemma_modrm_fields(3, digit, dest);
    lemma_extended(dest);
    assert(code.subrange(3, 7) =~= imm32_bytes(value));
    lemma_imm32_at(code, 3, value);
}

proof fn lemma_decode_mov_imm(wide: Register64, narrow: Register32, long: i64, short: i32, rest: Seq<
    u8,
>)
    ensures
        decode(wide.mov_bytes(long) + rest) == Some(
            (Instruction::MovImm64(wide, long), wide.mov_bytes(long).len() as int),
        ),
        decode(narrow.mov_bytes(short) + rest) == Some(
            (Instruction::MovImm32(narrow, short), narrow.mov_bytes(short).len() as int),
        ),
{
    reveal(decode);
    reveal(decode_at);
    lemma_register_of_ordinal(wide, narrow, Register8::Al);
    let code = wide.mov_bytes(long) + rest;
    let n = wide.ordinal();
    assert(code[0] == rex_byte(true, false, false, n >= 8));
    assert(code[1] == 0xb8 + n % 8);
    lemma_rex_bits(true, false, false, n >= 8);
    lemma_extended(n);
    assert(code.subrange(2, 10) =~= imm64_bytes(long));
    lemma_imm64_at(code, 2, long);
    let code = narrow.mov_bytes(short) + rest;
    let m = narrow.ordinal();
    lemma_rex_bits(false, false, false, true);
    lemma_extended(m);
    if m < 8 {
        assert(code[0] == 0xb8 + m);
        assert(code.subrange(1, 5) =~= imm32_bytes(short));
        lemma_imm32_at(code, 1, short);
    } else {
        assert(code[0] == rex_byte(false, false, false, true));
        assert(code[1] == 0xb8 + m - 8);
        assert(code.subrange(2, 6) =~= imm32_bytes(short));
        lemma_imm32_at(code, 2, short);
        assert(register64(m as int).low32() == narrow);
    }
}

proof fn lemma_operand_reg_low(base: u8, offset: i32, n: u8)
    ensures
        mem_operand_bytes(base, offset, n) == mem_operand_bytes(base, offset, n % 8),
{
    assert(modrm_byte(0, n, base) == modrm_byte(0, n % 8, base));
    assert(modrm_byte(1, n, base) == modrm_byte(1, n % 8, base));
    assert(modrm_byte(2, n, base) == modrm_byte(2, n % 8, base));
}

proof fn lemma_decode_load(reg: Register64, mem: Addressing<Register64>, rest: Seq<u8>)
    ensures
        decode(reg.mov_bytes(mem) + rest) == Some(
            (Instruction::Load(reg, mem), reg.mov_bytes(mem).len() as int),
        ),
{
    reveal(decode);
    reveal(decode_at);
    lemma_register_of_ordinal(reg, Register32::Eax, Register8::Al);
    let n = reg.ordinal();
    let base = mem.base.ordinal();
    let operand = mem_operand_bytes(base, mem.offset, n);
    let head = seq![rex_byte(true, n >= 8, false, base >= 8), 0x8bu8];
    let code = reg.mov_bytes(mem) + rest;
    assert(code =~= head + operand + rest);
    lemma_rex_bits(true, n >= 8, false, base >= 8);
    lemma_extended(n);
    lemma_operand_reg_low(base, mem.offset, n);
    assert(code[0] == head[0] && code[1] == head[1]);
    assert(code.subrange(2, 2 + operand.len() as int) =~= operand);
    lemma_mem_operand_at(code, 2, mem, n % 8);
    assert(code.len() >= 2 + operand.len());
    assert(decode(code) == decode_at(code, 1, true, true, n >= 8, base >= 8));
}

proof fn lemma_decode_store(reg: Register64, mem: Addressing<Register64>, rest: Seq<u8>)
    ensures
        decode(mem.mov_bytes(reg) + rest) == Some(
            (Instruction::Store(mem, reg), mem.mov_bytes(reg).len() as int),
        ),
{
    reveal(decode);
    reveal(decode_at);
    lemma_register_of_ordinal(reg, Register32::Eax, Register8::Al);
    let n = reg.ordinal();
    let base = mem.base.ordinal();
    let operand = mem_operand_bytes(base, mem.offset, n);
    let head = seq![rex_byte(true, n >= 8, false, base >= 8), 0x89u8];
    let code = mem.mov_bytes(reg) + rest;
    assert(code =~= head + operand + rest);
    lemma_rex_bits(true, n >= 8, false, base >= 8);
    lemma_extended(n);
    lemma_operand_reg_low(base, mem.offset, n);
    crate::assembler::laws::lemma_sib_presence(mem, n);
    assert(code[0] == head[0] && code[1] == head[1]);
    assert(code[2] == operand[0]);
    assert(field_mod(code[2]) != 3);
    assert(code.subrange(2, 2 + operand.len() as int) =~= operand);
    lemma_mem_operand_at(code, 2, mem, n % 8);
    assert(code.len() >= 2 + operand.len());
    assert(decode(code) == decode_at(code, 1, true, true, n >= 8, base >= 8));
}

proof fn lemma_decode_push_mem(mem: Addressing<Register64>, rest: Seq<u8>)
    ensures
        decode(mem.push_bytes() + rest) == Some(
            (Instruction::PushMem(mem), mem.push_bytes().len() as int),
        ),
{
    reveal(decode);
    reveal(decode_at);
    lemma_register_of_ordinal(mem.base, Register32::Eax, Register8::Al);
    let base = mem.base.ordinal();
    let operand = mem_operand_bytes(base, mem.offset, 6);
    lemma_rex_bits(false, false, false, true);
    let code = mem.push_bytes() + rest;
    crate::assembler::laws::lemma_sib_presence(mem, 6);
    if base >= 8 {
        assert(code[0] == rex_byte(false, false, false, true));
        assert(code[1] == 0xff);
        assert(code.subrange(2, 2 + operand.len() as int) =~= operand);
        lemma_mem_operand_at(code, 2, mem, 6);
        assert(code[2] == operand[0]);
    } else {
        assert(code[0] == 0xff);
        assert(code.subrange(1, 1 + operand.len() as int) =~= operand);
        lemma_mem_operand_at(code, 1, mem, 6);
        assert(code[1] == operand[0]);
    }
}

proof fn lemma_decode_call(reg: Register64, rest: Seq<u8>)
    ensures
        decode(reg.call_bytes() + rest) == Some(
            (Instruction::CallReg(reg), reg.call_bytes().len() as int),
        ),
{
    reveal(decode);
    reveal(decode_at);
    lemma_register_of_ordinal(reg, Register32::Eax, Register8::Al);
    let n = reg.ordinal();
    let code = reg.call_bytes() + rest;
    lemma_rex_bits(false, false, false, true);
    lemma_modrm_fields(3, 2, n);
    lemma_extended(n);
    if n >= 8 {
        assert(code[0] == rex_byte(false, false, false, true));
        assert(code[1] == 0xff);
        assert(code[2] == modrm_byte(3, 2, n));
    } else {
        assert(code[0] == 0xff);
        assert(code[1] == modrm_byte(3, 2, n));
    }
}

proof fn lemma_decode_flags(dest: Register32, src: Register8, rest: Seq<u8>)
    ensures
        decode(src.sete_bytes() + rest) == Some(
            (Instruction::Sete(src), src.sete_bytes().len() as int),
        ),
        dest.movzx_encodable(src) ==> decode(dest.movzx_bytes(src) + rest) == Some(
            (Instruction::Movzx(dest, src), dest.movzx_bytes(src).len() as int),
        ),
{
    reveal(decode);
    reveal(decode_at);
    lemma_register_of_ordinal(Register64::Rax, dest, src);
    let s = src.ordinal();
    let d = dest.ordinal();
    let set = src.sete_bytes() + rest;
    assert(set[0] == 0x0f && set[1] == 0x94 && set[2] == modrm_byte(3, 0, s));
    lemma_modrm_fields(3, 0, s);
    if dest.movzx_encodable(src) {
        let code = dest.movzx_bytes(src) + rest;
        lemma_rex_bits(false, true, false, false);
        lemma_modrm_fields(3, d, s);
        lemma_extended(d);
        if d >= 8 {
            assert(code[0] == rex_byte(false, true, false, false));
            assert(code[1] == 0x0f && code[2] == 0xb6 && code[3] == modrm_byte(3, d, s));
        } else {
            assert(code[0] == 0x0f && code[1] == 0xb6 && code[2] == modrm_byte(3, d, s));
        }
    }
}

proof fn lemma_decode_wide(dest: Register64, src: Register64, rest: Seq<u8>)
    ensures
        decode(dest.mov_bytes(src) + rest) == Some(
            (Instruction::MovReg64(dest, src), length(dest.mov_bytes(src))),
        ),
        decode(dest.add_bytes(src) + rest) == Some(
            (Instruction::AddReg64(dest, src), length(dest.add_bytes(src))),
        ),
        decode(dest.sub_bytes(src) + rest) == Some(
            (Instruction::SubReg64(dest, src), length(dest.sub_bytes(src))),
        ),
        decode(dest.cmp_bytes(src) + rest) == Some(
            (Instruction::CmpReg64(dest, src), length(dest.cmp_bytes(src))),
        ),
{
    lemma_register_of_ordinal(dest, Register32::Eax, Register8::Al);
    lemma_register_of_ordinal(src, Register32::Eax, Register8::Al);
    lemma_decode_reg_reg(0x89, dest.ordinal(), src.ordinal(), true, rest);
    lemma_decode_reg_reg(0x01, dest.ordinal(), src.ordinal(), true, rest);
    lemma_decode_reg_reg(0x29, dest.ordinal(), src.ordinal(), true, rest);
    lemma_decode_reg_reg(0x39, dest.ordinal(), src.ordinal(), true, rest);
}

proof fn lemma_decode_narrow(dest: Register32, src: Register32, rest: Seq<u8>)
    ensures
        decode(dest.mov_bytes(src) + rest) == Some(
            (Instruction::MovReg32(dest, src), length(dest.mov_bytes(src))),
        ),
        decode(dest.add_bytes(src) + rest) == Some(
            (Instruction::AddReg32(dest, src), length(dest.add_bytes(src))),
        ),
        decode(dest.sub_bytes(src) + rest) == Some(
            (Instruction::SubReg32(dest, src), length(dest.sub_bytes(src))),
        ),
        decode(dest.cmp_bytes(src) + rest) == Some(
            (Instruction::CmpReg32(dest, src), length(dest.cmp_bytes(src))),
        ),
{
    lemma_register_of_ordinal(Register64::Rax, dest, Register8::Al);
    lemma_register_of_ordinal(Register64::Rax, src, Register8::Al);
    lemma_decode_reg_reg(0x89, dest.ordinal(), src.ordinal(), false, rest);
    lemma_decode_reg_reg(0x01, dest.ordinal(), src.ordinal(), false, rest);
    lemma_decode_reg_reg(0x29, dest.ordinal(), src.ordinal(), false, rest);
    lemma_decode_reg_reg(0x39, dest.ordinal(), src.ordinal(), false, rest);
}

proof fn lemma_decode_immediate(wide: Register64, narrow: Register32, value: i32, rest: Seq<u8>)
    ensures
        decode(wide.add_bytes(value) + rest) == Some(
            (Instruction::AddImm(wide, value), length(wide.add_bytes(value))),
        ),
        decode(narrow.cmp_bytes(value) + rest) == Some(
            (Instruction::CmpImm(narrow, value), length(narrow.cmp_bytes(value))),
        ),
{
    lemma_register_of_ordinal(wide, narrow, Register8::Al);
    lemma_decode_reg_imm(0x81, 0, wide.ordinal(), true, value, rest);
    lemma_decode_reg_imm(0x81, 7, narrow.ordinal(), false, value, rest);
}

proof fn lemma_decode_ret(rest: Seq<u8>)
    ensures
        decode(ret_bytes() + rest) == Some((Instruction::Ret, ret_bytes().len() as int)),
{
    reveal(decode);
    reveal(decode_at);
    assert((ret_bytes() + rest)[0] == 0xc3);
}

/// Disassembling the bytes of an instruction yields the same instruction
/// with the same operands, and its length, whatever bytes follow.
pub proof fn lemma_decode_encode(instruction: Instruction, rest: Seq<u8>)
    requires
        instruction.encodable(),
    ensures
        decode(instruction.bytes() + rest) == Some(
            (instruction, instruction.bytes().len() as int),
        ),
{
    match instruction {
        Instruction::PushReg(reg) => {
            lemma_decode_opcode_reg(0x50, reg, rest);
        },
        Instruction::PopReg(reg) => {
            lemma_decode_opcode_reg(0x58, reg, rest);
        },
        Instruction::PushImm(value) => {
            lemma_decode_push_imm(value, rest);
        },
        Instruction::PushMem(mem) => {
            lemma_decode_push_mem(mem, rest);
        },
        Instruction::MovReg64(dest, src)
        | Instruction::AddReg64(dest, src)
        | Instruction::SubReg64(dest, src)
        | Instruction::CmpReg64(dest, src) => {
            lemma_decode_wide(dest, src, rest);
        },
        Instruction::MovReg32(dest, src)
        | Instruction::AddReg32(dest, src)
        | Instruction::SubReg32(dest, src)
        | Instruction::CmpReg32(dest, src) => {
            lemma_decode_narrow(dest, src, rest);
        },
        Instruction::MovImm32(dest, value) => {
            lemma_decode_mov_imm(Register64::Rax, dest, 0, value, rest);
        },
        Instruction::MovImm64(dest, value) => {
            lemma_decode_mov_imm(dest, Register32::Eax, value, 0, rest);
        },
        Instruction::Load(dest, mem) => {
            lemma_decode_load(dest, mem, rest);
        },
        Instruction::Store(mem, src) => {
            lemma_decode_store(src, mem, rest);
        },
        Instruction::CallReg(reg) => {
            lemma_decode_call(reg, rest);
        },
        Instruction::Ret => {
            lemma_decode_ret(rest);
        },
        Instruction::AddImm(dest, value) => {
            lemma_decode_immediate(dest, Register32::Eax, value, rest);
        },
        Instruction::CmpImm(dest, value) => {
            lemma_decode_immediate(Register64::Rax, dest, value, rest);
        },
        Instruction::Sete(reg) => {
            lemma_decode_flags(Register32::Eax, reg, rest);
        },
        Instruction::Movzx(dest, src) => {
            lemma_decode_flags(dest, src, rest);
        },
        Instruction::Je(offset) | Instruction::Jmp(offset) => {
            lemma_decode_jump(offset, rest);
        },
    }
}

/// No instruction begins with the bytes of another: if the bytes of one
/// instruction, with whatever follows, are the bytes of a second one, the
/// two are the same instruction. So no two instructions share their bytes.
pub proof fn lemma_no_instruction_begins_another(
    first: Instruction,
    second: Instruction,
    rest: Seq<u8>,
)
    requires
        first.encodable(),
        second.encodable(),
        first.bytes() + rest == second.bytes(),
    ensures
        first == second,
        rest.len() == 0,
{
    lemma_decode_encode(first, rest);
    lemma_decode_encode(second, Seq::empty());
    assert(second.bytes() + Seq::<u8>::empty() =~= second.bytes());
}

} // verus!
