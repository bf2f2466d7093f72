//! What holds of every encoding: where the SIB byte and the forced
//! displacement stand, and how the REX bits name the upper registers.

use crate::assembler::{
    fits_i8, mem_operand_bytes, modrm_byte, needs_disp, needs_sib, opcode_plus_reg_bytes,
    rex_byte, rm_reg_bytes, sib_byte, Addressing, Mov, Register64, RegisterNumber,
};
use vstd::prelude::*;

verus! {

/// The `mod` field of a ModR/M byte.
pub open spec fn field_mod(byte: u8) -> int {
    byte as int / 64
}

/// The `reg` field of a ModR/M byte, or the `index` field of a SIB byte.
pub open spec fn field_reg(byte: u8) -> int {
    byte as int / 8 % 8
}

/// The `rm` field of a ModR/M byte, or the `base` field of a SIB byte.
pub open spec fn field_rm(byte: u8) -> int {
    byte as int % 8
}

/// Whether a byte is a REX prefix.
pub open spec fn is_rex(byte: u8) -> bool {
    0x40 <= byte < 0x50
}

/// The W bit of a REX prefix: 64-bit operand size.
pub open spec fn rex_w(byte: u8) -> bool {
    byte as int / 8 % 2 == 1
}

/// The R bit of a REX prefix: the fourth bit of the ModR/M `reg` field.
pub open spec fn rex_r(byte: u8) -> bool {
    byte as int / 4 % 2 == 1
}

/// The B bit of a REX prefix: the fourth bit of the `rm`, `base` or
/// opcode register field.
pub open spec fn rex_b(byte: u8) -> bool {
    byte as int % 2 == 1
}

/// The register ordinal that a three-bit field names together with its REX
/// bit.
pub open spec fn extended(bit: bool, field: int) -> int {
    field + if bit {
        8int
    } else {
        0
    }
}

/// The number of displacement bytes that the operand `[base + offset]`
/// carries.
pub open spec fn disp_len(base: u8, offset: i32) -> nat {
    if offset == 0 && !needs_disp(base) {
        0
    } else if fits_i8(offset) {
        1
    } else {
        4
    }
}

/// A REX prefix holds exactly the four bits it was made from.
pub proof fn lemma_rex_bits(w: bool, r: bool, x: bool, b: bool)
    ensures
        is_rex(rex_byte(w, r, x, b)),
        rex_w(rex_byte(w, r, x, b)) == w,
        rex_r(rex_byte(w, r, x, b)) == r,
        rex_b(rex_byte(w, r, x, b)) == b,
        rex_byte(w, r, x, b) as int / 2 % 2 == 1 <==> x,
{
}

/// A ModR/M byte holds the low bits of the three values it was made from.
pub proof fn lemma_modrm_fields(mod_: u8, reg: u8, rm: u8)
    ensures
        field_mod(modrm_byte(mod_, reg, rm)) == mod_ % 4,
        field_reg(modrm_byte(mod_, reg, rm)) == reg % 8,
        field_rm(modrm_byte(mod_, reg, rm)) == rm % 8,
{
}

/// A memory operand on `rsp` or `r12`, and no other, announces a SIB byte
/// (`rm` = 4) and carries it as its second byte: no index, and the base
/// field 4 that the REX.B bit completes. The operand's length is one ModR/M
/// byte, the SIB byte if any, and the displacement.
pub proof fn lemma_sib_presence(mem: Addressing<Register64>, reg: u8)
    ensures
        ({
            let code = mem_operand_bytes(mem.base.ordinal(), mem.offset, reg);
            let sib = mem.base == Register64::Rsp || mem.base == Register64::R12;
            &&& sib == needs_sib(mem.base.ordinal())
            &&& code.len() == 1 + (if sib { 1nat } else { 0 }) + disp_len(mem.base.ordinal(), mem.offset)
            &&& field_mod(code[0]) != 3
            &&& field_reg(code[0]) == reg % 8
            &&& (field_rm(code[0]) == 4) == sib
            &&& sib ==> code[1] == sib_byte(0, 4, 4) && code[1] == 0x24
            &&& !sib ==> field_rm(code[0]) == mem.base.ordinal() % 8
        }),
{
    lemma_modrm_fields(0, reg, mem.base.ordinal());
    lemma_modrm_fields(1, reg, mem.base.ordinal());
    lemma_modrm_fields(2, reg, mem.base.ordinal());
}

/// A memory operand on `rbp` or `r13` with offset zero is written with
/// `mod` = 1 and one zero displacement byte; with `mod` = 0 the same `rm`
/// would mean RIP-relative addressing.
pub proof fn lemma_forced_displacement(mem: Addressing<Register64>, reg: u8)
    requires
        mem.base == Register64::Rbp || mem.base == Register64::R13,
        mem.offset == 0,
    ensures
        mem_operand_bytes(mem.base.ordinal(), mem.offset, reg) == seq![
            modrm_byte(1, reg, 5),
            0u8,
        ],
        field_mod(modrm_byte(1, reg, 5)) == 1,
        field_rm(modrm_byte(1, reg, 5)) == 5,
{
    assert(mem_operand_bytes(mem.base.ordinal(), mem.offset, reg) =~= seq![
        modrm_byte(1, reg, 5),
        0u8,
    ]);
}

/// No memory operand is ever written in a form that means something else:
/// `mod` 0 never stands with `rm` 5.
pub proof fn lemma_never_rip_relative(mem: Addressing<Register64>, reg: u8)
    ensures
        ({
            let code = mem_operand_bytes(mem.base.ordinal(), mem.offset, reg);
            !(field_mod(code[0]) == 0 && field_rm(code[0]) == 5)
        }),
{
    lemma_modrm_fields(0, reg, mem.base.ordinal());
    lemma_modrm_fields(1, reg, mem.base.ordinal());
    lemma_modrm_fields(2, reg, mem.base.ordinal());
}

/// In a register-to-register instruction the REX.B bit and the `rm` field
/// name the destination, the REX.R bit and the `reg` field name the source,
/// and REX.W is set exactly for the 64-bit form.
pub proof fn lemma_rex_reg_reg(opcode: u8, dest: u8, src: u8, wide: bool)
    requires
        dest < 16,
        src < 16,
    ensures
        ({
            let code = rm_reg_bytes(opcode, dest, src, wide);
            &&& code.len() == 3
            &&& is_rex(code[0])
            &&& rex_w(code[0]) == wide
            &&& code[1] == opcode
            &&& field_mod(code[2]) == 3
            &&& extended(rex_r(code[0]), field_reg(code[2])) == src
            &&& extended(rex_b(code[0]), field_rm(code[2])) == dest
        }),
{
    lemma_rex_bits(wide, src >= 8, false, dest >= 8);
    lemma_modrm_fields(3, src, dest);
}

/// In an instruction that names its register in the opcode byte, a REX.B
/// prefix stands in front exactly for `r8..r15`, and the opcode's low three
/// bits hold the rest of the ordinal.
pub proof fn lemma_rex_opcode_reg(opcode: u8, number: u8)
    requires
        number < 16,
        opcode <= 0xf8,
    ensures
        ({
            let code = opcode_plus_reg_bytes(opcode, number);
            &&& number < 8 ==> code.len() == 1 && code[0] == opcode + number
            &&& number >= 8 ==> {
                &&& code.len() == 2
                &&& is_rex(code[0])
                &&& rex_b(code[0])
                &&& !rex_w(code[0])
                &&& !rex_r(code[0])
                &&& code[1] == opcode + number - 8
            }
        }),
{
    lemma_rex_bits(false, false, false, true);
}

/// In a load or a store the REX.R bit and the `reg` field name the register
/// operand, and the REX.B bit completes the base of the memory operand.
pub proof fn lemma_rex_reg_mem(reg: Register64, mem: Addressing<Register64>)
    ensures
        ({
            let load = reg.mov_bytes(mem);
            let store = mem.mov_bytes(reg);
            &&& is_rex(load[0]) && rex_w(load[0])
            &&& is_rex(store[0]) && rex_w(store[0])
            &&& load[1] == 0x8b && store[1] == 0x89
            &&& extended(rex_r(load[0]), field_reg(load[2])) == reg.ordinal()
            &&& extended(rex_r(store[0]), field_reg(store[2])) == reg.ordinal()
            &&& rex_b(load[0]) == (mem.base.ordinal() >= 8)
            &&& rex_b(store[0]) == (mem.base.ordinal() >= 8)
            &&& load.subrange(2, load.len() as int) == mem_operand_bytes(
                mem.base.ordinal(),
                mem.offset,
                reg.ordinal(),
            )
            &&& store.subrange(2, store.len() as int) == load.subrange(2, load.len() as int)
        }),
{
    lemma_rex_bits(true, reg.ordinal() >= 8, false, mem.base.ordinal() >= 8);
    lemma_sib_presence(mem, reg.ordinal());
    let tail = mem_operand_bytes(mem.base.ordinal(), mem.offset, reg.ordinal());
    assert(reg.mov_bytes(mem).subrange(2, reg.mov_bytes(mem).len() as int) =~= tail);
    assert(mem.mov_bytes(reg).subrange(2, mem.mov_bytes(reg).len() as int) =~= tail);
}

} // verus!
