//! A typed encoder for the x86-64 instructions the code generator emits.
//!
//! Every encoder is a pure function from operands to bytes. Its contract
//! names the exact byte sequence through a spec function built from the
//! three encoding bytes (`rex_byte`, `modrm_byte`, `sib_byte`) and the
//! little-endian immediates. `laws` states where the prefix bits and the
//! SIB byte stand, and `decode` reads every instruction back from its
//! bytes.

pub mod decode;
pub mod laws;

use vstd::prelude::*;

verus! {

/// The sixteen 64-bit general-purpose registers, in encoding order.
#[derive(Debug, Clone, Copy, PartialEq, Eq, Structural)]
pub enum Register64 {
    Rax,
    Rcx,
    Rdx,
    Rbx,
    Rsp,
    Rbp,
    Rsi,
    Rdi,
    R8,
    R9,
    R10,
    R11,
    R12,
    R13,
    R14,
    R15,
}

/// The 32-bit views of the general-purpose registers, in encoding order.
#[derive(Debug, Clone, Copy, PartialEq, Eq, Structural)]
pub enum Register32 {
    Eax,
    Ecx,
    Edx,
    Ebx,
    Esp,
    Ebp,
    Esi,
    Edi,
    R8d,
    R9d,
    R10d,
    R11d,
    R12d,
    R13d,
    R14d,
    R15d,
}

/// The legacy byte registers, in encoding order.
#[derive(Debug, Clone, Copy, PartialEq, Eq, Structural)]
pub enum Register8 {
    Al,
    Cl,
    Dl,
    Bl,
    Ah,
    Ch,
    Dh,
    Bh,
}

/// A memory operand `[base + offset]`.
#[derive(Debug, Clone, Copy)]
pub struct Addressing<Reg> {
    pub base: Reg,
    pub offset: i32,
}

/// The REX prefix with the given W, R, X and B bits.
pub open spec fn rex_byte(w: bool, r: bool, x: bool, b: bool) -> u8 {
    (0x40 + (if w { 8int } else { 0 }) + (if r { 4int } else { 0 }) + (if x { 2int } else { 0 })
        + (if b { 1int } else { 0 })) as u8
}

/// A ModR/M byte: two bits of `mod_`, three of `reg`, three of `rm`; higher
/// bits of each argument are dropped.
pub open spec fn modrm_byte(mod_: u8, reg: u8, rm: u8) -> u8 {
    (64 * (mod_ % 4) + 8 * (reg % 8) + rm % 8) as u8
}

/// A SIB byte: two bits of `scale`, three of `index`, three of `base`.
pub open spec fn sib_byte(scale: u8, index: u8, base: u8) -> u8 {
    (64 * (scale % 4) + 8 * (index % 8) + base % 8) as u8
}

pub fn rex(w: bool, r: bool, x: bool, b: bool) -> (byte: u8)
    ensures
        byte == rex_byte(w, r, x, b),
{
    let mut byte: u8 = 0x40;
    if w {
        byte = byte + 8;
    }
    if r {
        byte = byte + 4;
    }
    if x {
        byte = byte + 2;
    }
    if b {
        byte = byte + 1;
    }
    byte
}

pub fn mod_rm(mod_: u8, reg: u8, rm: u8) -> (byte: u8)
    ensures
        byte == modrm_byte(mod_, reg, rm),
{
    assert(((mod_ & 3) << 6) | ((reg & 7) << 3) | (rm & 7) == 64 * (mod_ % 4) + 8 * (reg % 8) + rm
        % 8) by (bit_vector);
    ((mod_ & 3) << 6) | ((reg & 7) << 3) | (rm & 7)
}

pub fn sib(scale: u8, index: u8, base: u8) -> (byte: u8)
    ensures
        byte == sib_byte(scale, index, base),
{
    assert(((scale & 3) << 6) | ((index & 7) << 3) | (base & 7) == 64 * (scale % 4) + 8 * (index
        % 8) + base % 8) by (bit_vector);
    ((scale & 3) << 6) | ((index & 7) << 3) | (base & 7)
}


/// The four bytes of `x`, least significant first.
pub open spec fn le_bytes_u32(x: u32) -> Seq<u8> {
    seq![
        (x % 256) as u8,
        (x / 0x100 % 256) as u8,
        (x / 0x1_0000 % 256) as u8,
        (x / 0x100_0000 % 256) as u8,
    ]
}

/// The eight bytes of `x`, least significant first.
pub open spec fn le_bytes_u64(x: u64) -> Seq<u8> {
    le_bytes_u32((x % 0x1_0000_0000) as u32) + le_bytes_u32((x / 0x1_0000_0000) as u32)
}

/// The unsigned number with the same 32 bits as `v` in two's complement.
pub open spec fn bits_of_i32(v: i32) -> u32 {
    if v < 0 {
        (v + 0x1_0000_0000) as u32
    } else {
        v as u32
    }
}

/// The unsigned number with the same 64 bits as `v` in two's complement.
pub open spec fn bits_of_i64(v: i64) -> u64 {
    if v < 0 {
        (v + 0x1_0000_0000_0000_0000) as u64
    } else {
        v as u64
    }
}

/// A 32-bit immediate or displacement as it stands in the instruction stream.
pub open spec fn imm32_bytes(v: i32) -> Seq<u8> {
    le_bytes_u32(bits_of_i32(v))
}

/// A 64-bit immediate as it stands in the instruction stream.
pub open spec fn imm64_bytes(v: i64) -> Seq<u8> {
    le_bytes_u64(bits_of_i64(v))
}

/// Whether `v` can be written as a sign-extended 8-bit immediate.
pub open spec fn fits_i8(v: i32) -> bool {
    -128 <= v <= 127
}

/// The low byte of `v` in two's complement: the 8-bit immediate that
/// sign-extends to `v` when `fits_i8(v)`.
pub open spec fn imm8_byte(v: i32) -> u8
    recommends
        fits_i8(v),
{
    if v < 0 {
        (v + 256) as u8
    } else {
        v as u8
    }
}

pub(crate) fn le_bytes_32(x: u32) -> (code: Vec<u8>)
    ensures
        code@ == le_bytes_u32(x),
{
    let code = vec![
        (x % 256) as u8,
        (x / 0x100 % 256) as u8,
        (x / 0x1_0000 % 256) as u8,
        (x / 0x100_0000 % 256) as u8,
    ];
    assert(code@ =~= le_bytes_u32(x));
    code
}

pub(crate) fn imm32(v: i32) -> (code: Vec<u8>)
    ensures
        code@ == imm32_bytes(v),
{
    let bits: u32 = if v < 0 {
        (v as i64 + 0x1_0000_0000) as u32
    } else {
        v as u32
    };
    le_bytes_32(bits)
}

pub(crate) fn imm64(v: i64) -> (code: Vec<u8>)
    ensures
        code@ == imm64_bytes(v),
{
    let bits: u64 = if v < 0 {
        (v as i128 + 0x1_0000_0000_0000_0000) as u64
    } else {
        v as u64
    };
    let mut code = le_bytes_32((bits % 0x1_0000_0000) as u32);
    let mut high = le_bytes_32((bits / 0x1_0000_0000) as u32);
    code.append(&mut high);
    code
}

pub(crate) fn imm8(v: i32) -> (byte: u8)
    requires
        fits_i8(v),
    ensures
        byte == imm8_byte(v),
{
    if v < 0 {
        (v + 256) as u8
    } else {
        v as u8
    }
}


/// The ordinal of a register in its class, as instruction encodings use it.
pub trait RegisterNumber {
    spec fn ordinal(&self) -> u8;

    fn number(&self) -> (n: u8)
        ensures
            n == self.ordinal(),
    ;
}

/// The operand size of a register class, in bytes.
pub trait RegisterSize {
    spec fn width(&self) -> u8;

    fn size(&self) -> (n: u8)
        ensures
            n == self.width(),
    ;
}

impl RegisterNumber for Register64 {
    open spec fn ordinal(&self) -> u8 {
        match self {
            Register64::Rax => 0,
            Register64::Rcx => 1,
            Register64::Rdx => 2,
            Register64::Rbx => 3,
            Register64::Rsp => 4,
            Register64::Rbp => 5,
            Register64::Rsi => 6,
            Register64::Rdi => 7,
            Register64::R8 => 8,
            Register64::R9 => 9,
            Register64::R10 => 10,
            Register64::R11 => 11,
            Register64::R12 => 12,
            Register64::R13 => 13,
            Register64::R14 => 14,
            Register64::R15 => 15,
        }
    }

    fn number(&self) -> (n: u8) {
        match self {
            Register64::Rax => 0,
            Register64::Rcx => 1,
            Register64::Rdx => 2,
            Register64::Rbx => 3,
            Register64::Rsp => 4,
            Register64::Rbp => 5,
            Register64::Rsi => 6,
            Register64::Rdi => 7,
            Register64::R8 => 8,
            Register64::R9 => 9,
            Register64::R10 => 10,
            Register64::R11 => 11,
            Register64::R12 => 12,
            Register64::R13 => 13,
            Register64::R14 => 14,
            Register64::R15 => 15,
        }
    }
}

impl RegisterSize for Register64 {
    open spec fn width(&self) -> u8 {
        8
    }

    fn size(&self) -> (n: u8) {
        8
    }
}

impl RegisterNumber for Register32 {
    open spec fn ordinal(&self) -> u8 {
        match self {
            Register32::Eax => 0,
            Register32::Ecx => 1,
            Register32::Edx => 2,
            Register32::Ebx => 3,
            Register32::Esp => 4,
            Register32::Ebp => 5,
            Register32::Esi => 6,
            Register32::Edi => 7,
            Register32::R8d => 8,
            Register32::R9d => 9,
            Register32::R10d => 10,
            Register32::R11d => 11,
            Register32::R12d => 12,
            Register32::R13d => 13,
            Register32::R14d => 14,
            Register32::R15d => 15,
        }
    }

    fn number(&self) -> (n: u8) {
        match self {
            Register32::Eax => 0,
            Register32::Ecx => 1,
            Register32::Edx => 2,
            Register32::Ebx => 3,
            Register32::Esp => 4,
            Register32::Ebp => 5,
            Register32::Esi => 6,
            Register32::Edi => 7,
            Register32::R8d => 8,
            Register32::R9d => 9,
            Register32::R10d => 10,
            Register32::R11d => 11,
            Register32::R12d => 12,
            Register32::R13d => 13,
            Register32::R14d => 14,
            Register32::R15d => 15,
        }
    }
}

impl RegisterSize for Register32 {
    open spec fn width(&self) -> u8 {
        4
    }

    fn size(&self) -> (n: u8) {
        4
    }
}

impl RegisterNumber for Register8 {
    open spec fn ordinal(&self) -> u8 {
        match self {
            Register8::Al => 0,
            Register8::Cl => 1,
            Register8::Dl => 2,
            Register8::Bl => 3,
            Register8::Ah => 4,
            Register8::Ch => 5,
            Register8::Dh => 6,
            Register8::Bh => 7,
        }
    }

    fn number(&self) -> (n: u8) {
        match self {
            Register8::Al => 0,
            Register8::Cl => 1,
            Register8::Dl => 2,
            Register8::Bl => 3,
            Register8::Ah => 4,
            Register8::Ch => 5,
            Register8::Dh => 6,
            Register8::Bh => 7,
        }
    }
}

impl RegisterSize for Register8 {
    open spec fn width(&self) -> u8 {
        1
    }

    fn size(&self) -> (n: u8) {
        1
    }
}

impl Register64 {
    /// The memory operand `[self + offset]`.
    pub fn with_offset(self, offset: i32) -> (mem: Addressing<Register64>)
        ensures
            mem == (Addressing { base: self, offset }),
    {
        Addressing { base: self, offset }
    }

    /// The memory operand `[self]`.
    pub fn to_mem(self) -> (mem: Addressing<Register64>)
        ensures
            mem == (Addressing { base: self, offset: 0 }),
    {
        Addressing { base: self, offset: 0 }
    }

    /// The 32-bit register with the same ordinal.
    pub open spec fn low32(self) -> Register32 {
        match self {
            Register64::Rax => Register32::Eax,
            Register64::Rcx => Register32::Ecx,
            Register64::Rdx => Register32::Edx,
            Register64::Rbx => Register32::Ebx,
            Register64::Rsp => Register32::Esp,
            Register64::Rbp => Register32::Ebp,
            Register64::Rsi => Register32::Esi,
            Register64::Rdi => Register32::Edi,
            Register64::R8 => Register32::R8d,
            Register64::R9 => Register32::R9d,
            Register64::R10 => Register32::R10d,
            Register64::R11 => Register32::R11d,
            Register64::R12 => Register32::R12d,
            Register64::R13 => Register32::R13d,
            Register64::R14 => Register32::R14d,
            Register64::R15 => Register32::R15d,
        }
    }
}

impl From<Register64> for Register32 {
    fn from(reg: Register64) -> (low: Register32) {
        match reg {
            Register64::Rax => Register32::Eax,
            Register64::Rcx => Register32::Ecx,
            Register64::Rdx => Register32::Edx,
            Register64::Rbx => Register32::Ebx,
            Register64::Rsp => Register32::Esp,
            Register64::Rbp => Register32::Ebp,
            Register64::Rsi => Register32::Esi,
            Register64::Rdi => Register32::Edi,
            Register64::R8 => Register32::R8d,
            Register64::R9 => Register32::R9d,
            Register64::R10 => Register32::R10d,
            Register64::R11 => Register32::R11d,
            Register64::R12 => Register32::R12d,
            Register64::R13 => Register32::R13d,
            Register64::R14 => Register32::R14d,
            Register64::R15 => Register32::R15d,
        }
    }
}

impl vstd::std_specs::convert::FromSpecImpl<Register64> for Register32 {
    open spec fn obeys_from_spec() -> bool {
        true
    }

    open spec fn from_spec(reg: Register64) -> Register32 {
        reg.low32()
    }
}

/// Whether a memory operand on the base with this ordinal needs a SIB byte:
/// the `rm` value 4 selects SIB addressing, so `rsp` and `r12` cannot be
/// named in `rm` itself.
pub open spec fn needs_sib(base: u8) -> bool {
    base % 8 == 4
}

/// Whether a memory operand on the base with this ordinal needs a
/// displacement even when the offset is zero: `mod` 0 with `rm` 5 selects
/// RIP-relative addressing, so `rbp` and `r13` take a zero 8-bit displacement.
pub open spec fn needs_disp(base: u8) -> bool {
    base % 8 == 5
}

/// The SIB byte of a memory operand on this base, if it has one.
pub open spec fn sib_bytes(base: u8) -> Seq<u8> {
    if needs_sib(base) {
        seq![sib_byte(0, 4, 4)]
    } else {
        Seq::empty()
    }
}

/// ModR/M, SIB and displacement of the memory operand `[base + offset]`
/// with `reg` in the ModR/M `reg` field: the shortest of the three forms
/// (no displacement, 8-bit, 32-bit) that can express the operand.
pub open spec fn mem_operand_bytes(base: u8, offset: i32, reg: u8) -> Seq<u8> {
    if offset == 0 && !needs_disp(base) {
        seq![modrm_byte(0, reg, base)] + sib_bytes(base)
    } else if fits_i8(offset) {
        seq![modrm_byte(1, reg, base)] + sib_bytes(base) + seq![imm8_byte(offset)]
    } else {
        seq![modrm_byte(2, reg, base)] + sib_bytes(base) + imm32_bytes(offset)
    }
}

impl Addressing<Register64> {
    /// The same base with another offset.
    pub fn with_offset(self, offset: i32) -> (mem: Self)
        ensures
            mem == (Addressing { base: self.base, offset }),
    {
        Addressing { base: self.base, offset }
    }

    /// ModR/M, SIB and displacement of this operand, with `reg_opcode` in the
    /// ModR/M `reg` field.
    pub fn to_code(&self, reg_opcode: u8) -> (code: Vec<u8>)
        ensures
            code@ == mem_operand_bytes(self.base.ordinal(), self.offset, reg_opcode),
    {
        let number = self.base.number();
        let with_sib = number == 4 || number == 12;
        let mut code: Vec<u8> = Vec::new();
        if self.offset == 0 && number != 5 && number != 13 {
            code.push(mod_rm(0, reg_opcode, number));
            if with_sib {
                code.push(sib(0, 4, 4));
            }
        } else if -128 <= self.offset && self.offset <= 127 {
            code.push(mod_rm(1, reg_opcode, number));
            if with_sib {
                code.push(sib(0, 4, 4));
            }
            code.push(imm8(self.offset));
        } else {
            code.push(mod_rm(2, reg_opcode, number));
            if with_sib {
                code.push(sib(0, 4, 4));
            }
            let mut disp = imm32(self.offset);
            code.append(&mut disp);
        }
        assert(code@ =~= mem_operand_bytes(self.base.ordinal(), self.offset, reg_opcode));
        code
    }
}


/// An opcode byte that names a register in its low three bits, behind a
/// REX.B prefix when the register is one of `r8..r15`.
pub open spec fn opcode_plus_reg_bytes(opcode: u8, number: u8) -> Seq<u8> {
    if number < 8 {
        seq![(opcode + number) as u8]
    } else {
        seq![rex_byte(false, false, false, true), (opcode + number - 8) as u8]
    }
}

/// A register-to-register instruction `opcode /r`: `dest` stands in the
/// ModR/M `rm` field (REX.B), `src` in the `reg` field (REX.R), and REX.W
/// selects the 64-bit operand size.
pub open spec fn rm_reg_bytes(opcode: u8, dest: u8, src: u8, wide: bool) -> Seq<u8> {
    seq![rex_byte(wide, src >= 8, false, dest >= 8), opcode, modrm_byte(3, src, dest)]
}

/// An instruction `opcode /digit id` on a register: the register stands in
/// the ModR/M `rm` field (REX.B) and a 32-bit immediate follows.
pub open spec fn rm_imm32_bytes(opcode: u8, digit: u8, dest: u8, wide: bool, imm: i32) -> Seq<u8> {
    seq![rex_byte(wide, false, false, dest >= 8), opcode, modrm_byte(3, digit, dest)]
        + imm32_bytes(imm)
}

fn opcode_plus_reg(opcode: u8, number: u8) -> (code: Vec<u8>)
    requires
        number < 16,
        opcode + 7 <= 255,
    ensures
        code@ == opcode_plus_reg_bytes(opcode, number),
{
    let code = if number < 8 {
        vec![opcode + number]
    } else {
        vec![rex(false, false, false, true), opcode + (number - 8)]
    };
    assert(code@ =~= opcode_plus_reg_bytes(opcode, number));
    code
}

pub fn opcode_rm_reg<R: RegisterNumber + RegisterSize>(opcode: u8, dest: R, src: R) -> (code: Vec<
    u8,
>)
    ensures
        code@ == rm_reg_bytes(opcode, dest.ordinal(), src.ordinal(), dest.width() == 8),
{
    let dest_number = dest.number();
    let src_number = src.number();
    let size = dest.size();
    let code = vec![
        rex(size == 8, src_number >= 8, false, dest_number >= 8),
        opcode,
        mod_rm(3, src_number, dest_number),
    ];
    assert(code@ =~= rm_reg_bytes(opcode, dest.ordinal(), src.ordinal(), dest.width() == 8));
    code
}

fn opcode_rm_imm32(opcode: u8, digit: u8, number: u8, wide: bool, imm: i32) -> (code: Vec<u8>)
    ensures
        code@ == rm_imm32_bytes(opcode, digit, number, wide, imm),
{
    let mut code = vec![rex(wide, false, false, number >= 8), opcode, mod_rm(3, digit, number)];
    let mut tail = imm32(imm);
    code.append(&mut tail);
    assert(code@ =~= rm_imm32_bytes(opcode, digit, number, wide, imm));
    code
}

/// `push`: a 64-bit register, a sign-extended immediate, or a memory operand.
pub trait Push: Sized {
    spec fn push_bytes(self) -> Seq<u8>;

    fn push(self) -> (code: Vec<u8>)
        ensures
            code@ == self.push_bytes(),
    ;
}

impl Push for Register64 {
    /// `50+r`.
    open spec fn push_bytes(self) -> Seq<u8> {
        opcode_plus_reg_bytes(0x50, self.ordinal())
    }

    fn push(self) -> (code: Vec<u8>) {
        opcode_plus_reg(0x50, self.number())
    }
}

impl Push for i32 {
    /// `6a ib` when the value fits a sign-extended byte, else `68 id`.
    open spec fn push_bytes(self) -> Seq<u8> {
        if fits_i8(self) {
            seq![0x6a, imm8_byte(self)]
        } else {
            seq![0x68u8] + imm32_bytes(self)
        }
    }

    fn push(self) -> (code: Vec<u8>) {
        if -128 <= self && self <= 127 {
            let code = vec![0x6a, imm8(self)];
            assert(code@ =~= self.push_bytes());
            code
        } else {
            let mut code: Vec<u8> = vec![0x68];
            let mut tail = imm32(self);
            code.append(&mut tail);
            assert(code@ =~= self.push_bytes());
            code
        }
    }
}

impl Push for Addressing<Register64> {
    /// `ff /6`, behind REX.B when the base is one of `r8..r15`.
    open spec fn push_bytes(self) -> Seq<u8> {
        (if self.base.ordinal() >= 8 {
            seq![rex_byte(false, false, false, true)]
        } else {
            Seq::empty()
        }) + seq![0xffu8] + mem_operand_bytes(self.base.ordinal(), self.offset, 6)
    }

    fn push(self) -> (code: Vec<u8>) {
        let mut code: Vec<u8> = Vec::new();
        if self.base.number() >= 8 {
            code.push(rex(false, false, false, true));
        }
        code.push(0xff);
        let mut tail = self.to_code(6);
        code.append(&mut tail);
        assert(code@ =~= self.push_bytes());
        code
    }
}

/// `pop` into a 64-bit register.
pub trait Pop: Sized {
    spec fn pop_bytes(self) -> Seq<u8>;

    fn pop(self) -> (code: Vec<u8>)
        ensures
            code@ == self.pop_bytes(),
    ;
}

impl Pop for Register64 {
    /// `58+r`.
    open spec fn pop_bytes(self) -> Seq<u8> {
        opcode_plus_reg_bytes(0x58, self.ordinal())
    }

    fn pop(self) -> (code: Vec<u8>) {
        opcode_plus_reg(0x58, self.number())
    }
}

/// `mov self, src`.
pub trait Mov<Src>: Sized {
    spec fn mov_bytes(self, src: Src) -> Seq<u8>;

    fn mov(self, src: Src) -> (code: Vec<u8>)
        ensures
            code@ == self.mov_bytes(src),
    ;
}

impl Mov<Register64> for Register64 {
    /// `REX.W 89 /r`.
    open spec fn mov_bytes(self, src: Register64) -> Seq<u8> {
        rm_reg_bytes(0x89, self.ordinal(), src.ordinal(), true)
    }

    fn mov(self, src: Register64) -> (code: Vec<u8>) {
        opcode_rm_reg(0x89, self, src)
    }
}

impl Mov<Register32> for Register32 {
    /// `89 /r`.
    open spec fn mov_bytes(self, src: Register32) -> Seq<u8> {
        rm_reg_bytes(0x89, self.ordinal(), src.ordinal(), false)
    }

    fn mov(self, src: Register32) -> (code: Vec<u8>) {
        opcode_rm_reg(0x89, self, src)
    }
}

impl Mov<i32> for Register32 {
    /// `b8+r id`.
    open spec fn mov_bytes(self, src: i32) -> Seq<u8> {
        opcode_plus_reg_bytes(0xb8, self.ordinal()) + imm32_bytes(src)
    }

    fn mov(self, src: i32) -> (code: Vec<u8>) {
        let mut code = opcode_plus_reg(0xb8, self.number());
        let mut tail = imm32(src);
        code.append(&mut tail);
        code
    }
}

impl Mov<i64> for Register64 {
    /// `REX.W b8+r io`.
    open spec fn mov_bytes(self, src: i64) -> Seq<u8> {
        seq![
            rex_byte(true, false, false, self.ordinal() >= 8),
            (0xb8 + self.ordinal() % 8) as u8,
        ] + imm64_bytes(src)
    }

    fn mov(self, src: i64) -> (code: Vec<u8>) {
        let number = self.number();
        let mut code = vec![rex(true, false, false, number >= 8), 0xb8 + number % 8];
        let mut tail = imm64(src);
        code.append(&mut tail);
        assert(code@ =~= self.mov_bytes(src));
        code
    }
}

impl Mov<Addressing<Register64>> for Register64 {
    /// `REX.W 8b /r`: the destination in `reg`, the base in `rm`.
    open spec fn mov_bytes(self, src: Addressing<Register64>) -> Seq<u8> {
        seq![rex_byte(true, self.ordinal() >= 8, false, src.base.ordinal() >= 8), 0x8b]
            + mem_operand_bytes(src.base.ordinal(), src.offset, self.ordinal())
    }

    fn mov(self, src: Addressing<Register64>) -> (code: Vec<u8>) {
        let dest_number = self.number();
        let src_number = src.base.number();
        let mut code = vec![rex(true, dest_number >= 8, false, src_number >= 8), 0x8b];
        let mut tail = src.to_code(dest_number);
        code.append(&mut tail);
        assert(code@ =~= self.mov_bytes(src));
        code
    }
}

impl Mov<Register64> for Addressing<Register64> {
    /// `REX.W 89 /r`: the source in `reg`, the base in `rm`.
    open spec fn mov_bytes(self, src: Register64) -> Seq<u8> {
        seq![rex_byte(true, src.ordinal() >= 8, false, self.base.ordinal() >= 8), 0x89]
            + mem_operand_bytes(self.base.ordinal(), self.offset, src.ordinal())
    }

    fn mov(self, src: Register64) -> (code: Vec<u8>) {
        let dest_number = self.base.number();
        let src_number = src.number();
        let mut code = vec![rex(true, src_number >= 8, false, dest_number >= 8), 0x89];
        let mut tail = self.to_code(src_number);
        code.append(&mut tail);
        assert(code@ =~= self.mov_bytes(src));
        code
    }
}

/// `call` through a 64-bit register.
pub trait Call: Sized {
    spec fn call_bytes(self) -> Seq<u8>;

    fn call(self) -> (code: Vec<u8>)
        ensures
            code@ == self.call_bytes(),
    ;
}

impl Call for Register64 {
    /// `ff /2` with the register in `rm`.
    open spec fn call_bytes(self) -> Seq<u8> {
        (if self.ordinal() >= 8 {
            seq![rex_byte(false, false, false, true)]
        } else {
            Seq::empty()
        }) + seq![0xffu8, modrm_byte(3, 2, self.ordinal())]
    }

    fn call(self) -> (code: Vec<u8>) {
        let number = self.number();
        let mut code: Vec<u8> = Vec::new();
        if number >= 8 {
            code.push(rex(false, false, false, true));
        }
        code.push(0xff);
        code.push(mod_rm(3, 2, number));
        assert(code@ =~= self.call_bytes());
        code
    }
}

/// The bytes of `ret`.
pub open spec fn ret_bytes() -> Seq<u8> {
    seq![0xc3u8]
}

/// `ret`.
pub fn ret() -> (code: Vec<u8>)
    ensures
        code@ == ret_bytes(),
{
    vec![0xc3]
}

/// `add self, src`.
pub trait Add<Src>: Sized {
    spec fn add_bytes(self, src: Src) -> Seq<u8>;

    fn add(self, src: Src) -> (code: Vec<u8>)
        ensures
            code@ == self.add_bytes(src),
    ;
}

impl Add<Register64> for Register64 {
    /// `REX.W 01 /r`.
    open spec fn add_bytes(self, src: Register64) -> Seq<u8> {
        rm_reg_bytes(0x01, self.ordinal(), src.ordinal(), true)
    }

    fn add(self, src: Register64) -> (code: Vec<u8>) {
        opcode_rm_reg(0x01, self, src)
    }
}

impl Add<Register32> for Register32 {
    /// `01 /r`.
    open spec fn add_bytes(self, src: Register32) -> Seq<u8> {
        rm_reg_bytes(0x01, self.ordinal(), src.ordinal(), false)
    }

    fn add(self, src: Register32) -> (code: Vec<u8>) {
        opcode_rm_reg(0x01, self, src)
    }
}

impl Add<i32> for Register64 {
    /// `REX.W 81 /0 id`.
    open spec fn add_bytes(self, src: i32) -> Seq<u8> {
        rm_imm32_bytes(0x81, 0, self.ordinal(), true, src)
    }

    fn add(self, src: i32) -> (code: Vec<u8>) {
        opcode_rm_imm32(0x81, 0, self.number(), true, src)
    }
}

/// `sub self, src`.
pub trait Sub<Src>: Sized {
    spec fn sub_bytes(self, src: Src) -> Seq<u8>;

    fn sub(self, src: Src) -> (code: Vec<u8>)
        ensures
            code@ == self.sub_bytes(src),
    ;
}

impl Sub<Register64> for Register64 {
    /// `REX.W 29 /r`.
    open spec fn sub_bytes(self, src: Register64) -> Seq<u8> {
        rm_reg_bytes(0x29, self.ordinal(), src.ordinal(), true)
    }

    fn sub(self, src: Register64) -> (code: Vec<u8>) {
        opcode_rm_reg(0x29, self, src)
    }
}

impl Sub<Register32> for Register32 {
    /// `29 /r`.
    open spec fn sub_bytes(self, src: Register32) -> Seq<u8> {
        rm_reg_bytes(0x29, self.ordinal(), src.ordinal(), false)
    }

    fn sub(self, src: Register32) -> (code: Vec<u8>) {
        opcode_rm_reg(0x29, self, src)
    }
}

/// `cmp self, src`.
pub trait Cmp<Src>: Sized {
    spec fn cmp_bytes(self, src: Src) -> Seq<u8>;

    fn cmp(self, src: Src) -> (code: Vec<u8>)
        ensures
            code@ == self.cmp_bytes(src),
    ;
}

impl Cmp<Register64> for Register64 {
    /// `REX.W 39 /r`.
    open spec fn cmp_bytes(self, src: Register64) -> Seq<u8> {
        rm_reg_bytes(0x39, self.ordinal(), src.ordinal(), true)
    }

    fn cmp(self, src: Register64) -> (code: Vec<u8>) {
        opcode_rm_reg(0x39, self, src)
    }
}

impl Cmp<Register32> for Register32 {
    /// `39 /r`.
    open spec fn cmp_bytes(self, src: Register32) -> Seq<u8> {
        rm_reg_bytes(0x39, self.ordinal(), src.ordinal(), false)
    }

    fn cmp(self, src: Register32) -> (code: Vec<u8>) {
        opcode_rm_reg(0x39, self, src)
    }
}

impl Cmp<i32> for Register32 {
    /// `81 /7 id`.
    open spec fn cmp_bytes(self, src: i32) -> Seq<u8> {
        rm_imm32_bytes(0x81, 7, self.ordinal(), false, src)
    }

    fn cmp(self, src: i32) -> (code: Vec<u8>) {
        opcode_rm_imm32(0x81, 7, self.number(), false, src)
    }
}

/// `sete self`: the byte register becomes 1 if the zero flag is set, else 0.
pub trait Sete: Sized {
    spec fn sete_bytes(self) -> Seq<u8>;

    fn sete(self) -> (code: Vec<u8>)
        ensures
            code@ == self.sete_bytes(),
    ;
}

impl Sete for Register8 {
    /// `0f 94 /0` with the register in `rm`.
    open spec fn sete_bytes(self) -> Seq<u8> {
        seq![0x0f, 0x94, modrm_byte(3, 0, self.ordinal())]
    }

    fn sete(self) -> (code: Vec<u8>) {
        vec![0x0f, 0x94, mod_rm(3, 0, self.number())]
    }
}

/// `movzx self, src`: zero-extends `src` into `self`.
pub trait Movzx<Src>: Sized {
    /// Whether the instruction set has an encoding for this pair of operands.
    spec fn movzx_encodable(self, src: Src) -> bool;

    spec fn movzx_bytes(self, src: Src) -> Seq<u8>;

    fn movzx(self, src: Src) -> (code: Vec<u8>)
        requires
            self.movzx_encodable(src),
        ensures
            code@ == self.movzx_bytes(src),
    ;
}

impl Movzx<Register8> for Register32 {
    /// Behind a REX prefix the encodings 4 to 7 of a byte register name
    /// `spl..dil`, so `ah..bh` cannot be paired with `r8d..r15d`.
    open spec fn movzx_encodable(self, src: Register8) -> bool {
        self.ordinal() < 8 || src.ordinal() < 4
    }

    /// `0f b6 /r`: the destination in `reg` (REX.R), the source in `rm`.
    open spec fn movzx_bytes(self, src: Register8) -> Seq<u8> {
        (if self.ordinal() >= 8 {
            seq![rex_byte(false, true, false, false)]
        } else {
            Seq::empty()
        }) + seq![0x0f, 0xb6, modrm_byte(3, self.ordinal(), src.ordinal())]
    }

    fn movzx(self, src: Register8) -> (code: Vec<u8>) {
        let number = self.number();
        let mut code: Vec<u8> = Vec::new();
        if number >= 8 {
            code.push(rex(false, true, false, false));
        }
        code.push(0x0f);
        code.push(0xb6);
        code.push(mod_rm(3, number, src.number()));
        assert(code@ =~= self.movzx_bytes(src));
        code
    }
}

/// `je rel32`: the displacement counts from the end of the instruction.
pub trait Je: Sized {
    spec fn je_bytes(self) -> Seq<u8>;

    fn je(self) -> (code: Vec<u8>)
        ensures
            code@ == self.je_bytes(),
    ;
}

impl Je for i32 {
    /// `0f 84 cd`.
    open spec fn je_bytes(self) -> Seq<u8> {
        seq![0x0fu8, 0x84u8] + imm32_bytes(self)
    }

    fn je(self) -> (code: Vec<u8>) {
        let mut code: Vec<u8> = vec![0x0f, 0x84];
        let mut tail = imm32(self);
        code.append(&mut tail);
        code
    }
}

/// `jmp rel32`: the displacement counts from the end of the instruction.
pub trait Jmp: Sized {
    spec fn jmp_bytes(self) -> Seq<u8>;

    fn jmp(self) -> (code: Vec<u8>)
        ensures
            code@ == self.jmp_bytes(),
    ;
}

impl Jmp for i32 {
    /// `e9 cd`.
    open spec fn jmp_bytes(self) -> Seq<u8> {
        seq![0xe9u8] + imm32_bytes(self)
    }

    fn jmp(self) -> (code: Vec<u8>) {
        let mut code: Vec<u8> = vec![0xe9];
        let mut tail = imm32(self);
        code.append(&mut tail);
        code
    }
}


} // verus!
