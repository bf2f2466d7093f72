//! The pieces of machine code that the generator puts together, each
//! built from the encoder and equal to its description in `model`.

use crate::assembler::{
    ret, Add, Call, Cmp, Je, Mov, Movzx, Pop, Push, Register32, Register64, Register8, Sete, Sub,
};
use crate::compiler::model::{
    address_imm, call_bytes, combine, copy_args_bytes, copy_slot_bytes, epilogue_bytes,
    equal_bytes, fold, index_imm, leave_bytes, load_imm_bytes, move_bytes, move_results_bytes,
    prologue_bytes, propagate_bytes, reg_reg_bytes, repeat, spill_bytes, test_bytes, wrap32,
    wrap64, BinaryOp, StackValue, Target, MAX_DEPTH,
};
use crate::compiler::Compiler;
use vstd::prelude::*;

verus! {

/// The low 32 bits of a number, as a signed number.
fn wrap_32(x: i64) -> (low: i32)
    ensures
        low == wrap32(x as int),
{
    let shifted: i128 = x as i128 + 0x8000_0000_8000_0000;
    assert((x + 0x8000_0000 + 0x8000_0000_0000_0000) % 0x1_0000_0000 == (x + 0x8000_0000)
        % 0x1_0000_0000);
    (shifted % 0x1_0000_0000 - 0x8000_0000) as i32
}

/// The low 64 bits of a number, as a signed number.
fn wrap_64(x: i128) -> (low: i64)
    requires
        -0x1_0000_0000_0000_0000 <= x <= 0x1_0000_0000_0000_0000,
    ensures
        low == wrap64(x as int),
{
    let shifted: i128 = x + 0x1_8000_0000_0000_0000;
    assert((x + 0x8000_0000_0000_0000 + 0x1_0000_0000_0000_0000) % 0x1_0000_0000_0000_0000 == (x
        + 0x8000_0000_0000_0000) % 0x1_0000_0000_0000_0000);
    (shifted % 0x1_0000_0000_0000_0000 - 0x8000_0000_0000_0000) as i64
}

/// A function index as a 32-bit immediate.
fn index_as_imm(x: u32) -> (imm: i32)
    ensures
        imm == index_imm(x),
{
    if x >= 0x8000_0000 {
        (x as i64 - 0x1_0000_0000) as i32
    } else {
        x as i32
    }
}

/// An address as a 64-bit immediate.
fn address_as_imm(x: u64) -> (imm: i64)
    ensures
        imm == address_imm(x),
{
    if x >= 0x8000_0000_0000_0000 {
        (x as i128 - 0x1_0000_0000_0000_0000) as i64
    } else {
        x as i64
    }
}

/// The result of a binary operation on two constants.
fn fold_constants(op: BinaryOp, wide: bool, a: i64, b: i64) -> (n: i64)
    ensures
        n == fold(op, wide, a, b),
{
    if wide {
        match op {
            BinaryOp::Add => wrap_64(a as i128 + b as i128),
            BinaryOp::Sub => wrap_64(a as i128 - b as i128),
            BinaryOp::Eq => if a == b {
                1
            } else {
                0
            },
        }
    } else {
        let x = wrap_32(a);
        let y = wrap_32(b);
        match op {
            BinaryOp::Add => wrap_32(x as i64 + y as i64) as i64,
            BinaryOp::Sub => wrap_32(x as i64 - y as i64) as i64,
            BinaryOp::Eq => if x == y {
                1
            } else {
                0
            },
        }
    }
}

/// `mov dst, src` at the given width.
fn move_code(wide: bool, dst: Register64, src: Register64) -> (code: Vec<u8>)
    ensures
        code@ == move_bytes(wide, dst, src),
{
    if wide {
        dst.mov(src)
    } else {
        Register32::from(dst).mov(Register32::from(src))
    }
}

/// Loads a constant into `rax` at the given width.
fn load_imm(wide: bool, n: i64) -> (code: Vec<u8>)
    ensures
        code@ == load_imm_bytes(wide, n),
{
    if wide {
        Register64::Rax.mov(n)
    } else {
        Register32::Eax.mov(wrap_32(n))
    }
}

/// Sets `dst` to 1 if it equals `src`, else to 0.
fn equal_code(wide: bool, dst: Register64, src: Register64) -> (code: Vec<u8>)
    ensures
        code@ == equal_bytes(wide, dst, src),
{
    let mut code = if wide {
        dst.cmp(src)
    } else {
        Register32::from(dst).cmp(Register32::from(src))
    };
    let mut flag = Register8::Al.sete();
    let mut widen = Register32::Eax.movzx(Register8::Al);
    let mut back = move_code(wide, dst, Register64::Rax);
    code.append(&mut flag);
    code.append(&mut widen);
    code.append(&mut back);
    code
}

/// The operation `dst := dst op src` on two registers.
fn reg_reg(op: BinaryOp, wide: bool, dst: Register64, src: Register64) -> (code: Vec<u8>)
    ensures
        code@ == reg_reg_bytes(op, wide, dst, src),
{
    match op {
        BinaryOp::Add => if wide {
            dst.add(src)
        } else {
            Register32::from(dst).add(Register32::from(src))
        },
        BinaryOp::Sub => if wide {
            dst.sub(src)
        } else {
            Register32::from(dst).sub(Register32::from(src))
        },
        BinaryOp::Eq => equal_code(wide, dst, src),
    }
}

/// What a binary operation does with its two operands.
pub(crate) fn combine_code(op: BinaryOp, wide: bool, first: StackValue, second: StackValue) -> (out: (
    Vec<u8>,
    StackValue,
    Option<Register64>,
))
    ensures
        (out.0@, out.1, out.2) == combine(op, wide, first, second),
{
    match (first, second) {
        (StackValue::Imm(a), StackValue::Imm(b)) => (
            Vec::new(),
            StackValue::Imm(fold_constants(op, wide, a, b)),
            None,
        ),
        (StackValue::Reg(r1), StackValue::Reg(r2)) => (
            reg_reg(op, wide, r1, r2),
            StackValue::Reg(r1),
            Some(r2),
        ),
        (StackValue::Reg(reg), StackValue::Imm(n)) => {
            let mut code = load_imm(wide, n);
            let mut tail = reg_reg(op, wide, reg, Register64::Rax);
            code.append(&mut tail);
            (code, StackValue::Reg(reg), None)
        },
        (StackValue::Imm(n), StackValue::Reg(reg)) => {
            let mut code = load_imm(wide, n);
            if op == BinaryOp::Sub {
                let mut tail = reg_reg(op, wide, Register64::Rax, reg);
                let mut back = move_code(wide, reg, Register64::Rax);
                code.append(&mut tail);
                code.append(&mut back);
            } else {
                let mut tail = reg_reg(op, wide, reg, Register64::Rax);
                code.append(&mut tail);
            }
            (code, StackValue::Reg(reg), None)
        },
    }
}

/// Writes one deferred value to the operand stack in memory.
pub(crate) fn spill(value: StackValue) -> (code: Vec<u8>)
    ensures
        code@ == spill_bytes(value),
{
    match value {
        StackValue::Imm(n) => {
            let mut code = Register64::Rax.mov(n);
            let mut tail = Compiler::push_data(Register64::Rax);
            code.append(&mut tail);
            code
        },
        StackValue::Reg(reg) => Compiler::push_data(reg),
    }
}

/// The test of an `if`.
pub(crate) fn test_code(condition: StackValue) -> (code: Vec<u8>)
    ensures
        code@ == test_bytes(condition),
{
    match condition {
        StackValue::Imm(n) => {
            let mut code = load_imm(false, n);
            let mut test = Register32::Eax.cmp(0i32);
            let mut jump = 0i32.je();
            code.append(&mut test);
            code.append(&mut jump);
            code
        },
        StackValue::Reg(reg) => {
            let mut code = Register32::from(reg).cmp(0i32);
            let mut jump = 0i32.je();
            code.append(&mut jump);
            code
        },
    }
}

/// Copies a slot of the operand stack to its top.
fn copy_slot(offset: i32) -> (code: Vec<u8>)
    ensures
        code@ == copy_slot_bytes(offset),
{
    let mut code = Register64::Rax.mov(Register64::R11.with_offset(offset));
    let mut tail = Compiler::push_data(Register64::Rax);
    code.append(&mut tail);
    code
}

/// Moves the top `results` of `have` values down to the first of them.
pub(crate) fn move_results(have: usize, results: usize) -> (code: Vec<u8>)
    requires
        results <= have <= MAX_DEPTH,
    ensures
        code@ == move_results_bytes(have as nat, results as nat),
{
    let down: i32 = 0 - 8 * (have as i32);
    let mut code = Register64::R11.add(down);
    let offset: i32 = 8 * ((have - results) as i32);
    let mut i: usize = 0;
    while i < results
        invariant
            i <= results,
            offset == 8 * (have - results),
            code@ == Register64::R11.add_bytes((-8 * have) as i32) + repeat(
                copy_slot_bytes(offset),
                i as nat,
            ),
        decreases results - i,
    {
        let mut unit = copy_slot(offset);
        code.append(&mut unit);
        i += 1;
        assert(code@ =~= Register64::R11.add_bytes((-8 * have) as i32) + repeat(
            copy_slot_bytes(offset),
            i as nat,
        ));
    }
    code
}

/// Takes the frame down and returns.
fn leave_code() -> (code: Vec<u8>)
    ensures
        code@ == leave_bytes(),
{
    let mut code = Register64::Rsp.mov(Register64::Rbp);
    let mut restore = Register64::Rbp.pop();
    let mut back = ret();
    code.append(&mut restore);
    code.append(&mut back);
    code
}

/// Returns with the error handle of a call that failed.
fn propagate_code() -> (code: Vec<u8>)
    ensures
        code@ == propagate_bytes(),
{
    let mut code = Register64::R10.mov(0i64);
    let mut test = Register64::Rax.cmp(Register64::R10);
    let mut skip = 5i32.je();
    let mut leave = leave_code();
    code.append(&mut test);
    code.append(&mut skip);
    code.append(&mut leave);
    code
}

/// A call by index.
pub(crate) fn call_code(t: &Target, function_index: u32, args: usize, results: usize) -> (code: Vec<u8>)
    requires
        args <= MAX_DEPTH,
        results <= MAX_DEPTH,
    ensures
        code@ == call_bytes(*t, function_index, args as nat, results as nat),
{
    let target = if function_index == t.func_index {
        t.self_entry
    } else {
        t.trampoline
    };
    let mut code = Register64::Rdi.mov(Register64::Rbp.with_offset(-8i32));
    let mut stack = Register64::Rsi.mov(Register64::R11);
    let mut index = Register32::Edx.mov(index_as_imm(function_index));
    let mut address = Register64::R10.mov(address_as_imm(target));
    let mut save = Register64::R11.push();
    let mut go = Register64::R10.call();
    let mut restore = Register64::R11.pop();
    let mut check = propagate_code();
    let mut adjust = Register64::R11.add(8 * (results as i32 - args as i32));
    code.append(&mut stack);
    code.append(&mut index);
    code.append(&mut address);
    code.append(&mut save);
    code.append(&mut go);
    code.append(&mut restore);
    code.append(&mut check);
    code.append(&mut adjust);
    assert(code@ =~= call_bytes(*t, function_index, args as nat, results as nat));
    code
}

/// Copies the arguments to the local slots.
fn copy_args(n: usize) -> (code: Vec<u8>)
    requires
        n <= MAX_DEPTH,
    ensures
        code@ == copy_args_bytes(n as nat),
{
    let mut code: Vec<u8> = Vec::new();
    let mut k: usize = n;
    assert(code@ + copy_args_bytes(k as nat) =~= copy_args_bytes(n as nat));
    while k > 0
        invariant
            k <= n <= MAX_DEPTH,
            code@ + copy_args_bytes(k as nat) == copy_args_bytes(n as nat),
        decreases k,
    {
        let mut load = Register64::Rax.mov(Register64::R11.with_offset(0 - 8 * (k as i32)));
        let mut push = Register64::Rax.push();
        let ghost before = code@;
        code.append(&mut load);
        code.append(&mut push);
        k -= 1;
        assert(code@ + copy_args_bytes(k as nat) =~= before + copy_args_bytes((k + 1) as nat));
    }
    assert(code@ + copy_args_bytes(0) =~= code@);
    code
}

/// The start of a function with `n` parameters.
pub(crate) fn prologue(n: usize) -> (code: Vec<u8>)
    requires
        n <= MAX_DEPTH,
    ensures
        code@ == prologue_bytes(n as nat),
{
    let mut code = Register64::Rbp.push();
    let mut frame = Register64::Rbp.mov(Register64::Rsp);
    let mut runtime = Register64::Rdi.push();
    let mut stack = Register64::R11.mov(Register64::Rsi);
    let mut args = copy_args(n);
    let mut drop_args = Register64::R11.add(0 - 8 * (n as i32));
    code.append(&mut frame);
    code.append(&mut runtime);
    code.append(&mut stack);
    code.append(&mut args);
    code.append(&mut drop_args);
    if n % 2 == 1 {
        let mut align = Register64::Rsp.add(-8i32);
        code.append(&mut align);
    }
    assert(code@ =~= prologue_bytes(n as nat));
    code
}

/// The end of a function.
pub(crate) fn epilogue() -> (code: Vec<u8>)
    ensures
        code@ == epilogue_bytes(),
{
    let mut code = Register64::Rax.mov(0i64);
    let mut leave = leave_code();
    code.append(&mut leave);
    code
}

} // verus!
