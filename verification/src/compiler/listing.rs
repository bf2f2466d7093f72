//! The code of a function as a list of instructions.
//!
//! Whatever the generator writes is one instruction of the encoder after
//! the other, and every jump that waits for its target is such an
//! instruction; so the code of a function can be read back, instruction by
//! instruction, from its first byte to its last.

use crate::assembler::decode::{decode, lemma_decode_encode, Instruction};
use crate::assembler::{
    imm32_bytes, ret_bytes, Add, Addressing, Call, Cmp, Je, Jmp, Mov, Movzx, Pop, Push,
    Register32, Register64, Register8, Sete, Sub,
};
use crate::compiler::laws::{
    frames_ok, lemma_entry_frames_ok, lemma_run_keeps_frames, sites_of, well_spaced,
};
use crate::compiler::model::{
    address_imm, append, arity_out, binary, call, call_bytes, close, combine, constant,
    copy_args_bytes, copy_slot_bytes, entry_state, epilogue_bytes, equal_bytes, first_reg,
    flush_bytes, function_code, get_unused_reg, index_imm, leave_bytes, load_imm_bytes,
    local_get, local_offset, move_bytes, move_results_bytes, open_else, open_if, patch_all,
    patch_one, pop_data_bytes, pop_value, prologue_bytes, propagate_bytes, push_all,
    push_data_bytes, reg_reg_bytes, repeat, run, spill_bytes, step, target_of, test_bytes,
    wrap32, BinaryOp, Gen, LabelModel, StackModel, StackValue, Target,
};
use crate::compiler::{patched, MAX_CAPACITY};
use crate::runtime::error::Fault;
use crate::runtime::store::Store;
use crate::wasm::{BlockType, Operator};
use vstd::prelude::*;

verus! {

/// The bytes of a list of instructions, one after the other.
pub open spec fn flatten(instrs: Seq<Instruction>) -> Seq<u8>
    decreases instrs.len(),
{
    if instrs.len() == 0 {
        Seq::empty()
    } else {
        flatten(instrs.drop_last()) + instrs.last().bytes()
    }
}

/// Whether every instruction of the list has an encoding.
pub open spec fn all_encodable(instrs: Seq<Instruction>) -> bool {
    forall|k: int| 0 <= k < instrs.len() ==> (#[trigger] instrs[k]).encodable()
}

/// Whether `code` is the bytes of a list of instructions.
pub open spec fn is_listing(code: Seq<u8>) -> bool {
    exists|instrs: Seq<Instruction>| all_encodable(instrs) && #[trigger] flatten(instrs) == code
}

/// Whether an instruction is a jump with a 32-bit displacement.
pub open spec fn is_jump(instruction: Instruction) -> bool {
    instruction is Je || instruction is Jmp
}

/// A jump with another displacement.
pub open spec fn retarget(instruction: Instruction, offset: i32) -> Instruction {
    match instruction {
        Instruction::Je(_) => Instruction::Je(offset),
        Instruction::Jmp(_) => Instruction::Jmp(offset),
        other => other,
    }
}

/// The position behind the first `n` instructions of a list.
pub open spec fn end_of(instrs: Seq<Instruction>, n: int) -> int {
    flatten(instrs.take(n)).len() as int
}

/// `code` with the four bytes before `end` replaced.
pub open spec fn with_displacement(code: Seq<u8>, end: int, bytes: Seq<u8>) -> Seq<u8> {
    code.subrange(0, end - 4) + bytes + code.subrange(end, code.len() as int)
}

/// The bytes of two lists are the bytes of the one behind the other.
pub proof fn lemma_flatten_concat(a: Seq<Instruction>, b: Seq<Instruction>)
    ensures
        flatten(a + b) == flatten(a) + flatten(b),
    decreases b.len(),
{
    if b.len() == 0 {
        assert(a + b =~= a);
        assert(flatten(a) + flatten(b) =~= flatten(a));
    } else {
        assert((a + b).drop_last() =~= a + b.drop_last());
        lemma_flatten_concat(a, b.drop_last());
        assert(flatten(a + b) =~= flatten(a) + flatten(b));
    }
}

/// The bytes of one instruction.
pub proof fn lemma_flatten_one(instruction: Instruction)
    ensures
        flatten(seq![instruction]) == instruction.bytes(),
{
    let one = seq![instruction];
    assert(one.drop_last() =~= Seq::<Instruction>::empty());
    assert(flatten(one.drop_last()) =~= Seq::<u8>::empty());
    assert(flatten(one) =~= instruction.bytes());
}

/// A jump ends with its displacement, and keeps its length when the
/// displacement changes.
pub proof fn lemma_jump_bytes(instruction: Instruction, offset: i32)
    requires
        is_jump(instruction),
    ensures
        retarget(instruction, offset).bytes().len() == instruction.bytes().len(),
        instruction.bytes().len() >= 5,
        retarget(instruction, offset).bytes() == with_displacement(
            instruction.bytes(),
            instruction.bytes().len() as int,
            imm32_bytes(offset),
        ),
        is_jump(retarget(instruction, offset)),
        retarget(instruction, offset).encodable(),
{
    assert(retarget(instruction, offset).bytes() =~= with_displacement(
        instruction.bytes(),
        instruction.bytes().len() as int,
        imm32_bytes(offset),
    ));
}

/// The positions of a list are in order.
pub proof fn lemma_end_of_grows(instrs: Seq<Instruction>, m: int, n: int)
    requires
        0 <= m <= n <= instrs.len(),
    ensures
        0 <= end_of(instrs, m) <= end_of(instrs, n) <= flatten(instrs).len(),
        end_of(instrs, instrs.len() as int) == flatten(instrs).len(),
        n > 0 ==> end_of(instrs, n) == end_of(instrs, n - 1) + instrs[n - 1].bytes().len(),
{
    assert(instrs.take(n) =~= instrs.take(m) + instrs.subrange(m, n));
    lemma_flatten_concat(instrs.take(m), instrs.subrange(m, n));
    assert(instrs =~= instrs.take(n) + instrs.skip(n));
    lemma_flatten_concat(instrs.take(n), instrs.skip(n));
    assert(instrs.take(instrs.len() as int) =~= instrs);
    if n > 0 {
        assert(instrs.take(n).drop_last() =~= instrs.take(n - 1));
        assert(instrs.take(n).last() == instrs[n - 1]);
    }
}

/// Another displacement in the jump at `k` changes the four bytes before
/// the end of that jump and nothing else: not the other bytes, not the
/// positions of the instructions.
pub proof fn lemma_retarget(instrs: Seq<Instruction>, k: int, offset: i32)
    requires
        0 <= k < instrs.len(),
        is_jump(instrs[k]),
    ensures
        flatten(instrs.update(k, retarget(instrs[k], offset))) == with_displacement(
            flatten(instrs),
            end_of(instrs, k + 1),
            imm32_bytes(offset),
        ),
        forall|n: int|
            0 <= n <= instrs.len() ==> #[trigger] end_of(
                instrs.update(k, retarget(instrs[k], offset)),
                n,
            ) == end_of(instrs, n),
        end_of(instrs, k + 1) >= 5,
{
    let jump = instrs[k];
    let moved = retarget(jump, offset);
    let new = instrs.update(k, moved);
    lemma_jump_bytes(jump, offset);
    let before = instrs.take(k);
    let after = instrs.skip(k + 1);
    assert(instrs =~= before + seq![jump] + after);
    assert(new =~= before + seq![moved] + after);
    lemma_flatten_concat(before + seq![jump], after);
    lemma_flatten_concat(before, seq![jump]);
    lemma_flatten_concat(before + seq![moved], after);
    lemma_flatten_concat(before, seq![moved]);
    lemma_flatten_one(jump);
    lemma_flatten_one(moved);
    lemma_end_of_grows(instrs, k, k + 1);
    let end = end_of(instrs, k + 1);
    assert(flatten(before) == flatten(instrs.take(k)));
    assert(end == flatten(before).len() + jump.bytes().len());
    assert(flatten(new) =~= with_displacement(flatten(instrs), end, imm32_bytes(offset)));
    assert forall|n: int| 0 <= n <= instrs.len() implies #[trigger] end_of(new, n) == end_of(
        instrs,
        n,
    ) by {
        if n <= k {
            assert(new.take(n) =~= instrs.take(n));
        } else {
            assert(instrs.take(n) =~= before + seq![jump] + instrs.subrange(k + 1, n));
            assert(new.take(n) =~= before + seq![moved] + instrs.subrange(k + 1, n));
            lemma_flatten_concat(before + seq![jump], instrs.subrange(k + 1, n));
            lemma_flatten_concat(before + seq![moved], instrs.subrange(k + 1, n));
        }
    }
}


/// The bytes of one instruction are a listing.
pub proof fn lemma_listing_one(instruction: Instruction)
    requires
        instruction.encodable(),
    ensures
        is_listing(instruction.bytes()),
{
    lemma_flatten_one(instruction);
    assert(all_encodable(seq![instruction]));
}

/// Nothing is a listing.
pub proof fn lemma_listing_empty()
    ensures
        is_listing(Seq::empty()),
{
    assert(all_encodable(Seq::<Instruction>::empty()));
    assert(flatten(Seq::<Instruction>::empty()) =~= Seq::<u8>::empty());
}

/// Two listings, one behind the other, are a listing.
pub proof fn lemma_listing_concat(a: Seq<u8>, b: Seq<u8>)
    requires
        is_listing(a),
        is_listing(b),
    ensures
        is_listing(a + b),
{
    let x = choose|x: Seq<Instruction>| all_encodable(x) && #[trigger] flatten(x) == a;
    let y = choose|y: Seq<Instruction>| all_encodable(y) && #[trigger] flatten(y) == b;
    lemma_flatten_concat(x, y);
    assert(all_encodable(x + y));
}

proof fn lemma_push_data_listing(data: Register64)
    ensures
        is_listing(push_data_bytes(data)),
        is_listing(pop_data_bytes(data)),
{
    let slot = Addressing { base: Register64::R11, offset: 0 };
    lemma_listing_one(Instruction::Store(slot, data));
    lemma_listing_one(Instruction::AddImm(Register64::R11, 8i32));
    lemma_listing_concat(slot.mov_bytes(data), Register64::R11.add_bytes(8i32));
    lemma_listing_one(Instruction::Load(data, slot));
    lemma_listing_one(Instruction::AddImm(Register64::R11, -8i32));
    lemma_listing_concat(Register64::R11.add_bytes(-8i32), data.mov_bytes(slot));
}

proof fn lemma_spill_listing(value: StackValue)
    ensures
        is_listing(spill_bytes(value)),
{
    match value {
        StackValue::Imm(n) => {
            lemma_listing_one(Instruction::MovImm64(Register64::Rax, n));
            lemma_push_data_listing(Register64::Rax);
            lemma_listing_concat(Register64::Rax.mov_bytes(n), push_data_bytes(Register64::Rax));
        },
        StackValue::Reg(reg) => {
            lemma_push_data_listing(reg);
        },
    }
}

/// The code that writes deferred values to memory is a listing.
pub proof fn lemma_flush_listing(stack: Seq<StackValue>)
    ensures
        is_listing(flush_bytes(stack)),
    decreases stack.len(),
{
    if stack.len() == 0 {
        lemma_listing_empty();
    } else {
        lemma_flush_listing(stack.drop_last());
        lemma_spill_listing(stack.last());
        lemma_listing_concat(flush_bytes(stack.drop_last()), spill_bytes(stack.last()));
    }
}

proof fn lemma_move_listing(wide: bool, dst: Register64, src: Register64, n: i64)
    ensures
        is_listing(move_bytes(wide, dst, src)),
        is_listing(load_imm_bytes(wide, n)),
{
    if wide {
        lemma_listing_one(Instruction::MovReg64(dst, src));
        lemma_listing_one(Instruction::MovImm64(Register64::Rax, n));
    } else {
        lemma_listing_one(Instruction::MovReg32(dst.low32(), src.low32()));
        lemma_listing_one(Instruction::MovImm32(Register32::Eax, wrap32(n as int)));
    }
}

proof fn lemma_equal_listing(wide: bool, dst: Register64, src: Register64)
    ensures
        is_listing(equal_bytes(wide, dst, src)),
{
    let test = if wide {
        Instruction::CmpReg64(dst, src)
    } else {
        Instruction::CmpReg32(dst.low32(), src.low32())
    };
    lemma_listing_one(test);
    lemma_listing_one(Instruction::Sete(Register8::Al));
    lemma_listing_one(Instruction::Movzx(Register32::Eax, Register8::Al));
    lemma_move_listing(wide, dst, Register64::Rax, 0);
    lemma_listing_concat(test.bytes(), Register8::Al.sete_bytes());
    lemma_listing_concat(
        test.bytes() + Register8::Al.sete_bytes(),
        Register32::Eax.movzx_bytes(Register8::Al),
    );
    lemma_listing_concat(
        test.bytes() + Register8::Al.sete_bytes() + Register32::Eax.movzx_bytes(Register8::Al),
        move_bytes(wide, dst, Register64::Rax),
    );
}

proof fn lemma_reg_reg_listing(op: BinaryOp, wide: bool, dst: Register64, src: Register64)
    ensures
        is_listing(reg_reg_bytes(op, wide, dst, src)),
{
    match op {
        BinaryOp::Add => {
            if wide {
                lemma_listing_one(Instruction::AddReg64(dst, src));
            } else {
                lemma_listing_one(Instruction::AddReg32(dst.low32(), src.low32()));
            }
        },
        BinaryOp::Sub => {
            if wide {
                lemma_listing_one(Instruction::SubReg64(dst, src));
            } else {
                lemma_listing_one(Instruction::SubReg32(dst.low32(), src.low32()));
            }
        },
        BinaryOp::Eq => {
            lemma_equal_listing(wide, dst, src);
        },
    }
}

/// The code of a binary operation is a listing.
pub proof fn lemma_combine_listing(op: BinaryOp, wide: bool, first: StackValue, second: StackValue)
    ensures
        is_listing(combine(op, wide, first, second).0),
{
    match (first, second) {
        (StackValue::Imm(_), StackValue::Imm(_)) => {
            lemma_listing_empty();
        },
        (StackValue::Reg(r1), StackValue::Reg(r2)) => {
            lemma_reg_reg_listing(op, wide, r1, r2);
        },
        (StackValue::Reg(reg), StackValue::Imm(n)) => {
            lemma_move_listing(wide, reg, reg, n);
            lemma_reg_reg_listing(op, wide, reg, Register64::Rax);
            lemma_listing_concat(
                load_imm_bytes(wide, n),
                reg_reg_bytes(op, wide, reg, Register64::Rax),
            );
        },
        (StackValue::Imm(n), StackValue::Reg(reg)) => {
            lemma_move_listing(wide, reg, Register64::Rax, n);
            if op == BinaryOp::Sub {
                lemma_reg_reg_listing(op, wide, Register64::Rax, reg);
                lemma_listing_concat(
                    load_imm_bytes(wide, n),
                    reg_reg_bytes(op, wide, Register64::Rax, reg),
                );
                lemma_listing_concat(
                    load_imm_bytes(wide, n) + reg_reg_bytes(op, wide, Register64::Rax, reg),
                    move_bytes(wide, reg, Register64::Rax),
                );
            } else {
                lemma_reg_reg_listing(op, wide, reg, Register64::Rax);
                lemma_listing_concat(
                    load_imm_bytes(wide, n),
                    reg_reg_bytes(op, wide, reg, Register64::Rax),
                );
            }
        },
    }
}

/// What stands before the jump in the test of an `if`.
pub open spec fn test_head(condition: StackValue) -> Seq<u8> {
    match condition {
        StackValue::Imm(n) => load_imm_bytes(false, n) + Register32::Eax.cmp_bytes(0i32),
        StackValue::Reg(reg) => reg.low32().cmp_bytes(0i32),
    }
}

/// The test of an `if` is a listing that ends with a jump.
pub proof fn lemma_test_listing(condition: StackValue)
    ensures
        is_listing(test_head(condition)),
        test_bytes(condition) == test_head(condition) + Instruction::Je(0).bytes(),
{
    match condition {
        StackValue::Imm(n) => {
            lemma_move_listing(false, Register64::Rax, Register64::Rax, n);
            lemma_listing_one(Instruction::CmpImm(Register32::Eax, 0));
            lemma_listing_concat(load_imm_bytes(false, n), Register32::Eax.cmp_bytes(0i32));
        },
        StackValue::Reg(reg) => {
            lemma_listing_one(Instruction::CmpImm(reg.low32(), 0));
        },
    }
}

proof fn lemma_repeat_listing(unit: Seq<u8>, n: nat)
    requires
        is_listing(unit),
    ensures
        is_listing(repeat(unit, n)),
    decreases n,
{
    if n == 0 {
        lemma_listing_empty();
    } else {
        lemma_repeat_listing(unit, (n - 1) as nat);
        lemma_listing_concat(repeat(unit, (n - 1) as nat), unit);
    }
}

/// The code that moves results down is a listing.
pub proof fn lemma_move_results_listing(have: nat, results: nat)
    ensures
        is_listing(move_results_bytes(have, results)),
{
    let down = (-8 * have) as i32;
    let offset = (8 * (have - results)) as i32;
    lemma_listing_one(Instruction::AddImm(Register64::R11, down));
    let slot = Addressing { base: Register64::R11, offset };
    lemma_listing_one(Instruction::Load(Register64::Rax, slot));
    lemma_push_data_listing(Register64::Rax);
    lemma_listing_concat(Register64::Rax.mov_bytes(slot), push_data_bytes(Register64::Rax));
    lemma_repeat_listing(copy_slot_bytes(offset), results);
    lemma_listing_concat(Register64::R11.add_bytes(down), repeat(copy_slot_bytes(offset), results));
}

proof fn lemma_leave_listing()
    ensures
        is_listing(leave_bytes()),
        is_listing(propagate_bytes()),
        is_listing(epilogue_bytes()),
{
    lemma_listing_one(Instruction::MovReg64(Register64::Rsp, Register64::Rbp));
    lemma_listing_one(Instruction::PopReg(Register64::Rbp));
    lemma_listing_one(Instruction::Ret);
    lemma_listing_concat(
        Register64::Rsp.mov_bytes(Register64::Rbp),
        Register64::Rbp.pop_bytes(),
    );
    lemma_listing_concat(
        Register64::Rsp.mov_bytes(Register64::Rbp) + Register64::Rbp.pop_bytes(),
        ret_bytes(),
    );
    lemma_listing_one(Instruction::MovImm64(Register64::R10, 0));
    lemma_listing_one(Instruction::CmpReg64(Register64::Rax, Register64::R10));
    lemma_listing_one(Instruction::Je(5));
    lemma_listing_concat(
        Register64::R10.mov_bytes(0i64),
        Register64::Rax.cmp_bytes(Register64::R10),
    );
    lemma_listing_concat(
        Register64::R10.mov_bytes(0i64) + Register64::Rax.cmp_bytes(Register64::R10),
        5i32.je_bytes(),
    );
    lemma_listing_concat(
        Register64::R10.mov_bytes(0i64) + Register64::Rax.cmp_bytes(Register64::R10)
            + 5i32.je_bytes(),
        leave_bytes(),
    );
    lemma_listing_one(Instruction::MovImm64(Register64::Rax, 0));
    lemma_listing_concat(Register64::Rax.mov_bytes(0i64), leave_bytes());
}


/// The code of a call is a listing.
pub proof fn lemma_call_listing(t: Target, function_index: u32, args: nat, results: nat)
    ensures
        is_listing(call_bytes(t, function_index, args, results)),
{
    let saved = Addressing { base: Register64::Rbp, offset: -8i32 };
    let target = address_imm(
        if function_index == t.func_index {
            t.self_entry
        } else {
            t.trampoline
        },
    );
    let adjust = (8 * (results - args)) as i32;
    let a = Instruction::Load(Register64::Rdi, saved);
    let b = Instruction::MovReg64(Register64::Rsi, Register64::R11);
    let c = Instruction::MovImm32(Register32::Edx, index_imm(function_index));
    let d = Instruction::MovImm64(Register64::R10, target);
    let e = Instruction::PushReg(Register64::R11);
    let f = Instruction::CallReg(Register64::R10);
    let g = Instruction::PopReg(Register64::R11);
    let h = Instruction::AddImm(Register64::R11, adjust);
    lemma_listing_one(a);
    lemma_listing_one(b);
    lemma_listing_one(c);
    lemma_listing_one(d);
    lemma_listing_one(e);
    lemma_listing_one(f);
    lemma_listing_one(g);
    lemma_listing_one(h);
    lemma_leave_listing();
    lemma_listing_concat(a.bytes(), b.bytes());
    lemma_listing_concat(a.bytes() + b.bytes(), c.bytes());
    lemma_listing_concat(a.bytes() + b.bytes() + c.bytes(), d.bytes());
    lemma_listing_concat(a.bytes() + b.bytes() + c.bytes() + d.bytes(), e.bytes());
    lemma_listing_concat(a.bytes() + b.bytes() + c.bytes() + d.bytes() + e.bytes(), f.bytes());
    lemma_listing_concat(
        a.bytes() + b.bytes() + c.bytes() + d.bytes() + e.bytes() + f.bytes(),
        g.bytes(),
    );
    lemma_listing_concat(
        a.bytes() + b.bytes() + c.bytes() + d.bytes() + e.bytes() + f.bytes() + g.bytes(),
        propagate_bytes(),
    );
    lemma_listing_concat(
        a.bytes() + b.bytes() + c.bytes() + d.bytes() + e.bytes() + f.bytes() + g.bytes()
            + propagate_bytes(),
        h.bytes(),
    );
}

proof fn lemma_copy_args_listing(n: nat)
    ensures
        is_listing(copy_args_bytes(n)),
    decreases n,
{
    if n == 0 {
        lemma_listing_empty();
    } else {
        let slot = Addressing { base: Register64::R11, offset: (-8 * n) as i32 };
        lemma_listing_one(Instruction::Load(Register64::Rax, slot));
        lemma_listing_one(Instruction::PushReg(Register64::Rax));
        lemma_copy_args_listing((n - 1) as nat);
        lemma_listing_concat(Register64::Rax.mov_bytes(slot), Register64::Rax.push_bytes());
        lemma_listing_concat(
            Register64::Rax.mov_bytes(slot) + Register64::Rax.push_bytes(),
            copy_args_bytes((n - 1) as nat),
        );
    }
}

/// The start of a function is a listing.
pub proof fn lemma_prologue_listing(n: nat)
    ensures
        is_listing(prologue_bytes(n)),
{
    let a = Instruction::PushReg(Register64::Rbp);
    let b = Instruction::MovReg64(Register64::Rbp, Register64::Rsp);
    let c = Instruction::PushReg(Register64::Rdi);
    let d = Instruction::MovReg64(Register64::R11, Register64::Rsi);
    let e = Instruction::AddImm(Register64::R11, (-8 * n) as i32);
    let f = Instruction::AddImm(Register64::Rsp, -8i32);
    lemma_listing_one(a);
    lemma_listing_one(b);
    lemma_listing_one(c);
    lemma_listing_one(d);
    lemma_listing_one(e);
    lemma_listing_one(f);
    lemma_listing_empty();
    lemma_copy_args_listing(n);
    lemma_listing_concat(a.bytes(), b.bytes());
    lemma_listing_concat(a.bytes() + b.bytes(), c.bytes());
    lemma_listing_concat(a.bytes() + b.bytes() + c.bytes(), d.bytes());
    lemma_listing_concat(a.bytes() + b.bytes() + c.bytes() + d.bytes(), copy_args_bytes(n));
    lemma_listing_concat(
        a.bytes() + b.bytes() + c.bytes() + d.bytes() + copy_args_bytes(n),
        e.bytes(),
    );
    let tail = if n % 2 == 1 {
        f.bytes()
    } else {
        Seq::empty()
    };
    lemma_listing_concat(
        a.bytes() + b.bytes() + c.bytes() + d.bytes() + copy_args_bytes(n) + e.bytes(),
        tail,
    );
}

/// Whether `out` is `code` with a listing behind it.
pub open spec fn grows_by_listing(code: Seq<u8>, out: Seq<u8>) -> bool {
    &&& code.len() <= out.len()
    &&& out.take(code.len() as int) == code
    &&& is_listing(out.skip(code.len() as int))
}

/// A listing behind a listing behind the code.
pub proof fn lemma_grows_twice(a: Seq<u8>, b: Seq<u8>, c: Seq<u8>)
    requires
        grows_by_listing(a, b),
        grows_by_listing(b, c),
    ensures
        grows_by_listing(a, c),
{
    assert(c.take(a.len() as int) =~= b.take(a.len() as int));
    lemma_listing_concat(b.skip(a.len() as int), c.skip(b.len() as int));
    assert(c.skip(a.len() as int) =~= b.skip(a.len() as int) + c.skip(b.len() as int)) by {
        assert(c =~= c.take(b.len() as int) + c.skip(b.len() as int));
    }
}

/// Code that does not change.
pub proof fn lemma_grows_not(a: Seq<u8>)
    ensures
        grows_by_listing(a, a),
{
    lemma_listing_empty();
    assert(a.skip(a.len() as int) =~= Seq::<u8>::empty());
    assert(a.take(a.len() as int) =~= a);
}

/// Appending a listing.
pub proof fn lemma_append_listing(code: Seq<u8>, bytes: Seq<u8>, limit: usize)
    requires
        is_listing(bytes),
        append(code, bytes, limit) is Ok,
    ensures
        grows_by_listing(code, append(code, bytes, limit)->Ok_0),
{
    let out = code + bytes;
    assert(out.take(code.len() as int) =~= code);
    assert(out.skip(code.len() as int) =~= bytes);
}

/// Handing out a register writes a listing.
pub proof fn lemma_get_unused_reg_listing(code: Seq<u8>, vstack: StackModel, limit: usize)
    requires
        get_unused_reg(code, vstack, limit) is Ok,
    ensures
        grows_by_listing(code, get_unused_reg(code, vstack, limit)->Ok_0.0),
{
    if vstack.unused_regs.len() > 0 {
        lemma_grows_not(code);
    } else {
        let k = first_reg(vstack.stack);
        lemma_flush_listing(vstack.stack.take(k + 1));
        lemma_append_listing(code, flush_bytes(vstack.stack.take(k + 1)), limit);
    }
}

/// Taking a value from the operand stack writes a listing.
pub proof fn lemma_pop_value_listing(code: Seq<u8>, vstack: StackModel, limit: usize)
    requires
        pop_value(code, vstack, limit) is Ok,
    ensures
        grows_by_listing(code, pop_value(code, vstack, limit)->Ok_0.0),
{
    if vstack.stack.len() > 0 {
        lemma_grows_not(code);
    } else {
        lemma_get_unused_reg_listing(code, vstack, limit);
        let got = get_unused_reg(code, vstack, limit)->Ok_0;
        lemma_push_data_listing(got.2);
        lemma_append_listing(got.0, pop_data_bytes(got.2), limit);
        lemma_grows_twice(code, got.0, pop_value(code, vstack, limit)->Ok_0.0);
    }
}

/// Writing the deferred values to memory writes a listing.
pub proof fn lemma_push_all_listing(code: Seq<u8>, vstack: StackModel, limit: usize)
    requires
        push_all(code, vstack, limit) is Ok,
    ensures
        grows_by_listing(code, push_all(code, vstack, limit)->Ok_0.0),
{
    lemma_flush_listing(vstack.stack);
    lemma_append_listing(code, flush_bytes(vstack.stack), limit);
}


/// Whether a jump waits at `site` in one of the open blocks.
pub open spec fn waits(labels: Seq<LabelModel>, site: usize) -> bool {
    exists|i: int, j: int|
        0 <= i < labels.len() && 0 <= j < sites_of(labels[i]).len() && #[trigger] sites_of(
            labels[i],
        )[j] == site
}

/// Whether one of the instructions is a jump that ends at `pos`.
pub open spec fn jump_ends_at(instrs: Seq<Instruction>, pos: int) -> bool {
    exists|k: int| 0 <= k < instrs.len() && is_jump(instrs[k]) && #[trigger] end_of(instrs, k + 1) == pos
}

/// Whether `instrs` are the instructions of the function that is being
/// compiled: their bytes are the code from the function's start, and at
/// every site where a jump waits, one of them is a jump that ends there.
pub open spec fn lists(instrs: Seq<Instruction>, g: Gen, t: Target) -> bool {
    &&& all_encodable(instrs)
    &&& t.floor <= g.code.len()
    &&& flatten(instrs) == g.code.skip(t.floor as int)
    &&& forall|site: usize| #[trigger]
        waits(g.labels, site) ==> jump_ends_at(instrs, site - t.floor)
}

/// Whether the code of the function that is being compiled is a list of
/// instructions, with a jump at every site where one waits.
pub open spec fn listed(g: Gen, t: Target) -> bool {
    exists|instrs: Seq<Instruction>| #[trigger] lists(instrs, g, t)
}

proof fn lemma_jump_stays(instrs: Seq<Instruction>, more: Seq<Instruction>, pos: int)
    requires
        jump_ends_at(instrs, pos),
    ensures
        jump_ends_at(instrs + more, pos),
{
    let k = choose|k: int|
        0 <= k < instrs.len() && is_jump(instrs[k]) && #[trigger] end_of(instrs, k + 1) == pos;
    assert((instrs + more).take(k + 1) =~= instrs.take(k + 1));
    assert(is_jump((instrs + more)[k]));
    assert(end_of(instrs + more, k + 1) == pos);
}

/// More code behind the function keeps it listed, if the code is a
/// listing and no new jump waits.
pub proof fn lemma_growth_keeps_listed(g: Gen, after: Gen, t: Target)
    requires
        listed(g, t),
        grows_by_listing(g.code, after.code),
        forall|site: usize| #[trigger] waits(after.labels, site) ==> waits(g.labels, site),
    ensures
        listed(after, t),
{
    let instrs = choose|instrs: Seq<Instruction>| #[trigger] lists(instrs, g, t);
    let added = after.code.skip(g.code.len() as int);
    let more = choose|more: Seq<Instruction>|
        all_encodable(more) && #[trigger] flatten(more) == added;
    lemma_flatten_concat(instrs, more);
    assert(after.code.skip(t.floor as int) =~= g.code.skip(t.floor as int) + added) by {
        assert(after.code =~= after.code.take(g.code.len() as int) + added);
    }
    assert(all_encodable(instrs + more));
    assert forall|site: usize| #[trigger] waits(after.labels, site) implies jump_ends_at(
        instrs + more,
        site - t.floor,
    ) by {
        assert(waits(g.labels, site));
        lemma_jump_stays(instrs, more, site - t.floor);
    }
    assert(lists(instrs + more, after, t));
}

/// A jump behind the function keeps it listed, and may wait at its end.
pub proof fn lemma_jump_keeps_listed(g: Gen, after: Gen, t: Target, jump: Instruction)
    requires
        listed(g, t),
        is_jump(jump),
        after.code == g.code + jump.bytes(),
        after.code.len() <= usize::MAX,
        forall|site: usize| #[trigger]
            waits(after.labels, site) ==> waits(g.labels, site) || site == after.code.len(),
    ensures
        listed(after, t),
{
    let instrs = choose|instrs: Seq<Instruction>| #[trigger] lists(instrs, g, t);
    let more = seq![jump];
    let new = instrs + more;
    lemma_flatten_one(jump);
    lemma_flatten_concat(instrs, more);
    lemma_jump_bytes(jump, 0);
    assert(after.code.skip(t.floor as int) =~= g.code.skip(t.floor as int) + jump.bytes());
    assert(all_encodable(new));
    assert forall|site: usize| #[trigger] waits(after.labels, site) implies jump_ends_at(
        new,
        site - t.floor,
    ) by {
        if waits(g.labels, site) {
            lemma_jump_stays(instrs, more, site - t.floor);
        } else {
            let k = instrs.len() as int;
            assert(new.take(k + 1) =~= new);
            assert(is_jump(new[k]));
            assert(end_of(new, k + 1) == site - t.floor);
        }
    }
    assert(lists(new, after, t));
}

/// Giving a waiting jump its target keeps the function listed.
pub proof fn lemma_patch_keeps_listed(g: Gen, after: Gen, t: Target, site: usize, target: usize)
    requires
        listed(g, t),
        waits(g.labels, site),
        t.floor + 4 <= site <= g.code.len(),
        after.code == patched(g.code, site, target),
        forall|other: usize| #[trigger] waits(after.labels, other) ==> waits(g.labels, other),
    ensures
        listed(after, t),
{
    let instrs = choose|instrs: Seq<Instruction>| #[trigger] lists(instrs, g, t);
    let pos = site - t.floor;
    assert(jump_ends_at(instrs, pos));
    let k = choose|k: int|
        0 <= k < instrs.len() && is_jump(instrs[k]) && #[trigger] end_of(instrs, k + 1) == pos;
    let offset = (target - site) as i32;
    let new = instrs.update(k, retarget(instrs[k], offset));
    lemma_retarget(instrs, k, offset);
    lemma_jump_bytes(instrs[k], offset);
    assert(after.code.skip(t.floor as int) =~= with_displacement(
        g.code.skip(t.floor as int),
        pos,
        imm32_bytes(offset),
    ));
    assert(all_encodable(new)) by {
        assert forall|n: int| 0 <= n < new.len() implies (#[trigger] new[n]).encodable() by {
            if n != k {
                assert(new[n] == instrs[n]);
            }
        }
    }
    assert forall|other: usize| #[trigger] waits(after.labels, other) implies jump_ends_at(
        new,
        other - t.floor,
    ) by {
        assert(waits(g.labels, other));
        assert(jump_ends_at(instrs, other - t.floor));
        let m = choose|m: int|
            0 <= m < instrs.len() && is_jump(instrs[m]) && #[trigger] end_of(instrs, m + 1)
                == other - t.floor;
        assert(end_of(new, m + 1) == end_of(instrs, m + 1));
        if m != k {
            assert(new[m] == instrs[m]);
        }
        assert(is_jump(new[m]));
    }
    assert(lists(new, after, t));
}

/// Giving every jump of a list its target keeps the function listed.
pub proof fn lemma_patch_all_keeps_listed(
    g: Gen,
    t: Target,
    sites: Seq<usize>,
    labels: Seq<LabelModel>,
)
    requires
        listed(g, t),
        well_spaced(sites, t.floor, g.code.len()),
        g.code.len() <= usize::MAX,
        forall|j: int| 0 <= j < sites.len() ==> waits(g.labels, #[trigger] sites[j]),
        forall|other: usize| #[trigger] waits(labels, other) ==> waits(g.labels, other),
    ensures
        patch_all(g.code, sites, g.code.len() as usize, t.floor) matches Ok(code) && listed(
            Gen { code, labels, ..g },
            t,
        ) && listed(Gen { code, ..g }, t) && code.len() == g.code.len(),
    decreases sites.len(),
{
    let target = g.code.len() as usize;
    if sites.len() == 0 {
        lemma_grows_not(g.code);
        lemma_growth_keeps_listed(g, Gen { code: g.code, labels, ..g }, t);
        lemma_growth_keeps_listed(g, Gen { code: g.code, ..g }, t);
    } else {
        let rest = sites.drop_last();
        let last = sites.last();
        assert forall|j: int| 0 <= j < rest.len() implies waits(g.labels, #[trigger] rest[j]) by {
            assert(rest[j] == sites[j]);
        }
        assert(well_spaced(rest, t.floor, g.code.len())) by {
            assert forall|i: int| 0 <= i < rest.len() implies t.floor + 4 <= #[trigger] rest[i]
                <= g.code.len() by {
                assert(rest[i] == sites[i]);
            }
            assert forall|i: int, j: int| 0 <= i < j < rest.len() implies #[trigger] rest[i] + 4
                <= #[trigger] rest[j] by {
                assert(rest[i] == sites[i] && rest[j] == sites[j]);
            }
        }
        lemma_patch_all_keeps_listed(g, t, rest, g.labels);
        let mid = patch_all(g.code, rest, target, t.floor)->Ok_0;
        let between = Gen { code: mid, ..g };
        assert(between == Gen { code: mid, labels: g.labels, ..g });
        assert(waits(between.labels, last)) by {
            assert(sites[sites.len() - 1] == last);
        }
        assert(t.floor + 4 <= sites[sites.len() - 1] <= g.code.len());
        let code = patched(mid, last, target);
        assert(patch_one(mid, last, target, t.floor) == Ok::<Seq<u8>, Fault>(
            code,
        ));
        lemma_patch_keeps_listed(between, Gen { code, labels, ..g }, t, last, target);
        lemma_patch_keeps_listed(between, Gen { code, ..g }, t, last, target);
    }
}


proof fn lemma_waits_without_last(labels: Seq<LabelModel>, site: usize)
    requires
        labels.len() > 0,
        waits(labels.drop_last(), site),
    ensures
        waits(labels, site),
{
    let (i, j) = choose|i: int, j: int|
        0 <= i < labels.drop_last().len() && 0 <= j < sites_of(labels.drop_last()[i]).len()
            && #[trigger] sites_of(labels.drop_last()[i])[j] == site;
    assert(labels.drop_last()[i] == labels[i]);
    assert(sites_of(labels[i])[j] == site);
}

proof fn lemma_waits_with_one_more(labels: Seq<LabelModel>, label: LabelModel, site: usize)
    requires
        waits(labels.push(label), site),
    ensures
        waits(labels, site) || sites_of(label).contains(site),
{
    let more = labels.push(label);
    let (i, j) = choose|i: int, j: int|
        0 <= i < more.len() && 0 <= j < sites_of(more[i]).len() && #[trigger] sites_of(more[i])[j]
            == site;
    if i < labels.len() {
        assert(more[i] == labels[i]);
        assert(sites_of(labels[i])[j] == site);
    } else {
        assert(more[i] == label);
        assert(sites_of(label)[j] == site);
    }
}

proof fn lemma_waits_in_last(labels: Seq<LabelModel>, j: int)
    requires
        labels.len() > 0,
        0 <= j < sites_of(labels.last()).len(),
    ensures
        waits(labels, sites_of(labels.last())[j]),
{
    let i = labels.len() - 1;
    assert(sites_of(labels[i])[j] == sites_of(labels.last())[j]);
}

proof fn lemma_binary_keeps_listed(g: Gen, t: Target, op: BinaryOp, wide: bool)
    requires
        listed(g, t),
        binary(g, t, op, wide) is Ok,
    ensures
        listed(binary(g, t, op, wide)->Ok_0, t),
{
    let after = binary(g, t, op, wide)->Ok_0;
    lemma_pop_value_listing(g.code, g.vstack, t.limit);
    let one = pop_value(g.code, g.vstack, t.limit)->Ok_0;
    lemma_pop_value_listing(one.0, one.1, t.limit);
    let two = pop_value(one.0, one.1, t.limit)->Ok_0;
    lemma_combine_listing(op, wide, two.2, one.2);
    lemma_append_listing(two.0, combine(op, wide, two.2, one.2).0, t.limit);
    lemma_grows_twice(g.code, one.0, two.0);
    lemma_grows_twice(g.code, two.0, after.code);
    lemma_growth_keeps_listed(g, after, t);
}

proof fn lemma_local_get_keeps_listed(g: Gen, t: Target, local_index: u32)
    requires
        listed(g, t),
        local_get(g, t, local_index) is Ok,
    ensures
        listed(local_get(g, t, local_index)->Ok_0, t),
{
    let after = local_get(g, t, local_index)->Ok_0;
    lemma_get_unused_reg_listing(g.code, g.vstack, t.limit);
    let got = get_unused_reg(g.code, g.vstack, t.limit)->Ok_0;
    let slot = Addressing { base: Register64::Rbp, offset: (-local_offset(local_index)) as i32 };
    lemma_listing_one(Instruction::Load(got.2, slot));
    lemma_append_listing(got.0, got.2.mov_bytes(slot), t.limit);
    lemma_grows_twice(g.code, got.0, after.code);
    lemma_growth_keeps_listed(g, after, t);
}

proof fn lemma_call_keeps_listed(g: Gen, t: Target, store: Store, function_index: u32)
    requires
        listed(g, t),
        call(g, t, store, function_index) is Ok,
    ensures
        listed(call(g, t, store, function_index)->Ok_0, t),
{
    let after = call(g, t, store, function_index)->Ok_0;
    let ty = store.func_type_of(function_index)->Ok_0;
    lemma_push_all_listing(g.code, g.vstack, t.limit);
    let flushed = push_all(g.code, g.vstack, t.limit)->Ok_0;
    lemma_call_listing(t, function_index, ty.params@.len(), ty.results@.len());
    lemma_append_listing(
        flushed.0,
        call_bytes(t, function_index, ty.params@.len(), ty.results@.len()),
        t.limit,
    );
    lemma_grows_twice(g.code, flushed.0, after.code);
    lemma_growth_keeps_listed(g, after, t);
}

proof fn lemma_if_keeps_listed(g: Gen, t: Target, store: Store, block_type: BlockType)
    requires
        listed(g, t),
        frames_ok(g, t),
        open_if(g, t, store, block_type) is Ok,
    ensures
        listed(open_if(g, t, store, block_type)->Ok_0, t),
{
    let after = open_if(g, t, store, block_type)->Ok_0;
    lemma_pop_value_listing(g.code, g.vstack, t.limit);
    let popped = pop_value(g.code, g.vstack, t.limit)->Ok_0;
    lemma_push_all_listing(popped.0, popped.1, t.limit);
    let flushed = push_all(popped.0, popped.1, t.limit)->Ok_0;
    lemma_grows_twice(g.code, popped.0, flushed.0);
    lemma_test_listing(popped.2);
    let head = flushed.0 + test_head(popped.2);
    assert(head.take(flushed.0.len() as int) =~= flushed.0);
    assert(head.skip(flushed.0.len() as int) =~= test_head(popped.2));
    assert(grows_by_listing(flushed.0, head));
    lemma_grows_twice(g.code, flushed.0, head);
    let before = Gen { code: head, ..g };
    lemma_growth_keeps_listed(g, before, t);
    assert(after.code =~= head + Instruction::Je(0).bytes());
    assert forall|site: usize| #[trigger] waits(after.labels, site) implies waits(
        before.labels,
        site,
    ) || site == after.code.len() by {
        lemma_waits_with_one_more(g.labels, after.labels.last(), site);
        assert(after.labels =~= g.labels.push(after.labels.last()));
    }
    lemma_jump_keeps_listed(before, after, t, Instruction::Je(0));
}

proof fn lemma_else_keeps_listed(g: Gen, t: Target)
    requires
        listed(g, t),
        frames_ok(g, t),
        g.labels.len() > 0,
        open_else(g, t) is Ok,
    ensures
        listed(open_else(g, t)->Ok_0, t),
{
    let after = open_else(g, t)->Ok_0;
    let top = g.labels.len() - 1;
    let sites = sites_of(g.labels.last());
    assert(well_spaced(sites_of(g.labels[top]), t.floor, g.code.len()));
    lemma_push_all_listing(g.code, g.vstack, t.limit);
    let flushed = push_all(g.code, g.vstack, t.limit)->Ok_0.0;
    let first = Gen { code: flushed, ..g };
    lemma_growth_keeps_listed(g, first, t);
    let jumped = flushed + Instruction::Jmp(0).bytes();
    // the new jump waits in the block together with the old ones
    let here = jumped.len() as usize;
    let waiting = LabelModel::End {
        sites: sites.push(here),
        start_offset: g.labels.last()->End_start_offset,
        block_type: g.labels.last()->End_block_type,
        else_stack: None,
    };
    let third = Gen { code: jumped, labels: g.labels.drop_last().push(waiting), ..g };
    lemma_else_waiting(first, t, here, waiting);
    lemma_waits_in_last(third.labels, 0);
    assert(sites_of(third.labels.last())[0] == sites[0]);
    assert(after.code == patched(jumped, sites[0], here));
    assert forall|other: usize| #[trigger] waits(after.labels, other) implies waits(
        third.labels,
        other,
    ) by {
        lemma_waits_with_one_more(g.labels.drop_last(), after.labels.last(), other);
        assert(after.labels =~= g.labels.drop_last().push(after.labels.last()));
        if waits(g.labels.drop_last(), other) {
            let (i, j) = choose|i: int, j: int|
                0 <= i < g.labels.drop_last().len() && 0 <= j < sites_of(
                    g.labels.drop_last()[i],
                ).len() && #[trigger] sites_of(g.labels.drop_last()[i])[j] == other;
            assert(third.labels[i] == g.labels.drop_last()[i]);
            assert(sites_of(third.labels[i])[j] == other);
        } else {
            let new_sites = sites_of(after.labels.last());
            let j = choose|j: int| 0 <= j < new_sites.len() && new_sites[j] == other;
            assert(new_sites == sites.drop_first().push(here));
            assert(sites_of(third.labels.last())[j + 1] == other);
            lemma_waits_in_last(third.labels, j + 1);
        }
    }
    lemma_patch_keeps_listed(third, after, t, sites[0], here);
}

/// After the jump of an `else` is written, it may wait in the block beside
/// the jumps that wait there already.
proof fn lemma_else_waiting(first: Gen, t: Target, here: usize, waiting: LabelModel)
    requires
        first.labels.len() > 0,
        listed(first, t),
        first.code.len() + 5 == here,
        sites_of(waiting) == sites_of(first.labels.last()).push(here),
    ensures
        listed(
            Gen {
                code: first.code + Instruction::Jmp(0).bytes(),
                labels: first.labels.drop_last().push(waiting),
                ..first
            },
            t,
        ),
{
    let after = Gen {
        code: first.code + Instruction::Jmp(0).bytes(),
        labels: first.labels.drop_last().push(waiting),
        ..first
    };
    assert forall|site: usize| #[trigger] waits(after.labels, site) implies waits(
        first.labels,
        site,
    ) || site == after.code.len() by {
        lemma_waits_with_one_more(first.labels.drop_last(), waiting, site);
        if waits(first.labels.drop_last(), site) {
            lemma_waits_without_last(first.labels, site);
        } else {
            let j = choose|j: int| 0 <= j < sites_of(waiting).len() && sites_of(waiting)[j] == site;
            if j < sites_of(first.labels.last()).len() {
                lemma_waits_in_last(first.labels, j);
            }
        }
    }
    lemma_jump_keeps_listed(first, after, t, Instruction::Jmp(0));
}

proof fn lemma_close_keeps_listed(g: Gen, t: Target, store: Store)
    requires
        listed(g, t),
        frames_ok(g, t),
        g.labels.len() > 0,
        close(g, t, store) is Ok,
    ensures
        listed(close(g, t, store)->Ok_0, t),
{
    let after = close(g, t, store)->Ok_0;
    let top = g.labels.len() - 1;
    let sites = sites_of(g.labels.last());
    assert(well_spaced(sites_of(g.labels[top]), t.floor, g.code.len()));
    assert forall|other: usize| #[trigger] waits(g.labels.drop_last(), other) implies waits(
        g.labels,
        other,
    ) by {
        lemma_waits_without_last(g.labels, other);
    }
    match g.labels.last() {
        LabelModel::End { start_offset, block_type, .. } => {
            lemma_push_all_listing(g.code, g.vstack, t.limit);
            let flushed = push_all(g.code, g.vstack, t.limit)->Ok_0;
            let first = Gen { code: flushed.0, ..g };
            lemma_growth_keeps_listed(g, first, t);
            assert(well_spaced(sites, t.floor, first.code.len()));
            assert forall|j: int| 0 <= j < sites.len() implies waits(
                first.labels,
                #[trigger] sites[j],
            ) by {
                lemma_waits_in_last(g.labels, j);
            }
            lemma_patch_all_keeps_listed(first, t, sites, g.labels.drop_last());
            let done = patch_all(flushed.0, sites, flushed.0.len() as usize, t.floor)->Ok_0;
            let second = Gen { code: done, labels: g.labels.drop_last(), ..first };
            let results = arity_out(store, block_type)->Ok_0;
            let have = (g.stack_count - start_offset) as nat;
            let bytes = if have == results {
                Seq::empty()
            } else {
                move_results_bytes(have, results)
            };
            lemma_listing_empty();
            lemma_move_results_listing(have, results);
            lemma_append_listing(done, bytes, t.limit);
            lemma_growth_keeps_listed(second, after, t);
        },
        LabelModel::FuncEnd { .. } => {
            assert forall|j: int| 0 <= j < sites.len() implies waits(g.labels, #[trigger] sites[j]) by {
                lemma_waits_in_last(g.labels, j);
            }
            lemma_patch_all_keeps_listed(g, t, sites, g.labels.drop_last());
        },
        LabelModel::LoopStart { .. } => {},
    }
}

/// One instruction of a body leaves the code of the function a list of
/// instructions, with a jump at every site where one waits.
pub proof fn lemma_step_keeps_listed(g: Gen, t: Target, store: Store, op: Operator)
    requires
        listed(g, t),
        frames_ok(g, t),
        step(g, t, store, op) is Ok,
    ensures
        listed(step(g, t, store, op)->Ok_0, t),
{
    reveal(step);
    match op {
        Operator::LocalGet { local_index } => {
            lemma_local_get_keeps_listed(g, t, local_index);
        },
        Operator::I32Const { value } => {
            lemma_grows_not(g.code);
            lemma_growth_keeps_listed(g, constant(g, value as i64)->Ok_0, t);
        },
        Operator::I64Const { value } => {
            lemma_grows_not(g.code);
            lemma_growth_keeps_listed(g, constant(g, value)->Ok_0, t);
        },
        Operator::I32Add => {
            lemma_binary_keeps_listed(g, t, BinaryOp::Add, false);
        },
        Operator::I64Add => {
            lemma_binary_keeps_listed(g, t, BinaryOp::Add, true);
        },
        Operator::I32Sub => {
            lemma_binary_keeps_listed(g, t, BinaryOp::Sub, false);
        },
        Operator::I64Sub => {
            lemma_binary_keeps_listed(g, t, BinaryOp::Sub, true);
        },
        Operator::I32Eq => {
            lemma_binary_keeps_listed(g, t, BinaryOp::Eq, false);
        },
        Operator::I64Eq => {
            lemma_binary_keeps_listed(g, t, BinaryOp::Eq, true);
        },
        Operator::If { blockty } => {
            lemma_if_keeps_listed(g, t, store, blockty);
        },
        Operator::Else => {
            lemma_else_keeps_listed(g, t);
        },
        Operator::End => {
            lemma_close_keeps_listed(g, t, store);
        },
        Operator::Call { function_index } => {
            lemma_call_keeps_listed(g, t, store, function_index);
        },
        Operator::Unsupported(_) => {},
    }
}


/// A body leaves the code of the function a list of instructions, with a
/// jump at every site where one waits.
pub proof fn lemma_run_keeps_listed(g: Gen, t: Target, store: Store, ops: Seq<Operator>)
    requires
        listed(g, t),
        frames_ok(g, t),
        run(g, t, store, ops) is Ok,
    ensures
        listed(run(g, t, store, ops)->Ok_0, t),
    decreases ops.len(),
{
    if ops.len() > 0 {
        lemma_run_keeps_listed(g, t, store, ops.drop_last());
        lemma_run_keeps_frames(g, t, store, ops.drop_last());
        lemma_step_keeps_listed(run(g, t, store, ops.drop_last())->Ok_0, t, store, ops.last());
    }
}

/// The code of a function is one instruction of the encoder after the
/// other, from the function's first byte to its last.
pub proof fn lemma_function_code_is_a_listing(
    store: Store,
    code: Seq<u8>,
    limit: usize,
    base: u64,
    trampoline: u64,
    index: u32,
)
    requires
        code.len() <= limit <= MAX_CAPACITY,
        function_code(store, code, limit, base, trampoline, index) is Ok,
    ensures
        is_listing(
            function_code(store, code, limit, base, trampoline, index)->Ok_0.skip(
                code.len() as int,
            ),
        ),
{
    let out = function_code(store, code, limit, base, trampoline, index)->Ok_0;
    let func = store.code_of(index)->Ok_0;
    let ty = store.func_type_of(index)->Ok_0;
    let t = target_of(code, limit, base, trampoline, index, ty);
    let params = ty.params@.len();
    let start = append(code, prologue_bytes(params), limit)->Ok_0;
    let entry = entry_state(start);
    lemma_prologue_listing(params);
    let opening = choose|opening: Seq<Instruction>|
        all_encodable(opening) && #[trigger] flatten(opening) == prologue_bytes(params);
    assert(start.skip(code.len() as int) =~= prologue_bytes(params));
    assert forall|site: usize| #[trigger] waits(entry.labels, site) implies jump_ends_at(
        opening,
        site - t.floor,
    ) by {
        let (i, j) = choose|i: int, j: int|
            0 <= i < entry.labels.len() && 0 <= j < sites_of(entry.labels[i]).len()
                && #[trigger] sites_of(entry.labels[i])[j] == site;
    }
    assert(lists(opening, entry, t));
    lemma_entry_frames_ok(start, t);
    lemma_run_keeps_listed(entry, t, store, func.body@);
    lemma_run_keeps_frames(entry, t, store, func.body@);
    let g = run(entry, t, store, func.body@)->Ok_0;
    let results = ty.results@.len();
    lemma_push_all_listing(g.code, g.vstack, t.limit);
    let flushed = push_all(g.code, g.vstack, t.limit)->Ok_0.0;
    let moves = if results != 0 && results != g.stack_count {
        move_results_bytes(g.stack_count as nat, results)
    } else {
        Seq::empty()
    };
    lemma_listing_empty();
    lemma_move_results_listing(g.stack_count as nat, results);
    lemma_leave_listing();
    lemma_listing_concat(moves, epilogue_bytes());
    lemma_append_listing(flushed, moves + epilogue_bytes(), t.limit);
    lemma_grows_twice(g.code, flushed, out);
    let last = Gen { code: out, ..g };
    lemma_growth_keeps_listed(g, last, t);
    let instrs = choose|instrs: Seq<Instruction>| #[trigger] lists(instrs, last, t);
    assert(flatten(instrs) == out.skip(code.len() as int));
}

/// A list of instructions is read back from its bytes: at the position of
/// each instruction, the disassembler finds that instruction and its
/// length, and so the position of the next.
pub proof fn lemma_listing_reads_back(instrs: Seq<Instruction>, k: int)
    requires
        all_encodable(instrs),
        0 <= k < instrs.len(),
    ensures
        decode(flatten(instrs).skip(end_of(instrs, k))) == Some(
            (instrs[k], end_of(instrs, k + 1) - end_of(instrs, k)),
        ),
{
    let before = instrs.take(k);
    let after = instrs.skip(k + 1);
    assert(instrs =~= before + seq![instrs[k]] + after);
    lemma_flatten_concat(before + seq![instrs[k]], after);
    lemma_flatten_concat(before, seq![instrs[k]]);
    lemma_flatten_one(instrs[k]);
    lemma_end_of_grows(instrs, k, k + 1);
    assert(flatten(instrs).skip(end_of(instrs, k)) =~= instrs[k].bytes() + flatten(after));
    lemma_decode_encode(instrs[k], flatten(after));
}

} // verus!
