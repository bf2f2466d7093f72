//! What the code generator emits, as functions on sequences of bytes.
//!
//! A generator state is the code written so far, the depth of the operand
//! stack, the values that are still held in registers or known as
//! constants, and the open blocks. `step` says what one instruction does to
//! such a state, `run` what a body does, `function_code` what a whole
//! function comes to.

use crate::assembler::{
    ret_bytes, Add, Addressing, Call, Cmp, Je, Jmp, Mov, Movzx, Pop, Push, Register32,
    Register64, Register8, Sete, Sub,
};
use crate::runtime::error::Fault;
use crate::runtime::store::Store;
use crate::wasm::{BlockType, FuncType, Operator};
use vstd::prelude::*;

verus! {

/// A value at the top of the operand stack that has not been written to
/// memory yet.
#[derive(Debug, Clone, Copy, PartialEq, Eq, Structural)]
pub enum StackValue {
    /// A constant.
    Imm(i64),
    /// The content of a scratch register.
    Reg(Register64),
}

/// The deepest operand stack that is compiled. Eight times this number,
/// and the offset of every local slot, fit a 32-bit displacement.
pub const MAX_DEPTH: usize = 0x0fff_fff0;

/// The number of slots below the frame pointer that come before the locals.
pub const LOCAL_BASE_COUNT: u32 = 1;

/// The scratch registers, in the order in which they are handed out.
pub open spec fn scratch_pool() -> Seq<Register64> {
    seq![
        Register64::Rdi,
        Register64::Rsi,
        Register64::Rdx,
        Register64::Rcx,
        Register64::R8,
        Register64::R9,
        Register64::R10,
    ]
}

/// The deferred top of the operand stack, oldest value first, and the
/// scratch registers that are free.
pub struct StackModel {
    pub stack: Seq<StackValue>,
    pub unused_regs: Seq<Register64>,
}

/// An open block.
pub enum LabelModel {
    /// The function itself, with the sites of jumps to its end.
    FuncEnd { sites: Seq<usize> },
    /// A loop: reserved, never opened.
    LoopStart { start: usize, start_offset: usize, block_type: BlockType },
    /// An `if`: the sites of jumps that wait for a target, the depth below
    /// the block's parameters, the block's type, and the deferred values as
    /// they were when the block was entered, until `else` takes them.
    End {
        sites: Seq<usize>,
        start_offset: usize,
        block_type: BlockType,
        else_stack: Option<StackModel>,
    },
}

/// The state of the generator inside one function.
pub struct Gen {
    pub code: Seq<u8>,
    pub stack_count: usize,
    pub vstack: StackModel,
    pub labels: Seq<LabelModel>,
}

/// What is fixed while one function is compiled.
pub struct Target {
    /// The most bytes the code buffer holds.
    pub limit: usize,
    /// The address at which the function's own code starts.
    pub self_entry: u64,
    /// The address of the routine that calls another function by index.
    pub trampoline: u64,
    /// The index of the function.
    pub func_index: u32,
    /// The number of its parameters.
    pub params: usize,
    /// Where its code starts in the buffer: no jump is patched below.
    pub floor: usize,
}

/// The 32-bit signed number with the low 32 bits of `x`.
pub open spec fn wrap32(x: int) -> i32 {
    ((x + 0x8000_0000) % 0x1_0000_0000 - 0x8000_0000) as i32
}

/// The 64-bit signed number with the low 64 bits of `x`.
pub open spec fn wrap64(x: int) -> i64 {
    ((x + 0x8000_0000_0000_0000) % 0x1_0000_0000_0000_0000 - 0x8000_0000_0000_0000) as i64
}

/// Stores a register at the operand stack pointer `r11` and advances the
/// pointer by one slot.
pub open spec fn push_data_bytes(data: Register64) -> Seq<u8> {
    (Addressing { base: Register64::R11, offset: 0 }).mov_bytes(data) + Register64::R11.add_bytes(
        8i32,
    )
}

/// Takes the operand stack pointer `r11` back by one slot and loads the
/// slot into a register.
pub open spec fn pop_data_bytes(data: Register64) -> Seq<u8> {
    Register64::R11.add_bytes(-8i32) + data.mov_bytes(
        Addressing { base: Register64::R11, offset: 0 },
    )
}

/// Writes one deferred value to the operand stack in memory.
pub open spec fn spill_bytes(value: StackValue) -> Seq<u8> {
    match value {
        StackValue::Imm(n) => Register64::Rax.mov_bytes(n) + push_data_bytes(Register64::Rax),
        StackValue::Reg(reg) => push_data_bytes(reg),
    }
}

/// Writes all the given deferred values to memory, oldest first.
pub open spec fn flush_bytes(stack: Seq<StackValue>) -> Seq<u8>
    decreases stack.len(),
{
    if stack.len() == 0 {
        Seq::empty()
    } else {
        flush_bytes(stack.drop_last()) + spill_bytes(stack.last())
    }
}

/// The registers among the given deferred values, oldest first.
pub open spec fn stack_regs(stack: Seq<StackValue>) -> Seq<Register64>
    decreases stack.len(),
{
    if stack.len() == 0 {
        Seq::empty()
    } else {
        match stack.last() {
            StackValue::Reg(reg) => stack_regs(stack.drop_last()).push(reg),
            StackValue::Imm(_) => stack_regs(stack.drop_last()),
        }
    }
}

/// The position of the oldest deferred value that is held in a register,
/// or the length of the stack if there is none.
pub open spec fn first_reg(stack: Seq<StackValue>) -> int
    decreases stack.len(),
{
    if stack.len() == 0 {
        0
    } else if stack[0] is Reg {
        0
    } else {
        1 + first_reg(stack.drop_first())
    }
}

/// `code` followed by `bytes`, if the code buffer holds both.
pub open spec fn append(code: Seq<u8>, bytes: Seq<u8>, limit: usize) -> Result<Seq<u8>, Fault> {
    if code.len() + bytes.len() <= limit {
        Ok(code + bytes)
    } else {
        Err(Fault::CodeBufferOverflow)
    }
}

/// The state after `VartualStack::push_all`: every deferred value is written
/// to memory and every scratch register is free again.
pub open spec fn push_all(code: Seq<u8>, vstack: StackModel, limit: usize) -> Result<
    (Seq<u8>, StackModel),
    Fault,
> {
    match append(code, flush_bytes(vstack.stack), limit) {
        Err(fault) => Err(fault),
        Ok(code) => Ok(
            (
                code,
                StackModel {
                    stack: Seq::empty(),
                    unused_regs: vstack.unused_regs + stack_regs(vstack.stack),
                },
            ),
        ),
    }
}

/// The state after `VartualStack::get_unused_reg`, and the register it
/// hands out: the first free one, or else the one that holds the oldest
/// deferred register value, once that value and the constants below it are
/// written to memory. With no free register and none in use there is
/// nothing to hand out.
pub open spec fn get_unused_reg(code: Seq<u8>, vstack: StackModel, limit: usize) -> Result<
    (Seq<u8>, StackModel, Register64),
    Fault,
> {
    if vstack.unused_regs.len() > 0 {
        Ok(
            (
                code,
                StackModel { stack: vstack.stack, unused_regs: vstack.unused_regs.drop_first() },
                vstack.unused_regs[0],
            ),
        )
    } else {
        let k = first_reg(vstack.stack);
        if k >= vstack.stack.len() {
            Err(Fault::UnsupportedBlockShape)
        } else {
            match append(code, flush_bytes(vstack.stack.take(k + 1)), limit) {
                Err(fault) => Err(fault),
                Ok(code) => Ok(
                    (
                        code,
                        StackModel {
                            stack: vstack.stack.skip(k + 1),
                            unused_regs: vstack.unused_regs,
                        },
                        vstack.stack[k]->Reg_0,
                    ),
                ),
            }
        }
    }
}

/// The state after `VartualStack::pop_value`, and the value it yields: the
/// newest deferred value, or else the top slot of the operand stack in
/// memory, loaded into a register.
pub open spec fn pop_value(code: Seq<u8>, vstack: StackModel, limit: usize) -> Result<
    (Seq<u8>, StackModel, StackValue),
    Fault,
> {
    if vstack.stack.len() > 0 {
        Ok(
            (
                code,
                StackModel { stack: vstack.stack.drop_last(), unused_regs: vstack.unused_regs },
                vstack.stack.last(),
            ),
        )
    } else {
        match get_unused_reg(code, vstack, limit) {
            Err(fault) => Err(fault),
            Ok((code, vstack, reg)) => match append(code, pop_data_bytes(reg), limit) {
                Err(fault) => Err(fault),
                Ok(code) => Ok((code, vstack, StackValue::Reg(reg))),
            },
        }
    }
}


/// The three binary operations, each at two widths.
#[derive(Debug, Clone, Copy, PartialEq, Eq, Structural)]
pub enum BinaryOp {
    Add,
    Sub,
    Eq,
}

/// The result of a binary operation on two constants: 64-bit wrapping
/// arithmetic when `wide`, else 32-bit wrapping arithmetic on the low
/// halves, sign-extended; a comparison gives 1 or 0.
pub open spec fn fold(op: BinaryOp, wide: bool, a: i64, b: i64) -> i64 {
    if wide {
        match op {
            BinaryOp::Add => wrap64(a + b),
            BinaryOp::Sub => wrap64(a - b),
            BinaryOp::Eq => if a == b {
                1
            } else {
                0
            },
        }
    } else {
        let x = wrap32(a as int);
        let y = wrap32(b as int);
        match op {
            BinaryOp::Add => wrap32(x + y) as i64,
            BinaryOp::Sub => wrap32(x - y) as i64,
            BinaryOp::Eq => if x == y {
                1
            } else {
                0
            },
        }
    }
}

/// `mov dst, src` at the given width.
pub open spec fn move_bytes(wide: bool, dst: Register64, src: Register64) -> Seq<u8> {
    if wide {
        dst.mov_bytes(src)
    } else {
        dst.low32().mov_bytes(src.low32())
    }
}

/// Loads a constant into the accumulator `rax` at the given width.
pub open spec fn load_imm_bytes(wide: bool, n: i64) -> Seq<u8> {
    if wide {
        Register64::Rax.mov_bytes(n)
    } else {
        Register32::Eax.mov_bytes(wrap32(n as int))
    }
}

/// Sets `dst` to 1 if `dst` equals `src` at the given width, else to 0:
/// compare, take the zero flag into `al`, widen it, move it to `dst`.
pub open spec fn equal_bytes(wide: bool, dst: Register64, src: Register64) -> Seq<u8> {
    (if wide {
        dst.cmp_bytes(src)
    } else {
        dst.low32().cmp_bytes(src.low32())
    }) + Register8::Al.sete_bytes() + Register32::Eax.movzx_bytes(Register8::Al) + move_bytes(
        wide,
        dst,
        Register64::Rax,
    )
}

/// The operation `dst := dst op src` on two registers.
pub open spec fn reg_reg_bytes(op: BinaryOp, wide: bool, dst: Register64, src: Register64) -> Seq<
    u8,
> {
    match op {
        BinaryOp::Add => if wide {
            dst.add_bytes(src)
        } else {
            dst.low32().add_bytes(src.low32())
        },
        BinaryOp::Sub => if wide {
            dst.sub_bytes(src)
        } else {
            dst.low32().sub_bytes(src.low32())
        },
        BinaryOp::Eq => equal_bytes(wide, dst, src),
    }
}

/// What a binary operation does with its operands `first op second`: the
/// code it emits, the value it leaves on top of the deferred stack, and the
/// register it frees, if any. Two constants are folded; a constant beside a
/// register goes through `rax`.
pub open spec fn combine(op: BinaryOp, wide: bool, first: StackValue, second: StackValue) -> (
    Seq<u8>,
    StackValue,
    Option<Register64>,
) {
    match (first, second) {
        (StackValue::Imm(a), StackValue::Imm(b)) => (
            Seq::empty(),
            StackValue::Imm(fold(op, wide, a, b)),
            None,
        ),
        (StackValue::Reg(r1), StackValue::Reg(r2)) => (
            reg_reg_bytes(op, wide, r1, r2),
            StackValue::Reg(r1),
            Some(r2),
        ),
        (StackValue::Reg(reg), StackValue::Imm(n)) => (
            load_imm_bytes(wide, n) + reg_reg_bytes(op, wide, reg, Register64::Rax),
            StackValue::Reg(reg),
            None,
        ),
        (StackValue::Imm(n), StackValue::Reg(reg)) => (
            if op == BinaryOp::Sub {
                load_imm_bytes(wide, n) + reg_reg_bytes(op, wide, Register64::Rax, reg)
                    + move_bytes(wide, reg, Register64::Rax)
            } else {
                load_imm_bytes(wide, n) + reg_reg_bytes(op, wide, reg, Register64::Rax)
            },
            StackValue::Reg(reg),
            None,
        ),
    }
}

/// The state after a binary operation: two values leave the operand stack
/// and one comes.
pub open spec fn binary(g: Gen, t: Target, op: BinaryOp, wide: bool) -> Result<Gen, Fault> {
    if g.stack_count < 2 {
        Err(Fault::UnsupportedBlockShape)
    } else {
        match pop_value(g.code, g.vstack, t.limit) {
            Err(fault) => Err(fault),
            Ok((code, vstack, second)) => match pop_value(code, vstack, t.limit) {
                Err(fault) => Err(fault),
                Ok((code, vstack, first)) => {
                    let (bytes, value, freed) = combine(op, wide, first, second);
                    match append(code, bytes, t.limit) {
                        Err(fault) => Err(fault),
                        Ok(code) => Ok(
                            Gen {
                                code,
                                stack_count: (g.stack_count - 1) as usize,
                                vstack: StackModel {
                                    stack: vstack.stack.push(value),
                                    unused_regs: match freed {
                                        Some(reg) => vstack.unused_regs.push(reg),
                                        None => vstack.unused_regs,
                                    },
                                },
                                labels: g.labels,
                            },
                        ),
                    }
                },
            },
        }
    }
}

/// The state after a constant: it is deferred, and no code is emitted.
pub open spec fn constant(g: Gen, n: i64) -> Result<Gen, Fault> {
    if g.stack_count >= MAX_DEPTH {
        Err(Fault::UnsupportedBlockShape)
    } else {
        Ok(
            Gen {
                stack_count: (g.stack_count + 1) as usize,
                vstack: StackModel {
                    stack: g.vstack.stack.push(StackValue::Imm(n)),
                    unused_regs: g.vstack.unused_regs,
                },
                ..g
            },
        )
    }
}

/// The distance below the frame pointer of the slot of a local.
pub open spec fn local_offset(local_index: u32) -> int {
    8 * (LOCAL_BASE_COUNT + 1) + 8 * local_index
}

/// The state after `local.get`: the slot of the local is loaded into a
/// scratch register. Only parameters are locals.
pub open spec fn local_get(g: Gen, t: Target, local_index: u32) -> Result<Gen, Fault> {
    if local_index >= t.params || t.params > MAX_DEPTH {
        Err(Fault::UnsupportedInstruction("local.get"@))
    } else if g.stack_count >= MAX_DEPTH {
        Err(Fault::UnsupportedBlockShape)
    } else {
        match get_unused_reg(g.code, g.vstack, t.limit) {
            Err(fault) => Err(fault),
            Ok((code, vstack, reg)) => match append(
                code,
                reg.mov_bytes(
                    Addressing { base: Register64::Rbp, offset: (-local_offset(local_index)) as i32 },
                ),
                t.limit,
            ) {
                Err(fault) => Err(fault),
                Ok(code) => Ok(
                    Gen {
                        code,
                        stack_count: (g.stack_count + 1) as usize,
                        vstack: StackModel {
                            stack: vstack.stack.push(StackValue::Reg(reg)),
                            unused_regs: vstack.unused_regs,
                        },
                        labels: g.labels,
                    },
                ),
            },
        }
    }
}

/// The number of values a block takes from the operand stack.
pub open spec fn arity_in(store: Store, block_type: BlockType) -> Result<nat, Fault> {
    match block_type {
        BlockType::FuncType(n) => match store.block_type_of(n) {
            Ok(ty) => Ok(ty.params@.len()),
            Err(fault) => Err(fault),
        },
        _ => Ok(0),
    }
}

/// The number of values a block leaves on the operand stack.
pub open spec fn arity_out(store: Store, block_type: BlockType) -> Result<nat, Fault> {
    match block_type {
        BlockType::FuncType(n) => match store.block_type_of(n) {
            Ok(ty) => Ok(ty.results@.len()),
            Err(fault) => Err(fault),
        },
        BlockType::Type(_) => Ok(1),
        BlockType::Empty => Ok(0),
    }
}

/// The test of an `if`: compares the condition with zero and jumps if it
/// is zero, to a target that is filled in later.
pub open spec fn test_bytes(condition: StackValue) -> Seq<u8> {
    match condition {
        StackValue::Imm(n) => load_imm_bytes(false, n) + Register32::Eax.cmp_bytes(0i32)
            + 0i32.je_bytes(),
        StackValue::Reg(reg) => reg.low32().cmp_bytes(0i32) + 0i32.je_bytes(),
    }
}

/// The state after `if`: the condition leaves the operand stack, what is
/// deferred below it is written to memory, so that it stands there on
/// whichever path the block is left, the test is emitted, and a block is
/// opened that waits for the target of the test.
pub open spec fn open_if(g: Gen, t: Target, store: Store, block_type: BlockType) -> Result<
    Gen,
    Fault,
> {
    match arity_in(store, block_type) {
        Err(fault) => Err(fault),
        Ok(taken) => if g.stack_count < 1 + taken {
            Err(Fault::UnsupportedBlockShape)
        } else {
            match pop_value(g.code, g.vstack, t.limit) {
                Err(fault) => Err(fault),
                Ok((code, vstack, condition)) => match push_all(code, vstack, t.limit) {
                    Err(fault) => Err(fault),
                    Ok((code, vstack)) => match append(code, test_bytes(condition), t.limit) {
                        Err(fault) => Err(fault),
                        Ok(code) => {
                            let vstack = StackModel {
                                stack: vstack.stack,
                                unused_regs: match condition {
                                    StackValue::Reg(reg) => vstack.unused_regs.push(reg),
                                    StackValue::Imm(_) => vstack.unused_regs,
                                },
                            };
                            Ok(
                                Gen {
                                    code,
                                    stack_count: (g.stack_count - 1) as usize,
                                    vstack,
                                    labels: g.labels.push(
                                        LabelModel::End {
                                            sites: seq![code.len() as usize],
                                            start_offset: (g.stack_count - 1 - taken) as usize,
                                            block_type,
                                            else_stack: Some(vstack),
                                        },
                                    ),
                                },
                            )
                        },
                    },
                },
            }
        },
    }
}

/// The code with the jump that ends at `site` aimed at `target`, the end of
/// the code. A site outside the function's own code is not patched.
pub open spec fn patch_one(code: Seq<u8>, site: usize, target: usize, floor: usize) -> Result<
    Seq<u8>,
    Fault,
> {
    if floor + 4 <= site <= target && target == code.len() {
        Ok(crate::compiler::patched(code, site, target))
    } else {
        Err(Fault::UnsupportedBlockShape)
    }
}

/// The code with every jump of `sites` aimed at `target`.
pub open spec fn patch_all(code: Seq<u8>, sites: Seq<usize>, target: usize, floor: usize) -> Result<
    Seq<u8>,
    Fault,
>
    decreases sites.len(),
{
    if sites.len() == 0 {
        Ok(code)
    } else {
        match patch_all(code, sites.drop_last(), target, floor) {
            Err(fault) => Err(fault),
            Ok(code) => patch_one(code, sites.last(), target, floor),
        }
    }
}

/// `unit` written `n` times.
pub open spec fn repeat(unit: Seq<u8>, n: nat) -> Seq<u8>
    decreases n,
{
    if n == 0 {
        Seq::empty()
    } else {
        repeat(unit, (n - 1) as nat) + unit
    }
}

/// Copies the slot at `offset` from the operand stack pointer to the top of
/// the operand stack.
pub open spec fn copy_slot_bytes(offset: i32) -> Seq<u8> {
    Register64::Rax.mov_bytes(Addressing { base: Register64::R11, offset }) + push_data_bytes(
        Register64::Rax,
    )
}

/// Moves the top `results` of `have` values down to where the first of the
/// `have` values stands, and leaves the operand stack pointer behind them.
pub open spec fn move_results_bytes(have: nat, results: nat) -> Seq<u8> {
    Register64::R11.add_bytes((-8 * have) as i32) + repeat(
        copy_slot_bytes((8 * (have - results)) as i32),
        results,
    )
}

/// The state after `else`: the deferred values of the first arm are
/// written to memory, the first arm jumps to the end of the block, the
/// test of the `if` is aimed at the second arm, and the second arm starts
/// from the depth and the free registers with which the first one started.
pub open spec fn open_else(g: Gen, t: Target) -> Result<Gen, Fault> {
    match g.labels.last() {
        LabelModel::End { sites, start_offset, block_type, else_stack: Some(saved) } => {
            if sites.len() == 0 {
                Err(Fault::UnsupportedBlockShape)
            } else {
                match push_all(g.code, g.vstack, t.limit) {
                    Err(fault) => Err(fault),
                    Ok((code, _)) => match append(code, 0i32.jmp_bytes(), t.limit) {
                        Err(fault) => Err(fault),
                        Ok(code) => match patch_one(code, sites[0], code.len() as usize, t.floor) {
                            Err(fault) => Err(fault),
                            Ok(patched) => Ok(
                                Gen {
                                    code: patched,
                                    stack_count: start_offset,
                                    vstack: saved,
                                    labels: g.labels.drop_last().push(
                                        LabelModel::End {
                                            sites: sites.drop_first().push(code.len() as usize),
                                            start_offset,
                                            block_type,
                                            else_stack: None,
                                        },
                                    ),
                                },
                            ),
                        },
                    },
                }
            }
        },
        _ => Err(Fault::UnsupportedBlockShape),
    }
}

/// The state after `end`. For an `if`: the deferred values are written to
/// memory, every waiting jump is aimed here, and if the block leaves more
/// on the operand stack than its results, the results are moved down to the
/// block's base. For the function: every waiting jump is aimed here.
pub open spec fn close(g: Gen, t: Target, store: Store) -> Result<Gen, Fault> {
    match g.labels.last() {
        LabelModel::End { sites, start_offset, block_type, .. } => match arity_out(
            store,
            block_type,
        ) {
            Err(fault) => Err(fault),
            Ok(results) => if g.stack_count < start_offset + results || g.stack_count
                > MAX_DEPTH {
                Err(Fault::UnsupportedBlockShape)
            } else {
                match push_all(g.code, g.vstack, t.limit) {
                    Err(fault) => Err(fault),
                    Ok((code, vstack)) => match patch_all(
                        code,
                        sites,
                        code.len() as usize,
                        t.floor,
                    ) {
                        Err(fault) => Err(fault),
                        Ok(code) => {
                            let have = (g.stack_count - start_offset) as nat;
                            match append(
                                code,
                                if have == results {
                                    Seq::empty()
                                } else {
                                    move_results_bytes(have, results)
                                },
                                t.limit,
                            ) {
                                Err(fault) => Err(fault),
                                Ok(code) => Ok(
                                    Gen {
                                        code,
                                        stack_count: (start_offset + results) as usize,
                                        vstack,
                                        labels: g.labels.drop_last(),
                                    },
                                ),
                            }
                        },
                    },
                }
            },
        },
        LabelModel::FuncEnd { sites } => match patch_all(
            g.code,
            sites,
            g.code.len() as usize,
            t.floor,
        ) {
            Err(fault) => Err(fault),
            Ok(code) => Ok(Gen { code, labels: g.labels.drop_last(), ..g }),
        },
        LabelModel::LoopStart { .. } => Err(Fault::UnsupportedBlockShape),
    }
}

/// The signed number with the same 32 bits as `x`.
pub open spec fn index_imm(x: u32) -> i32 {
    if x >= 0x8000_0000 {
        (x - 0x1_0000_0000) as i32
    } else {
        x as i32
    }
}

/// The signed number with the same 64 bits as `x`.
pub open spec fn address_imm(x: u64) -> i64 {
    if x >= 0x8000_0000_0000_0000 {
        (x - 0x1_0000_0000_0000_0000) as i64
    } else {
        x as i64
    }
}

/// Leaves the function: the frame is taken down and control returns with
/// `rax` as it is.
pub open spec fn leave_bytes() -> Seq<u8> {
    Register64::Rsp.mov_bytes(Register64::Rbp) + Register64::Rbp.pop_bytes() + ret_bytes()
}

/// After a call: if `rax` holds an error handle, the function returns
/// with that handle; if it holds zero, control goes on.
pub open spec fn propagate_bytes() -> Seq<u8> {
    Register64::R10.mov_bytes(0i64) + Register64::Rax.cmp_bytes(Register64::R10) + 5i32.je_bytes()
        + leave_bytes()
}

/// A call by index: the runtime pointer and the operand stack pointer are
/// the two arguments, the index the third; the function's own entry is
/// called directly, any other function through the trampoline. The operand
/// stack pointer is kept across the call and then moved over the
/// arguments and the results.
pub open spec fn call_bytes(t: Target, function_index: u32, args: nat, results: nat) -> Seq<u8> {
    Register64::Rdi.mov_bytes(Addressing { base: Register64::Rbp, offset: -8i32 })
        + Register64::Rsi.mov_bytes(Register64::R11) + Register32::Edx.mov_bytes(
        index_imm(function_index),
    ) + Register64::R10.mov_bytes(
        address_imm(
            if function_index == t.func_index {
                t.self_entry
            } else {
                t.trampoline
            },
        ),
    ) + Register64::R11.push_bytes() + Register64::R10.call_bytes() + Register64::R11.pop_bytes()
        + propagate_bytes() + Register64::R11.add_bytes((8 * (results - args)) as i32)
}

/// The state after `call`: the deferred values are written to memory, the
/// call is emitted, and the callee's parameters give way to its results.
pub open spec fn call(g: Gen, t: Target, store: Store, function_index: u32) -> Result<Gen, Fault> {
    match store.func_type_of(function_index) {
        Err(fault) => Err(fault),
        Ok(ty) => {
            let args = ty.params@.len();
            let results = ty.results@.len();
            if g.stack_count < args || g.stack_count > MAX_DEPTH || g.stack_count - args + results
                > MAX_DEPTH {
                Err(Fault::UnsupportedBlockShape)
            } else {
                match push_all(g.code, g.vstack, t.limit) {
                    Err(fault) => Err(fault),
                    Ok((code, vstack)) => match append(
                        code,
                        call_bytes(t, function_index, args, results),
                        t.limit,
                    ) {
                        Err(fault) => Err(fault),
                        Ok(code) => Ok(
                            Gen {
                                code,
                                stack_count: (g.stack_count - args + results) as usize,
                                vstack,
                                labels: g.labels,
                            },
                        ),
                    },
                }
            }
        },
    }
}

/// The state after one instruction. Once the function's own block is
/// closed, nothing more is compiled.
#[verifier::opaque]
pub open spec fn step(g: Gen, t: Target, store: Store, op: Operator) -> Result<Gen, Fault> {
    if g.labels.len() == 0 {
        Err(Fault::UnsupportedBlockShape)
    } else {
        match op {
            Operator::LocalGet { local_index } => local_get(g, t, local_index),
            Operator::I32Const { value } => constant(g, value as i64),
            Operator::I64Const { value } => constant(g, value),
            Operator::I32Add => binary(g, t, BinaryOp::Add, false),
            Operator::I64Add => binary(g, t, BinaryOp::Add, true),
            Operator::I32Sub => binary(g, t, BinaryOp::Sub, false),
            Operator::I64Sub => binary(g, t, BinaryOp::Sub, true),
            Operator::I32Eq => binary(g, t, BinaryOp::Eq, false),
            Operator::I64Eq => binary(g, t, BinaryOp::Eq, true),
            Operator::If { blockty } => open_if(g, t, store, blockty),
            Operator::Else => open_else(g, t),
            Operator::End => close(g, t, store),
            Operator::Call { function_index } => call(g, t, store, function_index),
            Operator::Unsupported(name) => Err(Fault::UnsupportedInstruction(name@)),
        }
    }
}

/// The state after a sequence of instructions, or the first failure.
pub open spec fn run(g: Gen, t: Target, store: Store, ops: Seq<Operator>) -> Result<Gen, Fault>
    decreases ops.len(),
{
    if ops.len() == 0 {
        Ok(g)
    } else {
        match run(g, t, store, ops.drop_last()) {
            Err(fault) => Err(fault),
            Ok(g) => step(g, t, store, ops.last()),
        }
    }
}

/// Copies the `n` arguments from below the operand stack pointer to the
/// local slots: the first argument is pushed first.
pub open spec fn copy_args_bytes(n: nat) -> Seq<u8>
    decreases n,
{
    if n == 0 {
        Seq::empty()
    } else {
        Register64::Rax.mov_bytes(Addressing { base: Register64::R11, offset: (-8 * n) as i32 })
            + Register64::Rax.push_bytes() + copy_args_bytes((n - 1) as nat)
    }
}

/// The start of a function with `n` parameters: the frame is set up, the
/// runtime pointer is saved, `r11` becomes the operand stack pointer, the
/// arguments become locals and leave the operand stack, and the host stack
/// is brought to an alignment of sixteen bytes at every call.
pub open spec fn prologue_bytes(n: nat) -> Seq<u8> {
    Register64::Rbp.push_bytes() + Register64::Rbp.mov_bytes(Register64::Rsp)
        + Register64::Rdi.push_bytes() + Register64::R11.mov_bytes(Register64::Rsi)
        + copy_args_bytes(n) + Register64::R11.add_bytes((-8 * n) as i32) + (if n % 2 == 1 {
        Register64::Rsp.add_bytes(-8i32)
    } else {
        Seq::empty()
    })
}

/// The end of a function: success is reported in `rax`, the frame is taken
/// down and control returns.
pub open spec fn epilogue_bytes() -> Seq<u8> {
    Register64::Rax.mov_bytes(0i64) + leave_bytes()
}

/// The state in which the body of a function is entered.
pub open spec fn entry_state(code: Seq<u8>) -> Gen {
    Gen {
        code,
        stack_count: 0,
        vstack: StackModel { stack: Seq::empty(), unused_regs: scratch_pool() },
        labels: seq![LabelModel::FuncEnd { sites: Seq::empty() }],
    }
}

/// What is fixed while the function `index` is written behind `code` in
/// a buffer of `limit` bytes at the address `base`.
pub open spec fn target_of(
    code: Seq<u8>,
    limit: usize,
    base: u64,
    trampoline: u64,
    index: u32,
    ty: FuncType,
) -> Target {
    Target {
        limit,
        self_entry: (base + code.len()) as u64,
        trampoline,
        func_index: index,
        params: ty.params@.len() as usize,
        floor: code.len() as usize,
    }
}

/// The end of a function after its body: the values that are still
/// deferred are written to memory, the results are moved to where the
/// arguments stood unless they stand there already, and the epilogue
/// follows.
pub open spec fn finish(g: Gen, t: Target, results: nat) -> Result<Seq<u8>, Fault> {
    if g.labels.len() != 0 {
        Err(Fault::UnsupportedBlockShape)
    } else if results != 0 && results != g.stack_count && (g.stack_count < results
        || g.stack_count > MAX_DEPTH) {
        Err(Fault::UnsupportedBlockShape)
    } else {
        match push_all(g.code, g.vstack, t.limit) {
            Err(fault) => Err(fault),
            Ok((code, _)) => append(
                code,
                (if results != 0 && results != g.stack_count {
                    move_results_bytes(g.stack_count as nat, results)
                } else {
                    Seq::empty()
                }) + epilogue_bytes(),
                t.limit,
            ),
        }
    }
}

/// The code buffer after the function `index` of `store` is written behind
/// `code`, or why it cannot be written. A function with declared locals, or
/// with more parameters than the deepest operand stack, is not compiled.
pub open spec fn function_code(
    store: Store,
    code: Seq<u8>,
    limit: usize,
    base: u64,
    trampoline: u64,
    index: u32,
) -> Result<Seq<u8>, Fault> {
    match store.code_of(index) {
        Err(fault) => Err(fault),
        Ok(func) => match store.func_type_of(index) {
            Err(fault) => Err(fault),
            Ok(ty) => if ty.params@.len() > MAX_DEPTH || func.locals@.len() != 0 {
                Err(Fault::UnsupportedBlockShape)
            } else {
                let t = target_of(code, limit, base, trampoline, index, ty);
                match append(code, prologue_bytes(ty.params@.len()), limit) {
                    Err(fault) => Err(fault),
                    Ok(start) => match run(entry_state(start), t, store, func.body@) {
                        Err(fault) => Err(fault),
                        Ok(g) => finish(g, t, ty.results@.len()),
                    },
                }
            },
        },
    }
}

} // verus!
