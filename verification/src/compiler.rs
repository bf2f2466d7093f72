//! The code generator: one pass over a function body, from instructions
//! to machine code, with the code buffer and the function cache it fills.
//!
//! `model` says what is emitted, byte for byte. The other modules say what
//! holds of it: `laws` that the depth of the operand stack is kept, that a
//! closed block leaves no jump without a target and that installed code
//! never changes; `registers` that no scratch register is lost or used
//! twice; `listing` that the code of a function is a list of instructions
//! that can be read back.

mod emit;
pub mod laws;
pub mod listing;
pub mod model;
pub mod registers;

use crate::assembler::{imm32, imm32_bytes, Add, Jmp, Mov, Register64};
use crate::compiler::emit::{
    call_code, combine_code, epilogue, move_results, prologue, spill, test_code,
};
use crate::compiler::model::{
    append, binary, call, close, constant, entry_state, finish, first_reg, flush_bytes,
    function_code, get_unused_reg, local_get, local_offset, open_else, open_if, patch_all,
    pop_data_bytes, pop_value, push_all, push_data_bytes, run, scratch_pool, spill_bytes,
    stack_regs, step, target_of, BinaryOp, Gen, LabelModel, StackModel, StackValue, Target,
    LOCAL_BASE_COUNT, MAX_DEPTH,
};
use crate::runtime::error::{Fault, RuntimeError};
use crate::runtime::store::Store;
use crate::wasm::{BlockType, Func, Operator};
use fxhash::FxHashMap;
use std::collections::VecDeque;
use vstd::prelude::*;
use vstd::string::StringExecFns;

verus! {

/// `fxhash::FxHasher`, the hasher of the function cache. It is declared so
/// that the type of the cache can be named; nothing is said of it. The map
/// that is built on it is used through the three functions below only.
#[verifier::external_type_specification]
#[verifier::external_body]
pub struct ExFxHasher(fxhash::FxHasher);

/// `std::hash::BuildHasherDefault`, which makes the hasher of a map by
/// `Default`. It is declared so that the type of the cache can be named;
/// nothing is said of it.
#[verifier::reject_recursive_types(H)]
#[verifier::external_type_specification]
#[verifier::external_body]
pub struct ExBuildHasherDefault<H>(std::hash::BuildHasherDefault<H>);

/// `FxHashMap::default`, which is `HashMap::default` with the Fx hasher:
/// a map without entries.
#[verifier::external_body]
fn cache_new() -> (cache: FxHashMap<u32, u64>)
    ensures
        forall|index: u32| !cache@.contains_key(index),
{
    FxHashMap::default()
}

/// `HashMap::get` on the function cache, and `Option::copied` on what it
/// finds: the value stored under `index`, if there is one. The Fx hasher
/// starts from a fixed state and hashes nothing but the key, so a key is
/// found by the hash under which it was stored.
#[verifier::external_body]
fn cache_get(cache: &FxHashMap<u32, u64>, index: u32) -> (entry: Option<u64>)
    ensures
        entry == (if cache@.contains_key(index) {
            Some(cache@[index])
        } else {
            None
        }),
{
    cache.get(&index).copied()
}

/// `HashMap::insert` on the function cache: afterwards `index` maps to
/// `entry` and every other key is as before. What was stored under
/// `index` before is dropped.
#[verifier::external_body]
fn cache_insert(cache: &mut FxHashMap<u32, u64>, index: u32, entry: u64)
    ensures
        final(cache)@ == old(cache)@.insert(index, entry),
{
    cache.insert(index, entry);
}

/// The code buffer and the function cache.
///
/// The buffer stands for a region of memory of `capacity` bytes at the
/// address `base`: byte `i` of the code is the byte at `base + i`. Code is
/// only ever added at the end, one function after the other.
pub struct Compiler {
    code: Vec<u8>,
    base: u64,
    capacity: usize,
    func_start: usize,
    trampoline: u64,
    func_cache: FxHashMap<u32, u64>,
}

/// A `Compiler` as contracts speak of it.
pub struct CompilerModel {
    /// The machine code written so far.
    pub code: Seq<u8>,
    /// The address of the first byte of the code.
    pub base: u64,
    /// The most bytes the buffer holds.
    pub capacity: usize,
    /// Where the next function starts: the length of the code of the
    /// functions that are installed.
    pub func_start: usize,
    /// The address that compiled code calls to reach another function.
    pub trampoline: u64,
    /// The entry address of each installed function, by its index.
    pub cache: Map<u32, u64>,
}

/// The largest code buffer: every distance within it fits the 32-bit
/// displacement of a jump.
pub const MAX_CAPACITY: usize = 0x7fff_ffff;

impl View for Compiler {
    type V = CompilerModel;

    closed spec fn view(&self) -> CompilerModel {
        CompilerModel {
            code: self.code@,
            base: self.base,
            capacity: self.capacity,
            func_start: self.func_start,
            trampoline: self.trampoline,
            cache: self.func_cache@,
        }
    }
}

impl CompilerModel {
    /// What holds of every `Compiler`: the code fits the buffer, the buffer
    /// fits the address space and the reach of a jump, and the next function
    /// starts within the code.
    pub open spec fn wf(self) -> bool {
        &&& self.func_start <= self.code.len() <= self.capacity <= MAX_CAPACITY
        &&& self.base + self.capacity <= u64::MAX
    }

    /// Whether this is the buffer `before` with nothing changed but the code
    /// of the function that is being written.
    pub open spec fn keeps(self, before: CompilerModel) -> bool {
        &&& self.wf()
        &&& self.base == before.base
        &&& self.capacity == before.capacity
        &&& self.func_start == before.func_start
        &&& self.trampoline == before.trampoline
        &&& self.cache == before.cache
        &&& self.code.subrange(0, self.func_start as int) == before.code.subrange(
            0,
            before.func_start as int,
        )
    }

    /// The code of the installed functions: what stands before the next
    /// function's start.
    pub open spec fn installed(self) -> Seq<u8> {
        self.code.take(self.func_start as int)
    }

    /// The code buffer after the function `index` of `store` is written
    /// behind the installed functions, or why it cannot be written.
    pub open spec fn compiled(self, store: Store, index: u32) -> Result<
        Seq<u8>,
        Fault,
    > {
        function_code(store, self.installed(), self.capacity, self.base, self.trampoline, index)
    }

    /// The same buffer with other code in it.
    pub open spec fn with_code(self, code: Seq<u8>) -> CompilerModel {
        CompilerModel { code, ..self }
    }
}

/// Replaces the four bytes before `site` by the distance from `site` to
/// `target`: the displacement of a jump that ends at `site`.
pub open spec fn patched(code: Seq<u8>, site: usize, target: usize) -> Seq<u8> {
    code.subrange(0, site - 4) + imm32_bytes((target - site) as i32) + code.subrange(
        site as int,
        code.len() as int,
    )
}

impl Compiler {
    /// Appends machine code, if the buffer has room for all of it.
    pub(crate) fn push_code(&mut self, code: &[u8]) -> (done: Result<(), RuntimeError>)
        requires
            old(self)@.wf(),
        ensures
            final(self)@.wf(),
            final(self)@.keeps(old(self)@),
            match append(old(self)@.code, code@, old(self)@.capacity) {
                Ok(code) => done is Ok && final(self)@ == old(self)@.with_code(code),
                Err(fault) => done is Err && done->Err_0@ == fault && final(self)@ == old(self)@,
            },
    {
        if code.len() > self.capacity - self.code.len() {
            return Err(RuntimeError::CodeBufferOverflow);
        }
        let mut i: usize = 0;
        while i < code.len()
            invariant
                i <= code.len(),
                old(self)@.code.len() + code.len() <= self.capacity,
                self@ == old(self)@.with_code(old(self)@.code + code@.take(i as int)),
                self@.wf(),
            decreases code.len() - i,
        {
            self.code.push(code[i]);
            i += 1;
            assert(self@.code =~= old(self)@.code + code@.take(i as int));
        }
        assert(code@.take(i as int) =~= code@);
        assert(self@.code.subrange(0, self@.func_start as int) =~= old(self)@.code.subrange(
            0,
            self@.func_start as int,
        ));
        Ok(())
    }

    /// Writes the displacement of the jump that ends at `site`, so that it
    /// lands on `target`.
    pub(crate) fn write_i32(&mut self, site: usize, target: usize)
        requires
            old(self)@.wf(),
            4 <= site <= target <= old(self)@.code.len(),
        ensures
            final(self)@.wf(),
            final(self)@ == old(self)@.with_code(patched(old(self)@.code, site, target)),
    {
        let bytes = imm32((target - site) as i32);
        let mut i: usize = 0;
        while i < 4
            invariant
                i <= 4,
                4 <= site <= target <= self@.code.len(),
                bytes@ == imm32_bytes((target - site) as i32),
                self@.code.len() == old(self)@.code.len(),
                self@ == old(self)@.with_code(self@.code),
                self@.wf(),
                forall|k: int|
                    0 <= k < self@.code.len() ==> self@.code[k] == (if site - 4 <= k < site - 4
                        + i {
                        bytes@[k - (site - 4)]
                    } else {
                        old(self)@.code[k]
                    }),
            decreases 4 - i,
        {
            self.code.set(site - 4 + i, bytes[i]);
            i += 1;
        }
        assert(self@.code =~= patched(old(self)@.code, site, target));
    }

    /// The code that stores a register on the operand stack.
    pub(crate) fn push_data(data: Register64) -> (code: Vec<u8>)
        ensures
            code@ == push_data_bytes(data),
    {
        let mut code = Register64::R11.to_mem().mov(data);
        let mut tail = Register64::R11.add(8i32);
        code.append(&mut tail);
        code
    }

    /// The code that loads a register from the operand stack.
    pub(crate) fn pop_data(data: Register64) -> (code: Vec<u8>)
        ensures
            code@ == pop_data_bytes(data),
    {
        let mut code = Register64::R11.add(-8i32);
        let mut tail = data.mov(Register64::R11.to_mem());
        code.append(&mut tail);
        code
    }
}

/// The deferred top of the operand stack and the free scratch registers.
#[derive(Debug)]
pub struct VartualStack {
    stack: VecDeque<StackValue>,
    unused_regs: VecDeque<Register64>,
}

impl View for VartualStack {
    type V = StackModel;

    closed spec fn view(&self) -> StackModel {
        StackModel { stack: self.stack@, unused_regs: self.unused_regs@ }
    }
}

/// Writing one more value after the others.
pub proof fn lemma_flush_push(stack: Seq<StackValue>, value: StackValue)
    ensures
        flush_bytes(stack.push(value)) == flush_bytes(stack) + spill_bytes(value),
        stack_regs(stack.push(value)) == (match value {
            StackValue::Reg(reg) => stack_regs(stack).push(reg),
            StackValue::Imm(_) => stack_regs(stack),
        }),
{
    assert(stack.push(value).drop_last() =~= stack);
}

impl VartualStack {
    /// Nothing deferred, every scratch register free.
    pub fn new() -> (vstack: VartualStack)
        ensures
            vstack@ == (StackModel { stack: Seq::empty(), unused_regs: scratch_pool() }),
    {
        let mut unused_regs: VecDeque<Register64> = VecDeque::new();
        unused_regs.push_back(Register64::Rdi);
        unused_regs.push_back(Register64::Rsi);
        unused_regs.push_back(Register64::Rdx);
        unused_regs.push_back(Register64::Rcx);
        unused_regs.push_back(Register64::R8);
        unused_regs.push_back(Register64::R9);
        unused_regs.push_back(Register64::R10);
        let vstack = VartualStack { stack: VecDeque::new(), unused_regs };
        assert(vstack@.stack =~= Seq::empty());
        assert(vstack@.unused_regs =~= scratch_pool());
        vstack
    }

    /// A copy of the deferred values and the free registers.
    pub(crate) fn snapshot(&self) -> (copy: VartualStack)
        ensures
            copy@ == self@,
    {
        let mut stack: VecDeque<StackValue> = VecDeque::new();
        let mut i: usize = 0;
        while i < self.stack.len()
            invariant
                i <= self.stack@.len(),
                stack@ == self.stack@.take(i as int),
            decreases self.stack@.len() - i,
        {
            stack.push_back(self.stack[i]);
            i += 1;
            assert(stack@ =~= self.stack@.take(i as int));
        }
        assert(self.stack@.take(i as int) =~= self.stack@);
        let mut unused_regs: VecDeque<Register64> = VecDeque::new();
        let mut j: usize = 0;
        while j < self.unused_regs.len()
            invariant
                j <= self.unused_regs@.len(),
                unused_regs@ == self.unused_regs@.take(j as int),
            decreases self.unused_regs@.len() - j,
        {
            unused_regs.push_back(self.unused_regs[j]);
            j += 1;
            assert(unused_regs@ =~= self.unused_regs@.take(j as int));
        }
        assert(self.unused_regs@.take(j as int) =~= self.unused_regs@);
        VartualStack { stack, unused_regs }
    }

    /// Hands out a scratch register: a free one, or else the one that holds
    /// the oldest deferred register value, after writing that value and the
    /// constants below it to memory.
    pub(crate) fn get_unused_reg(&mut self, compiler: &mut Compiler) -> (got: Result<
        Register64,
        RuntimeError,
    >)
        requires
            old(compiler)@.wf(),
        ensures
            final(compiler)@.keeps(old(compiler)@),
            match get_unused_reg(old(compiler)@.code, old(self)@, old(compiler)@.capacity) {
                Ok((code, vstack, reg)) => {
                    &&& got == Ok::<Register64, RuntimeError>(reg)
                    &&& final(compiler)@ == old(compiler)@.with_code(code)
                    &&& final(self)@ == vstack
                },
                Err(fault) => got is Err && got->Err_0@ == fault,
            },
    {
        if let Some(reg) = self.unused_regs.pop_front() {
            assert(self@.unused_regs =~= old(self)@.unused_regs.drop_first());
            return Ok(reg);
        }
        let mut bytes: Vec<u8> = Vec::new();
        let ghost whole = self.stack@;
        let ghost mut done: int = 0;
        assert(whole.skip(0) =~= whole);
        assert(whole.take(0) =~= Seq::empty());
        loop
            invariant
                compiler@ == old(compiler)@,
                compiler@.wf(),
                self@.unused_regs == old(self)@.unused_regs,
                self@.unused_regs.len() == 0,
                whole == old(self)@.stack,
                0 <= done <= whole.len(),
                self@.stack == whole.skip(done),
                bytes@ == flush_bytes(whole.take(done)),
                first_reg(whole) == done + first_reg(whole.skip(done)),
            decreases whole.len() - done,
        {
            match self.stack.pop_front() {
                None => {
                    return Err(RuntimeError::UnsupportedBlockShape);
                },
                Some(value) => {
                    proof {
                        assert(whole.take(done + 1) =~= whole.take(done).push(value));
                        lemma_flush_push(whole.take(done), value);
                        assert(whole.skip(done).drop_first() =~= whole.skip(done + 1));
                        assert(self@.stack =~= whole.skip(done + 1));
                    }
                    let mut piece = spill(value);
                    bytes.append(&mut piece);
                    match value {
                        StackValue::Imm(_) => {
                            proof {
                                done = done + 1;
                            }
                        },
                        StackValue::Reg(reg) => {
                            let pushed = compiler.push_code(bytes.as_slice());
                            return match pushed {
                                Ok(()) => Ok(reg),
                                Err(e) => Err(e),
                            };
                        },
                    }
                },
            }
        }
    }

    /// Yields the newest value of the operand stack: a deferred one, or
    /// else the top slot in memory, loaded into a register.
    pub(crate) fn pop_value(&mut self, compiler: &mut Compiler) -> (got: Result<
        StackValue,
        RuntimeError,
    >)
        requires
            old(compiler)@.wf(),
        ensures
            final(compiler)@.keeps(old(compiler)@),
            match pop_value(old(compiler)@.code, old(self)@, old(compiler)@.capacity) {
                Ok((code, vstack, value)) => {
                    &&& got == Ok::<StackValue, RuntimeError>(value)
                    &&& final(compiler)@ == old(compiler)@.with_code(code)
                    &&& final(self)@ == vstack
                },
                Err(fault) => got is Err && got->Err_0@ == fault,
            },
    {
        if let Some(value) = self.stack.pop_back() {
            assert(self@.stack =~= old(self)@.stack.drop_last());
            assert(compiler@ == old(compiler)@.with_code(compiler@.code));
            return Ok(value);
        }
        let reg = self.get_unused_reg(compiler)?;
        let code = Compiler::pop_data(reg);
        compiler.push_code(code.as_slice())?;
        Ok(StackValue::Reg(reg))
    }

    /// Writes every deferred value to memory, oldest first, and frees the
    /// registers that held them.
    pub(crate) fn push_all(&mut self, compiler: &mut Compiler) -> (done: Result<(), RuntimeError>)
        requires
            old(compiler)@.wf(),
        ensures
            final(compiler)@.keeps(old(compiler)@),
            match push_all(old(compiler)@.code, old(self)@, old(compiler)@.capacity) {
                Ok((code, vstack)) => {
                    &&& done is Ok
                    &&& final(compiler)@ == old(compiler)@.with_code(code)
                    &&& final(self)@ == vstack
                },
                Err(fault) => done is Err && done->Err_0@ == fault,
            },
    {
        let mut bytes: Vec<u8> = Vec::new();
        let ghost whole = self.stack@;
        let ghost mut count: int = 0;
        loop
            invariant
                whole == old(self)@.stack,
                0 <= count <= whole.len(),
                self@.stack == whole.skip(count),
                bytes@ == flush_bytes(whole.take(count)),
                self@.unused_regs == old(self)@.unused_regs + stack_regs(whole.take(count)),
            ensures
                self@.stack.len() == 0,
                bytes@ == flush_bytes(whole),
                self@.unused_regs == old(self)@.unused_regs + stack_regs(whole),
            decreases whole.len() - count,
        {
            match self.stack.pop_front() {
                None => {
                    assert(whole.take(count) =~= whole);
                    break ;
                },
                Some(value) => {
                    proof {
                        assert(whole.take(count + 1) =~= whole.take(count).push(value));
                        lemma_flush_push(whole.take(count), value);
                        assert(whole.skip(count).drop_first() =~= whole.skip(count + 1));
                        assert(self@.stack =~= whole.skip(count + 1));
                    }
                    let mut piece = spill(value);
                    bytes.append(&mut piece);
                    if let StackValue::Reg(reg) = value {
                        self.unused_regs.push_back(reg);
                    }
                    proof {
                        count = count + 1;
                    }
                    assert(self@.unused_regs =~= old(self)@.unused_regs + stack_regs(
                        whole.take(count),
                    ));
                },
            }
        }
        assert(self@.stack =~= Seq::empty());
        compiler.push_code(bytes.as_slice())
    }
}

/// An open block, as the generator keeps it.
#[derive(Debug)]
pub(crate) enum Label {
    FuncEnd(Vec<usize>),
    LoopStart { start: usize, start_offset: usize, block_type: BlockType },
    End {
        address_reserved: Vec<usize>,
        start_offset: usize,
        block_type: BlockType,
        else_vartual_stack: Option<VartualStack>,
    },
}

impl View for Label {
    type V = LabelModel;

    closed spec fn view(&self) -> LabelModel {
        match self {
            Label::FuncEnd(sites) => LabelModel::FuncEnd { sites: sites@ },
            Label::LoopStart { start, start_offset, block_type } => LabelModel::LoopStart {
                start: *start,
                start_offset: *start_offset,
                block_type: *block_type,
            },
            Label::End { address_reserved, start_offset, block_type, else_vartual_stack } => {
                LabelModel::End {
                    sites: address_reserved@,
                    start_offset: *start_offset,
                    block_type: *block_type,
                    else_stack: match else_vartual_stack {
                        Some(saved) => Some(saved@),
                        None => None,
                    },
                }
            },
        }
    }
}

/// What the generator keeps while it compiles one function: the depth of
/// the operand stack, the open blocks with the function's own block first,
/// and the deferred top of the operand stack.
#[derive(Debug)]
pub(crate) struct CompileState {
    stack_count: usize,
    labels: Vec<Label>,
    vartual_stack: VartualStack,
}

/// The generator state that a code buffer and a `CompileState` stand for.
pub(crate) closed spec fn gen_of(compiler: CompilerModel, state: CompileState) -> Gen {
    Gen {
        code: compiler.code,
        stack_count: state.stack_count,
        vstack: state.vartual_stack@,
        labels: state.labels@.map_values(|label: Label| label@),
    }
}

impl Compiler {
    /// The distance below the frame pointer of the slot of a local.
    pub(crate) fn local_offset(local_index: u32) -> (offset: u64)
        ensures
            offset == local_offset(local_index),
    {
        8 * (LOCAL_BASE_COUNT as u64 + 1) + local_index as u64 * 8
    }

    /// Compiles a constant.
    fn compile_const(&mut self, state: &mut CompileState, n: i64) -> (done: Result<
        (),
        RuntimeError,
    >)
        requires
            old(self)@.wf(),
        ensures
            final(self)@.keeps(old(self)@),
            match constant(gen_of(old(self)@, *old(state)), n) {
                Ok(g) => done is Ok && gen_of(final(self)@, *final(state)) == g,
                Err(fault) => done is Err && done->Err_0@ == fault,
            },
    {
        if state.stack_count >= MAX_DEPTH {
            return Err(RuntimeError::UnsupportedBlockShape);
        }
        state.vartual_stack.stack.push_back(StackValue::Imm(n));
        state.stack_count += 1;
        Ok(())
    }

    /// Compiles `local.get`.
    fn compile_local_get(
        &mut self,
        state: &mut CompileState,
        t: &Target,
        local_index: u32,
    ) -> (done: Result<(), RuntimeError>)
        requires
            old(self)@.wf(),
            t.limit == old(self)@.capacity,
        ensures
            final(self)@.keeps(old(self)@),
            match local_get(gen_of(old(self)@, *old(state)), *t, local_index) {
                Ok(g) => done is Ok && gen_of(final(self)@, *final(state)) == g,
                Err(fault) => done is Err && done->Err_0@ == fault,
            },
    {
        if local_index as usize >= t.params || t.params > MAX_DEPTH {
            return Err(RuntimeError::UnsupportedInstruction(String::from_str("local.get")));
        }
        if state.stack_count >= MAX_DEPTH {
            return Err(RuntimeError::UnsupportedBlockShape);
        }
        let offset = Compiler::local_offset(local_index);
        let reg = state.vartual_stack.get_unused_reg(self)?;
        let code = reg.mov(Register64::Rbp.with_offset(-(offset as i32)));
        self.push_code(code.as_slice())?;
        state.vartual_stack.stack.push_back(StackValue::Reg(reg));
        state.stack_count += 1;
        Ok(())
    }

    /// Compiles a binary operation.
    fn compile_binary(
        &mut self,
        state: &mut CompileState,
        t: &Target,
        op: BinaryOp,
        wide: bool,
    ) -> (done: Result<(), RuntimeError>)
        requires
            old(self)@.wf(),
            t.limit == old(self)@.capacity,
        ensures
            final(self)@.keeps(old(self)@),
            match binary(gen_of(old(self)@, *old(state)), *t, op, wide) {
                Ok(g) => done is Ok && gen_of(final(self)@, *final(state)) == g,
                Err(fault) => done is Err && done->Err_0@ == fault,
            },
    {
        if state.stack_count < 2 {
            return Err(RuntimeError::UnsupportedBlockShape);
        }
        let second = state.vartual_stack.pop_value(self)?;
        let first = state.vartual_stack.pop_value(self)?;
        let (code, value, freed) = combine_code(op, wide, first, second);
        self.push_code(code.as_slice())?;
        state.vartual_stack.stack.push_back(value);
        if let Some(reg) = freed {
            state.vartual_stack.unused_regs.push_back(reg);
        }
        state.stack_count -= 1;
        Ok(())
    }
}

/// The labels of a state with one more label.
proof fn lemma_labels_push(labels: Seq<Label>, label: Label)
    ensures
        labels.push(label).map_values(|label: Label| label@) == labels.map_values(
            |label: Label| label@,
        ).push(label@),
{
    assert(labels.push(label).map_values(|label: Label| label@) =~= labels.map_values(
        |label: Label| label@,
    ).push(label@));
}

/// The labels of a state without its last label.
proof fn lemma_labels_pop(labels: Seq<Label>)
    requires
        labels.len() > 0,
    ensures
        labels.drop_last().map_values(|label: Label| label@) == labels.map_values(
            |label: Label| label@,
        ).drop_last(),
        labels.map_values(|label: Label| label@).last() == labels.last()@,
{
    assert(labels.drop_last().map_values(|label: Label| label@) =~= labels.map_values(
        |label: Label| label@,
    ).drop_last());
}

impl Compiler {
    /// Aims every jump of `sites` at the end of the code.
    fn patch_sites(&mut self, sites: &Vec<usize>, t: &Target) -> (done: Result<(), RuntimeError>)
        requires
            old(self)@.wf(),
            t.floor == old(self)@.func_start,
        ensures
            final(self)@.keeps(old(self)@),
            match patch_all(
                old(self)@.code,
                sites@,
                old(self)@.code.len() as usize,
                t.floor,
            ) {
                Ok(code) => done is Ok && final(self)@ == old(self)@.with_code(code),
                Err(fault) => done is Err && done->Err_0@ == fault,
            },
    {
        let target = self.code.len();
        let mut i: usize = 0;
        assert(sites@.take(0) =~= Seq::empty());
        while i < sites.len()
            invariant
                i <= sites@.len(),
                target == old(self)@.code.len(),
                self@.code.len() == target,
                self@.keeps(old(self)@),
                t.floor == self@.func_start,
                patch_all(old(self)@.code, sites@.take(i as int), target, t.floor) matches Ok(code)
                    && code == self@.code,
                self@ == old(self)@.with_code(self@.code),
            decreases sites@.len() - i,
        {
            let site = sites[i];
            proof {
                assert(sites@.take(i + 1).drop_last() =~= sites@.take(i as int));
                assert(sites@.take(i + 1).last() == site);
            }
            if !(t.floor + 4 <= site && site <= target) {
                proof {
                    lemma_patch_fails(old(self)@.code, sites@, i + 1, target, t.floor);
                }
                return Err(RuntimeError::UnsupportedBlockShape);
            }
            let ghost before = self@.code;
            self.write_i32(site, target);
            i += 1;
            assert(self@.code.subrange(0, self@.func_start as int) =~= before.subrange(
                0,
                self@.func_start as int,
            ));
        }
        assert(sites@.take(i as int) =~= sites@);
        Ok(())
    }
}

/// A failure on the first `n` sites is a failure on all of them.
proof fn lemma_patch_fails(code: Seq<u8>, sites: Seq<usize>, n: int, target: usize, floor: usize)
    requires
        0 <= n <= sites.len(),
        patch_all(code, sites.take(n), target, floor) is Err,
    ensures
        patch_all(code, sites, target, floor) == patch_all(code, sites.take(n), target, floor),
    decreases sites.len() - n,
{
    if n == sites.len() {
        assert(sites.take(n) =~= sites);
    } else {
        assert(sites.take(n + 1).drop_last() =~= sites.take(n));
        lemma_patch_fails(code, sites, n + 1, target, floor);
    }
}

impl Compiler {
    /// Compiles `if`.
    fn compile_if(
        &mut self,
        state: &mut CompileState,
        t: &Target,
        store: &Store,
        block_type: BlockType,
    ) -> (done: Result<(), RuntimeError>)
        requires
            old(self)@.wf(),
            t.limit == old(self)@.capacity,
        ensures
            final(self)@.keeps(old(self)@),
            match open_if(gen_of(old(self)@, *old(state)), *t, *store, block_type) {
                Ok(g) => done is Ok && gen_of(final(self)@, *final(state)) == g,
                Err(fault) => done is Err && done->Err_0@ == fault,
            },
    {
        let taken: usize = match block_type {
            BlockType::FuncType(n) => store.get_func_type(n)?.params.len(),
            _ => 0,
        };
        if state.stack_count < 1 || state.stack_count - 1 < taken {
            return Err(RuntimeError::UnsupportedBlockShape);
        }
        let condition = state.vartual_stack.pop_value(self)?;
        state.vartual_stack.push_all(self)?;
        let code = test_code(condition);
        self.push_code(code.as_slice())?;
        if let StackValue::Reg(reg) = condition {
            state.vartual_stack.unused_regs.push_back(reg);
        }
        let saved = state.vartual_stack.snapshot();
        state.stack_count -= 1;
        let mut sites: Vec<usize> = Vec::new();
        sites.push(self.code.len());
        let label = Label::End {
            address_reserved: sites,
            start_offset: state.stack_count - taken,
            block_type,
            else_vartual_stack: Some(saved),
        };
        proof {
            lemma_labels_push(state.labels@, label);
            assert(sites@ =~= seq![self@.code.len() as usize]);
        }
        state.labels.push(label);
        Ok(())
    }

    /// Compiles `else`.
    fn compile_else(&mut self, state: &mut CompileState, t: &Target) -> (done: Result<
        (),
        RuntimeError,
    >)
        requires
            old(self)@.wf(),
            t.limit == old(self)@.capacity,
            t.floor == old(self)@.func_start,
            old(state).labels@.len() > 0,
        ensures
            final(self)@.keeps(old(self)@),
            match open_else(gen_of(old(self)@, *old(state)), *t) {
                Ok(g) => done is Ok && gen_of(final(self)@, *final(state)) == g,
                Err(fault) => done is Err && done->Err_0@ == fault,
            },
    {
        proof {
            lemma_labels_pop(state.labels@);
        }
        let label = match state.labels.pop() {
            Some(label) => label,
            None => {
                return Err(RuntimeError::UnsupportedBlockShape);
            },
        };
        match label {
            Label::End {
                address_reserved,
                start_offset,
                block_type,
                else_vartual_stack: Some(saved),
            } => {
                let mut sites = address_reserved;
                if sites.len() == 0 {
                    return Err(RuntimeError::UnsupportedBlockShape);
                }
                state.vartual_stack.push_all(self)?;
                let jump = 0i32.jmp();
                self.push_code(jump.as_slice())?;
                let here = self.code.len();
                let first = sites[0];
                if !(t.floor + 4 <= first && first <= here) {
                    return Err(RuntimeError::UnsupportedBlockShape);
                }
                let ghost before = self@.code;
                self.write_i32(first, here);
                assert(self@.code.subrange(0, self@.func_start as int) =~= before.subrange(
                    0,
                    self@.func_start as int,
                ));
                let ghost waiting = sites@;
                sites.remove(0);
                sites.push(here);
                assert(sites@ =~= waiting.drop_first().push(here));
                state.vartual_stack = saved;
                state.stack_count = start_offset;
                let reopened = Label::End {
                    address_reserved: sites,
                    start_offset,
                    block_type,
                    else_vartual_stack: None,
                };
                proof {
                    lemma_labels_push(state.labels@, reopened);
                }
                state.labels.push(reopened);
                Ok(())
            },
            _ => Err(RuntimeError::UnsupportedBlockShape),
        }
    }

    /// Compiles `end`.
    fn compile_end(&mut self, state: &mut CompileState, t: &Target, store: &Store) -> (done:
        Result<(), RuntimeError>)
        requires
            old(self)@.wf(),
            t.limit == old(self)@.capacity,
            t.floor == old(self)@.func_start,
            old(state).labels@.len() > 0,
        ensures
            final(self)@.keeps(old(self)@),
            match close(gen_of(old(self)@, *old(state)), *t, *store) {
                Ok(g) => done is Ok && gen_of(final(self)@, *final(state)) == g,
                Err(fault) => done is Err && done->Err_0@ == fault,
            },
    {
        proof {
            lemma_labels_pop(state.labels@);
        }
        let label = match state.labels.pop() {
            Some(label) => label,
            None => {
                return Err(RuntimeError::UnsupportedBlockShape);
            },
        };
        match label {
            Label::End { address_reserved, start_offset, block_type, else_vartual_stack } => {
                let results: usize = match block_type {
                    BlockType::FuncType(n) => store.get_func_type(n)?.results.len(),
                    BlockType::Type(_) => 1,
                    BlockType::Empty => 0,
                };
                if state.stack_count > MAX_DEPTH || state.stack_count < start_offset
                    || state.stack_count - start_offset < results {
                    return Err(RuntimeError::UnsupportedBlockShape);
                }
                state.vartual_stack.push_all(self)?;
                self.patch_sites(&address_reserved, t)?;
                let have = state.stack_count - start_offset;
                if have != results {
                    let code = move_results(have, results);
                    self.push_code(code.as_slice())?;
                } else {
                    assert(self@.code + Seq::<u8>::empty() =~= self@.code);
                }
                state.stack_count = start_offset + results;
                Ok(())
            },
            Label::FuncEnd(sites) => {
                self.patch_sites(&sites, t)?;
                Ok(())
            },
            Label::LoopStart { .. } => Err(RuntimeError::UnsupportedBlockShape),
        }
    }

    /// Compiles `call`.
    fn compile_call(
        &mut self,
        state: &mut CompileState,
        t: &Target,
        store: &Store,
        function_index: u32,
    ) -> (done: Result<(), RuntimeError>)
        requires
            old(self)@.wf(),
            t.limit == old(self)@.capacity,
        ensures
            final(self)@.keeps(old(self)@),
            match call(gen_of(old(self)@, *old(state)), *t, *store, function_index) {
                Ok(g) => done is Ok && gen_of(final(self)@, *final(state)) == g,
                Err(fault) => done is Err && done->Err_0@ == fault,
            },
    {
        let ty = store.get_func_type_from_func_index(function_index)?;
        let args = ty.params.len();
        let results = ty.results.len();
        if state.stack_count < args || state.stack_count > MAX_DEPTH || results > MAX_DEPTH
            - (state.stack_count - args) {
            return Err(RuntimeError::UnsupportedBlockShape);
        }
        state.vartual_stack.push_all(self)?;
        let code = call_code(t, function_index, args, results);
        self.push_code(code.as_slice())?;
        state.stack_count = state.stack_count - args + results;
        Ok(())
    }

    /// Compiles one instruction.
    fn compile_op(&mut self, state: &mut CompileState, t: &Target, store: &Store, op: &Operator)
        -> (done: Result<(), RuntimeError>)
        requires
            old(self)@.wf(),
            t.limit == old(self)@.capacity,
            t.floor == old(self)@.func_start,
        ensures
            final(self)@.keeps(old(self)@),
            match step(gen_of(old(self)@, *old(state)), *t, *store, *op) {
                Ok(g) => done is Ok && gen_of(final(self)@, *final(state)) == g,
                Err(fault) => done is Err && done->Err_0@ == fault,
            },
    {
        reveal(step);
        if state.labels.len() == 0 {
            return Err(RuntimeError::UnsupportedBlockShape);
        }
        match op {
            Operator::LocalGet { local_index } => self.compile_local_get(state, t, *local_index),
            Operator::I32Const { value } => self.compile_const(state, *value as i64),
            Operator::I64Const { value } => self.compile_const(state, *value),
            Operator::I32Add => self.compile_binary(state, t, BinaryOp::Add, false),
            Operator::I64Add => self.compile_binary(state, t, BinaryOp::Add, true),
            Operator::I32Sub => self.compile_binary(state, t, BinaryOp::Sub, false),
            Operator::I64Sub => self.compile_binary(state, t, BinaryOp::Sub, true),
            Operator::I32Eq => self.compile_binary(state, t, BinaryOp::Eq, false),
            Operator::I64Eq => self.compile_binary(state, t, BinaryOp::Eq, true),
            Operator::If { blockty } => self.compile_if(state, t, store, *blockty),
            Operator::Else => self.compile_else(state, t),
            Operator::End => self.compile_end(state, t, store),
            Operator::Call { function_index } => self.compile_call(
                state,
                t,
                store,
                *function_index,
            ),
            Operator::Unsupported(name) => Err(RuntimeError::UnsupportedInstruction(name.clone())),
        }
    }
}

/// A failure on the first `n` instructions is a failure on all of them.
proof fn lemma_run_fails(g: Gen, t: Target, store: Store, ops: Seq<Operator>, n: int)
    requires
        0 <= n <= ops.len(),
        run(g, t, store, ops.take(n)) is Err,
    ensures
        run(g, t, store, ops) == run(g, t, store, ops.take(n)),
    decreases ops.len() - n,
{
    if n == ops.len() {
        assert(ops.take(n) =~= ops);
    } else {
        assert(ops.take(n + 1).drop_last() =~= ops.take(n));
        lemma_run_fails(g, t, store, ops, n + 1);
    }
}

impl CompileState {
    /// The state in which a body is entered: an empty operand stack,
    /// nothing deferred, and only the function's own block open.
    pub(crate) fn new() -> (state: CompileState)
        ensures
            forall|compiler: CompilerModel| #[trigger]
                gen_of(compiler, state) == entry_state(compiler.code),
    {
        let mut labels: Vec<Label> = Vec::new();
        labels.push(Label::FuncEnd(Vec::new()));
        let state = CompileState { stack_count: 0, labels, vartual_stack: VartualStack::new() };
        assert forall|compiler: CompilerModel| #[trigger]
            gen_of(compiler, state) == entry_state(compiler.code) by {
            assert(gen_of(compiler, state).labels =~= entry_state(compiler.code).labels);
        }
        state
    }
}

impl Compiler {
    /// An empty code buffer for the region of `capacity` bytes at `base`,
    /// whose code reaches other functions through `trampoline`. The
    /// capacity is cut down to what the address space above `base` holds
    /// and to `MAX_CAPACITY`.
    pub fn new(base: u64, capacity: usize, trampoline: u64) -> (compiler: Compiler)
        ensures
            compiler@.wf(),
            compiler@.code.len() == 0,
            compiler@.func_start == 0,
            compiler@.base == base,
            compiler@.trampoline == trampoline,
            compiler@.cache == Map::<u32, u64>::empty(),
            compiler@.capacity as int == vstd::math::min(
                vstd::math::min(capacity as int, MAX_CAPACITY as int),
                u64::MAX - base,
            ),
    {
        let mut room = capacity;
        if room > MAX_CAPACITY {
            room = MAX_CAPACITY;
        }
        if room as u64 > u64::MAX - base {
            room = (u64::MAX - base) as usize;
        }
        let func_cache = cache_new();
        assert(func_cache@ =~= Map::<u32, u64>::empty());
        Compiler { code: Vec::new(), base, capacity: room, func_start: 0, trampoline, func_cache }
    }

    /// Compiles a body, instruction by instruction.
    fn compile(&mut self, state: &mut CompileState, t: &Target, store: &Store, func: &Func) -> (done:
        Result<(), RuntimeError>)
        requires
            old(self)@.wf(),
            t.limit == old(self)@.capacity,
            t.floor == old(self)@.func_start,
        ensures
            final(self)@.keeps(old(self)@),
            match run(gen_of(old(self)@, *old(state)), *t, *store, func.body@) {
                Ok(g) => done is Ok && gen_of(final(self)@, *final(state)) == g,
                Err(fault) => done is Err && done->Err_0@ == fault,
            },
    {
        let ghost start = gen_of(self@, *state);
        let mut i: usize = 0;
        assert(func.body@.take(0) =~= Seq::empty());
        while i < func.body.len()
            invariant
                i <= func.body@.len(),
                start == gen_of(old(self)@, *old(state)),
                self@.keeps(old(self)@),
                t.limit == self@.capacity,
                t.floor == self@.func_start,
                run(start, *t, *store, func.body@.take(i as int)) matches Ok(g) && g == gen_of(
                    self@,
                    *state,
                ),
            decreases func.body@.len() - i,
        {
            proof {
                assert(func.body@.take(i + 1).drop_last() =~= func.body@.take(i as int));
                assert(func.body@.take(i + 1).last() == func.body@[i as int]);
            }
            let ghost before = gen_of(self@, *state);
            let ghost prefix = func.body@.take(i + 1);
            let done = self.compile_op(state, t, store, &func.body[i]);
            proof {
                assert(run(start, *t, *store, prefix) == step(
                    before,
                    *t,
                    *store,
                    func.body@[i as int],
                ));
            }
            match done {
                Ok(()) => {},
                Err(e) => {
                    proof {
                        assert(step(before, *t, *store, func.body@[i as int]) is Err);
                        assert(run(start, *t, *store, prefix) is Err);
                        lemma_run_fails(start, *t, *store, func.body@, i + 1);
                        assert(run(start, *t, *store, func.body@) == run(
                            start,
                            *t,
                            *store,
                            prefix,
                        ));
                    }
                    return Err(e);
                },
            }
            i += 1;
        }
        assert(func.body@.take(i as int) =~= func.body@);
        Ok(())
    }

    /// Ends a function after its body.
    fn finish(&mut self, state: &mut CompileState, t: &Target, results: usize) -> (done: Result<
        (),
        RuntimeError,
    >)
        requires
            old(self)@.wf(),
            t.limit == old(self)@.capacity,
        ensures
            final(self)@.keeps(old(self)@),
            match finish(gen_of(old(self)@, *old(state)), *t, results as nat) {
                Ok(code) => done is Ok && final(self)@ == old(self)@.with_code(code),
                Err(fault) => done is Err && done->Err_0@ == fault,
            },
    {
        if state.labels.len() != 0 {
            return Err(RuntimeError::UnsupportedBlockShape);
        }
        let moves = results != 0 && results != state.stack_count;
        if moves && (state.stack_count < results || state.stack_count > MAX_DEPTH) {
            return Err(RuntimeError::UnsupportedBlockShape);
        }
        state.vartual_stack.push_all(self)?;
        let mut code: Vec<u8> = if moves {
            move_results(state.stack_count, results)
        } else {
            Vec::new()
        };
        let mut tail = epilogue();
        code.append(&mut tail);
        self.push_code(code.as_slice())
    }

    /// Writes the function behind the code in the buffer.
    fn write_function(&mut self, func_index: u32, store: &Store) -> (done: Result<(), RuntimeError>)
        requires
            old(self)@.wf(),
            old(self)@.code.len() == old(self)@.func_start,
        ensures
            final(self)@.keeps(old(self)@),
            match old(self)@.compiled(*store, func_index) {
                Ok(code) => done is Ok && final(self)@ == old(self)@.with_code(code),
                Err(fault) => done is Err && done->Err_0@ == fault,
            },
    {
        assert(self@.installed() =~= self@.code);
        let func = store.get_code(func_index)?;
        let ty = store.get_func_type_from_func_index(func_index)?;
        let params = ty.params.len();
        if params > MAX_DEPTH || func.locals.len() != 0 {
            return Err(RuntimeError::UnsupportedBlockShape);
        }
        let t = Target {
            limit: self.capacity,
            self_entry: self.base + self.code.len() as u64,
            trampoline: self.trampoline,
            func_index,
            params,
            floor: self.code.len(),
        };
        assert(t == target_of(
            self@.code,
            self@.capacity,
            self@.base,
            self@.trampoline,
            func_index,
            *ty,
        ));
        let code = prologue(params);
        self.push_code(code.as_slice())?;
        let mut state = CompileState::new();
        self.compile(&mut state, &t, store, func)?;
        self.finish(&mut state, &t, ty.results.len())
    }

    /// Compiles the function `func_index` of `store` behind the installed
    /// functions. On failure nothing but the installed functions is left in
    /// the buffer.
    pub fn compile_func(&mut self, func_index: u32, store: &Store) -> (done: Result<
        (),
        RuntimeError,
    >)
        requires
            old(self)@.wf(),
        ensures
            final(self)@.wf(),
            match old(self)@.compiled(*store, func_index) {
                Ok(code) => done is Ok && final(self)@ == old(self)@.with_code(code),
                Err(fault) => {
                    &&& done is Err
                    &&& done->Err_0@ == fault
                    &&& final(self)@ == old(self)@.with_code(old(self)@.installed())
                },
            },
    {
        self.code.truncate(self.func_start);
        let ghost fresh = self@;
        assert(fresh.installed() =~= old(self)@.installed());
        assert(fresh == old(self)@.with_code(old(self)@.installed()));
        let done = self.write_function(func_index, store);
        if done.is_err() {
            self.code.truncate(self.func_start);
            assert(self@.code =~= old(self)@.installed());
        }
        done
    }

    /// Installs the function that was compiled last under `index` and gives
    /// its entry address. An index that is installed already keeps its
    /// entry: the new code is dropped.
    pub fn extract_func(&mut self, index: u32) -> (entry: u64)
        requires
            old(self)@.wf(),
        ensures
            final(self)@.wf(),
            final(self)@.cache.contains_key(index),
            entry == final(self)@.cache[index],
            final(self)@.func_start == final(self)@.code.len(),
            old(self)@.cache.contains_key(index) ==> final(self)@ == (CompilerModel {
                code: old(self)@.installed(),
                ..old(self)@
            }),
            !old(self)@.cache.contains_key(index) ==> final(self)@ == (CompilerModel {
                func_start: old(self)@.code.len() as usize,
                cache: old(self)@.cache.insert(
                    index,
                    (old(self)@.base + old(self)@.func_start) as u64,
                ),
                ..old(self)@
            }),
    {
        match cache_get(&self.func_cache, index) {
            Some(entry) => {
                self.code.truncate(self.func_start);
                assert(self@.code =~= old(self)@.installed());
                entry
            },
            None => {
                let entry = self.base + self.func_start as u64;
                cache_insert(&mut self.func_cache, index, entry);
                self.func_start = self.code.len();
                entry
            },
        }
    }
}

impl CompilerModel {
    /// The entry address of the function that is compiled next.
    pub open spec fn next_entry(self) -> u64 {
        (self.base + self.func_start) as u64
    }

    /// The buffer after `index` is looked up and, if it is not installed
    /// yet, compiled and installed, together with the function's entry
    /// address; or why it cannot be compiled. An installed function is
    /// never compiled again, and a failure leaves only the installed
    /// functions in the buffer.
    pub open spec fn entered(self, store: Store, index: u32) -> (
        CompilerModel,
        Result<u64, Fault>,
    ) {
        if self.cache.contains_key(index) {
            (self, Ok(self.cache[index]))
        } else {
            match self.compiled(store, index) {
                Ok(code) => (
                    CompilerModel {
                        code,
                        func_start: code.len() as usize,
                        cache: self.cache.insert(index, self.next_entry()),
                        ..self
                    },
                    Ok(self.next_entry()),
                ),
                Err(fault) => (self.with_code(self.installed()), Err(fault)),
            }
        }
    }
}

impl Compiler {
    /// The entry address of an installed function.
    pub fn lookup(&self, index: u32) -> (entry: Option<u64>)
        ensures
            entry == (if self@.cache.contains_key(index) {
                Some(self@.cache[index])
            } else {
                None
            }),
    {
        cache_get(&self.func_cache, index)
    }

    /// The entry address of a function, which is compiled and installed
    /// first if it is not installed yet.
    pub fn enter(&mut self, index: u32, store: &Store) -> (entry: Result<u64, RuntimeError>)
        requires
            old(self)@.wf(),
        ensures
            final(self)@.wf(),
            final(self)@ == old(self)@.entered(*store, index).0,
            match old(self)@.entered(*store, index).1 {
                Ok(address) => entry == Ok::<u64, RuntimeError>(address),
                Err(fault) => entry is Err && entry->Err_0@ == fault,
            },
    {
        if let Some(entry) = cache_get(&self.func_cache, index) {
            return Ok(entry);
        }
        self.compile_func(index, store)?;
        Ok(self.extract_func(index))
    }

    /// Whether the buffer is in order: what every function here asks of it
    /// and leaves behind.
    pub fn is_well_formed(&self) -> (ok: bool)
        ensures
            ok == self@.wf(),
    {
        self.func_start <= self.code.len() && self.code.len() <= self.capacity && self.capacity
            <= MAX_CAPACITY && self.capacity as u64 <= u64::MAX - self.base
    }

    /// The machine code written so far.
    pub fn code(&self) -> (code: &Vec<u8>)
        ensures
            code@ == self@.code,
    {
        &self.code
    }

    /// The address of the first byte of the code buffer.
    pub fn p_start(&self) -> (address: u64)
        ensures
            address == self@.base,
    {
        self.base
    }

    /// The address behind the last byte of code.
    pub fn p_current(&self) -> (address: u64)
        requires
            self@.wf(),
        ensures
            address == self@.base + self@.code.len(),
    {
        self.base + self.code.len() as u64
    }

    /// The address at which the next function starts.
    pub fn p_func_start(&self) -> (address: u64)
        requires
            self@.wf(),
        ensures
            address == self@.next_entry(),
    {
        self.base + self.func_start as u64
    }

    /// The most bytes the buffer holds.
    pub fn capacity(&self) -> (capacity: usize)
        ensures
            capacity == self@.capacity,
    {
        self.capacity
    }
}

} // verus!
