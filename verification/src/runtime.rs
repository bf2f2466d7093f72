//! The decisions of the runtime: which export a name resolves to, which
//! function has to be compiled, how values travel through 64-bit slots.
//!
//! The runtime does not execute anything itself. A call by name becomes an
//! `Invocation`: the entry address to jump to and the slots to put on the
//! operand stack before. What comes back in those slots is read as values
//! by `read_results`.

pub mod error;
pub mod store;

use crate::assembler::bits_of_i64;
use crate::compiler::model::{address_imm, wrap32};
use crate::compiler::{Compiler, CompilerModel};
use crate::runtime::error::{Fault, RuntimeError};
use crate::runtime::store::Store;
use crate::wasm::{ExternalKind, ValType, WasmModule};
use vstd::prelude::*;

verus! {

/// A value that is passed to or returned from a function. The two float
/// variants hold the bit pattern of the number.
#[derive(Debug, Clone, Copy, PartialEq, Eq, Structural)]
pub enum Value {
    I32(i32),
    I64(i64),
    F32(u32),
    F64(u64),
}

impl Value {
    /// The type of the value.
    pub open spec fn ty(self) -> ValType {
        match self {
            Value::I32(_) => ValType::I32,
            Value::I64(_) => ValType::I64,
            Value::F32(_) => ValType::F32,
            Value::F64(_) => ValType::F64,
        }
    }

    /// The 64-bit slot that holds the value: a 32-bit integer is
    /// sign-extended, 32 float bits stand in the low half.
    pub open spec fn slot(self) -> u64 {
        match self {
            Value::I32(v) => bits_of_i64(v as i64),
            Value::I64(v) => bits_of_i64(v),
            Value::F32(bits) => bits as u64,
            Value::F64(bits) => bits,
        }
    }

    /// The value of the given type that a slot holds: the high half of the
    /// slot does not count for a 32-bit type.
    pub open spec fn of_slot(bytes: u64, ty: ValType) -> Value {
        match ty {
            ValType::I32 => Value::I32(wrap32(bytes as int)),
            ValType::I64 => Value::I64(address_imm(bytes)),
            ValType::F32 => Value::F32((bytes % 0x1_0000_0000) as u32),
            ValType::F64 => Value::F64(bytes),
        }
    }

    /// A slot gives back the value that was put into it.
    pub proof fn lemma_slot_round_trip(self)
        ensures
            Value::of_slot(self.slot(), self.ty()) == self,
    {
    }

    pub fn to_u64(&self) -> (bytes: u64)
        ensures
            bytes == self.slot(),
    {
        match self {
            Value::I32(v) => if *v < 0 {
                (*v as i128 + 0x1_0000_0000_0000_0000) as u64
            } else {
                *v as u64
            },
            Value::I64(v) => if *v < 0 {
                (*v as i128 + 0x1_0000_0000_0000_0000) as u64
            } else {
                *v as u64
            },
            Value::F32(bits) => *bits as u64,
            Value::F64(bits) => *bits,
        }
    }

    pub fn from_u64(bytes: u64, value_type: &ValType) -> (value: Value)
        ensures
            value == Value::of_slot(bytes, *value_type),
    {
        match value_type {
            ValType::I32 => {
                let low = bytes % 0x1_0000_0000;
                assert((bytes + 0x8000_0000) % 0x1_0000_0000 == (low + 0x8000_0000)
                    % 0x1_0000_0000);
                Value::I32(
                    if low >= 0x8000_0000 {
                        (low as i64 - 0x1_0000_0000) as i32
                    } else {
                        low as i32
                    },
                )
            },
            ValType::I64 => Value::I64(
                if bytes >= 0x8000_0000_0000_0000 {
                    (bytes as i128 - 0x1_0000_0000_0000_0000) as i64
                } else {
                    bytes as i64
                },
            ),
            ValType::F32 => Value::F32((bytes % 0x1_0000_0000) as u32),
            ValType::F64 => Value::F64(bytes),
        }
    }
}

/// What has to be done to call a function: put `slots` on the operand
/// stack, one after the other from its base, and enter the code at `entry`
/// with the operand stack pointer behind them.
#[derive(Debug)]
pub struct Invocation {
    pub index: u32,
    pub entry: u64,
    pub slots: Vec<u64>,
}

/// The module and the code that was compiled from it.
pub struct Runtime {
    store: Store,
    compiler: Compiler,
}

/// The slots of a list of arguments.
pub open spec fn slots_of(args: Seq<Value>) -> Seq<u64> {
    args.map_values(|value: Value| value.slot())
}

/// The values that the first slots hold, read by the given types: as many
/// as there are both types and slots.
pub open spec fn values_of(types: Seq<ValType>, slots: Seq<u64>) -> Seq<Value> {
    Seq::new(
        vstd::math::min(types.len() as int, slots.len() as int) as nat,
        |i: int| Value::of_slot(slots[i], types[i]),
    )
}

impl Runtime {
    /// The module that was loaded.
    pub closed spec fn store(&self) -> Store {
        self.store
    }

    /// The code buffer and the function cache.
    pub closed spec fn compiler(&self) -> CompilerModel {
        self.compiler@
    }

    /// What holds of every `Runtime`.
    pub open spec fn wf(&self) -> bool {
        self.compiler().wf()
    }

    /// The function that an export name stands for.
    pub open spec fn resolved(&self, name: Seq<char>) -> Result<u32, Fault> {
        match self.store().export_named(name) {
            Err(fault) => Err(fault),
            Ok(export) => if export.kind == ExternalKind::Func {
                Ok(export.index)
            } else {
                Err(Fault::ExportKindMismatch(ExternalKind::Func, export.kind))
            },
        }
    }

    /// A runtime for a module, with an empty code buffer for the region of
    /// `capacity` bytes at `base`.
    pub fn init(modules: WasmModule, base: u64, capacity: usize, trampoline: u64) -> (runtime:
        Runtime)
        ensures
            runtime.wf(),
            runtime.store().types == modules.types,
            runtime.store().funcs == modules.funcs,
            runtime.store().code == modules.code,
            runtime.store().exports == modules.exports,
            runtime.compiler().code.len() == 0,
            runtime.compiler().func_start == 0,
            runtime.compiler().base == base,
            runtime.compiler().trampoline == trampoline,
            runtime.compiler().cache == Map::<u32, u64>::empty(),
            runtime.compiler().capacity as int == vstd::math::min(
                vstd::math::min(capacity as int, crate::compiler::MAX_CAPACITY as int),
                u64::MAX - base,
            ),
    {
        Runtime { store: Store::new(modules), compiler: Compiler::new(base, capacity, trampoline) }
    }

    /// Resolves an export to the index of a function.
    pub fn resolve(&self, name: &str) -> (index: Result<u32, RuntimeError>)
        ensures
            match self.resolved(name@) {
                Ok(i) => index == Ok::<u32, RuntimeError>(i),
                Err(fault) => index is Err && index->Err_0@ == fault,
            },
    {
        let export = self.store.get_export(name)?;
        if export.kind != ExternalKind::Func {
            return Err(RuntimeError::ExportKindMismatch(ExternalKind::Func, export.kind));
        }
        Ok(export.index)
    }

    /// The entry address of a function, which is compiled first if it was
    /// never called before.
    pub fn call_func_by_index(&mut self, index: u32) -> (entry: Result<u64, RuntimeError>)
        requires
            old(self).wf(),
        ensures
            final(self).wf(),
            final(self).store() == old(self).store(),
            final(self).compiler() == old(self).compiler().entered(old(self).store(), index).0,
            match old(self).compiler().entered(old(self).store(), index).1 {
                Ok(address) => entry == Ok::<u64, RuntimeError>(address),
                Err(fault) => entry is Err && entry->Err_0@ == fault,
            },
    {
        self.compiler.enter(index, &self.store)
    }

    /// Prepares the call of an exported function: resolves the name, packs
    /// the arguments into slots, and compiles the function if it was never
    /// called before. Nothing is compiled for a name that does not resolve
    /// to a function.
    pub fn call_func_by_name(&mut self, name: &str, args: &[Value]) -> (call: Result<
        Invocation,
        RuntimeError,
    >)
        requires
            old(self).wf(),
        ensures
            final(self).wf(),
            final(self).store() == old(self).store(),
            match old(self).resolved(name@) {
                Err(fault) => {
                    &&& call is Err
                    &&& call->Err_0@ == fault
                    &&& final(self).compiler() == old(self).compiler()
                },
                Ok(index) => {
                    &&& final(self).compiler() == old(self).compiler().entered(
                        old(self).store(),
                        index,
                    ).0
                    &&& match old(self).compiler().entered(old(self).store(), index).1 {
                        Err(fault) => call is Err && call->Err_0@ == fault,
                        Ok(entry) => {
                            &&& call is Ok
                            &&& call->Ok_0.index == index
                            &&& call->Ok_0.entry == entry
                            &&& call->Ok_0.slots@ == slots_of(args@)
                        },
                    }
                },
            },
    {
        let index = self.resolve(name)?;
        let mut slots: Vec<u64> = Vec::new();
        let mut i: usize = 0;
        while i < args.len()
            invariant
                i <= args@.len(),
                slots@ == slots_of(args@.take(i as int)),
            decreases args@.len() - i,
        {
            slots.push(args[i].to_u64());
            i += 1;
            assert(slots@ =~= slots_of(args@.take(i as int)));
        }
        assert(args@.take(i as int) =~= args@);
        let entry = self.call_func_by_index(index)?;
        Ok(Invocation { index, entry, slots })
    }

    /// Reads the results of a function from the slots at the base of the
    /// operand stack, each by its declared type.
    pub fn read_results(&self, index: u32, slots: &[u64]) -> (values: Result<
        Vec<Value>,
        RuntimeError,
    >)
        ensures
            match self.store().func_type_of(index) {
                Ok(ty) => values is Ok && values->Ok_0@ == values_of(ty.results@, slots@),
                Err(fault) => values is Err && values->Err_0@ == fault,
            },
    {
        let ty = self.store.get_func_type_from_func_index(index)?;
        let mut values: Vec<Value> = Vec::new();
        let mut i: usize = 0;
        while i < ty.results.len() && i < slots.len()
            invariant
                i <= ty.results@.len(),
                i <= slots@.len(),
                values@ == values_of(ty.results@, slots@).take(i as int),
            decreases ty.results@.len() - i,
        {
            values.push(Value::from_u64(slots[i], &ty.results[i]));
            i += 1;
            assert(values@ =~= values_of(ty.results@, slots@).take(i as int));
        }
        assert(values@ =~= values_of(ty.results@, slots@));
        Ok(values)
    }

    /// Whether the runtime is in order: what every function here asks of
    /// it and leaves behind.
    pub fn is_well_formed(&self) -> (ok: bool)
        ensures
            ok == self.wf(),
    {
        self.compiler.is_well_formed()
    }

    /// The machine code written so far.
    pub fn code(&self) -> (code: &Vec<u8>)
        ensures
            code@ == self.compiler().code,
    {
        self.compiler.code()
    }

    /// The code buffer and the function cache.
    pub fn get_compiler(&self) -> (compiler: &Compiler)
        ensures
            compiler@ == self.compiler(),
    {
        &self.compiler
    }

    /// The module that was loaded.
    pub fn get_store(&self) -> (store: &Store)
        ensures
            *store == self.store(),
    {
        &self.store
    }
}

} // verus!
