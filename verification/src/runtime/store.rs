//! The module as the runtime looks things up in it.

use crate::runtime::error::{decimal, index_text, Fault, RuntimeError};
use crate::wasm::{Export, Func, FuncType, WasmModule};
use vstd::prelude::*;

verus! {

/// The tables of one module. An export is found by its name; where a name
/// occurs more than once, the last entry holds.
#[derive(Debug)]
pub struct Store {
    pub types: Vec<FuncType>,
    pub funcs: Vec<u32>,
    pub code: Vec<Func>,
    pub exports: Vec<Export>,
}

/// The position of the last export with the given name, if there is one.
pub open spec fn last_export(exports: Seq<Export>, name: Seq<char>) -> Option<int>
    decreases exports.len(),
{
    if exports.len() == 0 {
        None
    } else if exports.last().name@ == name {
        Some(exports.len() - 1)
    } else {
        last_export(exports.drop_last(), name)
    }
}

impl Store {
    /// The export that `get_export` finds for a name, or the failure it
    /// reports.
    pub open spec fn export_named(&self, name: Seq<char>) -> Result<Export, Fault> {
        match last_export(self.exports@, name) {
            Some(i) => Ok(self.exports@[i]),
            None => Err(Fault::ExportNotFound(name)),
        }
    }

    /// The signature with the given index into the type table; a missing
    /// one is reported under the index `blame`.
    pub open spec fn type_at(&self, type_index: u32, blame: u32) -> Result<FuncType, Fault> {
        if type_index < self.types@.len() {
            Ok(self.types@[type_index as int])
        } else {
            Err(Fault::FunctionTypeNotFound(decimal(blame as nat)))
        }
    }

    /// The signature of the function with the given index.
    pub open spec fn func_type_of(&self, index: u32) -> Result<FuncType, Fault> {
        if index < self.funcs@.len() {
            self.type_at(self.funcs@[index as int], index)
        } else {
            Err(Fault::FunctionNotFound(decimal(index as nat)))
        }
    }

    /// The signature that a block names by its type index.
    pub open spec fn block_type_of(&self, type_index: u32) -> Result<FuncType, Fault> {
        self.type_at(type_index, type_index)
    }

    /// The body of the function with the given index.
    pub open spec fn code_of(&self, index: u32) -> Result<Func, Fault> {
        if index < self.code@.len() {
            Ok(self.code@[index as int])
        } else {
            Err(Fault::FunctionNotFound(decimal(index as nat)))
        }
    }

    pub fn new(modules: WasmModule) -> (store: Store)
        ensures
            store.types == modules.types,
            store.funcs == modules.funcs,
            store.code == modules.code,
            store.exports == modules.exports,
    {
        Store {
            types: modules.types,
            funcs: modules.funcs,
            code: modules.code,
            exports: modules.exports,
        }
    }

    /// Finds an export by its name.
    pub fn get_export(&self, name: &str) -> (found: Result<&Export, RuntimeError>)
        ensures
            match self.export_named(name@) {
                Ok(export) => found == Ok::<&Export, RuntimeError>(&export),
                Err(fault) => found is Err && found->Err_0@ == fault,
            },
    {
        let wanted = name.to_owned();
        let mut i = self.exports.len();
        assert(self.exports@.take(i as int) =~= self.exports@);
        while i > 0
            invariant
                i <= self.exports@.len(),
                wanted@ == name@,
                last_export(self.exports@, name@) == last_export(
                    self.exports@.take(i as int),
                    name@,
                ),
            decreases i,
        {
            let ghost prefix = self.exports@.take(i as int);
            assert(prefix.last() == self.exports@[i - 1]);
            assert(prefix.drop_last() =~= self.exports@.take(i - 1));
            if self.exports[i - 1].name == wanted {
                return Ok(&self.exports[i - 1]);
            }
            i -= 1;
        }
        assert(self.exports@.take(0).len() == 0);
        Err(RuntimeError::ExportNotFound(wanted))
    }

    /// The signature of a function, through the function table.
    pub fn get_func_type_from_func_index(&self, index: u32) -> (found: Result<
        &FuncType,
        RuntimeError,
    >)
        ensures
            match self.func_type_of(index) {
                Ok(ty) => found == Ok::<&FuncType, RuntimeError>(&ty),
                Err(fault) => found is Err && found->Err_0@ == fault,
            },
    {
        if (index as usize) < self.funcs.len() {
            let type_index = self.funcs[index as usize];
            if (type_index as usize) < self.types.len() {
                Ok(&self.types[type_index as usize])
            } else {
                Err(RuntimeError::FunctionTypeNotFound(index_text(index)))
            }
        } else {
            Err(RuntimeError::FunctionNotFound(index_text(index)))
        }
    }

    /// The signature that a block type names.
    pub fn get_func_type(&self, type_index: u32) -> (found: Result<&FuncType, RuntimeError>)
        ensures
            match self.block_type_of(type_index) {
                Ok(ty) => found == Ok::<&FuncType, RuntimeError>(&ty),
                Err(fault) => found is Err && found->Err_0@ == fault,
            },
    {
        if (type_index as usize) < self.types.len() {
            Ok(&self.types[type_index as usize])
        } else {
            Err(RuntimeError::FunctionTypeNotFound(index_text(type_index)))
        }
    }

    /// The body of a function.
    pub fn get_code(&self, index: u32) -> (found: Result<&Func, RuntimeError>)
        ensures
            match self.code_of(index) {
                Ok(func) => found == Ok::<&Func, RuntimeError>(&func),
                Err(fault) => found is Err && found->Err_0@ == fault,
            },
    {
        if (index as usize) < self.code.len() {
            Ok(&self.code[index as usize])
        } else {
            Err(RuntimeError::FunctionNotFound(index_text(index)))
        }
    }
}

} // verus!
