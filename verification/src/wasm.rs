//! The module a parser hands to the runtime: function signatures, the
//! function table, the code bodies and the exports, as plain values.

use vstd::prelude::*;

verus! {

/// The type of a value on the operand stack.
#[derive(Debug, Clone, Copy, PartialEq, Eq, Structural)]
pub enum ValType {
    I32,
    I64,
    F32,
    F64,
}

/// A function signature: the parameter types and the result types.
#[derive(Debug, Clone)]
pub struct FuncType {
    pub params: Vec<ValType>,
    pub results: Vec<ValType>,
}

/// The signature of a structured block.
#[derive(Debug, Clone, Copy, PartialEq, Eq, Structural)]
pub enum BlockType {
    /// No parameters and no results.
    Empty,
    /// No parameters and one result of the given type.
    Type(ValType),
    /// The parameters and results of the function type with this index.
    FuncType(u32),
}

/// One instruction of a function body. The named variants are the ones the
/// code generator compiles; every other instruction is carried by its
/// name.
#[allow(inconsistent_fields)]
#[derive(Debug, Clone)]
pub enum Operator {
    LocalGet { local_index: u32 },
    I32Const { value: i32 },
    I64Const { value: i64 },
    I32Add,
    I64Add,
    I32Sub,
    I64Sub,
    I32Eq,
    I64Eq,
    If { blockty: BlockType },
    Else,
    End,
    Call { function_index: u32 },
    Unsupported(String),
}

/// What an export names.
#[derive(Debug, Clone, Copy, PartialEq, Eq, Structural)]
pub enum ExternalKind {
    Func,
    Table,
    Memory,
    Global,
    Tag,
}

/// One entry of the export section.
#[derive(Debug, Clone)]
pub struct Export {
    pub name: String,
    pub kind: ExternalKind,
    pub index: u32,
}

/// The body of one function: its declared locals, as runs of one type, and
/// its instructions.
#[derive(Debug)]
pub struct Func {
    pub locals: Vec<(u32, ValType)>,
    pub body: Vec<Operator>,
}

/// A parsed module. `funcs[i]` is the index into `types` of the signature
/// of function `i`, and `code[i]` is its body.
#[derive(Debug)]
pub struct WasmModule {
    pub types: Vec<FuncType>,
    pub funcs: Vec<u32>,
    pub code: Vec<Func>,
    pub exports: Vec<Export>,
}

impl FuncType {
    pub fn new(params: Vec<ValType>, results: Vec<ValType>) -> (ty: FuncType)
        ensures
            ty.params == params,
            ty.results == results,
    {
        FuncType { params, results }
    }

    pub fn params(&self) -> (params: &Vec<ValType>)
        ensures
            params == &self.params,
    {
        &self.params
    }

    pub fn results(&self) -> (results: &Vec<ValType>)
        ensures
            results == &self.results,
    {
        &self.results
    }
}

impl Default for WasmModule {
    fn default() -> (module: WasmModule)
        ensures
            module.types@.len() == 0,
            module.funcs@.len() == 0,
            module.code@.len() == 0,
            module.exports@.len() == 0,
    {
        WasmModule { types: Vec::new(), funcs: Vec::new(), code: Vec::new(), exports: Vec::new() }
    }
}

} // verus!
