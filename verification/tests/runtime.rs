//! Lookups in the store, the failures they report, and the way values
//! travel through 64-bit slots.

use wasm_jit::runtime::error::{index_text, RuntimeError};
use wasm_jit::runtime::store::Store;
use wasm_jit::runtime::{Runtime, Value};
use wasm_jit::wasm::{
    BlockType, Export, ExternalKind, Func, FuncType, Operator, ValType, WasmModule,
};

fn export(name: &str, kind: ExternalKind, index: u32) -> Export {
    Export { name: name.to_string(), kind, index }
}

fn sample() -> WasmModule {
    let mut module = WasmModule::default();
    module.types.push(FuncType::new(vec![], vec![ValType::I64]));
    module.types.push(FuncType::new(vec![ValType::I32, ValType::I64], vec![ValType::I32]));
    // function 0 has type 1, function 1 has type 0, function 2 has no type
    module.funcs = vec![1, 0, 9];
    module.code.push(Func {
        locals: vec![],
        body: vec![Operator::I32Const { value: 1 }, Operator::End],
    });
    module.code.push(Func {
        locals: vec![],
        body: vec![Operator::I64Const { value: 3 }, Operator::End],
    });
    module.exports.push(export("first", ExternalKind::Func, 0));
    module.exports.push(export("memory", ExternalKind::Memory, 0));
    module.exports.push(export("twice", ExternalKind::Func, 0));
    module.exports.push(export("twice", ExternalKind::Func, 1));
    module
}

#[test]
fn default_module_is_empty() {
    let module = WasmModule::default();
    assert!(module.types.is_empty());
    assert!(module.funcs.is_empty());
    assert!(module.code.is_empty());
    assert!(module.exports.is_empty());
}

#[test]
fn function_type_keeps_its_lists() {
    let ty = FuncType::new(vec![ValType::I32, ValType::F64], vec![ValType::I64]);
    assert_eq!(ty.params(), &vec![ValType::I32, ValType::F64]);
    assert_eq!(ty.results(), &vec![ValType::I64]);
}

#[test]
fn store_takes_over_the_module() {
    let store = Store::new(sample());
    assert_eq!(store.types.len(), 2);
    assert_eq!(store.funcs, vec![1, 0, 9]);
    assert_eq!(store.code.len(), 2);
    assert_eq!(store.exports.len(), 4);
}

#[test]
fn export_is_found_by_name() {
    let store = Store::new(sample());
    let found = store.get_export("first").unwrap();
    assert_eq!(found.name, "first");
    assert_eq!(found.kind, ExternalKind::Func);
    assert_eq!(found.index, 0);
    let found = store.get_export("memory").unwrap();
    assert_eq!(found.kind, ExternalKind::Memory);
}

#[test]
fn last_export_of_a_name_holds() {
    let store = Store::new(sample());
    assert_eq!(store.get_export("twice").unwrap().index, 1);
}

#[test]
fn missing_export_is_reported_by_name() {
    let store = Store::new(sample());
    let error = store.get_export("absent").unwrap_err();
    assert!(matches!(error, RuntimeError::ExportNotFound(name) if name == "absent"));
    let error = store.get_export("").unwrap_err();
    assert!(matches!(error, RuntimeError::ExportNotFound(name) if name.is_empty()));
    let error = Store::new(WasmModule::default()).get_export("first").unwrap_err();
    assert!(matches!(error, RuntimeError::ExportNotFound(name) if name == "first"));
}

#[test]
fn function_type_goes_through_the_function_table() {
    let store = Store::new(sample());
    let ty = store.get_func_type_from_func_index(0).unwrap();
    assert_eq!(ty.params.len(), 2);
    assert_eq!(ty.results, vec![ValType::I32]);
    let ty = store.get_func_type_from_func_index(1).unwrap();
    assert_eq!(ty.params.len(), 0);
    assert_eq!(ty.results, vec![ValType::I64]);
}

#[test]
fn missing_function_is_reported_by_index() {
    let store = Store::new(sample());
    let error = store.get_func_type_from_func_index(3).unwrap_err();
    assert!(matches!(error, RuntimeError::FunctionNotFound(index) if index == "3"));
    let error = store.get_func_type_from_func_index(u32::MAX).unwrap_err();
    assert!(matches!(error, RuntimeError::FunctionNotFound(index) if index == "4294967295"));
    let error = store.get_code(2).unwrap_err();
    assert!(matches!(error, RuntimeError::FunctionNotFound(index) if index == "2"));
}

#[test]
fn missing_function_type_is_reported_by_function_index() {
    let store = Store::new(sample());
    let error = store.get_func_type_from_func_index(2).unwrap_err();
    assert!(matches!(error, RuntimeError::FunctionTypeNotFound(index) if index == "2"));
}

#[test]
fn block_type_is_looked_up_by_type_index() {
    let store = Store::new(sample());
    assert_eq!(store.get_func_type(1).unwrap().params.len(), 2);
    let error = store.get_func_type(2).unwrap_err();
    assert!(matches!(error, RuntimeError::FunctionTypeNotFound(index) if index == "2"));
}

#[test]
fn code_is_found_by_index() {
    let store = Store::new(sample());
    assert_eq!(store.get_code(0).unwrap().body.len(), 2);
    assert_eq!(store.get_code(1).unwrap().body.len(), 2);
}

#[test]
fn index_in_decimal() {
    assert_eq!(index_text(0), "0");
    assert_eq!(index_text(7), "7");
    assert_eq!(index_text(10), "10");
    assert_eq!(index_text(99), "99");
    assert_eq!(index_text(100), "100");
    assert_eq!(index_text(1234567890), "1234567890");
    assert_eq!(index_text(u32::MAX), "4294967295");
    for n in [0u32, 5, 42, 1000, 65535, 65536, 999_999_999, 1_000_000_000] {
        assert_eq!(index_text(n), n.to_string());
    }
}

#[test]
fn integers_are_sign_extended_into_slots() {
    assert_eq!(Value::I32(0).to_u64(), 0);
    assert_eq!(Value::I32(7).to_u64(), 7);
    assert_eq!(Value::I32(-1).to_u64(), u64::MAX);
    assert_eq!(Value::I32(i32::MIN).to_u64(), 0xffff_ffff_8000_0000);
    assert_eq!(Value::I32(i32::MAX).to_u64(), 0x7fff_ffff);
    assert_eq!(Value::I64(-10).to_u64(), 0xffff_ffff_ffff_fff6);
    assert_eq!(Value::I64(i64::MIN).to_u64(), 0x8000_0000_0000_0000);
    assert_eq!(Value::I64(i64::MAX).to_u64(), 0x7fff_ffff_ffff_ffff);
}

#[test]
fn float_bits_stand_in_the_slot() {
    let one = 1.0f32.to_bits();
    assert_eq!(Value::F32(one).to_u64(), 0x3f80_0000);
    assert_eq!(Value::F32(u32::MAX).to_u64(), 0xffff_ffff);
    let pi = std::f64::consts::PI.to_bits();
    assert_eq!(Value::F64(pi).to_u64(), pi);
}

#[test]
fn slots_are_read_by_type() {
    assert_eq!(Value::from_u64(30, &ValType::I64), Value::I64(30));
    assert_eq!(Value::from_u64(u64::MAX, &ValType::I64), Value::I64(-1));
    assert_eq!(Value::from_u64(0x8000_0000_0000_0000, &ValType::I64), Value::I64(i64::MIN));
    // the high half does not count for a 32-bit value
    assert_eq!(Value::from_u64(0xdead_beef_0000_0001, &ValType::I32), Value::I32(1));
    assert_eq!(Value::from_u64(0x0000_0000_ffff_fff6, &ValType::I32), Value::I32(-10));
    assert_eq!(Value::from_u64(0x0000_0000_8000_0000, &ValType::I32), Value::I32(i32::MIN));
    assert_eq!(Value::from_u64(0x1234_5678_3f80_0000, &ValType::F32), Value::F32(0x3f80_0000));
    assert_eq!(
        Value::from_u64(0x4009_21fb_5444_2d18, &ValType::F64),
        Value::F64(std::f64::consts::PI.to_bits())
    );
}

#[test]
fn a_slot_gives_back_its_value() {
    let values = [
        Value::I32(0),
        Value::I32(-1),
        Value::I32(i32::MIN),
        Value::I32(i32::MAX),
        Value::I64(0),
        Value::I64(-1),
        Value::I64(i64::MIN),
        Value::I64(i64::MAX),
        Value::F32(0),
        Value::F32(1.5f32.to_bits()),
        Value::F32(u32::MAX),
        Value::F64(0),
        Value::F64((-2.25f64).to_bits()),
        Value::F64(u64::MAX),
    ];
    for value in values {
        let ty = match value {
            Value::I32(_) => ValType::I32,
            Value::I64(_) => ValType::I64,
            Value::F32(_) => ValType::F32,
            Value::F64(_) => ValType::F64,
        };
        assert_eq!(Value::from_u64(value.to_u64(), &ty), value);
    }
}

fn sample_runtime() -> Runtime {
    Runtime::init(sample(), 0x4000, 4096, 0x9000)
}

#[test]
fn runtime_starts_with_an_empty_buffer() {
    let runtime = sample_runtime();
    assert!(runtime.is_well_formed());
    assert!(runtime.code().is_empty());
    let compiler = runtime.get_compiler();
    assert_eq!(compiler.p_start(), 0x4000);
    assert_eq!(compiler.p_current(), 0x4000);
    assert_eq!(compiler.p_func_start(), 0x4000);
    assert_eq!(compiler.capacity(), 4096);
    assert_eq!(compiler.lookup(0), None);
    assert_eq!(runtime.get_store().funcs, vec![1, 0, 9]);
}

#[test]
fn names_resolve_to_functions() {
    let runtime = sample_runtime();
    assert_eq!(runtime.resolve("first").unwrap(), 0);
    assert_eq!(runtime.resolve("twice").unwrap(), 1);
    let error = runtime.resolve("nothing").unwrap_err();
    assert!(matches!(error, RuntimeError::ExportNotFound(name) if name == "nothing"));
}

#[test]
fn an_export_of_another_kind_is_refused() {
    let mut runtime = sample_runtime();
    let error = runtime.resolve("memory").unwrap_err();
    assert!(matches!(
        error,
        RuntimeError::ExportKindMismatch(ExternalKind::Func, ExternalKind::Memory)
    ));
    let error = runtime.call_func_by_name("memory", &[]).unwrap_err();
    assert!(matches!(
        error,
        RuntimeError::ExportKindMismatch(ExternalKind::Func, ExternalKind::Memory)
    ));
    // nothing was compiled for it
    assert!(runtime.code().is_empty());
}

#[test]
fn a_call_packs_its_arguments() {
    let mut runtime = sample_runtime();
    let call = runtime.call_func_by_name("twice", &[Value::I32(-1), Value::I64(5)]).unwrap();
    assert_eq!(call.index, 1);
    assert_eq!(call.entry, 0x4000);
    assert_eq!(call.slots, vec![u64::MAX, 5]);
    assert!(!runtime.code().is_empty());
    assert_eq!(runtime.get_compiler().lookup(1), Some(0x4000));
    assert_eq!(
        runtime.get_compiler().p_current(),
        0x4000 + runtime.code().len() as u64
    );
    assert_eq!(runtime.get_compiler().p_func_start(), runtime.get_compiler().p_current());
}

#[test]
fn a_call_by_index_enters_the_same_code_again() {
    let mut runtime = sample_runtime();
    let first = runtime.call_func_by_index(1).unwrap();
    let length = runtime.code().len();
    let second = runtime.call_func_by_index(1).unwrap();
    assert_eq!(first, second);
    assert_eq!(runtime.code().len(), length);
    let other = runtime.call_func_by_index(0).unwrap();
    assert_eq!(other, first + length as u64);
}

#[test]
fn a_call_of_a_missing_function_fails() {
    let mut runtime = sample_runtime();
    let error = runtime.call_func_by_index(5).unwrap_err();
    assert!(matches!(error, RuntimeError::FunctionNotFound(index) if index == "5"));
    // function 2 has no body
    let error = runtime.call_func_by_index(2).unwrap_err();
    assert!(matches!(error, RuntimeError::FunctionNotFound(index) if index == "2"));
    assert!(runtime.code().is_empty());
}

#[test]
fn results_are_read_by_their_types() {
    let runtime = sample_runtime();
    // function 0 returns one i32, function 1 one i64
    let values = runtime.read_results(0, &[0xffff_ffff_ffff_ffff, 7]).unwrap();
    assert_eq!(values, vec![Value::I32(-1)]);
    let values = runtime.read_results(1, &[0xffff_ffff_ffff_fff6, 7]).unwrap();
    assert_eq!(values, vec![Value::I64(-10)]);
    // no more values than slots
    assert_eq!(runtime.read_results(1, &[]).unwrap(), vec![]);
    let error = runtime.read_results(2, &[1]).unwrap_err();
    assert!(matches!(error, RuntimeError::FunctionTypeNotFound(index) if index == "2"));
    let error = runtime.read_results(3, &[1]).unwrap_err();
    assert!(matches!(error, RuntimeError::FunctionNotFound(index) if index == "3"));
}

#[test]
fn block_types_name_their_arities() {
    // an `if` with a function type takes its parameters from the stack
    let mut module = WasmModule::default();
    module.types.push(FuncType::new(vec![ValType::I64], vec![ValType::I64]));
    module.funcs.push(0);
    module.code.push(Func {
        locals: vec![],
        body: vec![
            Operator::LocalGet { local_index: 0 },
            Operator::I32Const { value: 1 },
            Operator::If { blockty: BlockType::FuncType(0) },
            Operator::End,
            Operator::End,
        ],
    });
    module.exports.push(export("keep", ExternalKind::Func, 0));
    let mut runtime = Runtime::init(module, 0x4000, 4096, 0x9000);
    assert!(runtime.call_func_by_name("keep", &[Value::I64(1)]).is_ok());
}

#[test]
fn failures_in_words() {
    let cases = [
        (RuntimeError::ExportNotFound("fib".to_string()), "Export not found: fib"),
        (RuntimeError::FunctionNotFound(index_text(12)), "Function not found: 12"),
        (RuntimeError::FunctionTypeNotFound(index_text(3)), "Function type not found: 3"),
        (
            RuntimeError::ExportKindMismatch(ExternalKind::Func, ExternalKind::Memory),
            "Export kind is not function: memory",
        ),
        (
            RuntimeError::ExportKindMismatch(ExternalKind::Table, ExternalKind::Global),
            "Export kind is not table: global",
        ),
        (
            RuntimeError::ExportKindMismatch(ExternalKind::Tag, ExternalKind::Func),
            "Export kind is not tag: function",
        ),
        (
            RuntimeError::UnsupportedInstruction("f32.add".to_string()),
            "Unsupported instruction: f32.add",
        ),
        (RuntimeError::UnsupportedBlockShape, "Unsupported block shape"),
        (RuntimeError::CodeBufferOverflow, "Code buffer overflow"),
    ];
    for (error, text) in cases {
        assert_eq!(error.message(), text);
    }
}
