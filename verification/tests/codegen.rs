//! The machine code of whole functions: byte for byte where it is short,
//! and instruction by instruction through a disassembler where it is long.

use iced_x86::{Decoder, DecoderOptions, Instruction, Mnemonic, OpKind, Register};
use wasm_jit::assembler::{
    ret, Add, Call, Cmp, Je, Jmp, Mov, Pop, Push, Register32, Register64, Register8, Sete, Sub,
    Movzx,
};
use wasm_jit::compiler::{Compiler, VartualStack};
use wasm_jit::runtime::error::RuntimeError;
use wasm_jit::runtime::store::Store;
use wasm_jit::wasm::{BlockType, Func, FuncType, Operator, ValType, WasmModule};

const BASE: u64 = 0x0010_0000;
const TRAMPOLINE: u64 = 0x7000_0000_0000;

fn signature(params: usize, results: usize) -> FuncType {
    FuncType::new(vec![ValType::I64; params], vec![ValType::I64; results])
}

/// A store of functions, each with its own type.
fn store(functions: Vec<(FuncType, Vec<Operator>)>) -> Store {
    let mut module = WasmModule::default();
    for (i, (ty, body)) in functions.into_iter().enumerate() {
        module.types.push(ty);
        module.funcs.push(i as u32);
        module.code.push(Func { locals: Vec::new(), body });
    }
    Store::new(module)
}

fn compile(store: &Store, index: u32) -> Result<Vec<u8>, RuntimeError> {
    let mut compiler = Compiler::new(BASE, 1 << 16, TRAMPOLINE);
    compiler.compile_func(index, store)?;
    Ok(compiler.code().clone())
}

fn compile_one(ty: FuncType, body: Vec<Operator>) -> Result<Vec<u8>, RuntimeError> {
    compile(&store(vec![(ty, body)]), 0)
}

fn get(local_index: u32) -> Operator {
    Operator::LocalGet { local_index }
}

fn const64(value: i64) -> Operator {
    Operator::I64Const { value }
}

fn if_i64() -> Operator {
    Operator::If { blockty: BlockType::Type(ValType::I64) }
}

fn join(pieces: Vec<Vec<u8>>) -> Vec<u8> {
    pieces.concat()
}

fn store_slot(reg: Register64) -> Vec<u8> {
    join(vec![Register64::R11.to_mem().mov(reg), Register64::R11.add(8)])
}

fn load_slot(reg: Register64) -> Vec<u8> {
    join(vec![Register64::R11.add(-8), reg.mov(Register64::R11.to_mem())])
}

fn enter(params: i32) -> Vec<u8> {
    let mut code = join(vec![
        Register64::Rbp.push(),
        Register64::Rbp.mov(Register64::Rsp),
        Register64::Rdi.push(),
        Register64::R11.mov(Register64::Rsi),
    ]);
    for i in (0..params).rev() {
        code.extend(Register64::Rax.mov(Register64::R11.with_offset(-8 * (i + 1))));
        code.extend(Register64::Rax.push());
    }
    code.extend(Register64::R11.add(-8 * params));
    if params % 2 == 1 {
        code.extend(Register64::Rsp.add(-8));
    }
    code
}

fn leave() -> Vec<u8> {
    join(vec![Register64::Rsp.mov(Register64::Rbp), Register64::Rbp.pop(), ret()])
}

fn succeed() -> Vec<u8> {
    join(vec![Register64::Rax.mov(0i64), leave()])
}

fn call_sequence(target: u64, index: i32, params: i32, results: i32) -> Vec<u8> {
    join(vec![
        Register64::Rdi.mov(Register64::Rbp.with_offset(-8)),
        Register64::Rsi.mov(Register64::R11),
        Register32::Edx.mov(index),
        Register64::R10.mov(target as i64),
        Register64::R11.push(),
        Register64::R10.call(),
        Register64::R11.pop(),
        Register64::R10.mov(0i64),
        Register64::Rax.cmp(Register64::R10),
        5i32.je(),
        leave(),
        Register64::R11.add(8 * (results - params)),
    ])
}

/// Decodes a whole function: the instructions with their addresses.
fn disassemble(code: &[u8]) -> Vec<Instruction> {
    let mut decoder = Decoder::with_ip(64, code, BASE, DecoderOptions::NONE);
    let mut instructions = Vec::new();
    while decoder.can_decode() {
        let instruction = decoder.decode();
        assert!(!instruction.is_invalid(), "invalid instruction at {:#x}", instruction.ip());
        instructions.push(instruction);
    }
    instructions
}

#[test]
fn constants_are_folded_into_one_store() {
    let body = vec![const64(10), const64(20), Operator::I64Add, Operator::End];
    let code = compile_one(signature(0, 1), body).unwrap();
    let expected: Vec<u8> = vec![
        0x55, // push rbp
        0x48, 0x89, 0xe5, // mov rbp, rsp
        0x57, // push rdi
        0x49, 0x89, 0xf3, // mov r11, rsi
        0x49, 0x81, 0xc3, 0x00, 0x00, 0x00, 0x00, // add r11, 0
        0x48, 0xb8, 0x1e, 0x00, 0x00, 0x00, 0x00, 0x00, 0x00, 0x00, // mov rax, 30
        0x49, 0x89, 0x03, // mov [r11], rax
        0x49, 0x81, 0xc3, 0x08, 0x00, 0x00, 0x00, // add r11, 8
        0x48, 0xb8, 0x00, 0x00, 0x00, 0x00, 0x00, 0x00, 0x00, 0x00, // mov rax, 0
        0x48, 0x89, 0xec, // mov rsp, rbp
        0x5d, // pop rbp
        0xc3, // ret
    ];
    assert_eq!(code, expected);
}

#[test]
fn parameters_become_locals_below_the_frame_pointer() {
    let body = vec![get(0), get(1), Operator::I64Add, Operator::End];
    let code = compile_one(signature(2, 1), body).unwrap();
    let expected = join(vec![
        enter(2),
        Register64::Rdi.mov(Register64::Rbp.with_offset(-16)),
        Register64::Rsi.mov(Register64::Rbp.with_offset(-24)),
        Register64::Rdi.add(Register64::Rsi),
        store_slot(Register64::Rdi),
        succeed(),
    ]);
    assert_eq!(code, expected);
    // the first argument is copied first, from the lowest slot
    let prologue = join(vec![
        vec![0x55, 0x48, 0x89, 0xe5, 0x57, 0x49, 0x89, 0xf3],
        vec![0x49, 0x8b, 0x43, 0xf0, 0x50], // mov rax, [r11 - 16]; push rax
        vec![0x49, 0x8b, 0x43, 0xf8, 0x50], // mov rax, [r11 - 8]; push rax
        vec![0x49, 0x81, 0xc3, 0xf0, 0xff, 0xff, 0xff], // add r11, -16
    ]);
    assert_eq!(&code[..prologue.len()], &prologue[..]);
}

#[test]
fn an_odd_number_of_parameters_is_padded() {
    let code = compile_one(signature(1, 1), vec![get(0), Operator::End]).unwrap();
    let expected = join(vec![
        enter(1),
        Register64::Rdi.mov(Register64::Rbp.with_offset(-16)),
        store_slot(Register64::Rdi),
        succeed(),
    ]);
    assert_eq!(code, expected);
    let pad = Register64::Rsp.add(-8);
    let start = enter(1).len() - pad.len();
    assert_eq!(&code[start..start + pad.len()], &pad[..]);
    assert_eq!(pad, vec![0x48, 0x81, 0xc4, 0xf8, 0xff, 0xff, 0xff]);
}

#[test]
fn narrow_operations_use_narrow_registers() {
    let ty = FuncType::new(vec![ValType::I32; 2], vec![ValType::I32]);
    for (op, middle) in [
        (Operator::I32Add, Register32::Edi.add(Register32::Esi)),
        (Operator::I32Sub, Register32::Edi.sub(Register32::Esi)),
        (
            Operator::I32Eq,
            join(vec![
                Register32::Edi.cmp(Register32::Esi),
                Register8::Al.sete(),
                Register32::Eax.movzx(Register8::Al),
                Register32::Edi.mov(Register32::Eax),
            ]),
        ),
    ] {
        let code = compile_one(ty.clone(), vec![get(0), get(1), op, Operator::End]).unwrap();
        let expected = join(vec![
            enter(2),
            Register64::Rdi.mov(Register64::Rbp.with_offset(-16)),
            Register64::Rsi.mov(Register64::Rbp.with_offset(-24)),
            middle,
            store_slot(Register64::Rdi),
            succeed(),
        ]);
        assert_eq!(code, expected);
    }
}

#[test]
fn wide_operations_use_wide_registers() {
    for (op, middle) in [
        (Operator::I64Add, Register64::Rdi.add(Register64::Rsi)),
        (Operator::I64Sub, Register64::Rdi.sub(Register64::Rsi)),
        (
            Operator::I64Eq,
            join(vec![
                Register64::Rdi.cmp(Register64::Rsi),
                Register8::Al.sete(),
                Register32::Eax.movzx(Register8::Al),
                Register64::Rdi.mov(Register64::Rax),
            ]),
        ),
    ] {
        let code = compile_one(signature(2, 1), vec![get(0), get(1), op, Operator::End]).unwrap();
        let expected = join(vec![
            enter(2),
            Register64::Rdi.mov(Register64::Rbp.with_offset(-16)),
            Register64::Rsi.mov(Register64::Rbp.with_offset(-24)),
            middle,
            store_slot(Register64::Rdi),
            succeed(),
        ]);
        assert_eq!(code, expected);
    }
}

#[test]
fn a_constant_beside_a_register_goes_through_rax() {
    // x - 5
    let code = compile_one(signature(1, 1), vec![get(0), const64(5), Operator::I64Sub, Operator::End])
        .unwrap();
    let expected = join(vec![
        enter(1),
        Register64::Rdi.mov(Register64::Rbp.with_offset(-16)),
        Register64::Rax.mov(5i64),
        Register64::Rdi.sub(Register64::Rax),
        store_slot(Register64::Rdi),
        succeed(),
    ]);
    assert_eq!(code, expected);
    // 5 - x: computed in rax and moved back
    let code = compile_one(signature(1, 1), vec![const64(5), get(0), Operator::I64Sub, Operator::End])
        .unwrap();
    let expected = join(vec![
        enter(1),
        Register64::Rdi.mov(Register64::Rbp.with_offset(-16)),
        Register64::Rax.mov(5i64),
        Register64::Rax.sub(Register64::Rdi),
        Register64::Rdi.mov(Register64::Rax),
        store_slot(Register64::Rdi),
        succeed(),
    ]);
    assert_eq!(code, expected);
}

#[test]
fn the_eighth_register_value_spills_the_oldest() {
    let mut body: Vec<Operator> = (0..8).map(get).collect();
    body.push(Operator::End);
    let code = compile_one(signature(8, 8), body).unwrap();
    let pool = [
        Register64::Rdi,
        Register64::Rsi,
        Register64::Rdx,
        Register64::Rcx,
        Register64::R8,
        Register64::R9,
        Register64::R10,
    ];
    let mut expected = enter(8);
    for (i, reg) in pool.iter().enumerate() {
        expected.extend(reg.mov(Register64::Rbp.with_offset(-16 - 8 * i as i32)));
    }
    // no register is free: the value in rdi is written to memory
    expected.extend(store_slot(Register64::Rdi));
    expected.extend(Register64::Rdi.mov(Register64::Rbp.with_offset(-16 - 8 * 7)));
    // at the end the others follow in the order in which they were taken
    for reg in pool.iter().skip(1) {
        expected.extend(store_slot(*reg));
    }
    expected.extend(store_slot(Register64::Rdi));
    expected.extend(succeed());
    assert_eq!(code, expected);
}

#[test]
fn an_empty_deferred_stack_is_filled_from_memory() {
    // after a call both operands of the addition are in memory
    let callee = vec![const64(1), Operator::End];
    let caller = vec![
        Operator::Call { function_index: 0 },
        Operator::Call { function_index: 0 },
        Operator::I64Add,
        Operator::End,
    ];
    let store = store(vec![(signature(0, 1), callee), (signature(0, 1), caller)]);
    let code = compile(&store, 1).unwrap();
    let expected = join(vec![
        enter(0),
        call_sequence(TRAMPOLINE, 0, 0, 1),
        call_sequence(TRAMPOLINE, 0, 0, 1),
        load_slot(Register64::Rdi),
        load_slot(Register64::Rsi),
        Register64::Rsi.add(Register64::Rdi),
        store_slot(Register64::Rsi),
        succeed(),
    ]);
    assert_eq!(code, expected);
}

#[test]
fn a_function_calls_itself_directly() {
    let body = vec![get(0), Operator::Call { function_index: 0 }, Operator::End];
    let code = compile_one(signature(1, 1), body).unwrap();
    let expected = join(vec![
        enter(1),
        Register64::Rdi.mov(Register64::Rbp.with_offset(-16)),
        store_slot(Register64::Rdi),
        call_sequence(BASE, 0, 1, 1),
        succeed(),
    ]);
    assert_eq!(code, expected);
}

#[test]
fn a_second_function_calls_itself_at_its_own_entry() {
    let first = vec![const64(1), Operator::End];
    let second = vec![Operator::Call { function_index: 1 }, Operator::End];
    let store = store(vec![(signature(0, 1), first), (signature(0, 1), second)]);
    let mut compiler = Compiler::new(BASE, 1 << 16, TRAMPOLINE);
    compiler.compile_func(0, &store).unwrap();
    assert_eq!(compiler.extract_func(0), BASE);
    let first_length = compiler.code().len();
    compiler.compile_func(1, &store).unwrap();
    let entry = compiler.extract_func(1);
    assert_eq!(entry, BASE + first_length as u64);
    let expected = join(vec![enter(0), call_sequence(entry, 1, 0, 1), succeed()]);
    assert_eq!(&compiler.code()[first_length..], &expected[..]);
}

#[test]
fn a_call_moves_the_stack_pointer_over_arguments_and_results() {
    let callee = vec![Operator::End];
    let store = store(vec![
        (signature(3, 1), callee),
        (
            signature(0, 1),
            vec![
                const64(1),
                const64(2),
                const64(3),
                Operator::Call { function_index: 0 },
                Operator::End,
            ],
        ),
    ]);
    let code = compile(&store, 1).unwrap();
    let adjust = Register64::R11.add(-16);
    let tail = join(vec![adjust, succeed()]);
    assert_eq!(&code[code.len() - tail.len()..], &tail[..]);
}

#[test]
fn an_if_is_patched_at_else_and_at_end() {
    let body = vec![
        get(0),
        if_i64(),
        const64(11),
        Operator::Else,
        const64(22),
        Operator::End,
        Operator::End,
    ];
    let code = compile_one(signature(1, 1), body).unwrap();
    let first_arm = join(vec![Register64::Rax.mov(11i64), store_slot(Register64::Rax)]);
    let second_arm = join(vec![Register64::Rax.mov(22i64), store_slot(Register64::Rax)]);
    let expected = join(vec![
        enter(1),
        Register64::Rdi.mov(Register64::Rbp.with_offset(-16)),
        Register32::Edi.cmp(0),
        // over the first arm and its jump
        (first_arm.len() as i32 + 5).je(),
        first_arm,
        // over the second arm
        (second_arm.len() as i32).jmp(),
        second_arm,
        succeed(),
    ]);
    assert_eq!(code, expected);
}

#[test]
fn an_if_without_else_is_patched_at_end() {
    let body = vec![
        get(0),
        Operator::If { blockty: BlockType::Empty },
        Operator::End,
        const64(9),
        Operator::End,
    ];
    let code = compile_one(signature(1, 1), body).unwrap();
    let expected = join(vec![
        enter(1),
        Register64::Rdi.mov(Register64::Rbp.with_offset(-16)),
        Register32::Edi.cmp(0),
        0i32.je(),
        Register64::Rax.mov(9i64),
        store_slot(Register64::Rax),
        succeed(),
    ]);
    assert_eq!(code, expected);
}

#[test]
fn a_constant_condition_is_loaded_and_tested() {
    let body = vec![
        Operator::I32Const { value: 1 },
        Operator::If { blockty: BlockType::Empty },
        Operator::End,
        Operator::End,
    ];
    let code = compile_one(signature(0, 0), body).unwrap();
    let expected = join(vec![
        enter(0),
        Register32::Eax.mov(1),
        Register32::Eax.cmp(0),
        0i32.je(),
        succeed(),
    ]);
    assert_eq!(code, expected);
}

#[test]
fn results_are_moved_to_the_base_of_a_block() {
    // the block leaves 1 and 2 and has one result
    let body = vec![
        get(0),
        if_i64(),
        const64(1),
        const64(2),
        Operator::End,
        Operator::End,
    ];
    let code = compile_one(signature(1, 1), body).unwrap();
    let arm = join(vec![
        Register64::Rax.mov(1i64),
        store_slot(Register64::Rax),
        Register64::Rax.mov(2i64),
        store_slot(Register64::Rax),
    ]);
    let expected = join(vec![
        enter(1),
        Register64::Rdi.mov(Register64::Rbp.with_offset(-16)),
        Register32::Edi.cmp(0),
        (arm.len() as i32).je(),
        arm,
        // back over both values, then the upper one is copied down
        Register64::R11.add(-16),
        Register64::Rax.mov(Register64::R11.with_offset(8)),
        store_slot(Register64::Rax),
        succeed(),
    ]);
    assert_eq!(code, expected);
}

#[test]
fn results_are_moved_to_the_base_of_a_function() {
    let body = vec![const64(1), const64(2), const64(3), Operator::End];
    let code = compile_one(signature(0, 2), body).unwrap();
    let expected = join(vec![
        enter(0),
        Register64::Rax.mov(1i64),
        store_slot(Register64::Rax),
        Register64::Rax.mov(2i64),
        store_slot(Register64::Rax),
        Register64::Rax.mov(3i64),
        store_slot(Register64::Rax),
        Register64::R11.add(-24),
        Register64::Rax.mov(Register64::R11.with_offset(8)),
        store_slot(Register64::Rax),
        Register64::Rax.mov(Register64::R11.with_offset(8)),
        store_slot(Register64::Rax),
        succeed(),
    ]);
    assert_eq!(code, expected);
}

fn fib_body() -> Vec<Operator> {
    vec![
        get(0),
        const64(0),
        Operator::I64Eq,
        if_i64(),
        const64(0),
        Operator::Else,
        get(0),
        const64(1),
        Operator::I64Eq,
        if_i64(),
        const64(1),
        Operator::Else,
        get(0),
        const64(1),
        Operator::I64Sub,
        Operator::Call { function_index: 0 },
        get(0),
        const64(2),
        Operator::I64Sub,
        Operator::Call { function_index: 0 },
        Operator::I64Add,
        Operator::End,
        Operator::End,
        Operator::End,
    ]
}

#[test]
fn every_jump_lands_on_an_instruction() {
    let code = compile_one(signature(1, 1), fib_body()).unwrap();
    let instructions = disassemble(&code);
    let end = BASE + code.len() as u64;
    let starts: Vec<u64> = instructions.iter().map(|instruction| instruction.ip()).collect();
    let mut jumps = 0;
    for instruction in &instructions {
        if matches!(instruction.mnemonic(), Mnemonic::Je | Mnemonic::Jmp) {
            let target = instruction.near_branch_target();
            assert!(target >= instruction.next_ip(), "a jump backwards");
            assert!(target < end);
            assert!(starts.contains(&target), "a jump into an instruction");
            jumps += 1;
        }
    }
    // two tests, two jumps over a second arm, two checks after calls
    assert_eq!(jumps, 6);
    assert_eq!(instructions.last().unwrap().mnemonic(), Mnemonic::Ret);
}

#[test]
fn only_the_known_instructions_are_emitted() {
    let code = compile_one(signature(1, 1), fib_body()).unwrap();
    for instruction in disassemble(&code) {
        assert!(matches!(
            instruction.mnemonic(),
            Mnemonic::Push
                | Mnemonic::Pop
                | Mnemonic::Mov
                | Mnemonic::Add
                | Mnemonic::Sub
                | Mnemonic::Cmp
                | Mnemonic::Sete
                | Mnemonic::Movzx
                | Mnemonic::Je
                | Mnemonic::Jmp
                | Mnemonic::Call
                | Mnemonic::Ret
        ));
    }
}

#[test]
fn calls_go_through_r10() {
    let code = compile_one(signature(1, 1), fib_body()).unwrap();
    let instructions = disassemble(&code);
    let mut targets = Vec::new();
    for pair in instructions.windows(3) {
        if pair[2].mnemonic() == Mnemonic::Call {
            assert_eq!(pair[2].op_register(0), Register::R10);
            assert_eq!(pair[1].mnemonic(), Mnemonic::Push);
            assert_eq!(pair[1].op_register(0), Register::R11);
            assert_eq!(pair[0].op_register(0), Register::R10);
            assert_eq!(pair[0].op_kind(1), OpKind::Immediate64);
            targets.push(pair[0].immediate(1));
        }
    }
    assert_eq!(targets, vec![BASE, BASE]);
}

#[test]
fn an_unknown_instruction_is_refused_by_name() {
    let body = vec![const64(1), Operator::Unsupported("i64.mul".to_string()), Operator::End];
    let error = compile_one(signature(0, 1), body).unwrap_err();
    assert!(matches!(error, RuntimeError::UnsupportedInstruction(name) if name == "i64.mul"));
}

#[test]
fn a_local_that_is_no_parameter_is_refused() {
    let error = compile_one(signature(2, 1), vec![get(2), Operator::End]).unwrap_err();
    assert!(matches!(error, RuntimeError::UnsupportedInstruction(name) if name == "local.get"));
    let error = compile_one(signature(0, 1), vec![get(0), Operator::End]).unwrap_err();
    assert!(matches!(error, RuntimeError::UnsupportedInstruction(name) if name == "local.get"));
    assert!(compile_one(signature(2, 1), vec![get(1), Operator::End]).is_ok());
}

#[test]
fn declared_locals_are_refused() {
    let mut module = WasmModule::default();
    module.types.push(signature(0, 0));
    module.funcs.push(0);
    module.code.push(Func { locals: vec![(1, ValType::I64)], body: vec![Operator::End] });
    let error = compile(&Store::new(module), 0).unwrap_err();
    assert!(matches!(error, RuntimeError::UnsupportedBlockShape));
}

#[test]
fn blocks_out_of_shape_are_refused() {
    let bodies: Vec<Vec<Operator>> = vec![
        // the function's block is never closed
        vec![const64(1)],
        // an instruction behind the end of the function
        vec![Operator::End, const64(1)],
        vec![Operator::End, Operator::End],
        // `else` outside an `if`
        vec![Operator::Else, Operator::End],
        // a second `else`
        vec![
            const64(1),
            Operator::If { blockty: BlockType::Empty },
            Operator::Else,
            Operator::Else,
            Operator::End,
            Operator::End,
        ],
        // an `if` that is never closed
        vec![const64(1), Operator::If { blockty: BlockType::Empty }, Operator::End],
        // too few operands
        vec![Operator::I64Add, Operator::End],
        vec![const64(1), Operator::I64Sub, Operator::End],
        vec![Operator::If { blockty: BlockType::Empty }, Operator::End, Operator::End],
        // a block that leaves less than its result
        vec![const64(1), if_i64(), Operator::End, Operator::End],
        // a function that leaves less than its results
        vec![Operator::End],
    ];
    for body in bodies {
        let error = compile_one(signature(0, 1), body.clone()).unwrap_err();
        assert!(matches!(error, RuntimeError::UnsupportedBlockShape), "{:?}", body);
    }
}

#[test]
fn a_call_with_too_few_arguments_is_refused() {
    let store = store(vec![
        (signature(2, 1), vec![Operator::End]),
        (signature(0, 1), vec![const64(1), Operator::Call { function_index: 0 }, Operator::End]),
    ]);
    let error = compile(&store, 1).unwrap_err();
    assert!(matches!(error, RuntimeError::UnsupportedBlockShape));
}

#[test]
fn a_call_of_a_missing_function_is_refused_by_index() {
    let body = vec![Operator::Call { function_index: 7 }, Operator::End];
    let error = compile_one(signature(0, 0), body).unwrap_err();
    assert!(matches!(error, RuntimeError::FunctionNotFound(index) if index == "7"));
    let mut module = WasmModule::default();
    module.types.push(signature(0, 0));
    module.funcs = vec![0, 3];
    module.code.push(Func {
        locals: vec![],
        body: vec![Operator::Call { function_index: 1 }, Operator::End],
    });
    let error = compile(&Store::new(module), 0).unwrap_err();
    assert!(matches!(error, RuntimeError::FunctionTypeNotFound(index) if index == "1"));
}

#[test]
fn a_missing_function_is_refused_by_index() {
    let store = store(vec![(signature(0, 0), vec![Operator::End])]);
    let error = compile(&store, 1).unwrap_err();
    assert!(matches!(error, RuntimeError::FunctionNotFound(index) if index == "1"));
    let mut module = WasmModule::default();
    module.funcs.push(4);
    module.code.push(Func { locals: vec![], body: vec![Operator::End] });
    let error = compile(&Store::new(module), 0).unwrap_err();
    assert!(matches!(error, RuntimeError::FunctionTypeNotFound(index) if index == "0"));
}

#[test]
fn a_missing_block_type_is_refused_by_index() {
    let body = vec![
        const64(1),
        Operator::If { blockty: BlockType::FuncType(12) },
        Operator::End,
        Operator::End,
    ];
    let error = compile_one(signature(0, 0), body).unwrap_err();
    assert!(matches!(error, RuntimeError::FunctionTypeNotFound(index) if index == "12"));
}

#[test]
fn code_that_does_not_fit_is_refused() {
    let body = vec![const64(10), const64(20), Operator::I64Add, Operator::End];
    let store = store(vec![(signature(0, 1), body)]);
    let full = compile(&store, 0).unwrap();
    // exactly enough room
    let mut compiler = Compiler::new(BASE, full.len(), TRAMPOLINE);
    assert!(compiler.compile_func(0, &store).is_ok());
    assert_eq!(compiler.code(), &full);
    // one byte too little, and none at all
    for capacity in [full.len() - 1, 20, 3, 0] {
        let mut compiler = Compiler::new(BASE, capacity, TRAMPOLINE);
        let error = compiler.compile_func(0, &store).unwrap_err();
        assert!(matches!(error, RuntimeError::CodeBufferOverflow));
        assert!(compiler.code().is_empty());
    }
}

#[test]
fn a_failure_leaves_the_installed_code() {
    let good = vec![const64(1), Operator::End];
    let bad = vec![const64(1), get(0), Operator::Unsupported("nop".to_string()), Operator::End];
    let store = store(vec![(signature(0, 1), good), (signature(1, 1), bad)]);
    let mut compiler = Compiler::new(BASE, 1 << 12, TRAMPOLINE);
    compiler.compile_func(0, &store).unwrap();
    compiler.extract_func(0);
    let installed = compiler.code().clone();
    assert!(compiler.compile_func(1, &store).is_err());
    assert_eq!(compiler.code(), &installed);
    assert!(compiler.enter(1, &store).is_err());
    assert_eq!(compiler.code(), &installed);
    assert_eq!(compiler.lookup(1), None);
    assert_eq!(compiler.lookup(0), Some(BASE));
    assert_eq!(compiler.p_func_start(), BASE + installed.len() as u64);
}

#[test]
fn compiling_again_replaces_what_was_not_installed() {
    let store = store(vec![
        (signature(0, 1), vec![const64(1), Operator::End]),
        (signature(0, 1), vec![const64(2), const64(3), Operator::End]),
    ]);
    let mut compiler = Compiler::new(BASE, 1 << 12, TRAMPOLINE);
    compiler.compile_func(1, &store).unwrap();
    let other = compiler.code().clone();
    compiler.compile_func(0, &store).unwrap();
    assert_eq!(compiler.code(), &compile(&store, 0).unwrap());
    assert_ne!(compiler.code(), &other);
    assert_eq!(compiler.p_func_start(), BASE);
}

#[test]
fn an_installed_function_keeps_its_entry() {
    let store = store(vec![
        (signature(0, 1), vec![const64(1), Operator::End]),
        (signature(0, 1), vec![const64(2), Operator::End]),
    ]);
    let mut compiler = Compiler::new(BASE, 1 << 12, TRAMPOLINE);
    assert_eq!(compiler.enter(0, &store).unwrap(), BASE);
    let length = compiler.code().len();
    assert_eq!(compiler.enter(1, &store).unwrap(), BASE + length as u64);
    let code = compiler.code().clone();
    // entered again, nothing is compiled
    assert_eq!(compiler.enter(0, &store).unwrap(), BASE);
    assert_eq!(compiler.enter(1, &store).unwrap(), BASE + length as u64);
    assert_eq!(compiler.code(), &code);
    // installed under an index that is taken, new code is dropped
    compiler.compile_func(1, &store).unwrap();
    assert!(compiler.code().len() > code.len());
    assert_eq!(compiler.extract_func(0), BASE);
    assert_eq!(compiler.code(), &code);
    assert_eq!(compiler.lookup(0), Some(BASE));
    assert_eq!(compiler.lookup(1), Some(BASE + length as u64));
    assert_eq!(compiler.lookup(2), None);
}

#[test]
fn the_capacity_is_cut_to_what_can_be_addressed() {
    assert_eq!(Compiler::new(BASE, 1024, TRAMPOLINE).capacity(), 1024);
    assert_eq!(Compiler::new(0, usize::MAX, TRAMPOLINE).capacity(), 0x7fff_ffff);
    assert_eq!(Compiler::new(u64::MAX - 10, 1024, TRAMPOLINE).capacity(), 10);
    assert_eq!(Compiler::new(u64::MAX, 1024, TRAMPOLINE).capacity(), 0);
    let compiler = Compiler::new(BASE, 1024, TRAMPOLINE);
    assert!(compiler.is_well_formed());
    assert!(Compiler::new(u64::MAX, usize::MAX, TRAMPOLINE).is_well_formed());
    assert_eq!(compiler.p_start(), BASE);
    assert_eq!(compiler.p_current(), BASE);
    assert_eq!(compiler.p_func_start(), BASE);
    assert!(compiler.code().is_empty());
}

#[test]
fn a_fresh_deferred_stack_can_be_made() {
    // the constructor is total and independent of any compiler
    let _ = VartualStack::new();
}

#[test]
fn a_deep_stack_of_constants_is_written_in_order() {
    let mut body: Vec<Operator> = (0..100).map(const64).collect();
    body.push(Operator::End);
    let code = compile_one(signature(0, 100), body).unwrap();
    let mut expected = enter(0);
    for n in 0..100 {
        expected.extend(Register64::Rax.mov(n as i64));
        expected.extend(store_slot(Register64::Rax));
    }
    expected.extend(succeed());
    assert_eq!(code, expected);
}

#[test]
fn the_depth_after_a_body_is_the_operand_depth() {
    // each body leaves `depth` values; the function has one result, so the
    // end of the function steps back over all of them and copies the last
    let callee = (signature(2, 3), vec![const64(1), const64(2), const64(3), Operator::End]);
    let empty = Operator::If { blockty: BlockType::Empty };
    let bodies: Vec<(usize, Vec<Operator>, i32)> = vec![
        (0, vec![const64(1), const64(2), const64(3)], 3),
        (1, vec![get(0), get(0), const64(1), Operator::I64Add], 2),
        (1, vec![get(0), get(0), get(0), get(0), Operator::I64Eq, Operator::I64Sub], 2),
        (0, vec![const64(1), const64(2), empty.clone(), Operator::End, const64(3)], 2),
        (
            0,
            vec![
                const64(1),
                const64(2),
                if_i64(),
                const64(3),
                Operator::Else,
                const64(4),
                Operator::End,
            ],
            2,
        ),
        (
            0,
            vec![
                const64(1),
                const64(2),
                if_i64(),
                const64(3),
                const64(4),
                const64(5),
                Operator::End,
            ],
            2,
        ),
        (0, vec![const64(1), const64(2), Operator::Call { function_index: 0 }], 3),
        (
            0,
            vec![const64(0), const64(1), const64(2), Operator::Call { function_index: 0 }],
            4,
        ),
    ];
    for (params, mut body, depth) in bodies {
        body.push(Operator::End);
        let store = store(vec![callee.clone(), (signature(params, 1), body.clone())]);
        let code = compile(&store, 1).unwrap();
        let tail = join(vec![
            Register64::R11.add(-8 * depth),
            Register64::Rax.mov(Register64::R11.with_offset(8 * (depth - 1))),
            store_slot(Register64::Rax),
            succeed(),
        ]);
        assert!(code.ends_with(&tail), "depth {} after {:?}", depth, body);
    }
}

#[test]
fn values_below_an_if_are_written_before_the_test() {
    // 5 and the argument wait below the condition: both are in memory
    // before the test, on whichever path the block is left
    let body = vec![
        const64(5),
        get(0),
        get(0),
        Operator::If { blockty: BlockType::Empty },
        Operator::End,
        Operator::I64Add,
        Operator::End,
    ];
    let code = compile_one(signature(1, 1), body).unwrap();
    let expected = join(vec![
        enter(1),
        Register64::Rdi.mov(Register64::Rbp.with_offset(-16)),
        Register64::Rsi.mov(Register64::Rbp.with_offset(-16)),
        Register64::Rax.mov(5i64),
        store_slot(Register64::Rax),
        store_slot(Register64::Rdi),
        Register32::Esi.cmp(0),
        0i32.je(),
        load_slot(Register64::Rdx),
        load_slot(Register64::Rcx),
        Register64::Rcx.add(Register64::Rdx),
        store_slot(Register64::Rcx),
        succeed(),
    ]);
    assert_eq!(code, expected);
}
