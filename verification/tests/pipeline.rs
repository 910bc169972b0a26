use x64wasm::decode::decode_function;
use x64wasm::encode::encode_module;
use x64wasm::error::TranslateError;
use x64wasm::transpiler::SimpleTranspiler;
use x64wasm::translate::WasmOp;

#[test]
fn test_simple_add() {
    // mov eax, edi
    // add eax, 1
    // ret
    let code = vec![
        0x89, 0xf8, // mov eax, edi
        0x83, 0xc0, 0x01, // add eax, 1
        0xc3, // ret
    ];

    let transpiler = SimpleTranspiler::new();
    let wasm = transpiler.transpile(&code, 0x1000).unwrap();

    assert!(!wasm.is_empty());
    assert!(wasm.starts_with(b"\0asm")); // WASM magic number
}

#[test]
fn add_one_module_bytes_are_exact() {
    // destination = parameter + 1; return destination
    let code = vec![0x89, 0xf8, 0x83, 0xc0, 0x01, 0xc3];
    let transpiler = SimpleTranspiler::new();
    let wasm = transpiler.transpile(&code, 0x1000).unwrap();
    let expected: Vec<u8> = vec![
        0x00, 0x61, 0x73, 0x6d, 0x01, 0x00, 0x00, 0x00, // magic, version
        0x01, 0x06, 0x01, 0x60, 0x01, 0x7e, 0x01, 0x7e, // type: (i64) -> i64
        0x03, 0x02, 0x01, 0x00, // function section
        0x07, 0x0c, 0x01, 0x08, b'c', b'a', b'l', b'l', b'b', b'a', b'c', b'k', 0x00,
        0x00, // export "callback"
        0x0a, 0x16, 0x01, 0x14, // code section, one 20-byte body
        0x01, 0x01, 0x7e, // one run of one i64 local
        0x20, 0x00, 0x21, 0x01, // local.get 0; local.set 1 (mov)
        0x20, 0x01, 0x42, 0x01, 0x7c, 0x21, 0x01, // get 1; const 1; add; set 1
        0x20, 0x01, 0x0f, // get 1; return (ret)
        0x42, 0x00, 0x0b, // default result; end
    ];
    assert_eq!(wasm, expected);
}

#[test]
fn translating_twice_is_byte_identical() {
    let code = vec![0x89, 0xf8, 0x83, 0xc0, 0x01, 0xc3];
    let transpiler = SimpleTranspiler::new();
    let first = transpiler.transpile(&code, 0x1000).unwrap();
    let second = transpiler.transpile(&code, 0x1000).unwrap();
    assert_eq!(first, second);
}

#[test]
fn compare_and_branch_translates_to_if_else() {
    // cmp rdi, 0; jg taken; mov eax, 0; ret; taken: mov eax, 1; ret
    let code = vec![
        0x48, 0x83, 0xff, 0x00, // cmp rdi, 0
        0x7f, 0x06, // jg +6
        0xb8, 0x00, 0x00, 0x00, 0x00, // mov eax, 0
        0xc3, // ret
        0xb8, 0x01, 0x00, 0x00, 0x00, // mov eax, 1
        0xc3, // ret
    ];
    let transpiler = SimpleTranspiler::new();
    let wasm = transpiler.transpile(&code, 0x1000).unwrap();
    let expected_ops = vec![
        WasmOp::LocalGet(0),
        WasmOp::I64Const(0),
        WasmOp::I64Sub,
        WasmOp::LocalSet(1), // flag := rdi - 0
        WasmOp::LocalGet(1),
        WasmOp::I64Const(0),
        WasmOp::I64GtS,
        WasmOp::If, // flag > 0 ?
        WasmOp::I64Const(1),
        WasmOp::LocalSet(2),
        WasmOp::LocalGet(2),
        WasmOp::Return, // taken arm returns 1
        WasmOp::Else,
        WasmOp::I64Const(0),
        WasmOp::LocalSet(2),
        WasmOp::LocalGet(2),
        WasmOp::Return, // fallthrough arm returns 0
        WasmOp::End,
        WasmOp::I64Const(0),
        WasmOp::End,
    ];
    assert_eq!(wasm, encode_module(&expected_ops, 2, false));
}

#[test]
fn unsupported_push_fails_whole_function() {
    // push rbp; ret
    let code = vec![0x55, 0xc3];
    let transpiler = SimpleTranspiler::new();
    let r = transpiler.transpile(&code, 0x1000);
    assert_eq!(r, Err(TranslateError::UnsupportedInstruction(0x1000, 640)));
}

#[test]
fn invalid_bytes_fail_decoding() {
    // a lone REX prefix cannot form an instruction
    let code = vec![0x48];
    let transpiler = SimpleTranspiler::new();
    assert_eq!(transpiler.transpile(&code, 0x1000), Err(TranslateError::InvalidEncoding));
}

#[test]
fn empty_input_yields_empty_valid_module() {
    let code: Vec<u8> = vec![];
    let transpiler = SimpleTranspiler::new();
    let wasm = transpiler.transpile(&code, 0x1000).unwrap();
    // the body holds only the default result and the closing delimiter
    assert_eq!(wasm, encode_module(&vec![WasmOp::I64Const(0), WasmOp::End], 0, false));
    assert!(wasm.starts_with(b"\0asm"));
}

#[test]
fn decoder_reports_addresses_and_mnemonics() {
    let code = vec![0x89, 0xf8, 0xc3]; // mov eax, edi; ret
    let instrs = decode_function(&code, 0x4000).unwrap();
    assert_eq!(instrs.len(), 2);
    assert_eq!(instrs[0].ip, 0x4000);
    assert_eq!(instrs[0].len, 2);
    assert_eq!(instrs[0].mnemonic, 414); // mov
    assert_eq!(instrs[1].ip, 0x4002);
    assert_eq!(instrs[1].mnemonic, 662); // ret
}

#[test]
fn backward_branch_uses_dispatch_loop() {
    // top: sub rdi, 1; cmp rdi, 0; jg top; mov rax, rdi; ret
    let code = vec![
        0x48, 0x83, 0xef, 0x01, // sub rdi, 1
        0x48, 0x83, 0xff, 0x00, // cmp rdi, 0
        0x7f, 0xf6, // jg -10 (back to the top)
        0x48, 0x89, 0xf8, // mov rax, rdi
        0xc3, // ret
    ];
    let transpiler = SimpleTranspiler::new();
    let wasm = transpiler.transpile(&code, 0x1000).unwrap();
    assert!(wasm.starts_with(b"\0asm"));
    // the body must hold a loop opcode with the empty block type
    let has_loop = wasm.windows(2).any(|w| w == [0x03, 0x40]);
    assert!(has_loop);
}

#[test]
fn memory_access_adds_linear_memory() {
    let code = vec![0x48, 0x8b, 0x07, 0xc3]; // mov rax, [rdi]; ret
    let transpiler = SimpleTranspiler::new();
    let wasm = transpiler.transpile(&code, 0x1000).unwrap();
    // single-page memory section: id 5, one memory with limits 1..=1
    let has_memory_section = wasm.windows(6).any(|w| w == [0x05, 0x04, 0x01, 0x01, 0x01, 0x01]);
    assert!(has_memory_section);
    let has_memory_export = wasm.windows(6).any(|w| w == *b"memory");
    assert!(has_memory_export);
    // without memory access, neither appears
    let plain = transpiler.transpile(&vec![0xc3], 0x1000).unwrap();
    assert!(!plain.windows(6).any(|w| w == *b"memory"));
}

#[test]
fn conditional_branch_without_fallthrough_is_refused() {
    // cmp rdi, 0; jg start — the branch is the last instruction
    let code = vec![0x48, 0x83, 0xff, 0x00, 0x7f, 0xfa];
    let transpiler = SimpleTranspiler::new();
    let r = transpiler.transpile(&code, 0x1000);
    assert!(matches!(r, Err(TranslateError::UnsupportedInstruction(_, 304))));
}

#[test]
fn branch_leaving_the_function_is_refused() {
    // jmp far past the end
    let code = vec![0xeb, 0x10, 0xc3];
    let transpiler = SimpleTranspiler::new();
    let r = transpiler.transpile(&code, 0x1000);
    assert!(matches!(r, Err(TranslateError::UnsupportedInstruction(_, 308))));
}

#[test]
fn blocks_partition_the_instruction_range() {
    // cmp rdi, 0; jg +6; mov eax, 0; ret; mov eax, 1; ret
    let code = vec![
        0x48, 0x83, 0xff, 0x00, 0x7f, 0x06, 0xb8, 0x00, 0x00, 0x00, 0x00, 0xc3, 0xb8, 0x01, 0x00,
        0x00, 0x00, 0xc3,
    ];
    let instrs = decode_function(&code, 0x1000).unwrap();
    assert_eq!(instrs.len(), 6);
    let cfg = x64wasm::cfg::ControlFlowGraph::from_instructions(&instrs).unwrap();
    assert_eq!(cfg.entry, 0);
    assert_eq!(cfg.blocks.len(), 3);
    // chained half-open ranges: disjoint, and together exactly 0..6
    assert_eq!(cfg.blocks[0].start_idx, 0);
    for b in 1..cfg.blocks.len() {
        assert_eq!(cfg.blocks[b].start_idx, cfg.blocks[b - 1].end_idx);
    }
    assert_eq!(cfg.blocks[cfg.blocks.len() - 1].end_idx, instrs.len());
    // the conditional head has fallthrough then target
    assert_eq!(cfg.blocks[0].succs, x64wasm::cfg::Succs::Two(1, 2));
    assert_eq!(cfg.blocks[1].succs, x64wasm::cfg::Succs::Zero);
    assert_eq!(cfg.blocks[2].succs, x64wasm::cfg::Succs::Zero);
}

#[test]
fn call_is_an_explicit_no_op_placeholder() {
    // call +0 (next instruction); mov rax, rdi; ret
    let code = vec![
        0xe8, 0x00, 0x00, 0x00, 0x00, // call +0
        0x48, 0x89, 0xf8, // mov rax, rdi
        0xc3, // ret
    ];
    let transpiler = SimpleTranspiler::new();
    let wasm = transpiler.transpile(&code, 0x1000).unwrap();
    // the call emits nothing: the module equals the one without the call
    let without = transpiler.transpile(&vec![0x48, 0x89, 0xf8, 0xc3], 0x1000).unwrap();
    assert_eq!(wasm, without);
}

#[test]
fn lea_translates_to_base_plus_displacement() {
    // lea eax, [rdi+1]; ret
    let code = vec![0x8d, 0x47, 0x01, 0xc3];
    let transpiler = SimpleTranspiler::new();
    let wasm = transpiler.transpile(&code, 0x1000).unwrap();
    let expected_ops = vec![
        WasmOp::LocalGet(0),
        WasmOp::I64Const(1),
        WasmOp::I64Add,
        WasmOp::LocalSet(1),
        WasmOp::LocalGet(1),
        WasmOp::Return,
        WasmOp::I64Const(0),
        WasmOp::End,
    ];
    assert_eq!(wasm, encode_module(&expected_ops, 1, false));
}
