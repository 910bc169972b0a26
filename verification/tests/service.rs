use object::write::{Object, Symbol, SymbolSection};
use object::{Architecture, BinaryFormat, Endianness, SectionKind, SymbolFlags, SymbolKind, SymbolScope};
use x64wasm::dom::{Dom, DomNode};
use x64wasm::encode::encode_module;
use x64wasm::error::TranslateError;
use x64wasm::regalloc::RegisterAllocator;
use x64wasm::state::{AppState, Todo, User};
use x64wasm::transpiler::{SimpleTranspiler, Transpiler, X64ToWasmTranspiler};
use x64wasm::translate::WasmOp;

fn build_object(entries: &[(&str, Vec<u8>)]) -> Vec<u8> {
    let mut obj = Object::new(BinaryFormat::Elf, Architecture::X86_64, Endianness::Little);
    let text = obj.add_section(vec![], b".text".to_vec(), SectionKind::Text);
    for (name, code) in entries {
        let off = obj.append_section_data(text, code, 16);
        obj.add_symbol(Symbol {
            name: name.as_bytes().to_vec(),
            value: off,
            size: code.len() as u64,
            kind: SymbolKind::Text,
            scope: SymbolScope::Linkage,
            weak: false,
            section: SymbolSection::Section(text),
            flags: SymbolFlags::None,
        });
    }
    obj.write().unwrap()
}

#[test]
fn allocator_is_idempotent_and_reserves_slot_zero() {
    let mut alloc = RegisterAllocator::new(60); // first-argument register
    assert_eq!(alloc.get_or_allocate(53), 1);
    assert_eq!(alloc.get_or_allocate(53), 1);
    assert_eq!(alloc.get_or_allocate(60), 0);
    assert_eq!(alloc.get_or_allocate(54), 2);
    assert_eq!(alloc.n_slots(), 3);
}

#[test]
fn flag_register_shares_one_slot() {
    let mut alloc = RegisterAllocator::new(60);
    let first = alloc.get_or_allocate_flag();
    let second = alloc.get_or_allocate_flag();
    assert_eq!(first, second);
    assert_eq!(first, 1);
}

#[test]
fn second_comparison_overwrites_the_flag_slot() {
    // cmp rdi, 1; cmp rdi, 2; ret
    let code = vec![
        0x48, 0x83, 0xff, 0x01, // cmp rdi, 1
        0x48, 0x83, 0xff, 0x02, // cmp rdi, 2
        0xc3, // ret
    ];
    let transpiler = SimpleTranspiler::new();
    let wasm = transpiler.transpile(&code, 0x1000).unwrap();
    let expected_ops = vec![
        WasmOp::LocalGet(0),
        WasmOp::I64Const(1),
        WasmOp::I64Sub,
        WasmOp::LocalSet(1), // first result into the flag slot
        WasmOp::LocalGet(0),
        WasmOp::I64Const(2),
        WasmOp::I64Sub,
        WasmOp::LocalSet(1), // the second overwrites the same slot
        WasmOp::LocalGet(2),
        WasmOp::Return,
        WasmOp::I64Const(0),
        WasmOp::End,
    ];
    assert_eq!(wasm, encode_module(&expected_ops, 2, false));
}

#[test]
fn resolver_translates_a_symbol_from_a_container() {
    let code = vec![0x89, 0xf8, 0x83, 0xc0, 0x01, 0xc3];
    let data = build_object(&[("add_one", code.clone())]);
    let t = X64ToWasmTranspiler::new(data);
    let from_container = t.transpile_function("add_one").unwrap();
    let direct = SimpleTranspiler::new().transpile(&code, 0).unwrap();
    assert_eq!(from_container, direct);
}

#[test]
fn missing_symbol_reports_symbol_not_found() {
    let data = build_object(&[("add_one", vec![0xc3])]);
    let t = X64ToWasmTranspiler::new(data);
    assert_eq!(t.transpile_function("absent"), Err(TranslateError::SymbolNotFound));
}

#[test]
fn unreadable_container_reports_symbol_not_found() {
    let t = X64ToWasmTranspiler::new(vec![1, 2, 3, 4]);
    assert_eq!(t.transpile_function("anything"), Err(TranslateError::SymbolNotFound));
}

#[test]
fn zero_size_symbol_yields_empty_valid_module() {
    let data = build_object(&[("empty", vec![]), ("add_one", vec![0xc3])]);
    let t = X64ToWasmTranspiler::new(data);
    let wasm = t.transpile_function("empty").unwrap();
    assert_eq!(wasm, encode_module(&vec![WasmOp::I64Const(0), WasmOp::End], 0, false));
}

#[test]
fn cache_serves_equal_buffers_and_skips_unknown_names() {
    let code = vec![0x89, 0xf8, 0x83, 0xc0, 0x01, 0xc3];
    let data = build_object(&[("add_one", code)]);
    let mut service = Transpiler::new();
    assert_eq!(service.get_wasm_for_function("add_one"), None);
    let names = vec!["add_one".to_string(), "absent".to_string()];
    service.analyze_binary(&data, &names);
    let first = service.get_wasm_for_function("add_one").unwrap();
    let second = service.get_wasm_for_function("add_one").unwrap();
    assert_eq!(first, second);
    assert!(first.starts_with(b"\0asm"));
    assert_eq!(service.get_wasm_for_function("absent"), None);
}

#[test]
fn dom_renders_elements_and_text() {
    let node = DomNode::element(
        "p",
        vec![("class", "counter-display")],
        vec![DomNode::text("Counter: 3")],
    );
    assert_eq!(node.to_html(), "<p class=\"counter-display\">Counter: 3</p>");
    let dom = Dom {
        nodes: vec![
            DomNode::element("h1", vec![], vec![DomNode::text("title")]),
            DomNode::text("tail"),
        ],
    };
    assert_eq!(dom.to_html(), "<h1>title</h1>tail");
}

#[test]
fn app_state_holds_todos_and_user() {
    let state = AppState {
        counter: 2,
        todos: vec![Todo { id: 1, text: "write".to_string(), completed: false }],
        user: Some(User { name: "ada".to_string(), email: "ada@example.org".to_string() }),
    };
    assert_eq!(state.counter, 2);
    assert_eq!(state.todos.len(), 1);
    assert!(!state.todos[0].completed);
    assert_eq!(state.user.as_ref().unwrap().name, "ada");
}
