use vstd::prelude::*;

use crate::translate::WasmOp;
use wasm_encoder::{BlockType, CodeSection, ExportKind, ExportSection, FunctionSection, Instruction, MemArg, MemorySection, MemoryType, Module, TypeSection, ValType};

verus! {

#[verifier::external_type_specification]
#[verifier::external_body]
pub struct ExFunction(wasm_encoder::Function);

/// The operations a function body holds, in the order they were written.
pub uninterp spec fn func_ops(f: wasm_encoder::Function) -> Seq<WasmOp>;

/// The count of 64-bit integer locals a function body was created with.
pub uninterp spec fn func_locals(f: wasm_encoder::Function) -> u32;

/// The bytes of the finished single-function module: one `(i64) -> i64`
/// signature, the given body and local count, a fixed export name, and —
/// only when asked — a single-page linear memory with its own export. The
/// encoder is deterministic: the bytes are a function of these three
/// arguments alone.
pub uninterp spec fn module_bytes(ops: Seq<WasmOp>, locals: u32, with_memory: bool) -> Seq<u8>;

/// Ops that carry a payload (slot, constant, offset or branch depth).
pub open spec fn is_arg_op(op: WasmOp) -> bool {
    match op {
        WasmOp::LocalGet(_) => true,
        WasmOp::LocalSet(_) => true,
        WasmOp::I64Const(_) => true,
        WasmOp::I64Load(_) => true,
        WasmOp::I64Store(_) => true,
        WasmOp::Br(_) => true,
        WasmOp::BrIf(_) => true,
        _ => false,
    }
}

/// Relies on `wasm_encoder::Function::new`: a fresh body declaring one
/// run of `locals` 64-bit integer locals and holding no instruction yet.
#[verifier::external_body]
fn function_new(locals: u32) -> (f: wasm_encoder::Function)
    ensures
        func_ops(f) == Seq::<WasmOp>::empty(),
        func_locals(f) == locals,
{
    wasm_encoder::Function::new(vec![(locals, ValType::I64)])
}

/// Relies on `wasm_encoder::Function::instruction`: appends the encoding
/// of one payload-carrying operation to the body. A memory access uses
/// the operation's offset, 8-byte alignment and memory index zero.
#[verifier::external_body]
fn push_arg_op(f: &mut wasm_encoder::Function, op: &WasmOp)
    requires
        is_arg_op(*op),
    ensures
        func_ops(*final(f)) == func_ops(*old(f)).push(*op),
        func_locals(*final(f)) == func_locals(*old(f)),
{
    match *op {
        WasmOp::LocalGet(i) => f.instruction(&Instruction::LocalGet(i)),
        WasmOp::LocalSet(i) => f.instruction(&Instruction::LocalSet(i)),
        WasmOp::I64Const(v) => f.instruction(&Instruction::I64Const(v)),
        WasmOp::I64Load(o) => f.instruction(&Instruction::I64Load(MemArg { offset: o, align: 3, memory_index: 0 })),
        WasmOp::I64Store(o) => f.instruction(&Instruction::I64Store(MemArg { offset: o, align: 3, memory_index: 0 })),
        WasmOp::Br(d) => f.instruction(&Instruction::Br(d)),
        WasmOp::BrIf(d) => f.instruction(&Instruction::BrIf(d)),
        _ => f,
    };
}

/// Relies on `wasm_encoder::Function::instruction`: appends the encoding
/// of one payload-free operation to the body. Block, loop and if all use
/// the empty block type.
#[verifier::external_body]
fn push_plain_op(f: &mut wasm_encoder::Function, op: &WasmOp)
    requires
        !is_arg_op(*op),
    ensures
        func_ops(*final(f)) == func_ops(*old(f)).push(*op),
        func_locals(*final(f)) == func_locals(*old(f)),
{
    f.instruction(&match *op {
        WasmOp::I64Add => Instruction::I64Add,
        WasmOp::I64Sub => Instruction::I64Sub,
        WasmOp::I64Mul => Instruction::I64Mul,
        WasmOp::I64And => Instruction::I64And,
        WasmOp::I64Eq => Instruction::I64Eq,
        WasmOp::I64GtS => Instruction::I64GtS,
        WasmOp::I64LtS => Instruction::I64LtS,
        WasmOp::If => Instruction::If(BlockType::Empty),
        WasmOp::Else => Instruction::Else,
        WasmOp::End => Instruction::End,
        WasmOp::Block => Instruction::Block(BlockType::Empty),
        WasmOp::Loop => Instruction::Loop(BlockType::Empty),
        _ => Instruction::Return,
    });
}

/// Relies on `wasm_encoder::Module::{section, finish}` with the
/// `TypeSection`, `FunctionSection`, `ExportSection` and `CodeSection`
/// builders: assembles the memoryless module around the one finished
/// body — type `(i64) -> i64`, the function exported as "callback".
#[verifier::external_body]
fn finish_module_plain(func: wasm_encoder::Function) -> (r: Vec<u8>)
    ensures
        r@ == module_bytes(func_ops(func), func_locals(func), false),
{
    let mut types = TypeSection::new();
    types.ty().function(vec![ValType::I64], vec![ValType::I64]);
    let mut funcs = FunctionSection::new();
    funcs.function(0);
    let mut exports = ExportSection::new();
    exports.export("callback", ExportKind::Func, 0);
    let mut codes = CodeSection::new();
    codes.function(&func);
    let mut module = Module::new();
    module.section(&types).section(&funcs).section(&exports).section(&codes);
    module.finish()
}

/// Relies on the same `wasm_encoder` builders as `finish_module_plain`,
/// with a `MemorySection` placed before the exports: the module carries
/// one single-page memory, exported as "memory" beside the function.
#[verifier::external_body]
fn finish_module_with_memory(func: wasm_encoder::Function) -> (r: Vec<u8>)
    ensures
        r@ == module_bytes(func_ops(func), func_locals(func), true),
{
    let mut types = TypeSection::new();
    types.ty().function(vec![ValType::I64], vec![ValType::I64]);
    let mut funcs = FunctionSection::new();
    funcs.function(0);
    let mut mems = MemorySection::new();
    mems.memory(MemoryType { minimum: 1, maximum: Some(1), memory64: false, shared: false, page_size_log2: None });
    let mut exports = ExportSection::new();
    exports.export("callback", ExportKind::Func, 0);
    exports.export("memory", ExportKind::Memory, 0);
    let mut codes = CodeSection::new();
    codes.function(&func);
    let mut module = Module::new();
    module.section(&types).section(&funcs).section(&mems).section(&exports).section(&codes);
    module.finish()
}

fn exec_is_arg_op(op: &WasmOp) -> (r: bool)
    ensures
        r == is_arg_op(*op),
{
    match *op {
        WasmOp::LocalGet(_) => true,
        WasmOp::LocalSet(_) => true,
        WasmOp::I64Const(_) => true,
        WasmOp::I64Load(_) => true,
        WasmOp::I64Store(_) => true,
        WasmOp::Br(_) => true,
        WasmOp::BrIf(_) => true,
        _ => false,
    }
}

/// Assembles the finished module bytes from an operation sequence, the
/// local count and the memory choice, exactly the bytes `module_bytes`
/// names.
pub fn encode_module(ops: &Vec<WasmOp>, locals: u32, with_memory: bool) -> (r: Vec<u8>)
    ensures
        r@ == module_bytes(ops@, locals, with_memory),
{
    let mut f = function_new(locals);
    let n = ops.len();
    let mut i: usize = 0;
    while i < n
        invariant
            i <= n,
            n == ops@.len(),
            func_ops(f) == ops@.take(i as int),
            func_locals(f) == locals,
        decreases n - i,
    {
        let op = ops[i];
        if exec_is_arg_op(&op) {
            push_arg_op(&mut f, &op);
        } else {
            push_plain_op(&mut f, &op);
        }
        proof {
            assert(ops@.take(i + 1) =~= ops@.take(i as int).push(ops@[i as int]));
        }
        i = i + 1;
    }
    proof {
        assert(ops@.take(n as int) =~= ops@);
    }
    if with_memory {
        finish_module_with_memory(f)
    } else {
        finish_module_plain(f)
    }
}

} // verus!
