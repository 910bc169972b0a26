//! An ahead-of-time translator from x86-64 machine code to WebAssembly
//! modules, verified end to end: symbol resolution from an object-file
//! container, sequential instruction decoding, leader-based basic-block
//! partitioning, structured-control-flow reconstruction, register-to-local
//! allocation, per-instruction translation, and byte-exact module
//! assembly, with a name-keyed cache façade on top. The decoder, the
//! object-file parser and the module encoder are outside libraries spoken
//! for by narrow trusted contracts; everything else is proved.

use vstd::prelude::*;

pub mod cfg;
pub mod decode;
pub mod dom;
pub mod encode;
pub mod error;
pub mod instr;
pub mod regalloc;
pub mod resolver;
pub mod state;
pub mod structure;
pub mod transpiler;
pub mod translate;

verus! {

/// Upper bound on the number of instructions one function may hold before
/// the translator refuses it: keeps every local-slot index inside `u32`.
pub const MAX_INSTRS: usize = 1000000;

} // verus!
