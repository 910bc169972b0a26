use vstd::prelude::*;

use crate::cfg::{spec_cfg, ControlFlowGraph};
use crate::decode::{decode_function, spec_decode};
use crate::encode::{encode_module, module_bytes};
use crate::error::TranslateError;
use crate::instr::{DecodedInstr, MN_POP, MN_PUSH, REG_RDI};
use crate::regalloc::RegisterAllocator;
use crate::resolver::{parse_object_summary, resolve_function, spec_resolve};
use crate::translate::{
    check_supported, first_unsupported, instr_supported, spec_translate, translate_blocks, WasmOp,
};

verus! {

/// Some operation of the sequence touches linear memory.
pub open spec fn has_mem_op(ops: Seq<WasmOp>) -> bool {
    !(forall|k: int|
        0 <= k < ops.len() ==> !((#[trigger] ops[k]) is I64Load || ops[k] is I64Store))
}

fn scan_mem_ops(ops: &Vec<WasmOp>) -> (r: bool)
    ensures
        r == has_mem_op(ops@),
{
    let n = ops.len();
    let mut found = false;
    let mut i: usize = 0;
    while i < n
        invariant
            i <= n,
            n == ops@.len(),
            found == !(forall|k: int|
                0 <= k < i ==> !((#[trigger] ops@[k]) is I64Load || ops@[k] is I64Store)),
        decreases n - i,
    {
        match ops[i] {
            WasmOp::I64Load(_) => {
                found = true;
            },
            WasmOp::I64Store(_) => {
                found = true;
            },
            _ => {},
        }
        i = i + 1;
    }
    found
}

/// The finished module of a decoded instruction sequence: refuse
/// oversized or partly-covered functions, partition into blocks,
/// structure, translate, and assemble — the composition of the pipeline
/// stages' own descriptions. The local count is the allocator's slot
/// count less the parameter slot; linear memory is included only when
/// some emitted operation touches it.
pub open spec fn spec_translate_instrs(instrs: Seq<DecodedInstr>) -> Result<Seq<u8>, TranslateError> {
    if instrs.len() > crate::MAX_INSTRS as int {
        Err(TranslateError::InvalidEncoding)
    } else if first_unsupported(instrs, 0) >= 0 {
        let i = first_unsupported(instrs, 0);
        Err(TranslateError::UnsupportedInstruction(instrs[i].ip, instrs[i].mnemonic))
    } else {
        match spec_cfg(instrs) {
            Err(e) => Err(e),
            Ok(blocks) => {
                let tr = spec_translate(instrs, blocks, seq![REG_RDI as u64]);
                Ok(module_bytes(tr.0, (tr.1.len() - 1) as u32, has_mem_op(tr.0)))
            },
        }
    }
}

/// The finished module of one function's raw bytes at a load address:
/// the sequential decode composed with `spec_translate_instrs`.
pub open spec fn spec_transpile_code(code: Seq<u8>, base: u64) -> Result<Seq<u8>, TranslateError> {
    match spec_decode(code, base) {
        Err(e) => Err(e),
        Ok(instrs) => spec_translate_instrs(instrs),
    }
}

/// The finished module of a named function of an object-file container:
/// resolution composed with `spec_transpile_code`.
pub open spec fn spec_transpile(data: Seq<u8>, name: Seq<char>) -> Result<Seq<u8>, TranslateError> {
    match spec_resolve(data, name) {
        Err(e) => Err(e),
        Ok(p) => spec_transpile_code(p.0, p.1),
    }
}

/// The stages after the graph is built: structuring, translation and
/// assembly.
#[verifier::rlimit(100)]
fn translate_with_cfg(instrs: &Vec<DecodedInstr>, cfg: &ControlFlowGraph) -> (r: Vec<u8>)
    requires
        crate::cfg::cfg_wf(instrs@, cfg.blocks@),
        cfg.blocks@.len() <= instrs@.len(),
        instrs@.len() <= crate::MAX_INSTRS as int,
    ensures
        ({
            let tr = spec_translate(instrs@, cfg.blocks@, seq![REG_RDI as u64]);
            r@ == module_bytes(tr.0, (tr.1.len() - 1) as u32, has_mem_op(tr.0))
        }),
{
    let region = cfg.structure_control_flow(instrs);
    let mut alloc = RegisterAllocator::new(REG_RDI as u64);
    let ops = translate_blocks(instrs, &cfg, region, &mut alloc);
    let n_slots = alloc.n_slots();
    let with_mem = scan_mem_ops(&ops);
    encode_module(&ops, n_slots - 1, with_mem)
}

/// The stages after decoding, exactly as `spec_translate_instrs`
/// describes.
#[verifier::rlimit(100)]
fn translate_instrs(instrs: &Vec<DecodedInstr>) -> (r: Result<Vec<u8>, TranslateError>)
    ensures
        match r {
            Ok(v) => spec_translate_instrs(instrs@) == Ok::<Seq<u8>, TranslateError>(v@),
            Err(e) => spec_translate_instrs(instrs@) == Err::<Seq<u8>, TranslateError>(e),
        },
{
    if instrs.len() > crate::MAX_INSTRS {
        return Err(TranslateError::InvalidEncoding);
    }
    match check_supported(instrs) {
        Err(e) => {
            return Err(e);
        },
        Ok(u) => u,
    };
    let cfg = match ControlFlowGraph::from_instructions(instrs) {
        Ok(c) => c,
        Err(e) => {
            return Err(e);
        },
    };
    Ok(translate_with_cfg(instrs, &cfg))
}

/// Runs the whole pipeline on one function's raw bytes, exactly as
/// `spec_transpile_code` describes. A function too large for the
/// translator's machine limits is refused as not validly encoded.
pub fn transpile_code(code: &Vec<u8>, base: u64) -> (r: Result<Vec<u8>, TranslateError>)
    ensures
        match r {
            Ok(v) => spec_transpile_code(code@, base) == Ok::<Seq<u8>, TranslateError>(v@),
            Err(e) => spec_transpile_code(code@, base) == Err::<Seq<u8>, TranslateError>(e),
        },
{
    let instrs = match decode_function(code, base) {
        Ok(v) => v,
        Err(e) => {
            return Err(e);
        },
    };
    translate_instrs(&instrs)
}

/// The minimal pipeline façade: raw bytes in, module bytes out.
pub struct SimpleTranspiler;

impl SimpleTranspiler {
    pub fn new() -> (r: Self) {
        SimpleTranspiler
    }

    /// Translates one function's raw bytes loaded at `start_addr`.
    pub fn transpile(&self, code: &Vec<u8>, start_addr: u64) -> (r: Result<Vec<u8>, TranslateError>)
        ensures
            match r {
                Ok(v) => spec_transpile_code(code@, start_addr) == Ok::<Seq<u8>, TranslateError>(
                    v@,
                ),
                Err(e) => spec_transpile_code(code@, start_addr) == Err::<Seq<u8>, TranslateError>(
                    e,
                ),
            },
    {
        transpile_code(code, start_addr)
    }
}

/// The whole-binary translator: holds the container bytes and translates
/// named functions out of them.
pub struct X64ToWasmTranspiler {
    binary_data: Vec<u8>,
}

impl X64ToWasmTranspiler {
    /// The container bytes this translator reads.
    pub closed spec fn data(&self) -> Seq<u8> {
        self.binary_data@
    }

    /// A translator over an already-read object-file container. Reading
    /// the container from wherever it lives is the caller's concern.
    pub fn new(binary_data: Vec<u8>) -> (r: Self)
        ensures
            r.data() == binary_data@,
    {
        X64ToWasmTranspiler { binary_data }
    }

    /// Translates the named function of the container, exactly as
    /// `spec_transpile` describes.
    pub fn transpile_function(&self, fn_name: &str) -> (r: Result<Vec<u8>, TranslateError>)
        ensures
            match r {
                Ok(v) => spec_transpile(self.data(), fn_name@) == Ok::<Seq<u8>, TranslateError>(
                    v@,
                ),
                Err(e) => spec_transpile(self.data(), fn_name@) == Err::<Seq<u8>, TranslateError>(
                    e,
                ),
            },
    {
        let summary = match parse_object_summary(&self.binary_data) {
            Some(s) => s,
            Option::None => {
                return Err(TranslateError::SymbolNotFound);
            },
        };
        let owned: String = fn_name.to_owned();
        let resolved = match resolve_function(&summary, &owned) {
            Ok(p) => p,
            Err(e) => {
                return Err(e);
            },
        };
        transpile_code(&resolved.0, resolved.1)
    }
}

/// The abstract value of a name-keyed module cache.
pub open spec fn view_cache(c: Seq<(String, Vec<u8>)>) -> Seq<(Seq<char>, Seq<u8>)> {
    Seq::new(c.len(), |i: int| (c[i].0@, c[i].1@))
}

/// First index at or after `i` whose entry carries `name`; `-1` when the
/// name is not cached.
pub open spec fn cache_lookup(cache: Seq<(Seq<char>, Seq<u8>)>, name: Seq<char>, i: int) -> int
    decreases cache.len() - i,
{
    if i < 0 || i >= cache.len() {
        -1
    } else if cache[i].0 == name {
        i
    } else {
        cache_lookup(cache, name, i + 1)
    }
}

/// The cache after the pipeline ran over the callbacks from index `j`
/// on: each name not yet cached whose translation succeeds is appended
/// with its bytes; failures and already-cached names leave the cache
/// unchanged.
pub open spec fn spec_analyze(
    cache: Seq<(Seq<char>, Seq<u8>)>,
    data: Seq<u8>,
    cbs: Seq<String>,
    j: int,
) -> Seq<(Seq<char>, Seq<u8>)>
    decreases cbs.len() - j,
{
    if j < 0 || j >= cbs.len() {
        cache
    } else {
        let name = cbs[j]@;
        if cache_lookup(cache, name, 0) >= 0 {
            spec_analyze(cache, data, cbs, j + 1)
        } else {
            match spec_transpile(data, name) {
                Ok(b) => spec_analyze(cache.push((name, b)), data, cbs, j + 1),
                Err(_) => spec_analyze(cache, data, cbs, j + 1),
            }
        }
    }
}

/// The function cache and service façade: runs the pipeline once per
/// function name and serves the stored bytes afterwards. Keyed by name
/// only; no invalidation — the source binary is taken as immutable for
/// the cache's lifetime.
pub struct Transpiler {
    wasm_cache: Vec<(String, Vec<u8>)>,
}

impl Transpiler {
    /// The cached entries, in insertion order.
    pub closed spec fn cache(&self) -> Seq<(Seq<char>, Seq<u8>)> {
        view_cache(self.wasm_cache@)
    }

    /// An empty cache: nothing is translated until `analyze_binary` runs.
    pub fn new() -> (r: Self)
        ensures
            r.cache() =~= Seq::<(Seq<char>, Seq<u8>)>::empty(),
    {
        Transpiler { wasm_cache: Vec::new() }
    }

    fn cache_find(&self, name: &String) -> (r: Option<usize>)
        ensures
            match r {
                Some(i) => cache_lookup(self.cache(), name@, 0) == i as int && i
                    < self.cache().len(),
                Option::None => cache_lookup(self.cache(), name@, 0) == -1,
            },
    {
        let n = self.wasm_cache.len();
        let mut i: usize = 0;
        while i < n
            invariant
                i <= n,
                n == self.wasm_cache@.len(),
                cache_lookup(self.cache(), name@, 0) == cache_lookup(
                    self.cache(),
                    name@,
                    i as int,
                ),
            decreases n - i,
        {
            if self.wasm_cache[i].0 == *name {
                return Some(i);
            }
            i = i + 1;
        }
        Option::None
    }

    /// Runs the full pipeline once per callback name over the container
    /// bytes and stores each successful translation, exactly as
    /// `spec_analyze` describes. A name already cached is not recomputed;
    /// a name that fails to translate is simply not served.
    pub fn analyze_binary(&mut self, data: &Vec<u8>, callbacks: &Vec<String>)
        ensures
            final(self).cache() == spec_analyze(old(self).cache(), data@, callbacks@, 0),
    {
        let n = callbacks.len();
        let mut j: usize = 0;
        while j < n
            invariant
                j <= n,
                n == callbacks@.len(),
                spec_analyze(old(self).cache(), data@, callbacks@, 0) == spec_analyze(
                    self.cache(),
                    data@,
                    callbacks@,
                    j as int,
                ),
            decreases n - j,
        {
            let name = &callbacks[j];
            let hit = self.cache_find(name);
            match hit {
                Some(_) => {},
                Option::None => {
                    let t = X64ToWasmTranspiler::new(data.clone());
                    let ghost prev = self.wasm_cache@;
                    match t.transpile_function(name.as_str()) {
                        Ok(bytes) => {
                            self.wasm_cache.push((name.clone(), bytes));
                            proof {
                                assert(view_cache(self.wasm_cache@) =~= view_cache(prev).push(
                                    (name@, spec_transpile(data@, name@)->Ok_0),
                                ));
                            }
                        },
                        Err(_) => {},
                    }
                },
            }
            j = j + 1;
        }
    }

    /// Serves the cached module bytes of a name, or nothing when the name
    /// is unknown; the pipeline is never invoked here.
    pub fn get_wasm_for_function(&self, fn_name: &str) -> (r: Option<Vec<u8>>)
        ensures
            match r {
                Some(v) => cache_lookup(self.cache(), fn_name@, 0) >= 0 && v@ == self.cache()[
                    cache_lookup(self.cache(), fn_name@, 0)
                ].1,
                Option::None => cache_lookup(self.cache(), fn_name@, 0) == -1,
            },
    {
        let owned: String = fn_name.to_owned();
        match self.cache_find(&owned) {
            Some(i) => Some(self.wasm_cache[i].1.clone()),
            Option::None => Option::None,
        }
    }
}

/// Determinism: translating the same container and function name twice
/// yields byte-identical module output — any two results that meet the
/// translator's description agree.
pub proof fn lemma_translate_deterministic(
    data: Seq<u8>,
    name: Seq<char>,
    r1: Result<Seq<u8>, TranslateError>,
    r2: Result<Seq<u8>, TranslateError>,
)
    requires
        r1 == spec_transpile(data, name),
        r2 == spec_transpile(data, name),
    ensures
        r1 == r2,
{
}

/// Cache coherence: two requests for one name answer with the same
/// entry — any two lookups of the same cache and name agree.
pub proof fn lemma_cache_lookup_deterministic(
    cache: Seq<(Seq<char>, Seq<u8>)>,
    name: Seq<char>,
    i1: int,
    i2: int,
)
    requires
        i1 == cache_lookup(cache, name, 0),
        i2 == cache_lookup(cache, name, 0),
    ensures
        i1 == i2,
{
}

/// Any unsupported instruction at or after `j` is found.
proof fn lemma_first_unsupported_finds(instrs: Seq<DecodedInstr>, j: int, i: int)
    requires
        0 <= j <= i < instrs.len(),
        !instr_supported(instrs, i),
    ensures
        first_unsupported(instrs, j) >= 0,
    decreases i - j,
{
    if instr_supported(instrs, j) {
        lemma_first_unsupported_finds(instrs, j + 1, i);
    }
}

/// Fail-fast coverage: a function holding any instruction outside the
/// translator's coverage never yields a module — the whole translation
/// reports an error instead of emitting a truncated result.
pub proof fn lemma_fail_fast(code: Seq<u8>, base: u64, instrs: Seq<DecodedInstr>, i: int)
    requires
        spec_decode(code, base) == Ok::<Seq<DecodedInstr>, TranslateError>(instrs),
        0 <= i < instrs.len(),
        !instr_supported(instrs, i),
    ensures
        spec_transpile_code(code, base) is Err,
{
    if instrs.len() <= crate::MAX_INSTRS as int {
        lemma_first_unsupported_finds(instrs, 0, i);
    }
}

/// A stack push or pop is never covered, so its mere presence aborts the
/// whole translation.
pub proof fn lemma_fail_fast_push_pop(code: Seq<u8>, base: u64, instrs: Seq<DecodedInstr>, i: int)
    requires
        spec_decode(code, base) == Ok::<Seq<DecodedInstr>, TranslateError>(instrs),
        0 <= i < instrs.len(),
        instrs[i].mnemonic == MN_PUSH || instrs[i].mnemonic == MN_POP,
    ensures
        spec_transpile_code(code, base) is Err,
{
    assert(!instr_supported(instrs, i));
    lemma_fail_fast(code, base, instrs, i);
}

} // verus!
