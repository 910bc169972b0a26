use vstd::prelude::*;

use crate::error::TranslateError;
use crate::instr::{is_branch_with_target, is_cond_branch, is_control, DecodedInstr, MN_JMP, MN_RET};
use crate::instr::{exec_is_branch_with_target, exec_is_cond_branch, exec_is_control};

verus! {

/// Successor blocks of one basic block: none (the block ends in a return,
/// or falls off the end of the function), one (fallthrough or an
/// unconditional branch) or two (conditional branch: fallthrough first,
/// then the branch target).
#[derive(Clone, Copy, PartialEq, Eq, Structural, Debug)]
pub enum Succs {
    Zero,
    One(usize),
    Two(usize, usize),
}

/// A maximal straight-line run of instructions: the half-open index range
/// `[start_idx, end_idx)` into the decoded sequence, the addresses of its
/// first and last instruction, and its successor blocks.
#[derive(Clone, Copy, PartialEq, Eq, Structural, Debug)]
pub struct BasicBlock {
    pub start_idx: usize,
    pub end_idx: usize,
    pub start_addr: u64,
    pub end_addr: u64,
    pub succs: Succs,
}

/// The set of instruction indices a block holds.
pub open spec fn block_indices(b: BasicBlock) -> Set<int> {
    Set::new(|i: int| b.start_idx <= i < b.end_idx)
}

/// Basic blocks in address order, with the entry block first.
pub struct ControlFlowGraph {
    pub blocks: Vec<BasicBlock>,
    pub entry: usize,
}

/// Branch `j` (one of the first `j_bound` instructions) sends control to
/// instruction `i`.
pub open spec fn matches_target(instrs: Seq<DecodedInstr>, j: int, i: int) -> bool {
    is_branch_with_target(instrs[j].mnemonic) && instrs[j].branch_target == instrs[i].ip
}

/// Instruction `i` starts a basic block, considering only branch
/// instructions with index below `j_bound` as sources of branch targets.
pub open spec fn leader_upto(instrs: Seq<DecodedInstr>, i: int, j_bound: int) -> bool {
    0 <= i < instrs.len() && (i == 0 || is_control(instrs[i - 1].mnemonic) || exists|j: int|
        0 <= j < j_bound && #[trigger] matches_target(instrs, j, i))
}

/// Instruction `i` starts a basic block: it is the entry, follows a
/// control transfer, or is the target of some branch of the function.
pub open spec fn leader(instrs: Seq<DecodedInstr>, i: int) -> bool {
    leader_upto(instrs, i, instrs.len() as int)
}

/// Marks every leader index. Quadratic in the worst case, which the
/// instruction-count cap keeps harmless.
pub fn compute_leaders(instrs: &Vec<DecodedInstr>) -> (flags: Vec<bool>)
    ensures
        flags@.len() == instrs@.len(),
        forall|i: int| 0 <= i < instrs@.len() ==> flags@[i] == leader(instrs@, i),
{
    let n = instrs.len();
    let mut flags: Vec<bool> = Vec::new();
    let mut i: usize = 0;
    while i < n
        invariant
            i <= n,
            n == instrs@.len(),
            flags@.len() == i,
            forall|k: int| 0 <= k < i ==> flags@[k] == leader_upto(instrs@, k, 0),
        decreases n - i,
    {
        let base = i == 0 || exec_is_control(instrs[i - 1].mnemonic);
        flags.push(base);
        i = i + 1;
    }
    let mut j: usize = 0;
    while j < n
        invariant
            j <= n,
            n == instrs@.len(),
            flags@.len() == n,
            forall|k: int| 0 <= k < n ==> flags@[k] == leader_upto(instrs@, k, j as int),
        decreases n - j,
    {
        if exec_is_branch_with_target(instrs[j].mnemonic) {
            let tgt = instrs[j].branch_target;
            let mut i2: usize = 0;
            while i2 < n
                invariant
                    i2 <= n,
                    j < n,
                    n == instrs@.len(),
                    flags@.len() == n,
                    is_branch_with_target(instrs@[j as int].mnemonic),
                    tgt == instrs@[j as int].branch_target,
                    forall|k: int|
                        0 <= k < i2 ==> flags@[k] == leader_upto(instrs@, k, j + 1),
                    forall|k: int|
                        i2 <= k < n ==> flags@[k] == leader_upto(instrs@, k, j as int),
                decreases n - i2,
            {
                let hit = instrs[i2].ip == tgt;
                if hit {
                    flags[i2] = true;
                }
                proof {
                    let k = i2 as int;
                    if hit {
                        assert(matches_target(instrs@, j as int, k));
                        assert(leader_upto(instrs@, k, j + 1));
                    } else {
                        assert(forall|j2: int|
                            0 <= j2 < j + 1 && #[trigger] matches_target(instrs@, j2, k) ==> j2
                                < j);
                        assert(leader_upto(instrs@, k, j + 1) == leader_upto(
                            instrs@,
                            k,
                            j as int,
                        ));
                    }
                }
                i2 = i2 + 1;
            }
        } else {
            proof {
                assert forall|k: int| 0 <= k < n implies flags@[k] == leader_upto(
                    instrs@,
                    k,
                    j + 1,
                ) by {
                    assert(!matches_target(instrs@, j as int, k));
                    assert(forall|j2: int|
                        0 <= j2 < j + 1 && #[trigger] matches_target(instrs@, j2, k) ==> j2 < j);
                }
            }
        }
        j = j + 1;
    }
    flags
}

/// The index of the next leader strictly after `s`, or the instruction
/// count when no later leader exists.
pub open spec fn next_boundary(instrs: Seq<DecodedInstr>, s: int) -> int
    decreases instrs.len() - s,
{
    if s + 1 >= instrs.len() {
        instrs.len() as int
    } else if leader(instrs, s + 1) {
        s + 1
    } else {
        next_boundary(instrs, s + 1)
    }
}

pub proof fn lemma_next_boundary_bounds(instrs: Seq<DecodedInstr>, s: int)
    requires
        s < instrs.len(),
    ensures
        s < next_boundary(instrs, s) <= instrs.len(),
    decreases instrs.len() - s,
{
    if s + 1 >= instrs.len() {
    } else if leader(instrs, s + 1) {
    } else {
        lemma_next_boundary_bounds(instrs, s + 1);
    }
}

/// The basic block that starts at leader index `s`, before successor
/// edges are attached.
pub open spec fn spec_block_at(instrs: Seq<DecodedInstr>, s: int) -> BasicBlock {
    let e = next_boundary(instrs, s);
    BasicBlock {
        start_idx: s as usize,
        end_idx: e as usize,
        start_addr: instrs[s].ip,
        end_addr: instrs[e - 1].ip,
        succs: Succs::Zero,
    }
}

/// The block list from leader index `s` on, before successor edges.
pub open spec fn spec_blocks_from(instrs: Seq<DecodedInstr>, s: int) -> Seq<BasicBlock>
    decreases instrs.len() - s,
    via spec_blocks_from_decreases
{
    if s < 0 || s >= instrs.len() {
        Seq::empty()
    } else {
        seq![spec_block_at(instrs, s)] + spec_blocks_from(instrs, next_boundary(instrs, s))
    }
}

#[via_fn]
proof fn spec_blocks_from_decreases(instrs: Seq<DecodedInstr>, s: int) {
    if 0 <= s < instrs.len() {
        lemma_next_boundary_bounds(instrs, s);
    }
}

/// First instruction index whose address is `a`, searching from `i`;
/// `-1` when none.
pub open spec fn find_ip(instrs: Seq<DecodedInstr>, a: u64, i: int) -> int
    decreases instrs.len() - i,
{
    if i < 0 || i >= instrs.len() {
        -1
    } else if instrs[i].ip == a {
        i
    } else {
        find_ip(instrs, a, i + 1)
    }
}

/// First block index whose range starts at instruction index `s`,
/// searching from `b`; `-1` when none.
pub open spec fn find_start(blocks: Seq<BasicBlock>, s: int, b: int) -> int
    decreases blocks.len() - b,
{
    if b < 0 || b >= blocks.len() {
        -1
    } else if blocks[b].start_idx == s {
        b
    } else {
        find_start(blocks, s, b + 1)
    }
}

/// The successor edges of block `b`, read off its final instruction: a
/// return ends the path; a conditional branch has the fallthrough block
/// and the target block; an unconditional branch has the target block;
/// anything else falls through to the next block in address order. A
/// branch whose target is not the start of a block of this function, or a
/// conditional branch with no fallthrough block, cannot be translated and
/// is reported as unsupported.
pub open spec fn spec_succs(instrs: Seq<DecodedInstr>, blocks: Seq<BasicBlock>, b: int) -> Result<
    Succs,
    TranslateError,
> {
    let blk = blocks[b];
    let last = instrs[blk.end_idx - 1];
    if last.mnemonic == MN_RET {
        Ok(Succs::Zero)
    } else if is_cond_branch(last.mnemonic) {
        if b + 1 >= blocks.len() {
            Err(TranslateError::UnsupportedInstruction(last.ip, last.mnemonic))
        } else {
            let t = find_ip(instrs, last.branch_target, 0);
            if t < 0 {
                Err(TranslateError::UnsupportedInstruction(last.ip, last.mnemonic))
            } else {
                let tb = find_start(blocks, t, 0);
                if tb < 0 {
                    Err(TranslateError::UnsupportedInstruction(last.ip, last.mnemonic))
                } else {
                    Ok(Succs::Two((b + 1) as usize, tb as usize))
                }
            }
        }
    } else if last.mnemonic == MN_JMP {
        let t = find_ip(instrs, last.branch_target, 0);
        if t < 0 {
            Err(TranslateError::UnsupportedInstruction(last.ip, last.mnemonic))
        } else {
            let tb = find_start(blocks, t, 0);
            if tb < 0 {
                Err(TranslateError::UnsupportedInstruction(last.ip, last.mnemonic))
            } else {
                Ok(Succs::One(tb as usize))
            }
        }
    } else {
        if b + 1 < blocks.len() {
            Ok(Succs::One((b + 1) as usize))
        } else {
            Ok(Succs::Zero)
        }
    }
}

pub open spec fn with_succs(blk: BasicBlock, sc: Succs) -> BasicBlock {
    BasicBlock { succs: sc, ..blk }
}

/// Attaches successor edges to every block from `b` on, failing on the
/// first block whose edges cannot be resolved.
pub open spec fn spec_attach(instrs: Seq<DecodedInstr>, blocks: Seq<BasicBlock>, b: int) -> Result<
    Seq<BasicBlock>,
    TranslateError,
>
    decreases blocks.len() - b,
{
    if b < 0 || b >= blocks.len() {
        Ok(Seq::empty())
    } else {
        match spec_succs(instrs, blocks, b) {
            Err(e) => Err(e),
            Ok(sc) => match spec_attach(instrs, blocks, b + 1) {
                Err(e) => Err(e),
                Ok(rest) => Ok(seq![with_succs(blocks[b], sc)] + rest),
            },
        }
    }
}

/// The whole control-flow graph of an instruction sequence: the
/// leader-based partition into blocks, with successor edges attached.
#[verifier::opaque]
pub open spec fn spec_cfg(instrs: Seq<DecodedInstr>) -> Result<Seq<BasicBlock>, TranslateError> {
    spec_attach(instrs, spec_blocks_from(instrs, 0), 0)
}

/// Structural well-formedness of a block list over `instrs`: the ranges
/// chain across the whole instruction sequence, and every successor edge
/// stays inside the list.
pub open spec fn cfg_wf(instrs: Seq<DecodedInstr>, blocks: Seq<BasicBlock>) -> bool {
    &&& (blocks.len() == 0 <==> instrs.len() == 0)
    &&& forall|b: int|
        0 <= b < blocks.len() ==> (#[trigger] blocks[b]).start_idx < blocks[b].end_idx
    &&& forall|b: int| 0 <= b < blocks.len() ==> (#[trigger] blocks[b]).end_idx <= instrs.len()
    &&& (blocks.len() > 0 ==> blocks[0].start_idx == 0)
    &&& (blocks.len() > 0 ==> blocks[blocks.len() - 1].end_idx == instrs.len())
    &&& forall|b: int|
        0 <= b && b + 1 < blocks.len() ==> (#[trigger] blocks[b]).end_idx == blocks[b + 1].start_idx
    &&& forall|b: int|
        0 <= b < blocks.len() ==> match (#[trigger] blocks[b]).succs {
            Succs::Zero => true,
            Succs::One(x) => x < blocks.len(),
            Succs::Two(x, y) => x < blocks.len() && y < blocks.len(),
        }
}

/// Prepends finished blocks to the outcome of the remaining edge
/// attachment.
pub open spec fn attach_join(prefix: Seq<BasicBlock>, rest: Result<Seq<BasicBlock>, TranslateError>) -> Result<
    Seq<BasicBlock>,
    TranslateError,
> {
    match rest {
        Ok(s) => Ok(prefix + s),
        Err(e) => Err(e),
    }
}

/// Builds the bare leader-based partition, without successor edges.
fn build_bare_blocks(instrs: &Vec<DecodedInstr>, flags: &Vec<bool>) -> (bare: Vec<BasicBlock>)
    requires
        flags@.len() == instrs@.len(),
        forall|i: int| 0 <= i < instrs@.len() ==> flags@[i] == leader(instrs@, i),
    ensures
        bare@ == spec_blocks_from(instrs@, 0),
        bare@.len() <= instrs@.len(),
        forall|b: int|
            0 <= b < bare@.len() ==> (#[trigger] bare@[b]).start_idx < bare@[b].end_idx
                <= instrs@.len(),
        forall|b: int|
            0 <= b && b + 1 < bare@.len() ==> (#[trigger] bare@[b]).end_idx == bare@[b + 1].start_idx,
        bare@.len() > 0 ==> bare@[0].start_idx == 0,
        bare@.len() > 0 ==> bare@[bare@.len() - 1].end_idx == instrs@.len(),
        bare@.len() == 0 ==> instrs@.len() == 0,
{
    let n = instrs.len();
    let mut bare: Vec<BasicBlock> = Vec::new();
    let mut s: usize = 0;
    while s < n
        invariant
            s <= n,
            n == instrs@.len(),
            flags@.len() == n,
            forall|i: int| 0 <= i < n ==> flags@[i] == leader(instrs@, i),
            spec_blocks_from(instrs@, 0) == bare@ + spec_blocks_from(instrs@, s as int),
            bare@.len() <= s,
            forall|b: int|
                0 <= b < bare@.len() ==> (#[trigger] bare@[b]).start_idx < bare@[b].end_idx <= n,
            forall|b: int|
                0 <= b && b + 1 < bare@.len() ==> (#[trigger] bare@[b]).end_idx == bare@[b
                    + 1].start_idx,
            bare@.len() > 0 ==> bare@[0].start_idx == 0,
            bare@.len() > 0 ==> bare@[bare@.len() - 1].end_idx == s,
            bare@.len() == 0 ==> s == 0,
        decreases n - s,
    {
        let mut e = s + 1;
        while e < n && !flags[e]
            invariant
                s < e <= n,
                n == instrs@.len(),
                flags@.len() == n,
                forall|i: int| 0 <= i < n ==> flags@[i] == leader(instrs@, i),
                next_boundary(instrs@, s as int) == next_boundary(instrs@, e - 1),
            decreases n - e,
        {
            e = e + 1;
        }
        proof {
            assert(next_boundary(instrs@, e - 1) == e);
        }
        let ghost prev = bare@;
        bare.push(
            BasicBlock {
                start_idx: s,
                end_idx: e,
                start_addr: instrs[s].ip,
                end_addr: instrs[e - 1].ip,
                succs: Succs::Zero,
            },
        );
        proof {
            assert(bare@.last() == spec_block_at(instrs@, s as int));
            let rest = spec_blocks_from(instrs@, e as int);
            assert(spec_blocks_from(instrs@, s as int) == seq![
                spec_block_at(instrs@, s as int),
            ] + rest);
            assert(prev + (seq![spec_block_at(instrs@, s as int)] + rest) =~= bare@ + rest);
            assert forall|b: int|
                0 <= b && b + 1 < bare@.len() implies (#[trigger] bare@[b]).end_idx == bare@[b
                    + 1].start_idx by {
                if b + 1 < bare@.len() - 1 {
                    assert(bare@[b] == prev[b]);
                    assert(bare@[b + 1] == prev[b + 1]);
                } else {
                    assert(b + 1 == bare@.len() - 1);
                    assert(prev.len() > 0);
                    assert(b == prev.len() - 1);
                    assert(bare@[b] == prev[b]);
                    assert(prev[prev.len() - 1].end_idx == s);
                    assert(bare@[b + 1].start_idx == s);
                }
            }
        }
        s = e;
    }
    proof {
        assert(spec_blocks_from(instrs@, s as int) =~= Seq::<BasicBlock>::empty());
        assert(bare@ + Seq::<BasicBlock>::empty() =~= bare@);
    }
    bare
}

impl ControlFlowGraph {
    /// Partitions the decoded instructions of one function into basic
    /// blocks with successor edges, exactly as `spec_cfg` describes.
    /// Unreachable blocks are retained: the translation keeps every
    /// decoded instruction for model fidelity.
    #[verifier::rlimit(60)]
    pub fn from_instructions(instrs: &Vec<DecodedInstr>) -> (r: Result<
        ControlFlowGraph,
        TranslateError,
    >)
        requires
            instrs@.len() < 0x8000000000000000,
        ensures
            match r {
                Ok(cfg) => {
                    &&& spec_cfg(instrs@) == Ok::<Seq<BasicBlock>, TranslateError>(cfg.blocks@)
                    &&& cfg.entry == 0
                    &&& cfg_wf(instrs@, cfg.blocks@)
                    &&& cfg.blocks@.len() <= instrs@.len()
                },
                Err(e) => spec_cfg(instrs@) == Err::<Seq<BasicBlock>, TranslateError>(e),
            },
    {
        let n = instrs.len();
        let flags = compute_leaders(instrs);
        let bare = build_bare_blocks(instrs, &flags);
        let nb = bare.len();
        let mut out: Vec<BasicBlock> = Vec::new();
        let mut b: usize = 0;
        while b < nb
            invariant
                b <= nb,
                n == instrs@.len(),
                n < 0x8000000000000000,
                nb == bare@.len(),
                out@.len() == b,
                spec_blocks_from(instrs@, 0) == bare@,
                nb <= n,
                forall|k: int|
                    0 <= k < bare@.len() ==> (#[trigger] bare@[k]).start_idx < bare@[k].end_idx
                        <= n,
                forall|k: int|
                    0 <= k && k + 1 < bare@.len() ==> (#[trigger] bare@[k]).end_idx == bare@[k
                        + 1].start_idx,
                bare@.len() > 0 ==> bare@[0].start_idx == 0,
                bare@.len() > 0 ==> bare@[bare@.len() - 1].end_idx == n,
                bare@.len() == 0 ==> n == 0,
                spec_attach(instrs@, bare@, 0) == attach_join(
                    out@,
                    spec_attach(instrs@, bare@, b as int),
                ),
                forall|k: int|
                    0 <= k < out@.len() ==> match (#[trigger] out@[k]).succs {
                        Succs::Zero => true,
                        Succs::One(x) => x < bare@.len(),
                        Succs::Two(x, y) => x < bare@.len() && y < bare@.len(),
                    },
            decreases nb - b,
        {
            let blk = bare[b];
            let last = instrs[blk.end_idx - 1];
            let sc: Succs;
            if last.mnemonic == MN_RET {
                sc = Succs::Zero;
            } else if exec_is_cond_branch(last.mnemonic) {
                if b + 1 >= nb {
                    proof {
                        reveal(spec_cfg);
                    }
                    return Err(TranslateError::UnsupportedInstruction(last.ip, last.mnemonic));
                }
                let t = exec_find_ip(instrs, last.branch_target);
                if t < 0 {
                    proof {
                        reveal(spec_cfg);
                    }
                    return Err(TranslateError::UnsupportedInstruction(last.ip, last.mnemonic));
                }
                let tb = exec_find_start(&bare, t as usize);
                if tb < 0 {
                    proof {
                        reveal(spec_cfg);
                    }
                    return Err(TranslateError::UnsupportedInstruction(last.ip, last.mnemonic));
                }
                sc = Succs::Two(b + 1, tb as usize);
            } else if last.mnemonic == MN_JMP {
                let t = exec_find_ip(instrs, last.branch_target);
                if t < 0 {
                    proof {
                        reveal(spec_cfg);
                    }
                    return Err(TranslateError::UnsupportedInstruction(last.ip, last.mnemonic));
                }
                let tb = exec_find_start(&bare, t as usize);
                if tb < 0 {
                    proof {
                        reveal(spec_cfg);
                    }
                    return Err(TranslateError::UnsupportedInstruction(last.ip, last.mnemonic));
                }
                sc = Succs::One(tb as usize);
            } else {
                if b + 1 < nb {
                    sc = Succs::One(b + 1);
                } else {
                    sc = Succs::Zero;
                }
            }
            let ghost prev = out@;
            out.push(BasicBlock { succs: sc, ..blk });
            proof {
                assert(spec_succs(instrs@, bare@, b as int) == Ok::<Succs, TranslateError>(sc));
                let rest_r = spec_attach(instrs@, bare@, b + 1);
                assert(spec_attach(instrs@, bare@, b as int) == (match rest_r {
                    Err(e) => Err::<Seq<BasicBlock>, TranslateError>(e),
                    Ok(rest) => Ok(seq![with_succs(bare@[b as int], sc)] + rest),
                }));
                match rest_r {
                    Ok(rest) => {
                        assert(prev + (seq![with_succs(bare@[b as int], sc)] + rest) =~= out@
                            + rest);
                    },
                    Err(_) => {},
                }
            }
            b = b + 1;
        }
        proof {
            reveal(spec_cfg);
            assert(spec_attach(instrs@, bare@, b as int) == Ok::<Seq<BasicBlock>, TranslateError>(
                Seq::empty(),
            ));
            assert(out@ + Seq::<BasicBlock>::empty() =~= out@);
            assert forall|k: int|
                0 <= k < out@.len() implies (#[trigger] out@[k]).start_idx == bare@[k].start_idx
                && out@[k].end_idx == bare@[k].end_idx by {
                lemma_attach_keeps_ranges(instrs@, bare@, out@, k);
            }
        }
        Ok(ControlFlowGraph { blocks: out, entry: 0 })
    }
}

/// Attaching edges never moves a block's range.
proof fn lemma_attach_keeps_ranges(
    instrs: Seq<DecodedInstr>,
    bare: Seq<BasicBlock>,
    out: Seq<BasicBlock>,
    k: int,
)
    requires
        spec_attach(instrs, bare, 0) == Ok::<Seq<BasicBlock>, TranslateError>(out),
        0 <= k < out.len(),
    ensures
        out.len() == bare.len(),
        out[k].start_idx == bare[k].start_idx,
        out[k].end_idx == bare[k].end_idx,
{
    lemma_attach_shape(instrs, bare, 0, out);
}

/// The attached list has the same length and block ranges as the bare
/// one, element by element.
proof fn lemma_attach_shape(
    instrs: Seq<DecodedInstr>,
    bare: Seq<BasicBlock>,
    b: int,
    out: Seq<BasicBlock>,
)
    requires
        0 <= b <= bare.len(),
        spec_attach(instrs, bare, b) == Ok::<Seq<BasicBlock>, TranslateError>(out),
    ensures
        out.len() == bare.len() - b,
        forall|k: int|
            0 <= k < out.len() ==> (#[trigger] out[k]).start_idx == bare[b + k].start_idx && out[
                k
            ].end_idx == bare[b + k].end_idx,
    decreases bare.len() - b,
{
    if b < bare.len() {
        match spec_succs(instrs, bare, b) {
            Err(_) => {},
            Ok(sc) => {
                match spec_attach(instrs, bare, b + 1) {
                    Err(_) => {},
                    Ok(rest) => {
                        lemma_attach_shape(instrs, bare, b + 1, rest);
                        assert(out == seq![with_succs(bare[b], sc)] + rest);
                        assert forall|k: int|
                            0 <= k < out.len() implies (#[trigger] out[k]).start_idx == bare[b
                            + k].start_idx && out[k].end_idx == bare[b + k].end_idx by {
                            if k > 0 {
                                assert(out[k] == rest[k - 1]);
                            }
                        }
                    },
                }
            },
        }
    }
}

/// First instruction index whose address is `a`, as `find_ip` describes;
/// `-1` when the address is not in the function.
pub fn exec_find_ip(instrs: &Vec<DecodedInstr>, a: u64) -> (r: i64)
    requires
        instrs@.len() < 0x8000000000000000,
    ensures
        r as int == find_ip(instrs@, a, 0),
        r >= 0 ==> r < instrs@.len(),
{
    let n = instrs.len();
    let mut i: usize = 0;
    while i < n
        invariant
            i <= n,
            n == instrs@.len(),
            n < 0x8000000000000000,
            find_ip(instrs@, a, 0) == find_ip(instrs@, a, i as int),
        decreases n - i,
    {
        if instrs[i].ip == a {
            return i as i64;
        }
        i = i + 1;
    }
    -1
}

/// First block index whose range starts at instruction index `s`, as
/// `find_start` describes; `-1` when none does.
pub fn exec_find_start(blocks: &Vec<BasicBlock>, s: usize) -> (r: i64)
    requires
        blocks@.len() < 0x8000000000000000,
    ensures
        r as int == find_start(blocks@, s as int, 0),
        r >= 0 ==> r < blocks@.len(),
{
    let n = blocks.len();
    let mut b: usize = 0;
    while b < n
        invariant
            b <= n,
            n == blocks@.len(),
            n < 0x8000000000000000,
            find_start(blocks@, s as int, 0) == find_start(blocks@, s as int, b as int),
        decreases n - b,
    {
        if blocks[b].start_idx == s {
            return b as i64;
        }
        b = b + 1;
    }
    -1
}

/// The partition invariant: in a well-formed graph over `n` decoded
/// instructions the blocks' index sets are pairwise disjoint, and their
/// union is exactly the full index range.
pub proof fn lemma_partition(instrs: Seq<DecodedInstr>, blocks: Seq<BasicBlock>)
    requires
        cfg_wf(instrs, blocks),
    ensures
        forall|b1: int, b2: int|
            0 <= b1 < b2 < blocks.len() ==> #[trigger] block_indices(blocks[b1]).disjoint(
                #[trigger] block_indices(blocks[b2]),
            ),
        union_upto(blocks, blocks.len() as int) =~= Set::new(
            |i: int| 0 <= i < instrs.len(),
        ),
{
    assert forall|b1: int, b2: int| 0 <= b1 < b2 < blocks.len() implies #[trigger] block_indices(
        blocks[b1],
    ).disjoint(#[trigger] block_indices(blocks[b2])) by {
        lemma_ends_sorted(blocks, b1, b2);
        assert forall|x: int| block_indices(blocks[b1]).contains(x) implies !block_indices(
            blocks[b2],
        ).contains(x) by {
            assert(blocks[b1].end_idx <= blocks[b2].start_idx);
        }
    }
    lemma_union_upto_range(instrs, blocks, blocks.len() as int);
    if blocks.len() > 0 {
        assert(blocks[blocks.len() - 1].end_idx == instrs.len());
        assert(union_upto(blocks, blocks.len() as int) =~= Set::new(
            |i: int| 0 <= i < instrs.len(),
        ));
    } else {
        assert(union_upto(blocks, 0) =~= Set::new(|i: int| 0 <= i < instrs.len()));
    }
}

/// The union of the index sets of the first `b` blocks.
pub open spec fn union_upto(blocks: Seq<BasicBlock>, b: int) -> Set<int>
    decreases b,
{
    if b <= 0 {
        Set::empty()
    } else {
        union_upto(blocks, b - 1).union(block_indices(blocks[b - 1]))
    }
}

/// In a chained block list the end of an earlier block never passes the
/// start of a later one.
proof fn lemma_ends_sorted(blocks: Seq<BasicBlock>, b1: int, b2: int)
    requires
        0 <= b1 < b2 < blocks.len(),
        forall|b: int|
            0 <= b < blocks.len() ==> (#[trigger] blocks[b]).start_idx < blocks[b].end_idx,
        forall|b: int|
            0 <= b && b + 1 < blocks.len() ==> (#[trigger] blocks[b]).end_idx == blocks[b
                + 1].start_idx,
    ensures
        blocks[b1].end_idx <= blocks[b2].start_idx,
    decreases b2 - b1,
{
    if b1 + 1 == b2 {
    } else {
        lemma_ends_sorted(blocks, b1 + 1, b2);
    }
}

/// The first `b` chained blocks cover exactly the indices below their
/// last end.
proof fn lemma_union_upto_range(instrs: Seq<DecodedInstr>, blocks: Seq<BasicBlock>, b: int)
    requires
        cfg_wf(instrs, blocks),
        0 <= b <= blocks.len(),
    ensures
        b == 0 ==> union_upto(blocks, b) =~= Set::<int>::empty(),
        b > 0 ==> union_upto(blocks, b) =~= Set::new(
            |i: int| 0 <= i < blocks[b - 1].end_idx,
        ),
    decreases b,
{
    if b > 0 {
        lemma_union_upto_range(instrs, blocks, b - 1);
        if b == 1 {
            assert(blocks[0].start_idx == 0);
        } else {
            assert(blocks[b - 2].end_idx == blocks[b - 1].start_idx);
        }
    }
}

} // verus!
