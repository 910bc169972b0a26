use vstd::prelude::*;

use crate::cfg::{BasicBlock, ControlFlowGraph, Succs};
use crate::instr::{
    exec_is_branch_with_target, exec_is_cond_branch, is_branch_with_target, is_cond_branch,
    DecodedInstr, MN_RET,
};

verus! {

/// The structured shape the translator emits for a function, covering all
/// basic blocks in address order. The target format permits only
/// structured transfer, so an arbitrary graph is rebuilt as one of three
/// shapes: a branch-free graph becomes a flat in-order sequence; a single
/// conditional branch whose two arms both return becomes an if/else; any
/// other graph falls back to a state-variable dispatch loop, which
/// realises every remaining edge — loops included — as an assignment to
/// the state local followed by a restart of the loop.
#[derive(Clone, Copy, PartialEq, Eq, Structural, Debug)]
pub enum StructuredRegion {
    /// Straight-line code: the blocks in address order, no transfer ops.
    Flat,
    /// One branching head whose arms both end in a return.
    IfElse { head: usize, then_block: usize, else_block: usize },
    /// The general state-machine loop over all blocks.
    Dispatch,
}

/// No instruction of the function is a branch.
pub open spec fn no_branches(instrs: Seq<DecodedInstr>) -> bool {
    forall|i: int| 0 <= i < instrs.len() ==> !is_branch_with_target(#[trigger] instrs[i].mnemonic)
}

/// The three-block diamond: a conditional head falling through to one
/// returning block and branching to another.
pub open spec fn is_diamond(instrs: Seq<DecodedInstr>, blocks: Seq<BasicBlock>) -> bool {
    &&& blocks.len() == 3
    &&& 0 < blocks[0].end_idx <= instrs.len()
    &&& 0 < blocks[1].end_idx <= instrs.len()
    &&& 0 < blocks[2].end_idx <= instrs.len()
    &&& is_cond_branch(instrs[blocks[0].end_idx - 1].mnemonic)
    &&& blocks[0].succs == Succs::Two(1usize, 2usize)
    &&& instrs[blocks[1].end_idx - 1].mnemonic == MN_RET
    &&& instrs[blocks[2].end_idx - 1].mnemonic == MN_RET
}

/// The structurer's choice for a graph: the flat shortcut for branch-free
/// code, the if/else for the simple diamond, the dispatch loop otherwise.
pub open spec fn spec_structure(instrs: Seq<DecodedInstr>, blocks: Seq<BasicBlock>) -> StructuredRegion {
    if no_branches(instrs) {
        StructuredRegion::Flat
    } else if is_diamond(instrs, blocks) {
        StructuredRegion::IfElse { head: 0, then_block: 2, else_block: 1 }
    } else {
        StructuredRegion::Dispatch
    }
}

impl ControlFlowGraph {
    /// Rebuilds the graph as a structured region, exactly as
    /// `spec_structure` describes.
    pub fn structure_control_flow(&self, instrs: &Vec<DecodedInstr>) -> (r: StructuredRegion)
        ensures
            r == spec_structure(instrs@, self.blocks@),
    {
        let n = instrs.len();
        let mut i: usize = 0;
        let mut any_branch = false;
        while i < n
            invariant
                i <= n,
                n == instrs@.len(),
                any_branch == !(forall|k: int|
                    0 <= k < i ==> !is_branch_with_target(#[trigger] instrs@[k].mnemonic)),
            decreases n - i,
        {
            if exec_is_branch_with_target(instrs[i].mnemonic) {
                any_branch = true;
            }
            i = i + 1;
        }
        if !any_branch {
            return StructuredRegion::Flat;
        }
        if self.blocks.len() == 3 {
            let b0 = self.blocks[0];
            let b1 = self.blocks[1];
            let b2 = self.blocks[2];
            if 0 < b0.end_idx && b0.end_idx <= n && 0 < b1.end_idx && b1.end_idx <= n && 0
                < b2.end_idx && b2.end_idx <= n && exec_is_cond_branch(
                instrs[b0.end_idx - 1].mnemonic,
            ) && b0.succs == Succs::Two(1, 2) && instrs[b1.end_idx - 1].mnemonic == MN_RET
                && instrs[b2.end_idx - 1].mnemonic == MN_RET {
                return StructuredRegion::IfElse { head: 0, then_block: 2, else_block: 1 };
            }
        }
        StructuredRegion::Dispatch
    }
}

} // verus!
