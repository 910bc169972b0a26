use vstd::prelude::*;

use crate::cfg::{cfg_wf, find_ip, exec_find_ip, BasicBlock, ControlFlowGraph, Succs};
use crate::error::TranslateError;
use crate::instr::{
    exec_is_cond_branch, exec_is_imm_kind, is_cond_branch, is_imm_kind, DecodedInstr, MN_ADD,
    MN_CALL, MN_CMP, MN_IMUL, MN_JA, MN_JB, MN_JE, MN_JG, MN_JGE, MN_JL, MN_JLE, MN_JMP, MN_JNE,
    MN_LEA, MN_MOV, MN_RET, MN_SUB, MN_TEST, OPK_MEMORY, OPK_REGISTER, REG_NONE, REG_RAX,
};
use crate::regalloc::{
    spec_alloc, spec_slot, RegisterAllocator, FLAG_REG, MAX_SLOTS, STATE_REG,
};
use crate::structure::{spec_structure, StructuredRegion};

verus! {

/// One target-level operation: loads and stores of local slots, constant
/// pushes, 64-bit integer arithmetic and comparisons, sized memory access
/// at a static offset (8-byte aligned), structured control ops and return.
#[derive(Clone, Copy, PartialEq, Eq, Structural, Debug)]
pub enum WasmOp {
    LocalGet(u32),
    LocalSet(u32),
    I64Const(i64),
    I64Load(u64),
    I64Store(u64),
    Br(u32),
    BrIf(u32),
    I64Add,
    I64Sub,
    I64Mul,
    I64And,
    I64Eq,
    I64GtS,
    I64LtS,
    If,
    Else,
    End,
    Block,
    Loop,
    Return,
}

/// The translator accepts instruction `i` of the sequence: its mnemonic
/// class is covered and its operand forms are the ones the table of
/// emitted behaviours knows. A push or pop, an unsigned conditional
/// branch, a branch leaving the function, or any other mnemonic is
/// unsupported and aborts the whole translation.
pub open spec fn instr_supported(instrs: Seq<DecodedInstr>, i: int) -> bool {
    let d = instrs[i];
    let m = d.mnemonic;
    if m == MN_MOV {
        ||| (d.op0_kind == OPK_REGISTER && d.op1_kind == OPK_REGISTER)
        ||| (d.op0_kind == OPK_REGISTER && is_imm_kind(d.op1_kind))
        ||| (d.op0_kind == OPK_REGISTER && d.op1_kind == OPK_MEMORY && d.mem_base != REG_NONE)
        ||| (d.op0_kind == OPK_MEMORY && d.op1_kind == OPK_REGISTER && d.mem_base != REG_NONE)
    } else if m == MN_ADD || m == MN_SUB || m == MN_CMP {
        d.op0_kind == OPK_REGISTER && (d.op1_kind == OPK_REGISTER || is_imm_kind(d.op1_kind))
    } else if m == MN_IMUL || m == MN_TEST {
        d.op_count == 2 && d.op0_kind == OPK_REGISTER && d.op1_kind == OPK_REGISTER
    } else if m == MN_LEA {
        d.op0_kind == OPK_REGISTER && d.op1_kind == OPK_MEMORY && d.mem_base != REG_NONE
    } else if m == MN_RET || m == MN_CALL {
        true
    } else if m == MN_JMP {
        find_ip(instrs, d.branch_target, 0) >= 0
    } else if is_cond_branch(m) {
        m != MN_JA && m != MN_JB && find_ip(instrs, d.branch_target, 0) >= 0 && i + 1
            < instrs.len()
    } else {
        false
    }
}

/// First instruction index at or after `i` that the translator refuses,
/// or `-1` when the whole sequence is covered.
pub open spec fn first_unsupported(instrs: Seq<DecodedInstr>, i: int) -> int
    decreases instrs.len() - i,
{
    if i < 0 || i >= instrs.len() {
        -1
    } else if !instr_supported(instrs, i) {
        i
    } else {
        first_unsupported(instrs, i + 1)
    }
}

/// Checks the whole sequence, reporting the first offending instruction
/// in program order.
pub fn check_supported(instrs: &Vec<DecodedInstr>) -> (r: Result<(), TranslateError>)
    requires
        instrs@.len() < 0x8000000000000000,
    ensures
        match r {
            Ok(_) => first_unsupported(instrs@, 0) == -1,
            Err(e) => {
                let i = first_unsupported(instrs@, 0);
                &&& i >= 0
                &&& e == TranslateError::UnsupportedInstruction(
                    instrs@[i].ip,
                    instrs@[i].mnemonic,
                )
            },
        },
{
    let n = instrs.len();
    let mut i: usize = 0;
    while i < n
        invariant
            i <= n,
            n == instrs@.len(),
            n < 0x8000000000000000,
            first_unsupported(instrs@, 0) == first_unsupported(instrs@, i as int),
            forall|k: int| 0 <= k < i ==> instr_supported(instrs@, k),
        decreases n - i,
    {
        let d = instrs[i];
        let m = d.mnemonic;
        let ok: bool;
        if m == MN_MOV {
            ok = (d.op0_kind == OPK_REGISTER && d.op1_kind == OPK_REGISTER) || (d.op0_kind
                == OPK_REGISTER && exec_is_imm_kind(d.op1_kind)) || (d.op0_kind == OPK_REGISTER
                && d.op1_kind == OPK_MEMORY && d.mem_base != REG_NONE) || (d.op0_kind
                == OPK_MEMORY && d.op1_kind == OPK_REGISTER && d.mem_base != REG_NONE);
        } else if m == MN_ADD || m == MN_SUB || m == MN_CMP {
            ok = d.op0_kind == OPK_REGISTER && (d.op1_kind == OPK_REGISTER || exec_is_imm_kind(
                d.op1_kind,
            ));
        } else if m == MN_IMUL || m == MN_TEST {
            ok = d.op_count == 2 && d.op0_kind == OPK_REGISTER && d.op1_kind == OPK_REGISTER;
        } else if m == MN_LEA {
            ok = d.op0_kind == OPK_REGISTER && d.op1_kind == OPK_MEMORY && d.mem_base != REG_NONE;
        } else if m == MN_RET || m == MN_CALL {
            ok = true;
        } else if m == MN_JMP {
            ok = exec_find_ip(instrs, d.branch_target) >= 0;
        } else if exec_is_cond_branch(m) {
            ok = m != MN_JA && m != MN_JB && exec_find_ip(instrs, d.branch_target) >= 0 && i + 1
                < n;
        } else {
            ok = false;
        }
        if !ok {
            return Err(TranslateError::UnsupportedInstruction(d.ip, d.mnemonic));
        }
        i = i + 1;
    }
    Ok(())
}

/// The operations emitted for one non-control instruction, together with
/// the allocator state after it. Control transfers (conditional and
/// unconditional branches) emit nothing here: the structurer realises
/// them. A call is an explicit no-op placeholder. Unsupported
/// instructions never reach emission; their value here is empty.
pub open spec fn spec_instr_ops(d: DecodedInstr, regs: Seq<u64>) -> (Seq<WasmOp>, Seq<u64>) {
    let m = d.mnemonic;
    if m == MN_MOV {
        if d.op0_kind == OPK_REGISTER && d.op1_kind == OPK_REGISTER {
            let dst = spec_slot(regs, d.op0_reg as u64);
            let r1 = spec_alloc(regs, d.op0_reg as u64);
            let src = spec_slot(r1, d.op1_reg as u64);
            let r2 = spec_alloc(r1, d.op1_reg as u64);
            (seq![WasmOp::LocalGet(src as u32), WasmOp::LocalSet(dst as u32)], r2)
        } else if d.op0_kind == OPK_REGISTER && is_imm_kind(d.op1_kind) {
            let dst = spec_slot(regs, d.op0_reg as u64);
            let r1 = spec_alloc(regs, d.op0_reg as u64);
            (seq![WasmOp::I64Const(d.imm as i64), WasmOp::LocalSet(dst as u32)], r1)
        } else if d.op0_kind == OPK_REGISTER && d.op1_kind == OPK_MEMORY {
            let dst = spec_slot(regs, d.op0_reg as u64);
            let r1 = spec_alloc(regs, d.op0_reg as u64);
            let base = spec_slot(r1, d.mem_base as u64);
            let r2 = spec_alloc(r1, d.mem_base as u64);
            (
                seq![
                    WasmOp::LocalGet(base as u32),
                    WasmOp::I64Load(d.mem_disp),
                    WasmOp::LocalSet(dst as u32),
                ],
                r2,
            )
        } else if d.op0_kind == OPK_MEMORY && d.op1_kind == OPK_REGISTER {
            let src = spec_slot(regs, d.op1_reg as u64);
            let r1 = spec_alloc(regs, d.op1_reg as u64);
            let base = spec_slot(r1, d.mem_base as u64);
            let r2 = spec_alloc(r1, d.mem_base as u64);
            (
                seq![
                    WasmOp::LocalGet(base as u32),
                    WasmOp::LocalGet(src as u32),
                    WasmOp::I64Store(d.mem_disp),
                ],
                r2,
            )
        } else {
            (Seq::empty(), regs)
        }
    } else if m == MN_ADD || m == MN_SUB {
        let arith = if m == MN_ADD {
            WasmOp::I64Add
        } else {
            WasmOp::I64Sub
        };
        if d.op0_kind == OPK_REGISTER && d.op1_kind == OPK_REGISTER {
            let dst = spec_slot(regs, d.op0_reg as u64);
            let r1 = spec_alloc(regs, d.op0_reg as u64);
            let src = spec_slot(r1, d.op1_reg as u64);
            let r2 = spec_alloc(r1, d.op1_reg as u64);
            (
                seq![
                    WasmOp::LocalGet(dst as u32),
                    WasmOp::LocalGet(src as u32),
                    arith,
                    WasmOp::LocalSet(dst as u32),
                ],
                r2,
            )
        } else if d.op0_kind == OPK_REGISTER && is_imm_kind(d.op1_kind) {
            let dst = spec_slot(regs, d.op0_reg as u64);
            let r1 = spec_alloc(regs, d.op0_reg as u64);
            (
                seq![
                    WasmOp::LocalGet(dst as u32),
                    WasmOp::I64Const(d.imm as i64),
                    arith,
                    WasmOp::LocalSet(dst as u32),
                ],
                r1,
            )
        } else {
            (Seq::empty(), regs)
        }
    } else if m == MN_IMUL {
        let dst = spec_slot(regs, d.op0_reg as u64);
        let r1 = spec_alloc(regs, d.op0_reg as u64);
        let src = spec_slot(r1, d.op1_reg as u64);
        let r2 = spec_alloc(r1, d.op1_reg as u64);
        (
            seq![
                WasmOp::LocalGet(dst as u32),
                WasmOp::LocalGet(src as u32),
                WasmOp::I64Mul,
                WasmOp::LocalSet(dst as u32),
            ],
            r2,
        )
    } else if m == MN_CMP {
        let f = spec_slot(regs, FLAG_REG);
        let r1 = spec_alloc(regs, FLAG_REG);
        let l = spec_slot(r1, d.op0_reg as u64);
        let r2 = spec_alloc(r1, d.op0_reg as u64);
        if d.op1_kind == OPK_REGISTER {
            let rr = spec_slot(r2, d.op1_reg as u64);
            let r3 = spec_alloc(r2, d.op1_reg as u64);
            (
                seq![
                    WasmOp::LocalGet(l as u32),
                    WasmOp::LocalGet(rr as u32),
                    WasmOp::I64Sub,
                    WasmOp::LocalSet(f as u32),
                ],
                r3,
            )
        } else if is_imm_kind(d.op1_kind) {
            (
                seq![
                    WasmOp::LocalGet(l as u32),
                    WasmOp::I64Const(d.imm as i64),
                    WasmOp::I64Sub,
                    WasmOp::LocalSet(f as u32),
                ],
                r2,
            )
        } else {
            (Seq::empty(), r2)
        }
    } else if m == MN_TEST {
        let f = spec_slot(regs, FLAG_REG);
        let r1 = spec_alloc(regs, FLAG_REG);
        let l = spec_slot(r1, d.op0_reg as u64);
        let r2 = spec_alloc(r1, d.op0_reg as u64);
        let rr = spec_slot(r2, d.op1_reg as u64);
        let r3 = spec_alloc(r2, d.op1_reg as u64);
        (
            seq![
                WasmOp::LocalGet(l as u32),
                WasmOp::LocalGet(rr as u32),
                WasmOp::I64And,
                WasmOp::LocalSet(f as u32),
            ],
            r3,
        )
    } else if m == MN_LEA {
        let dst = spec_slot(regs, d.op0_reg as u64);
        let r1 = spec_alloc(regs, d.op0_reg as u64);
        let base = spec_slot(r1, d.mem_base as u64);
        let r2 = spec_alloc(r1, d.mem_base as u64);
        (
            seq![
                WasmOp::LocalGet(base as u32),
                WasmOp::I64Const(d.mem_disp as i64),
                WasmOp::I64Add,
                WasmOp::LocalSet(dst as u32),
            ],
            r2,
        )
    } else if m == MN_RET {
        let rax = spec_slot(regs, REG_RAX as u64);
        let r1 = spec_alloc(regs, REG_RAX as u64);
        (seq![WasmOp::LocalGet(rax as u32), WasmOp::Return], r1)
    } else {
        (Seq::empty(), regs)
    }
}

/// Emits one instruction as `spec_instr_ops` describes, threading the
/// allocator. Never allocates more than three fresh slots.
pub fn translate_instruction(d: &DecodedInstr, alloc: &mut RegisterAllocator) -> (ops: Vec<WasmOp>)
    requires
        old(alloc).wf(),
        old(alloc).regs().len() + 3 <= MAX_SLOTS as int,
    ensures
        final(alloc).wf(),
        final(alloc).param_reg() == old(alloc).param_reg(),
        ops@ == spec_instr_ops(*d, old(alloc).regs()).0,
        final(alloc).regs() == spec_instr_ops(*d, old(alloc).regs()).1,
        final(alloc).regs().len() <= old(alloc).regs().len() + 3,
{
    let mut ops: Vec<WasmOp> = Vec::new();
    let m = d.mnemonic;
    if m == MN_MOV {
        if d.op0_kind == OPK_REGISTER && d.op1_kind == OPK_REGISTER {
            let dst = alloc.get_or_allocate(d.op0_reg as u64);
            let src = alloc.get_or_allocate(d.op1_reg as u64);
            ops.push(WasmOp::LocalGet(src));
            ops.push(WasmOp::LocalSet(dst));
        } else if d.op0_kind == OPK_REGISTER && exec_is_imm_kind(d.op1_kind) {
            let dst = alloc.get_or_allocate(d.op0_reg as u64);
            ops.push(WasmOp::I64Const(#[verifier::truncate] (d.imm as i64)));
            ops.push(WasmOp::LocalSet(dst));
        } else if d.op0_kind == OPK_REGISTER && d.op1_kind == OPK_MEMORY {
            let dst = alloc.get_or_allocate(d.op0_reg as u64);
            let base = alloc.get_or_allocate(d.mem_base as u64);
            ops.push(WasmOp::LocalGet(base));
            ops.push(WasmOp::I64Load(d.mem_disp));
            ops.push(WasmOp::LocalSet(dst));
        } else if d.op0_kind == OPK_MEMORY && d.op1_kind == OPK_REGISTER {
            let src = alloc.get_or_allocate(d.op1_reg as u64);
            let base = alloc.get_or_allocate(d.mem_base as u64);
            ops.push(WasmOp::LocalGet(base));
            ops.push(WasmOp::LocalGet(src));
            ops.push(WasmOp::I64Store(d.mem_disp));
        }
    } else if m == MN_ADD || m == MN_SUB {
        let arith = if m == MN_ADD {
            WasmOp::I64Add
        } else {
            WasmOp::I64Sub
        };
        if d.op0_kind == OPK_REGISTER && d.op1_kind == OPK_REGISTER {
            let dst = alloc.get_or_allocate(d.op0_reg as u64);
            let src = alloc.get_or_allocate(d.op1_reg as u64);
            ops.push(WasmOp::LocalGet(dst));
            ops.push(WasmOp::LocalGet(src));
            ops.push(arith);
            ops.push(WasmOp::LocalSet(dst));
        } else if d.op0_kind == OPK_REGISTER && exec_is_imm_kind(d.op1_kind) {
            let dst = alloc.get_or_allocate(d.op0_reg as u64);
            ops.push(WasmOp::LocalGet(dst));
            ops.push(WasmOp::I64Const(#[verifier::truncate] (d.imm as i64)));
            ops.push(arith);
            ops.push(WasmOp::LocalSet(dst));
        }
    } else if m == MN_IMUL {
        let dst = alloc.get_or_allocate(d.op0_reg as u64);
        let src = alloc.get_or_allocate(d.op1_reg as u64);
        ops.push(WasmOp::LocalGet(dst));
        ops.push(WasmOp::LocalGet(src));
        ops.push(WasmOp::I64Mul);
        ops.push(WasmOp::LocalSet(dst));
    } else if m == MN_CMP {
        let f = alloc.get_or_allocate_flag();
        let l = alloc.get_or_allocate(d.op0_reg as u64);
        if d.op1_kind == OPK_REGISTER {
            let rr = alloc.get_or_allocate(d.op1_reg as u64);
            ops.push(WasmOp::LocalGet(l));
            ops.push(WasmOp::LocalGet(rr));
            ops.push(WasmOp::I64Sub);
            ops.push(WasmOp::LocalSet(f));
        } else if exec_is_imm_kind(d.op1_kind) {
            ops.push(WasmOp::LocalGet(l));
            ops.push(WasmOp::I64Const(#[verifier::truncate] (d.imm as i64)));
            ops.push(WasmOp::I64Sub);
            ops.push(WasmOp::LocalSet(f));
        }
    } else if m == MN_TEST {
        let f = alloc.get_or_allocate_flag();
        let l = alloc.get_or_allocate(d.op0_reg as u64);
        let rr = alloc.get_or_allocate(d.op1_reg as u64);
        ops.push(WasmOp::LocalGet(l));
        ops.push(WasmOp::LocalGet(rr));
        ops.push(WasmOp::I64And);
        ops.push(WasmOp::LocalSet(f));
    } else if m == MN_LEA {
        let dst = alloc.get_or_allocate(d.op0_reg as u64);
        let base = alloc.get_or_allocate(d.mem_base as u64);
        ops.push(WasmOp::LocalGet(base));
        ops.push(WasmOp::I64Const(#[verifier::truncate] (d.mem_disp as i64)));
        ops.push(WasmOp::I64Add);
        ops.push(WasmOp::LocalSet(dst));
    } else if m == MN_RET {
        let rax = alloc.get_or_allocate(REG_RAX as u64);
        ops.push(WasmOp::LocalGet(rax));
        ops.push(WasmOp::Return);
    }
    proof {
        assert(ops@ =~= spec_instr_ops(*d, old(alloc).regs()).0);
    }
    ops
}

/// The operations of the instruction range `[s, e)`, with the allocator
/// state after them.
pub open spec fn spec_range_ops(
    instrs: Seq<DecodedInstr>,
    s: int,
    e: int,
    regs: Seq<u64>,
) -> (Seq<WasmOp>, Seq<u64>)
    decreases e - s,
{
    if s < 0 || s >= e {
        (Seq::empty(), regs)
    } else {
        let (o1, r1) = spec_instr_ops(instrs[s], regs);
        let (o2, r2) = spec_range_ops(instrs, s + 1, e, r1);
        (o1 + o2, r2)
    }
}

/// Emits the instruction range `[s, e)` as `spec_range_ops` describes.
pub fn translate_range(
    instrs: &Vec<DecodedInstr>,
    s: usize,
    e: usize,
    alloc: &mut RegisterAllocator,
) -> (ops: Vec<WasmOp>)
    requires
        s <= e <= instrs@.len(),
        old(alloc).wf(),
        old(alloc).regs().len() + 3 * (e - s) + 3 <= MAX_SLOTS as int,
    ensures
        final(alloc).wf(),
        final(alloc).param_reg() == old(alloc).param_reg(),
        ops@ == spec_range_ops(instrs@, s as int, e as int, old(alloc).regs()).0,
        final(alloc).regs() == spec_range_ops(instrs@, s as int, e as int, old(alloc).regs()).1,
        final(alloc).regs().len() <= old(alloc).regs().len() + 3 * (e - s),
{
    let mut ops: Vec<WasmOp> = Vec::new();
    let mut i = s;
    while i < e
        invariant
            s <= i <= e <= instrs@.len(),
            alloc.wf(),
            alloc.param_reg() == old(alloc).param_reg(),
            alloc.regs().len() <= old(alloc).regs().len() + 3 * (i - s),
            old(alloc).regs().len() + 3 * (e - s) + 3 <= MAX_SLOTS as int,
            spec_range_ops(instrs@, s as int, e as int, old(alloc).regs()).0 == ops@
                + spec_range_ops(instrs@, i as int, e as int, alloc.regs()).0,
            spec_range_ops(instrs@, s as int, e as int, old(alloc).regs()).1 == spec_range_ops(
                instrs@,
                i as int,
                e as int,
                alloc.regs(),
            ).1,
        decreases e - i,
    {
        let ghost prev_regs = alloc.regs();
        let ghost prev_ops = ops@;
        let step_ops = translate_instruction(&instrs[i], alloc);
        let mut k: usize = 0;
        let nstep = step_ops.len();
        while k < nstep
            invariant
                k <= nstep,
                nstep == step_ops@.len(),
                ops@ == prev_ops + step_ops@.take(k as int),
            decreases nstep - k,
        {
            ops.push(step_ops[k]);
            proof {
                assert(prev_ops + step_ops@.take(k + 1) =~= (prev_ops + step_ops@.take(
                    k as int,
                )).push(step_ops@[k as int]));
            }
            k = k + 1;
        }
        proof {
            assert(step_ops@.take(nstep as int) =~= step_ops@);
            let (o1, r1) = spec_instr_ops(instrs@[i as int], prev_regs);
            let rest = spec_range_ops(instrs@, i + 1, e as int, r1);
            assert(spec_range_ops(instrs@, i as int, e as int, prev_regs) == (
                o1 + rest.0,
                rest.1,
            ));
            assert(prev_ops + (o1 + rest.0) =~= (prev_ops + o1) + rest.0);
        }
        i = i + 1;
    }
    ops
}


/// The comparison op a conditional branch tests the flag slot with.
pub open spec fn pred_cmp_op(m: u32) -> WasmOp {
    if m == MN_JE || m == MN_JNE {
        WasmOp::I64Eq
    } else if m == MN_JG || m == MN_JLE {
        WasmOp::I64GtS
    } else {
        WasmOp::I64LtS
    }
}

/// Branches whose predicate is the negation of the tested comparison:
/// realised by swapping the two arms instead of negating.
pub open spec fn pred_swapped(m: u32) -> bool {
    m == MN_JNE || m == MN_JLE || m == MN_JGE
}

/// The structured predicate test of a conditional branch: the flag slot
/// compared against zero.
pub open spec fn spec_pred_ops(m: u32, f: int) -> Seq<WasmOp> {
    seq![WasmOp::LocalGet(f as u32), WasmOp::I64Const(0), pred_cmp_op(m)]
}

/// Flat emission: all instructions in order, then the default result and
/// the closing delimiter. A function with no instructions becomes the
/// empty valid body returning zero.
pub open spec fn spec_flat(instrs: Seq<DecodedInstr>, regs: Seq<u64>) -> (Seq<WasmOp>, Seq<u64>) {
    let (o, r) = spec_range_ops(instrs, 0, instrs.len() as int, regs);
    (o + seq![WasmOp::I64Const(0), WasmOp::End], r)
}

/// If/else emission for the three-block diamond: the head's body, the
/// predicate test, the taken arm, the fallthrough arm. For a swapped
/// predicate the arms trade places.
pub open spec fn spec_ifelse(
    instrs: Seq<DecodedInstr>,
    blocks: Seq<BasicBlock>,
    regs: Seq<u64>,
) -> (Seq<WasmOp>, Seq<u64>) {
    let b0 = blocks[0];
    let m = instrs[b0.end_idx - 1].mnemonic;
    let (ho, r1) = spec_range_ops(instrs, b0.start_idx as int, b0.end_idx as int, regs);
    let f = spec_slot(r1, FLAG_REG);
    let r2 = spec_alloc(r1, FLAG_REG);
    let arm_a = if pred_swapped(m) {
        blocks[1]
    } else {
        blocks[2]
    };
    let arm_b = if pred_swapped(m) {
        blocks[2]
    } else {
        blocks[1]
    };
    let (ao, r3) = spec_range_ops(instrs, arm_a.start_idx as int, arm_a.end_idx as int, r2);
    let (bo, r4) = spec_range_ops(instrs, arm_b.start_idx as int, arm_b.end_idx as int, r3);
    (
        ho + spec_pred_ops(m, f) + seq![WasmOp::If] + ao + seq![WasmOp::Else] + bo + seq![
            WasmOp::End,
            WasmOp::I64Const(0),
            WasmOp::End,
        ],
        r4,
    )
}

/// The `k` nested block openings of the dispatch loop.
pub open spec fn blocks_opening(k: int) -> Seq<WasmOp> {
    Seq::new(if k >= 0 { k as nat } else { 0 }, |i: int| WasmOp::Block)
}

/// The dispatcher: one state comparison and branch per block, innermost
/// first.
pub open spec fn spec_arms(k: int, st: int, j: int) -> Seq<WasmOp>
    decreases k - j,
{
    if j < 0 || j >= k {
        Seq::empty()
    } else {
        seq![
            WasmOp::LocalGet(st as u32),
            WasmOp::I64Const(j as i64),
            WasmOp::I64Eq,
            WasmOp::BrIf(j as u32),
        ] + spec_arms(k, st, j + 1)
    }
}

/// The transfer that ends block `j` inside the dispatch loop: nothing
/// after a return (the body already returned); the default result when
/// control falls off the end; a state assignment and loop restart for one
/// successor; the predicate choosing between two state assignments for a
/// conditional branch.
pub open spec fn spec_term_ops(
    instrs: Seq<DecodedInstr>,
    blocks: Seq<BasicBlock>,
    j: int,
    st: int,
    regs: Seq<u64>,
) -> (Seq<WasmOp>, Seq<u64>) {
    let blk = blocks[j];
    let last = instrs[blk.end_idx - 1];
    let depth = (blocks.len() - 1 - j) as u32;
    if last.mnemonic == MN_RET {
        (Seq::empty(), regs)
    } else {
        match blk.succs {
            Succs::Zero => (seq![WasmOp::I64Const(0), WasmOp::Return], regs),
            Succs::One(t) => (
                seq![WasmOp::I64Const(t as i64), WasmOp::LocalSet(st as u32), WasmOp::Br(depth)],
                regs,
            ),
            Succs::Two(fb, tb) => {
                let f = spec_slot(regs, FLAG_REG);
                let r1 = spec_alloc(regs, FLAG_REG);
                let first: usize = if pred_swapped(last.mnemonic) {
                    fb
                } else {
                    tb
                };
                let second: usize = if pred_swapped(last.mnemonic) {
                    tb
                } else {
                    fb
                };
                (
                    spec_pred_ops(last.mnemonic, f) + seq![
                        WasmOp::If,
                        WasmOp::I64Const(first as i64),
                        WasmOp::LocalSet(st as u32),
                        WasmOp::Else,
                        WasmOp::I64Const(second as i64),
                        WasmOp::LocalSet(st as u32),
                        WasmOp::End,
                        WasmOp::Br(depth),
                    ],
                    r1,
                )
            },
        }
    }
}

/// The dispatch loop's per-block segments from block `j` on: each closes
/// its nesting block, then holds the block's body and its transfer.
pub open spec fn spec_dispatch_blocks(
    instrs: Seq<DecodedInstr>,
    blocks: Seq<BasicBlock>,
    j: int,
    st: int,
    regs: Seq<u64>,
) -> (Seq<WasmOp>, Seq<u64>)
    decreases blocks.len() - j,
{
    if j < 0 || j >= blocks.len() {
        (Seq::empty(), regs)
    } else {
        let (bo, r1) = spec_range_ops(
            instrs,
            blocks[j].start_idx as int,
            blocks[j].end_idx as int,
            regs,
        );
        let (to, r2) = spec_term_ops(instrs, blocks, j, st, r1);
        let (ro, r3) = spec_dispatch_blocks(instrs, blocks, j + 1, st, r2);
        (seq![WasmOp::End] + bo + to + ro, r3)
    }
}

/// Dispatch emission: initialise the state local to the entry block, then
/// loop over nested blocks whose innermost dispatcher branches on the
/// state, with each block's body and transfer behind its closing
/// delimiter.
pub open spec fn spec_dispatch(
    instrs: Seq<DecodedInstr>,
    blocks: Seq<BasicBlock>,
    regs: Seq<u64>,
) -> (Seq<WasmOp>, Seq<u64>) {
    let st = spec_slot(regs, STATE_REG);
    let r1 = spec_alloc(regs, STATE_REG);
    let k = blocks.len() as int;
    let (body, r2) = spec_dispatch_blocks(instrs, blocks, 0, st, r1);
    (
        seq![WasmOp::I64Const(0), WasmOp::LocalSet(st as u32), WasmOp::Loop] + blocks_opening(k)
            + spec_arms(k, st, 0) + seq![WasmOp::I64Const(0), WasmOp::Return] + body + seq![
            WasmOp::End,
            WasmOp::I64Const(0),
            WasmOp::End,
        ],
        r2,
    )
}

/// The operation sequence of a whole function, by the structurer's choice
/// of shape, with the allocator state after it.
#[verifier::opaque]
pub open spec fn spec_translate(
    instrs: Seq<DecodedInstr>,
    blocks: Seq<BasicBlock>,
    regs: Seq<u64>,
) -> (Seq<WasmOp>, Seq<u64>) {
    match spec_structure(instrs, blocks) {
        StructuredRegion::Flat => spec_flat(instrs, regs),
        StructuredRegion::IfElse { .. } => spec_ifelse(instrs, blocks, regs),
        StructuredRegion::Dispatch => spec_dispatch(instrs, blocks, regs),
    }
}

/// Flat emission as `spec_flat` describes.
fn emit_flat(instrs: &Vec<DecodedInstr>, alloc: &mut RegisterAllocator) -> (ops: Vec<WasmOp>)
    requires
        instrs@.len() <= crate::MAX_INSTRS as int,
        old(alloc).wf(),
        old(alloc).regs().len() == 1,
    ensures
        final(alloc).wf(),
        final(alloc).param_reg() == old(alloc).param_reg(),
        ops@ == spec_flat(instrs@, old(alloc).regs()).0,
        final(alloc).regs() == spec_flat(instrs@, old(alloc).regs()).1,
{
    let n = instrs.len();
    let mut ops = translate_range(instrs, 0, n, alloc);
    ops.push(WasmOp::I64Const(0));
    ops.push(WasmOp::End);
    proof {
        let (o, _r) = spec_range_ops(instrs@, 0, n as int, old(alloc).regs());
        assert(ops@ =~= o + seq![WasmOp::I64Const(0), WasmOp::End]);
    }
    ops
}

/// If/else emission as `spec_ifelse` describes.
fn emit_ifelse(
    instrs: &Vec<DecodedInstr>,
    cfg: &ControlFlowGraph,
    alloc: &mut RegisterAllocator,
) -> (ops: Vec<WasmOp>)
    requires
        cfg_wf(instrs@, cfg.blocks@),
        cfg.blocks@.len() == 3,
        instrs@.len() <= crate::MAX_INSTRS as int,
        old(alloc).wf(),
        old(alloc).regs().len() == 1,
    ensures
        final(alloc).wf(),
        final(alloc).param_reg() == old(alloc).param_reg(),
        ops@ == spec_ifelse(instrs@, cfg.blocks@, old(alloc).regs()).0,
        final(alloc).regs() == spec_ifelse(instrs@, cfg.blocks@, old(alloc).regs()).1,
{
    let b0 = cfg.blocks[0];
    let b1 = cfg.blocks[1];
    let b2 = cfg.blocks[2];
    let m = instrs[b0.end_idx - 1].mnemonic;
    let mut ops = translate_range(instrs, b0.start_idx, b0.end_idx, alloc);
    let f = alloc.get_or_allocate_flag();
    ops.push(WasmOp::LocalGet(f));
    ops.push(WasmOp::I64Const(0));
    if m == MN_JE || m == MN_JNE {
        ops.push(WasmOp::I64Eq);
    } else if m == MN_JG || m == MN_JLE {
        ops.push(WasmOp::I64GtS);
    } else {
        ops.push(WasmOp::I64LtS);
    }
    ops.push(WasmOp::If);
    let swapped = m == MN_JNE || m == MN_JLE || m == MN_JGE;
    let arm_a = if swapped {
        b1
    } else {
        b2
    };
    let arm_b = if swapped {
        b2
    } else {
        b1
    };
    let mut ao = translate_range(instrs, arm_a.start_idx, arm_a.end_idx, alloc);
    ops.append(&mut ao);
    ops.push(WasmOp::Else);
    let mut bo = translate_range(instrs, arm_b.start_idx, arm_b.end_idx, alloc);
    ops.append(&mut bo);
    ops.push(WasmOp::End);
    ops.push(WasmOp::I64Const(0));
    ops.push(WasmOp::End);
    proof {
        assert(ops@ =~= spec_ifelse(instrs@, cfg.blocks@, old(alloc).regs()).0);
    }
    ops
}

/// Dispatch emission as `spec_dispatch` describes.
#[verifier::rlimit(100)]
fn emit_dispatch(
    instrs: &Vec<DecodedInstr>,
    cfg: &ControlFlowGraph,
    alloc: &mut RegisterAllocator,
) -> (ops: Vec<WasmOp>)
    requires
        cfg_wf(instrs@, cfg.blocks@),
        cfg.blocks@.len() <= instrs@.len(),
        instrs@.len() <= crate::MAX_INSTRS as int,
        old(alloc).wf(),
        old(alloc).regs().len() == 1,
    ensures
        final(alloc).wf(),
        final(alloc).param_reg() == old(alloc).param_reg(),
        ops@ == spec_dispatch(instrs@, cfg.blocks@, old(alloc).regs()).0,
        final(alloc).regs() == spec_dispatch(instrs@, cfg.blocks@, old(alloc).regs()).1,
{
    let n = instrs.len();
    let k = cfg.blocks.len();
    let st = alloc.get_or_allocate(STATE_REG);
    let ghost regs1 = alloc.regs();
    let mut ops: Vec<WasmOp> = Vec::new();
    ops.push(WasmOp::I64Const(0));
    ops.push(WasmOp::LocalSet(st));
    ops.push(WasmOp::Loop);
    let mut j: usize = 0;
    while j < k
        invariant
            j <= k,
            ops@ =~= seq![WasmOp::I64Const(0), WasmOp::LocalSet(st), WasmOp::Loop]
                + blocks_opening(j as int),
        decreases k - j,
    {
        ops.push(WasmOp::Block);
        proof {
            assert(blocks_opening(j + 1) =~= blocks_opening(j as int).push(WasmOp::Block));
        }
        j = j + 1;
    }
    let mut arms: Vec<WasmOp> = Vec::new();
    let mut j2: usize = 0;
    while j2 < k
        invariant
            j2 <= k,
            k <= crate::MAX_INSTRS,
            spec_arms(k as int, st as int, 0) == arms@ + spec_arms(
                k as int,
                st as int,
                j2 as int,
            ),
        decreases k - j2,
    {
        let ghost before = arms@;
        arms.push(WasmOp::LocalGet(st));
        arms.push(WasmOp::I64Const(j2 as i64));
        arms.push(WasmOp::I64Eq);
        arms.push(WasmOp::BrIf(j2 as u32));
        proof {
            let step = seq![
                WasmOp::LocalGet(st),
                WasmOp::I64Const(j2 as i64),
                WasmOp::I64Eq,
                WasmOp::BrIf(j2 as u32),
            ];
            assert(spec_arms(k as int, st as int, j2 as int) == step + spec_arms(
                k as int,
                st as int,
                j2 + 1,
            ));
            assert(arms@ =~= before + step);
            assert(before + (step + spec_arms(k as int, st as int, j2 + 1)) =~= arms@
                + spec_arms(k as int, st as int, j2 + 1));
        }
        j2 = j2 + 1;
    }
    ops.append(&mut arms);
    ops.push(WasmOp::I64Const(0));
    ops.push(WasmOp::Return);
    let mut body: Vec<WasmOp> = Vec::new();
    let mut j3: usize = 0;
    while j3 < k
        invariant
            j3 <= k,
            k == cfg.blocks@.len(),
            n == instrs@.len(),
            n <= crate::MAX_INSTRS,
            cfg_wf(instrs@, cfg.blocks@),
            k <= n,
            alloc.wf(),
            alloc.param_reg() == old(alloc).param_reg(),
            alloc.regs().len() <= 2 + 4 * (if j3 < k {
                cfg.blocks@[j3 as int].start_idx as int
            } else {
                n as int
            }),
            spec_dispatch_blocks(instrs@, cfg.blocks@, 0, st as int, regs1).0 == body@
                + spec_dispatch_blocks(instrs@, cfg.blocks@, j3 as int, st as int, alloc.regs()).0,
            spec_dispatch_blocks(instrs@, cfg.blocks@, 0, st as int, regs1).1
                == spec_dispatch_blocks(
                instrs@,
                cfg.blocks@,
                j3 as int,
                st as int,
                alloc.regs(),
            ).1,
        decreases k - j3,
    {
        let blk = cfg.blocks[j3];
        let ghost regs_in = alloc.regs();
        let ghost body_in = body@;
        body.push(WasmOp::End);
        let mut bo = translate_range(instrs, blk.start_idx, blk.end_idx, alloc);
        body.append(&mut bo);
        let ghost regs_mid = alloc.regs();
        let last = instrs[blk.end_idx - 1];
        let depth = (k - 1 - j3) as u32;
        if last.mnemonic == MN_RET {
        } else {
            match blk.succs {
                Succs::Zero => {
                    body.push(WasmOp::I64Const(0));
                    body.push(WasmOp::Return);
                },
                Succs::One(t) => {
                    body.push(WasmOp::I64Const(t as i64));
                    body.push(WasmOp::LocalSet(st));
                    body.push(WasmOp::Br(depth));
                },
                Succs::Two(fb, tb) => {
                    let f = alloc.get_or_allocate_flag();
                    body.push(WasmOp::LocalGet(f));
                    body.push(WasmOp::I64Const(0));
                    let mt = last.mnemonic;
                    if mt == MN_JE || mt == MN_JNE {
                        body.push(WasmOp::I64Eq);
                    } else if mt == MN_JG || mt == MN_JLE {
                        body.push(WasmOp::I64GtS);
                    } else {
                        body.push(WasmOp::I64LtS);
                    }
                    body.push(WasmOp::If);
                    let swapped = mt == MN_JNE || mt == MN_JLE || mt == MN_JGE;
                    let first = if swapped {
                        fb
                    } else {
                        tb
                    };
                    let second = if swapped {
                        tb
                    } else {
                        fb
                    };
                    body.push(WasmOp::I64Const(first as i64));
                    body.push(WasmOp::LocalSet(st));
                    body.push(WasmOp::Else);
                    body.push(WasmOp::I64Const(second as i64));
                    body.push(WasmOp::LocalSet(st));
                    body.push(WasmOp::End);
                    body.push(WasmOp::Br(depth));
                },
            }
        }
        proof {
            let bs = blk.start_idx as int;
            let be = blk.end_idx as int;
            let (sbo, sr1) = spec_range_ops(instrs@, bs, be, regs_in);
            let (sto, sr2) = spec_term_ops(instrs@, cfg.blocks@, j3 as int, st as int, sr1);
            assert(sr1 == regs_mid);
            assert(body@ =~= body_in + (seq![WasmOp::End] + sbo + sto));
            assert(alloc.regs() == sr2);
            let (ro, r3) = spec_dispatch_blocks(instrs@, cfg.blocks@, j3 + 1, st as int, sr2);
            assert(spec_dispatch_blocks(instrs@, cfg.blocks@, j3 as int, st as int, regs_in) == (
                seq![WasmOp::End] + sbo + sto + ro,
                r3,
            ));
            assert((body_in + (seq![WasmOp::End] + sbo + sto)) + ro =~= body_in + (seq![
                WasmOp::End,
            ] + sbo + sto + ro));
            if j3 + 1 < k {
                assert(cfg.blocks@[j3 + 1].start_idx == blk.end_idx);
            }
        }
        j3 = j3 + 1;
    }
    proof {
        assert(spec_dispatch_blocks(instrs@, cfg.blocks@, k as int, st as int, alloc.regs()).0
            =~= Seq::<WasmOp>::empty());
        assert(body@ + Seq::<WasmOp>::empty() =~= body@);
        assert(spec_dispatch_blocks(instrs@, cfg.blocks@, 0, st as int, regs1).0 =~= body@);
    }
    ops.append(&mut body);
    ops.push(WasmOp::End);
    ops.push(WasmOp::I64Const(0));
    ops.push(WasmOp::End);
    proof {
        assert(ops@ =~= spec_dispatch(instrs@, cfg.blocks@, old(alloc).regs()).0);
    }
    ops
}

/// Emits the whole function as `spec_translate` describes, traversing the
/// structured region and threading the allocator.
pub fn translate_blocks(
    instrs: &Vec<DecodedInstr>,
    cfg: &ControlFlowGraph,
    region: StructuredRegion,
    alloc: &mut RegisterAllocator,
) -> (ops: Vec<WasmOp>)
    requires
        cfg_wf(instrs@, cfg.blocks@),
        cfg.blocks@.len() <= instrs@.len(),
        instrs@.len() <= crate::MAX_INSTRS as int,
        region == spec_structure(instrs@, cfg.blocks@),
        old(alloc).wf(),
        old(alloc).regs().len() == 1,
    ensures
        final(alloc).wf(),
        final(alloc).param_reg() == old(alloc).param_reg(),
        ops@ == spec_translate(instrs@, cfg.blocks@, old(alloc).regs()).0,
        final(alloc).regs() == spec_translate(instrs@, cfg.blocks@, old(alloc).regs()).1,
{
    proof {
        reveal(spec_translate);
    }
    match region {
        StructuredRegion::Flat => emit_flat(instrs, alloc),
        StructuredRegion::IfElse { head: _, then_block: _, else_block: _ } => emit_ifelse(
            instrs,
            cfg,
            alloc,
        ),
        StructuredRegion::Dispatch => emit_dispatch(instrs, cfg, alloc),
    }
}

/// Flag-slot overwrite: two sequential comparisons both store to the one
/// shared flag slot, so after the second the slot reflects only the
/// second comparison — its store is the last operation of the combined
/// emission.
pub proof fn lemma_flag_overwrite(d1: DecodedInstr, d2: DecodedInstr, regs: Seq<u64>)
    requires
        d1.mnemonic == MN_CMP,
        d2.mnemonic == MN_CMP,
        d1.op0_kind == OPK_REGISTER,
        d2.op0_kind == OPK_REGISTER,
        d1.op1_kind == OPK_REGISTER || is_imm_kind(d1.op1_kind),
        d2.op1_kind == OPK_REGISTER || is_imm_kind(d2.op1_kind),
    ensures
        ({
            let (o1, r1) = spec_instr_ops(d1, regs);
            let (o2, r2) = spec_instr_ops(d2, r1);
            let f = spec_slot(regs, FLAG_REG);
            &&& o1.len() > 0
            &&& o2.len() > 0
            &&& o1.last() == WasmOp::LocalSet(f as u32)
            &&& o2.last() == WasmOp::LocalSet(f as u32)
            &&& (o1 + o2).last() == o2.last()
        }),
{
    let (o1, r1) = spec_instr_ops(d1, regs);
    let (o2, r2) = spec_instr_ops(d2, r1);
    let f = spec_slot(regs, FLAG_REG);
    let ra = crate::regalloc::spec_alloc(regs, FLAG_REG);
    let rb = crate::regalloc::spec_alloc(ra, d1.op0_reg as u64);
    crate::regalloc::lemma_alloc_contains(regs, FLAG_REG);
    crate::regalloc::lemma_alloc_idempotent(regs, FLAG_REG);
    crate::regalloc::lemma_slot_stable_alloc(ra, d1.op0_reg as u64, FLAG_REG);
    crate::regalloc::lemma_slot_stable_alloc(rb, d1.op1_reg as u64, FLAG_REG);
    assert(spec_slot(r1, FLAG_REG) == f);
    assert((o1 + o2).last() == o2.last());
}

} // verus!
