use vstd::prelude::*;

verus! {

// Mnemonic numbers of the instruction classes the translator knows, as the
// decoder library reports them (`iced_x86::Mnemonic as u32`).
pub const MN_INVALID: u32 = 0;
pub const MN_ADD: u32 = 7;
pub const MN_CALL: u32 = 59;
pub const MN_CMP: u32 = 93;
pub const MN_IMUL: u32 = 277;
pub const MN_JA: u32 = 297;
pub const MN_JB: u32 = 299;
pub const MN_JE: u32 = 302;
pub const MN_JG: u32 = 304;
pub const MN_JGE: u32 = 305;
pub const MN_JL: u32 = 306;
pub const MN_JLE: u32 = 307;
pub const MN_JMP: u32 = 308;
pub const MN_JNE: u32 = 310;
pub const MN_LEA: u32 = 374;
pub const MN_MOV: u32 = 414;
pub const MN_POP: u32 = 590;
pub const MN_PUSH: u32 = 640;
pub const MN_RET: u32 = 662;
pub const MN_SUB: u32 = 740;
pub const MN_TEST: u32 = 751;

// Operand kind numbers (`iced_x86::OpKind as u32`).
pub const OPK_REGISTER: u32 = 0;
pub const OPK_IMM8: u32 = 6;
pub const OPK_IMM16: u32 = 8;
pub const OPK_IMM32: u32 = 9;
pub const OPK_IMM64: u32 = 10;
pub const OPK_IMM8TO16: u32 = 11;
pub const OPK_IMM8TO32: u32 = 12;
pub const OPK_IMM8TO64: u32 = 13;
pub const OPK_IMM32TO64: u32 = 14;
pub const OPK_MEMORY: u32 = 24;

// Full (64-bit) register numbers (`iced_x86::Register as u32`). Every
// sub-register is widened to its full register before it reaches the
// pipeline, so one slot stands for e.g. AL/AX/EAX/RAX alike.
pub const REG_NONE: u32 = 0;
pub const REG_RAX: u32 = 53;
pub const REG_RDI: u32 = 60;

/// One decoded instruction, reduced to the plain values the translator
/// reads: absolute address, byte length, mnemonic class number, operand
/// descriptors (kinds, widened register numbers, memory base and
/// displacement, immediate) and the near-branch target.
#[derive(Clone, Copy, PartialEq, Eq, Structural, Debug)]
pub struct DecodedInstr {
    /// Absolute address of the instruction.
    pub ip: u64,
    /// Length in bytes.
    pub len: u64,
    /// Mnemonic number (see the `MN_` constants).
    pub mnemonic: u32,
    /// Number of operands.
    pub op_count: u32,
    /// Kind number of operand 0 (see the `OPK_` constants).
    pub op0_kind: u32,
    /// Kind number of operand 1.
    pub op1_kind: u32,
    /// Full register number of operand 0, when it is a register.
    pub op0_reg: u32,
    /// Full register number of operand 1, when it is a register.
    pub op1_reg: u32,
    /// Full register number of the memory operand's base register.
    pub mem_base: u32,
    /// Displacement of the memory operand.
    pub mem_disp: u64,
    /// Immediate value of operand 1, sign-extended to 64 bits; zero when
    /// operand 1 is not an immediate.
    pub imm: u64,
    /// Target address, when the instruction is a near branch.
    pub branch_target: u64,
}

/// Conditional-branch mnemonics recognised by the control-flow builder.
pub open spec fn is_cond_branch(m: u32) -> bool {
    m == MN_JA || m == MN_JB || m == MN_JE || m == MN_JG || m == MN_JGE || m == MN_JL
        || m == MN_JLE || m == MN_JNE
}

/// Control-transfer mnemonics: the instruction after one of these starts a
/// new basic block.
pub open spec fn is_control(m: u32) -> bool {
    is_cond_branch(m) || m == MN_JMP || m == MN_CALL || m == MN_RET
}

/// Branch mnemonics whose target address starts a basic block.
pub open spec fn is_branch_with_target(m: u32) -> bool {
    is_cond_branch(m) || m == MN_JMP
}

/// Immediate operand kinds the translator accepts as a 64-bit constant.
pub open spec fn is_imm_kind(k: u32) -> bool {
    k == OPK_IMM8 || k == OPK_IMM16 || k == OPK_IMM32 || k == OPK_IMM64 || k == OPK_IMM8TO16
        || k == OPK_IMM8TO32 || k == OPK_IMM8TO64 || k == OPK_IMM32TO64
}

pub fn exec_is_cond_branch(m: u32) -> (r: bool)
    ensures
        r == is_cond_branch(m),
{
    m == MN_JA || m == MN_JB || m == MN_JE || m == MN_JG || m == MN_JGE || m == MN_JL
        || m == MN_JLE || m == MN_JNE
}

pub fn exec_is_control(m: u32) -> (r: bool)
    ensures
        r == is_control(m),
{
    exec_is_cond_branch(m) || m == MN_JMP || m == MN_CALL || m == MN_RET
}

pub fn exec_is_branch_with_target(m: u32) -> (r: bool)
    ensures
        r == is_branch_with_target(m),
{
    exec_is_cond_branch(m) || m == MN_JMP
}

pub fn exec_is_imm_kind(k: u32) -> (r: bool)
    ensures
        r == is_imm_kind(k),
{
    k == OPK_IMM8 || k == OPK_IMM16 || k == OPK_IMM32 || k == OPK_IMM64 || k == OPK_IMM8TO16
        || k == OPK_IMM8TO32 || k == OPK_IMM8TO64 || k == OPK_IMM32TO64
}

} // verus!
