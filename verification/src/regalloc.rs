use vstd::prelude::*;

verus! {

/// Largest number of local slots an allocator may hand out; far above what
/// `MAX_INSTRS` instructions can ever demand, and well inside `u32`.
pub const MAX_SLOTS: u32 = 0x4000000;

/// Identity of the synthetic comparison-flag register: a number no
/// hardware register carries.
pub const FLAG_REG: u64 = 0x10000;

/// Identity of the synthetic dispatch-state register used by the
/// state-variable loop of the control-flow structurer.
pub const STATE_REG: u64 = 0x10001;

/// First index holding `reg` in `regs`, or `-1` when absent.
pub open spec fn spec_find(regs: Seq<u64>, reg: u64, i: int) -> int
    decreases regs.len() - i,
{
    if i < 0 || i >= regs.len() {
        -1
    } else if regs[i] == reg {
        i
    } else {
        spec_find(regs, reg, i + 1)
    }
}

/// The register list after a demand for `reg`: unchanged when `reg` is
/// already present, extended by one slot otherwise.
pub open spec fn spec_alloc(regs: Seq<u64>, reg: u64) -> Seq<u64> {
    if spec_find(regs, reg, 0) >= 0 {
        regs
    } else {
        regs.push(reg)
    }
}

/// The slot a demand for `reg` yields: its existing index, or the fresh
/// index at the end.
pub open spec fn spec_slot(regs: Seq<u64>, reg: u64) -> int {
    if spec_find(regs, reg, 0) >= 0 {
        spec_find(regs, reg, 0)
    } else {
        regs.len() as int
    }
}

/// Maps every distinct source register (and the synthetic flag and state
/// registers) to its own permanent output local slot. Slot 0 is reserved
/// for the configured first-parameter register; no slot is ever reused or
/// released.
pub struct RegisterAllocator {
    regs: Vec<u64>,
    param_reg: u64,
}

impl RegisterAllocator {
    /// The register held by each slot, in slot order.
    pub closed spec fn regs(&self) -> Seq<u64> {
        self.regs@
    }

    /// The configured first-parameter register.
    pub closed spec fn param_reg(&self) -> u64 {
        self.param_reg
    }

    /// Well-formedness: slot 0 holds the parameter register, no register
    /// holds two slots, and the slot count stays inside `MAX_SLOTS`.
    pub open spec fn wf(&self) -> bool {
        &&& self.regs().len() >= 1
        &&& self.regs().len() <= MAX_SLOTS as int
        &&& self.regs()[0] == self.param_reg()
        &&& forall|i: int, j: int|
            0 <= i < j < self.regs().len() ==> self.regs()[i] != self.regs()[j]
    }

    /// A fresh allocator for the calling convention that passes the first
    /// integer argument in `param_reg`: that register is hard-reserved to
    /// slot 0.
    pub fn new(param_reg: u64) -> (r: Self)
        ensures
            r.wf(),
            r.regs() =~= seq![param_reg],
            r.param_reg() == param_reg,
    {
        let mut regs: Vec<u64> = Vec::new();
        regs.push(param_reg);
        RegisterAllocator { regs, param_reg }
    }

    /// Returns the slot of `reg`, allocating a fresh one on first sight:
    /// idempotent per register identity.
    pub fn get_or_allocate(&mut self, reg: u64) -> (slot: u32)
        requires
            old(self).wf(),
            old(self).regs().len() < MAX_SLOTS as int,
        ensures
            final(self).wf(),
            final(self).regs() == spec_alloc(old(self).regs(), reg),
            final(self).param_reg() == old(self).param_reg(),
            slot as int == spec_slot(old(self).regs(), reg),
    {
        let n = self.regs.len();
        let mut i: usize = 0;
        while i < n
            invariant
                *self == *old(self),
                old(self).wf(),
                old(self).regs().len() < MAX_SLOTS as int,
                n == self.regs@.len(),
                i <= n,
                spec_find(self.regs@, reg, 0) == spec_find(self.regs@, reg, i as int),
                forall|j: int| 0 <= j < i ==> self.regs@[j] != reg,
            decreases n - i,
        {
            if self.regs[i] == reg {
                proof {
                    lemma_find_at(self.regs@, reg, 0, i as int);
                }
                return i as u32;
            }
            i = i + 1;
        }
        self.regs.push(reg);
        n as u32
    }

    /// Returns the single shared slot of the synthetic comparison-flag
    /// register, allocating it on first use. A later comparison stores
    /// over the same slot: only one outstanding result exists at a time.
    pub fn get_or_allocate_flag(&mut self) -> (slot: u32)
        requires
            old(self).wf(),
            old(self).regs().len() < MAX_SLOTS as int,
        ensures
            final(self).wf(),
            final(self).regs() == spec_alloc(old(self).regs(), FLAG_REG),
            final(self).param_reg() == old(self).param_reg(),
            slot as int == spec_slot(old(self).regs(), FLAG_REG),
    {
        self.get_or_allocate(FLAG_REG)
    }

    /// Total number of slots handed out so far.
    pub fn n_slots(&self) -> (n: u32)
        requires
            self.wf(),
        ensures
            n as int == self.regs().len(),
    {
        self.regs.len() as u32
    }
}

/// A found index really holds the register.
pub proof fn lemma_find_found(regs: Seq<u64>, reg: u64, i: int)
    requires
        spec_find(regs, reg, i) >= 0,
    ensures
        i <= spec_find(regs, reg, i) < regs.len(),
        regs[spec_find(regs, reg, i)] == reg,
    decreases regs.len() - i,
{
    if 0 <= i < regs.len() && regs[i] != reg {
        lemma_find_found(regs, reg, i + 1);
    }
}

/// A negative find means the register is nowhere in the list.
pub proof fn lemma_find_none(regs: Seq<u64>, reg: u64, i: int)
    requires
        spec_find(regs, reg, i) < 0,
        i >= 0,
    ensures
        forall|j: int| i <= j < regs.len() ==> regs[j] != reg,
    decreases regs.len() - i,
{
    if i < regs.len() {
        lemma_find_none(regs, reg, i + 1);
    }
}

/// If the register sits at an index and nowhere earlier, find returns it.
pub proof fn lemma_find_at(regs: Seq<u64>, reg: u64, i: int, at: int)
    requires
        0 <= i <= at < regs.len(),
        regs[at] == reg,
        forall|j: int| i <= j < at ==> regs[j] != reg,
    ensures
        spec_find(regs, reg, i) == at,
    decreases regs.len() - i,
{
    if i < at {
        lemma_find_at(regs, reg, i + 1, at);
    }
}

/// Repeated demands for the same register change nothing and return the
/// same slot.
pub proof fn lemma_alloc_idempotent(regs: Seq<u64>, reg: u64)
    ensures
        spec_alloc(spec_alloc(regs, reg), reg) == spec_alloc(regs, reg),
        spec_slot(spec_alloc(regs, reg), reg) == spec_slot(regs, reg),
{
    let f = spec_find(regs, reg, 0);
    if f >= 0 {
        lemma_find_found(regs, reg, 0);
    } else {
        lemma_find_none(regs, reg, 0);
        let regs2 = regs.push(reg);
        lemma_find_at(regs2, reg, 0, regs.len() as int);
    }
}

/// Distinct registers get distinct slots.
pub proof fn lemma_alloc_distinct(regs: Seq<u64>, r1: u64, r2: u64)
    requires
        r1 != r2,
    ensures
        spec_slot(spec_alloc(regs, r1), r2) != spec_slot(spec_alloc(regs, r1), r1),
{
    let regs1 = spec_alloc(regs, r1);
    let s1 = spec_slot(regs1, r1);
    let s2 = spec_slot(regs1, r2);
    lemma_alloc_idempotent(regs, r1);
    assert(s1 == spec_slot(regs, r1));
    if spec_find(regs1, r1, 0) >= 0 {
        lemma_find_found(regs1, r1, 0);
    }
    if spec_find(regs1, r2, 0) >= 0 {
        lemma_find_found(regs1, r2, 0);
        if spec_find(regs, r1, 0) >= 0 {
            lemma_find_found(regs, r1, 0);
        } else {
            lemma_find_none(regs, r1, 0);
            lemma_find_at(regs.push(r1), r1, 0, regs.len() as int);
        }
        assert(regs1[s1] == r1);
        assert(regs1[s2] == r2);
    } else {
        assert(s2 == regs1.len() as int);
        if spec_find(regs, r1, 0) >= 0 {
            lemma_find_found(regs, r1, 0);
        } else {
            lemma_find_none(regs, r1, 0);
            lemma_find_at(regs.push(r1), r1, 0, regs.len() as int);
        }
        assert(s1 < regs1.len() as int);
    }
}

/// Slot 0 answers to the parameter register and to no other, in any
/// well-formed allocator state.
pub proof fn lemma_slot_zero_reserved(a: RegisterAllocator, reg: u64)
    requires
        a.wf(),
    ensures
        spec_slot(a.regs(), a.param_reg()) == 0,
        spec_slot(a.regs(), reg) == 0 ==> reg == a.param_reg(),
{
    lemma_find_at(a.regs(), a.param_reg(), 0, 0);
    if spec_slot(a.regs(), reg) == 0 {
        if spec_find(a.regs(), reg, 0) >= 0 {
            lemma_find_found(a.regs(), reg, 0);
        }
    }
}


/// A register already present keeps its index when another slot is
/// appended.
pub proof fn lemma_find_stable_push(regs: Seq<u64>, x: u64, reg: u64, i: int)
    requires
        spec_find(regs, reg, i) >= 0,
    ensures
        spec_find(regs.push(x), reg, i) == spec_find(regs, reg, i),
    decreases regs.len() - i,
{
    if 0 <= i < regs.len() && regs[i] != reg {
        lemma_find_stable_push(regs, x, reg, i + 1);
    }
}

/// After a demand for a register, the register is present.
pub proof fn lemma_alloc_contains(regs: Seq<u64>, reg: u64)
    ensures
        spec_find(spec_alloc(regs, reg), reg, 0) >= 0,
{
    if spec_find(regs, reg, 0) < 0 {
        lemma_find_none(regs, reg, 0);
        lemma_find_at(regs.push(reg), reg, 0, regs.len() as int);
    }
}

/// A register already present keeps its slot across any later demand.
pub proof fn lemma_slot_stable_alloc(regs: Seq<u64>, x: u64, reg: u64)
    requires
        spec_find(regs, reg, 0) >= 0,
    ensures
        spec_find(spec_alloc(regs, x), reg, 0) >= 0,
        spec_slot(spec_alloc(regs, x), reg) == spec_slot(regs, reg),
{
    if spec_find(regs, x, 0) < 0 {
        lemma_find_stable_push(regs, x, reg, 0);
    }
}

} // verus!
