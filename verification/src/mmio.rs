//! The volatile access primitive and the simulated register block it acts
//! on.
//!
//! A [`RegisterBlock`] owns the backing words of one peripheral's
//! memory-mapped registers, at word offsets from a fixed base address, and
//! a ghost trace of every bus transaction performed on it. `load_word` and
//! `store_word` are the only operations that touch the bus: each appends
//! exactly one [`MemOp`] to the trace, so a caller's contract can state how
//! many transactions happened, in what order, and with what values —
//! nothing is elided, merged or reordered.
//!
//! A block is owned exclusively: the type is deliberately neither `Clone`
//! nor `Copy`, so two live handles to the same hardware state cannot
//! exist, and ownership moves from the board-init collaborator into
//! whichever driver uses the block.
//!
//! `hw_read` and `hw_peek`/`hw_poke` model the peripheral's own internal
//! reaction to a transaction (a status flag latching, a counter moving);
//! they are not bus transactions and leave the trace unchanged.

use vstd::prelude::*;

verus! {

/// One bus transaction: a single load or store of one register word at a
/// fixed address.
#[derive(Clone, Copy, Debug, PartialEq, Eq, Structural)]
pub enum MemOp {
    Load { addr: u32, value: u32 },
    Store { addr: u32, value: u32 },
}

/// A peripheral's registers: contiguous words starting at `base`, plus the
/// trace of every volatile operation performed so far.
pub struct RegisterBlock {
    base: u32,
    mem: Vec<u32>,
    trace: Ghost<Seq<MemOp>>,
}

impl RegisterBlock {
    /// The block's base address.
    pub closed spec fn base(self) -> u32 {
        self.base
    }

    /// The current word values, by word offset from the base.
    pub closed spec fn mem(self) -> Seq<u32> {
        self.mem@
    }

    /// Every volatile operation performed on this block, in program order.
    pub closed spec fn trace(self) -> Seq<MemOp> {
        self.trace@
    }

    /// All word addresses of the block fit in the 32-bit address space.
    pub open spec fn wf(self) -> bool {
        self.base() + 4 * self.mem().len() <= u32::MAX
    }

    /// The bus address of the word at offset `idx`.
    pub open spec fn addr_of(self, idx: int) -> u32
        recommends
            0 <= idx < self.mem().len(),
            self.wf(),
    {
        (self.base() + 4 * idx) as u32
    }

    /// A fresh block of `words` zeroed registers at `base`, with no
    /// transactions performed yet.
    pub fn new(base: u32, words: usize) -> (blk: RegisterBlock)
        requires
            base + 4 * words <= u32::MAX,
        ensures
            blk.wf(),
            blk.base() == base,
            blk.mem() =~= Seq::new(words as nat, |i: int| 0u32),
            blk.trace() =~= Seq::<MemOp>::empty(),
    {
        let mut mem: Vec<u32> = Vec::new();
        let mut i: usize = 0;
        while i < words
            invariant
                i <= words,
                mem@ =~= Seq::new(i as nat, |j: int| 0u32),
            decreases words - i,
        {
            mem.push(0);
            i = i + 1;
        }
        RegisterBlock { base, mem, trace: Ghost(Seq::empty()) }
    }

    /// The number of register words in the block.
    pub fn len(&self) -> (n: usize)
        ensures
            n == self.mem().len(),
    {
        self.mem.len()
    }

    /// The volatile load: one bus transaction reading the word at offset
    /// `idx`. Appends exactly one `Load` to the trace and changes nothing
    /// else.
    pub fn load_word(&mut self, idx: usize) -> (v: u32)
        requires
            old(self).wf(),
            idx < old(self).mem().len(),
        ensures
            final(self).wf(),
            v == old(self).mem()[idx as int],
            final(self).base() == old(self).base(),
            final(self).mem() == old(self).mem(),
            final(self).trace() == old(self).trace().push(
                MemOp::Load { addr: old(self).addr_of(idx as int), value: v },
            ),
    {
        let v = self.mem[idx];
        let addr = self.base + 4 * (idx as u32);
        proof {
            self.trace@ = self.trace@.push(MemOp::Load { addr, value: v });
        }
        v
    }

    /// The volatile store: one bus transaction writing `v` to the word at
    /// offset `idx`. Appends exactly one `Store` to the trace and updates
    /// exactly that word.
    pub fn store_word(&mut self, idx: usize, v: u32)
        requires
            old(self).wf(),
            idx < old(self).mem().len(),
        ensures
            final(self).wf(),
            final(self).base() == old(self).base(),
            final(self).mem() == old(self).mem().update(idx as int, v),
            final(self).trace() == old(self).trace().push(
                MemOp::Store { addr: old(self).addr_of(idx as int), value: v },
            ),
    {
        let addr = self.base + 4 * (idx as u32);
        self.mem.set(idx, v);
        proof {
            self.trace@ = self.trace@.push(MemOp::Store { addr, value: v });
        }
    }

    /// The peripheral's own view of a word, used when modeling a device's
    /// internal reaction. Not a bus transaction: no trace entry.
    pub fn hw_peek(&self, idx: usize) -> (v: u32)
        requires
            idx < self.mem().len(),
        ensures
            v == self.mem()[idx as int],
    {
        self.mem[idx]
    }

    /// The peripheral's own update of a word (a flag latching, a counter
    /// moving), used when modeling a device's internal reaction to a
    /// transaction or to time passing. Not a bus transaction: no trace
    /// entry.
    pub fn hw_poke(&mut self, idx: usize, v: u32)
        requires
            old(self).wf(),
            idx < old(self).mem().len(),
        ensures
            final(self).wf(),
            final(self).base() == old(self).base(),
            final(self).mem() == old(self).mem().update(idx as int, v),
            final(self).trace() == old(self).trace(),
    {
        self.mem.set(idx, v);
    }
}

} // verus!
