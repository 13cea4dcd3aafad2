//! The timer delay driver: a blocking "wait N milliseconds" built on a
//! one-shot countdown and status-flag polling.
//!
//! The prescaler is set once so that one counter tick equals one
//! millisecond. `start` loads the period and enables the counter; `poll`
//! busy-waits on the update flag, one volatile load per iteration, while
//! the counter runs down one tick per iteration; `acknowledge` clears the
//! flag. `delay_ms` chains the three.
//!
//! The stale-flag behavior is deliberate and documented: if the update
//! flag was never acknowledged, the next poll observes it already set and
//! returns at once, a zero-length wait. `acknowledge` must come between
//! two waits.
//!
//! The counter itself is hardware state: the simulated peripheral moves it
//! (and latches the update flag) through internal updates that are not bus
//! transactions, one tick per polling iteration.

use vstd::prelude::*;
use vstd::pervasive::unreached;

use crate::mmio::MemOp;
use crate::mmio::RegisterBlock;
use crate::reg::Access;
use crate::reg::Field;
use crate::reg::FieldWrite;
use crate::reg::Register;
use crate::reg::fields_valid;
use crate::reg::mask_range;

verus! {

/// Base address of the countdown-timer register block.
pub const TIM_BASE: u32 = 0x4000_1000;

/// Word offset of the control register.
pub const CR1_IDX: usize = 0;

/// Word offset of the status register (byte offset 0x10).
pub const SR_IDX: usize = 4;

/// Word offset of the hardware counter (byte offset 0x24).
pub const CNT_IDX: usize = 9;

/// Word offset of the prescaler register (byte offset 0x28).
pub const PSC_IDX: usize = 10;

/// Word offset of the auto-reload (period) register (byte offset 0x2C).
pub const ARR_IDX: usize = 11;

/// Number of register words in the block.
pub const TIM_WORDS: usize = 12;

/// Field position of the counter-enable bit in the control register.
pub const CR1_CEN: usize = 0;

/// Field position of the one-pulse-mode bit in the control register.
pub const CR1_OPM: usize = 1;

/// Field position of the update flag in the status register.
pub const SR_UIF: usize = 0;

/// Prescaler reload: an 8 MHz peripheral clock divided by 7999 + 1 makes
/// the counter tick at 1 kHz, one tick per millisecond.
pub const PSC_RELOAD: u32 = 7999;

/// The bus address of the status register.
pub const SR_ADDR: u32 = TIM_BASE + 0x10;

/// A load of the status register that saw the update ("expired") flag set.
pub open spec fn is_uif_observation(op: MemOp) -> bool {
    op matches MemOp::Load { addr, value } && addr == SR_ADDR && value & 1 != 0
}

/// The timer delay driver: exclusive owner of the countdown-timer register
/// block. `elapsed` counts every simulated hardware tick, one per
/// millisecond, since construction.
pub struct Timer {
    blk: RegisterBlock,
    cr1: Register,
    sr: Register,
    psc: Register,
    arr: Register,
    elapsed: u64,
}

impl Timer {
    pub open spec fn cen_field() -> Field {
        Field { lo: 0, hi: 0, access: Access::ReadWrite }
    }

    pub open spec fn opm_field() -> Field {
        Field { lo: 3, hi: 3, access: Access::ReadWrite }
    }

    pub open spec fn uif_field() -> Field {
        Field { lo: 0, hi: 0, access: Access::ReadWrite }
    }

    pub open spec fn period_field() -> Field {
        Field { lo: 0, hi: 15, access: Access::ReadWrite }
    }

    /// The counter is enabled (running).
    pub closed spec fn cen(self) -> bool {
        self.blk.mem()[CR1_IDX as int] & 1 != 0
    }

    /// The update ("expired") flag is set.
    pub closed spec fn uif(self) -> bool {
        self.blk.mem()[SR_IDX as int] & 1 != 0
    }

    /// The hardware counter: remaining ticks until the update event.
    pub closed spec fn cnt(self) -> u32 {
        self.blk.mem()[CNT_IDX as int]
    }

    /// Total simulated hardware ticks (milliseconds) since construction.
    pub closed spec fn elapsed(self) -> u64 {
        self.elapsed
    }

    /// Every volatile operation performed on the block, in program order.
    pub closed spec fn trace(self) -> Seq<MemOp> {
        self.blk.trace()
    }

    pub closed spec fn wf(self) -> bool {
        &&& self.blk.wf()
        &&& self.blk.base() == TIM_BASE
        &&& self.blk.mem().len() == TIM_WORDS
        &&& self.cr1.wf()
        &&& self.cr1.index() == CR1_IDX
        &&& self.cr1.access() == Access::ReadWrite
        &&& self.cr1.fields() == seq![Self::cen_field(), Self::opm_field()]
        &&& self.sr.wf()
        &&& self.sr.index() == SR_IDX
        &&& self.sr.access() == Access::ReadWrite
        &&& self.sr.fields() == seq![Self::uif_field()]
        &&& self.psc.wf()
        &&& self.psc.index() == PSC_IDX
        &&& self.psc.access() == Access::ReadWrite
        &&& self.psc.fields() == seq![Self::period_field()]
        &&& self.arr.wf()
        &&& self.arr.index() == ARR_IDX
        &&& self.arr.access() == Access::ReadWrite
        &&& self.arr.fields() == seq![Self::period_field()]
        &&& self.cnt() <= 0xFFFF
        &&& (self.cen() ==> self.cnt() >= 1)
    }

    /// Total simulated ticks so far, one per millisecond.
    pub fn elapsed_ms(&self) -> (e: u64)
        ensures
            e == self.elapsed(),
    {
        self.elapsed
    }

    /// A fresh, configured timer, as the board-init collaborator hands it
    /// over: one-pulse mode selected with the counter held disabled, then
    /// the prescaler set for one tick per millisecond — one volatile store
    /// each.
    pub fn new() -> (t: Timer)
        ensures
            t.wf(),
            !t.cen(),
            !t.uif(),
            t.cnt() == 0,
            t.elapsed() == 0,
            t.trace().len() == 2,
    {
        let mut blk = RegisterBlock::new(TIM_BASE, TIM_WORDS);
        let mut cr1_fields: Vec<Field> = Vec::new();
        cr1_fields.push(Field { lo: 0, hi: 0, access: Access::ReadWrite });
        cr1_fields.push(Field { lo: 3, hi: 3, access: Access::ReadWrite });
        proof {
            assert(cr1_fields@ =~= seq![Self::cen_field(), Self::opm_field()]);
            assert forall|i: int, j: int| 0 <= i < j < cr1_fields@.len() implies #[trigger]
                cr1_fields@[i].mask() & #[trigger] cr1_fields@[j].mask() == 0 by {
                assert(mask_range(0, 0) & mask_range(3, 3) == 0) by (bit_vector);
            }
            assert(fields_valid(cr1_fields@));
        }
        let cr1 = match Register::new(CR1_IDX, Access::ReadWrite, cr1_fields) {
            Ok(r) => r,
            Err(_) => unreached(),
        };
        let mut sr_fields: Vec<Field> = Vec::new();
        sr_fields.push(Field { lo: 0, hi: 0, access: Access::ReadWrite });
        proof {
            assert(sr_fields@ =~= seq![Self::uif_field()]);
            assert(fields_valid(sr_fields@));
        }
        let sr = match Register::new(SR_IDX, Access::ReadWrite, sr_fields) {
            Ok(r) => r,
            Err(_) => unreached(),
        };
        let mut psc_fields: Vec<Field> = Vec::new();
        psc_fields.push(Field { lo: 0, hi: 15, access: Access::ReadWrite });
        proof {
            assert(psc_fields@ =~= seq![Self::period_field()]);
            assert(fields_valid(psc_fields@));
        }
        let psc = match Register::new(PSC_IDX, Access::ReadWrite, psc_fields) {
            Ok(r) => r,
            Err(_) => unreached(),
        };
        let mut arr_fields: Vec<Field> = Vec::new();
        arr_fields.push(Field { lo: 0, hi: 15, access: Access::ReadWrite });
        proof {
            assert(arr_fields@ =~= seq![Self::period_field()]);
            assert(fields_valid(arr_fields@));
        }
        let arr = match Register::new(ARR_IDX, Access::ReadWrite, arr_fields) {
            Ok(r) => r,
            Err(_) => unreached(),
        };

        // Select one-pulse mode with the counter disabled: opm set, cen
        // clear, in one store.
        let mut fw = FieldWrite::new();
        proof {
            assert(1u32 & !(mask_range(3, 3) >> 3u32) == 0 && 0u32 & !(mask_range(0, 0) >> 0u32)
                == 0) by (bit_vector);
        }
        match fw.set(&cr1, CR1_OPM, 1) {
            Ok(_) => {},
            Err(_) => {
                return unreached();
            },
        }
        match fw.set(&cr1, CR1_CEN, 0) {
            Ok(_) => {},
            Err(_) => {
                return unreached();
            },
        }
        match cr1.write(&mut blk, &fw) {
            Ok(_) => {},
            Err(_) => {
                return unreached();
            },
        }
        proof {
            assert(((((0u32 & !mask_range(3, 3)) | (1u32 << 3u32)) & !mask_range(0, 0)) | (0u32
                << 0u32)) & 1 == 0) by (bit_vector);
        }

        // Set the prescaler so the counter runs at one tick per
        // millisecond.
        let mut fwp = FieldWrite::new();
        proof {
            assert(PSC_RELOAD & !(mask_range(0, 15) >> 0u32) == 0) by (bit_vector);
        }
        match fwp.set(&psc, 0, PSC_RELOAD) {
            Ok(_) => {},
            Err(_) => {
                return unreached();
            },
        }
        match psc.write(&mut blk, &fwp) {
            Ok(_) => {},
            Err(_) => {
                return unreached();
            },
        }
        let t = Timer { blk, cr1, sr, psc, arr, elapsed: 0 };
        proof {
            assert(0u32 & 1 == 0) by (bit_vector);
        }
        t
    }

    /// Writes the period into the auto-reload register and asserts the
    /// counter-enable bit, one volatile store each; the hardware loads the
    /// counter. Enabling with a zero period fires the update event at
    /// once. Does not touch a stale update flag.
    pub fn start(&mut self, ms: u16)
        requires
            old(self).wf(),
        ensures
            final(self).wf(),
            final(self).cen() == (ms > 0),
            final(self).uif() == (old(self).uif() || ms == 0),
            final(self).cnt() == ms,
            final(self).elapsed() == old(self).elapsed(),
            final(self).trace().len() == old(self).trace().len() + 2,
            old(self).trace().is_prefix_of(final(self).trace()),
            forall|i: int|
                old(self).trace().len() <= i < final(self).trace().len()
                    ==> !is_uif_observation(#[trigger] final(self).trace()[i]),
    {
        let v = ms as u32;
        let mut fw = FieldWrite::new();
        proof {
            assert(v & !(mask_range(0, 15) >> 0u32) == 0) by (bit_vector)
                requires
                    v < 0x10000u32,
            ;
        }
        match fw.set(&self.arr, 0, v) {
            Ok(_) => {},
            Err(_) => {
                return unreached();
            },
        }
        match self.arr.write(&mut self.blk, &fw) {
            Ok(_) => {},
            Err(_) => {
                return unreached();
            },
        }
        // The hardware loads the period into the counter.
        self.blk.hw_poke(CNT_IDX, v);

        let mut fwc = FieldWrite::new();
        proof {
            assert(1u32 & !(mask_range(0, 0) >> 0u32) == 0) by (bit_vector);
        }
        match fwc.set(&self.cr1, CR1_CEN, 1) {
            Ok(_) => {},
            Err(_) => {
                return unreached();
            },
        }
        match self.cr1.write(&mut self.blk, &fwc) {
            Ok(_) => {},
            Err(_) => {
                return unreached();
            },
        }
        proof {
            assert(((0u32 & !mask_range(0, 0)) | (1u32 << 0u32)) & 1 != 0) by (bit_vector);
        }
        if ms == 0 {
            // A zero period expires immediately: the update flag latches
            // and the one-shot counter stops.
            let s = self.blk.hw_peek(SR_IDX);
            self.blk.hw_poke(SR_IDX, s | 1);
            let c = self.blk.hw_peek(CR1_IDX);
            self.blk.hw_poke(CR1_IDX, c & !1);
            proof {
                assert((s | 1) & 1 != 0 && (c & !1) & 1 == 0) by (bit_vector);
            }
        }
    }

    /// One hardware tick while the counter runs: the counter moves down
    /// one; on reaching zero the update flag latches and the one-shot
    /// counter stops. Internal to the peripheral — no bus transaction.
    fn tick(&mut self)
        requires
            old(self).wf(),
            old(self).cen(),
            old(self).elapsed() < u64::MAX,
        ensures
            final(self).wf(),
            final(self).elapsed() == old(self).elapsed() + 1,
            final(self).cnt() == old(self).cnt() - 1,
            final(self).cen() == (old(self).cnt() > 1),
            final(self).uif() == (old(self).uif() || old(self).cnt() == 1),
            final(self).trace() == old(self).trace(),
    {
        let c = self.blk.hw_peek(CNT_IDX);
        self.blk.hw_poke(CNT_IDX, c - 1);
        if c - 1 == 0 {
            let s = self.blk.hw_peek(SR_IDX);
            self.blk.hw_poke(SR_IDX, s | 1);
            let r = self.blk.hw_peek(CR1_IDX);
            self.blk.hw_poke(CR1_IDX, r & !1);
            proof {
                assert((s | 1) & 1 != 0 && (r & !1) & 1 == 0) by (bit_vector);
            }
        }
        self.elapsed = self.elapsed + 1;
    }

    /// Busy-waits until the update ("expired") flag reads set, one
    /// volatile load of the status register per iteration, the hardware
    /// ticking once between consecutive loads. Exactly the last load
    /// observes the flag set; a flag already set (stale or just expired)
    /// returns at once with zero ticks elapsed.
    pub fn poll(&mut self)
        requires
            old(self).wf(),
            old(self).cen() || old(self).uif(),
            old(self).elapsed() + old(self).cnt() <= u64::MAX,
        ensures
            final(self).wf(),
            final(self).uif(),
            final(self).elapsed() == old(self).elapsed() + (if old(self).uif() {
                0
            } else {
                old(self).cnt() as u64
            }),
            final(self).cen() == (old(self).uif() && old(self).cen()),
            final(self).cnt() == (if old(self).uif() {
                old(self).cnt()
            } else {
                0
            }),
            final(self).trace().len() == old(self).trace().len() + 1 + (if old(self).uif() {
                0int
            } else {
                old(self).cnt() as int
            }),
            old(self).trace().is_prefix_of(final(self).trace()),
            forall|i: int|
                old(self).trace().len() <= i < final(self).trace().len() ==> ((
                #[trigger] final(self).trace()[i]) matches MemOp::Load { addr, value } && addr
                    == SR_ADDR && ((value & 1 != 0) <==> i == final(self).trace().len() - 1)),
    {
        let s0 = match self.sr.read(&mut self.blk) {
            Ok(v) => v,
            Err(_) => unreached(),
        };
        if s0 & 1 != 0 {
            return;
        }
        loop
            invariant_except_break
                !self.uif(),
                self.cen(),
            invariant
                self.wf(),
                self.cnt() <= old(self).cnt(),
                self.elapsed() == old(self).elapsed() + (old(self).cnt() - self.cnt()),
                old(self).elapsed() + old(self).cnt() <= u64::MAX,
                self.trace().len() == old(self).trace().len() + 1 + (old(self).cnt()
                    - self.cnt()),
                old(self).trace().is_prefix_of(self.trace()),
                forall|i: int|
                    old(self).trace().len() <= i < self.trace().len() ==> ((
                    #[trigger] self.trace()[i]) matches MemOp::Load { addr, value } && addr
                        == SR_ADDR && ((value & 1 != 0) <==> (self.uif() && i == self.trace().len()
                        - 1))),
            ensures
                self.wf(),
                self.uif(),
                self.cnt() == 0,
                !self.cen(),
                self.elapsed() == old(self).elapsed() + old(self).cnt(),
                self.trace().len() == old(self).trace().len() + 1 + old(self).cnt(),
                old(self).trace().is_prefix_of(self.trace()),
                forall|i: int|
                    old(self).trace().len() <= i < self.trace().len() ==> ((
                    #[trigger] self.trace()[i]) matches MemOp::Load { addr, value } && addr
                        == SR_ADDR && ((value & 1 != 0) <==> i == self.trace().len() - 1)),
            decreases self.cnt(),
        {
            self.tick();
            let s = match self.sr.read(&mut self.blk) {
                Ok(v) => v,
                Err(_) => unreached(),
            };
            if s & 1 != 0 {
                proof {
                    assert(self.uif());
                    assert(self.cnt() == 0);
                }
                break ;
            }
        }
    }

    /// Clears the update flag with one volatile store, readying the timer
    /// for the next `start`. Skipping this leaves a stale flag: the next
    /// poll would return at once.
    pub fn acknowledge(&mut self)
        requires
            old(self).wf(),
        ensures
            final(self).wf(),
            !final(self).uif(),
            final(self).cen() == old(self).cen(),
            final(self).cnt() == old(self).cnt(),
            final(self).elapsed() == old(self).elapsed(),
            final(self).trace().len() == old(self).trace().len() + 1,
            old(self).trace().is_prefix_of(final(self).trace()),
            forall|i: int|
                old(self).trace().len() <= i < final(self).trace().len()
                    ==> !is_uif_observation(#[trigger] final(self).trace()[i]),
    {
        let mut fw = FieldWrite::new();
        proof {
            assert(0u32 & !(mask_range(0, 0) >> 0u32) == 0) by (bit_vector);
        }
        match fw.set(&self.sr, SR_UIF, 0) {
            Ok(_) => {},
            Err(_) => {
                return unreached();
            },
        }
        match self.sr.write(&mut self.blk, &fw) {
            Ok(_) => {},
            Err(_) => {
                return unreached();
            },
        }
        proof {
            assert(((0u32 & !mask_range(0, 0)) | (0u32 << 0u32)) & 1 == 0) by (bit_vector);
        }
    }

    /// One blocking wait of `ms` milliseconds: start, poll, acknowledge.
    /// From a clean (acknowledged) timer, returns after exactly `ms`
    /// elapsed ticks — immediately for `ms == 0` — having observed the
    /// expired flag exactly once. From a stale, unacknowledged flag it
    /// returns immediately with zero ticks elapsed (documented behavior);
    /// the flag is acknowledged either way.
    pub fn delay_ms(&mut self, ms: u16)
        requires
            old(self).wf(),
            old(self).elapsed() + ms <= u64::MAX,
        ensures
            final(self).wf(),
            !final(self).uif(),
            final(self).elapsed() == old(self).elapsed() + (if old(self).uif() {
                0
            } else {
                ms as u64
            }),
            !old(self).uif() ==> !final(self).cen(),
            ({
                let t = final(self).trace();
                let n0 = old(self).trace().len();
                exists|i: int|
                    n0 <= i < t.len() && is_uif_observation(#[trigger] t[i]) && (forall|j: int|
                        n0 <= j < t.len() && j != i ==> !is_uif_observation(#[trigger] t[j]))
            }),
    {
        self.start(ms);
        let ghost mid = *self;
        self.poll();
        let ghost post_poll = *self;
        self.acknowledge();
        proof {
            let t = self.trace();
            let n0 = old(self).trace().len();
            let w = post_poll.trace().len() - 1;
            assert(mid.trace().len() <= w < post_poll.trace().len());
            assert((post_poll.trace()[w]) matches MemOp::Load { addr, value } && addr == SR_ADDR
                && value & 1 != 0);
            assert(t[w] == post_poll.trace()[w]);
            assert(is_uif_observation(t[w]));
            assert forall|j: int| n0 <= j < t.len() && j != w implies !is_uif_observation(
                #[trigger] t[j],
            ) by {
                if j < mid.trace().len() {
                    assert(!is_uif_observation(mid.trace()[j]));
                    assert(t[j] == mid.trace()[j]);
                } else if j < post_poll.trace().len() {
                    assert(t[j] == post_poll.trace()[j]);
                } else {
                    assert(!is_uif_observation(t[j]));
                }
            }
        }
    }
}

} // verus!
