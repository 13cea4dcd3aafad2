//! The GPIO output driver: per-pin on/off through the port's atomic
//! set/reset register.
//!
//! Each logical pin is an index into a 16-bit port. Turning a pin on or
//! off is one volatile store to the set/reset register — never a
//! read-modify-write of the output register — so no intermediate state is
//! observable and operations on distinct pins cannot disturb each other.
//! Bit `i` of a stored word drives pin `i` high; bit `i + 16` drives pin
//! `i` low, with set taking priority when both are named.

use vstd::prelude::*;
use vstd::pervasive::unreached;

use crate::PinOperationError;
use crate::mmio::MemOp;
use crate::mmio::RegisterBlock;
use crate::reg::Access;
use crate::reg::Field;
use crate::reg::FieldWrite;
use crate::reg::Register;
use crate::reg::fields_valid;
use crate::reg::mask_range;

verus! {

/// Base address of the pin-control register block.
pub const GPIO_BASE: u32 = 0x4800_1000;

/// Word offset of the output-data register (byte offset 0x14).
pub const ODR_IDX: usize = 5;

/// Word offset of the set/reset register (byte offset 0x18).
pub const BSRR_IDX: usize = 6;

/// Number of register words in the block.
pub const GPIO_WORDS: usize = 11;

/// Field position of the set half of the set/reset register.
pub const BSRR_SET: usize = 0;

/// Field position of the reset half of the set/reset register.
pub const BSRR_RESET: usize = 1;

/// Number of pins in the port.
pub const PORT_PINS: usize = 16;

/// What the hardware does with a word stored to the set/reset register:
/// the high half clears pins, the low half sets them, and set wins where
/// both name the same pin.
pub open spec fn bsrr_effect(odr: u32, v: u32) -> u32 {
    (odr & !(v >> 16u32)) | (v & 0xFFFFu32)
}

/// One pin command, as staged by the driver.
#[derive(Clone, Copy, Debug, PartialEq, Eq, Structural)]
pub enum PinCommand {
    TurnOn { pin: u32 },
    TurnOff { pin: u32 },
}

impl PinCommand {
    pub open spec fn pin(self) -> u32 {
        match self {
            PinCommand::TurnOn { pin } => pin,
            PinCommand::TurnOff { pin } => pin,
        }
    }

    /// The word the command stores to the set/reset register.
    pub open spec fn word(self) -> u32 {
        match self {
            PinCommand::TurnOn { pin } => 1u32 << pin,
            PinCommand::TurnOff { pin } => (1u32 << pin) << 16u32,
        }
    }

    pub open spec fn wf(self) -> bool {
        self.pin() < 16
    }
}

/// The output-data word after one command.
pub open spec fn apply_command(odr: u32, c: PinCommand) -> u32 {
    bsrr_effect(odr, c.word())
}

/// The output-data word after a whole command sequence, first to last.
pub open spec fn apply_commands(odr: u32, cs: Seq<PinCommand>) -> u32
    decreases cs.len(),
{
    if cs.len() == 0 {
        odr
    } else {
        apply_command(apply_commands(odr, cs.drop_last()), cs.last())
    }
}

/// Whether `pin` reads high in an output-data word.
pub open spec fn pin_of(odr: u32, pin: u32) -> bool {
    odr & (1u32 << pin) != 0
}

pub open spec fn commands_wf(cs: Seq<PinCommand>) -> bool {
    forall|i: int| 0 <= i < cs.len() ==> (#[trigger] cs[i]).wf()
}

/// One set/reset store drives its own pin: bit `p` of the stored word
/// turns pin `p` on, bit `p + 16` turns it off.
pub proof fn lemma_step_same_pin(x: u32, p: u32)
    by (bit_vector)
    requires
        p < 16,
    ensures
        bsrr_effect(x, 1u32 << p) & (1u32 << p) != 0,
        bsrr_effect(x, (1u32 << p) << 16u32) & (1u32 << p) == 0,
{
}

/// One set/reset store aimed at pin `q` leaves any other pin `p` exactly
/// as it was.
pub proof fn lemma_step_other_pin(x: u32, p: u32, q: u32)
    by (bit_vector)
    requires
        p < 16,
        q < 16,
        p != q,
    ensures
        bsrr_effect(x, 1u32 << q) & (1u32 << p) == x & (1u32 << p),
        bsrr_effect(x, (1u32 << q) << 16u32) & (1u32 << p) == x & (1u32 << p),
{
}

/// Law: per-pin independence. A command sequence that never touches `pin`
/// leaves that pin exactly as it was, whatever it does to other pins.
pub proof fn lemma_pin_independence(odr: u32, cs: Seq<PinCommand>, pin: u32)
    requires
        pin < 16,
        commands_wf(cs),
        forall|i: int| 0 <= i < cs.len() ==> (#[trigger] cs[i]).pin() != pin,
    ensures
        pin_of(apply_commands(odr, cs), pin) == pin_of(odr, pin),
    decreases cs.len(),
{
    if cs.len() > 0 {
        lemma_pin_independence(odr, cs.drop_last(), pin);
        let c = cs.last();
        match c {
            PinCommand::TurnOn { pin: q } => {
                lemma_step_other_pin(apply_commands(odr, cs.drop_last()), pin, q);
            },
            PinCommand::TurnOff { pin: q } => {
                lemma_step_other_pin(apply_commands(odr, cs.drop_last()), pin, q);
            },
        }
    }
}

/// Law: the last command that touches a pin decides its final state — on
/// exactly when that command was a turn-on — independent of every command
/// aimed at other pins.
pub proof fn lemma_last_command_wins(odr: u32, cs: Seq<PinCommand>, k: int)
    requires
        commands_wf(cs),
        0 <= k < cs.len(),
        forall|j: int| k < j < cs.len() ==> (#[trigger] cs[j]).pin() != cs[k].pin(),
    ensures
        pin_of(apply_commands(odr, cs), cs[k].pin()) == (cs[k] is TurnOn),
    decreases cs.len(),
{
    let p = cs[k].pin();
    if k == cs.len() - 1 {
        match cs[k] {
            PinCommand::TurnOn { pin: q } => {
                lemma_step_same_pin(apply_commands(odr, cs.drop_last()), q);
            },
            PinCommand::TurnOff { pin: q } => {
                lemma_step_same_pin(apply_commands(odr, cs.drop_last()), q);
            },
        }
    } else {
        lemma_last_command_wins(odr, cs.drop_last(), k);
        assert(cs.drop_last()[k] == cs[k]);
        let c = cs.last();
        match c {
            PinCommand::TurnOn { pin: q } => {
                lemma_step_other_pin(apply_commands(odr, cs.drop_last()), p, q);
            },
            PinCommand::TurnOff { pin: q } => {
                lemma_step_other_pin(apply_commands(odr, cs.drop_last()), p, q);
            },
        }
    }
}

/// The GPIO output driver: exclusive owner of the pin-control register
/// block.
pub struct GpioPort {
    blk: RegisterBlock,
    bsrr: Register,
    odr: Register,
}

impl GpioPort {
    /// The set half of the set/reset register (drives pins high).
    pub open spec fn set_field() -> Field {
        Field { lo: 0, hi: 15, access: Access::WriteOnly }
    }

    /// The reset half of the set/reset register (drives pins low).
    pub open spec fn reset_field() -> Field {
        Field { lo: 16, hi: 31, access: Access::WriteOnly }
    }

    /// The output-data field (one bit per pin).
    pub open spec fn odr_field() -> Field {
        Field { lo: 0, hi: 15, access: Access::ReadWrite }
    }

    /// The current output-data word: bit `i` is pin `i`'s state.
    pub closed spec fn odr_bits(self) -> u32 {
        self.blk.mem()[ODR_IDX as int]
    }

    /// Every volatile operation performed on the block, in program order.
    pub closed spec fn trace(self) -> Seq<MemOp> {
        self.blk.trace()
    }

    /// The bus address of the set/reset register.
    pub open spec fn bsrr_addr(self) -> u32 {
        (GPIO_BASE + 4 * BSRR_IDX) as u32
    }

    /// Whether `pin` is currently driven high.
    pub open spec fn pin_high(self, pin: u32) -> bool {
        pin_of(self.odr_bits(), pin)
    }

    pub closed spec fn wf(self) -> bool {
        &&& self.blk.wf()
        &&& self.blk.base() == GPIO_BASE
        &&& self.blk.mem().len() == GPIO_WORDS
        &&& self.bsrr.wf()
        &&& self.bsrr.index() == BSRR_IDX
        &&& self.bsrr.access() == Access::WriteOnly
        &&& self.bsrr.fields() == seq![Self::set_field(), Self::reset_field()]
        &&& self.odr.wf()
        &&& self.odr.index() == ODR_IDX
        &&& self.odr.access() == Access::ReadWrite
        &&& self.odr.fields() == seq![Self::odr_field()]
        &&& self.odr_bits() & 0xFFFF_0000u32 == 0
    }

    /// A fresh port with every pin low and no transactions performed yet,
    /// as the board-init collaborator hands it over.
    pub fn new() -> (g: GpioPort)
        ensures
            g.wf(),
            g.odr_bits() == 0,
            g.trace() =~= Seq::<MemOp>::empty(),
    {
        let blk = RegisterBlock::new(GPIO_BASE, GPIO_WORDS);
        let mut bsrr_fields: Vec<Field> = Vec::new();
        bsrr_fields.push(Field { lo: 0, hi: 15, access: Access::WriteOnly });
        bsrr_fields.push(Field { lo: 16, hi: 31, access: Access::WriteOnly });
        proof {
            assert(bsrr_fields@ =~= seq![Self::set_field(), Self::reset_field()]);
            assert forall|i: int, j: int| 0 <= i < j < bsrr_fields@.len() implies #[trigger]
                bsrr_fields@[i].mask() & #[trigger] bsrr_fields@[j].mask() == 0 by {
                assert(mask_range(0, 15) & mask_range(16, 31) == 0) by (bit_vector);
            }
            assert(fields_valid(bsrr_fields@));
        }
        let bsrr = match Register::new(BSRR_IDX, Access::WriteOnly, bsrr_fields) {
            Ok(r) => r,
            Err(_) => unreached(),
        };
        let mut odr_fields: Vec<Field> = Vec::new();
        odr_fields.push(Field { lo: 0, hi: 15, access: Access::ReadWrite });
        proof {
            assert(odr_fields@ =~= seq![Self::odr_field()]);
            assert(fields_valid(odr_fields@));
        }
        let odr = match Register::new(ODR_IDX, Access::ReadWrite, odr_fields) {
            Ok(r) => r,
            Err(_) => unreached(),
        };
        let g = GpioPort { blk, bsrr, odr };
        proof {
            assert(g.odr_bits() == 0);
            assert(0u32 & 0xFFFF_0000u32 == 0) by (bit_vector);
        }
        g
    }

    /// Stages the given half of the set/reset register to `bits` and
    /// applies it as one volatile store; the hardware reacts by updating
    /// the output-data register.
    fn write_bsrr(&mut self, fi: usize, bits: u32) -> (w: u32)
        requires
            old(self).wf(),
            fi == BSRR_SET || fi == BSRR_RESET,
            bits < 0x10000,
        ensures
            final(self).wf(),
            w == if fi == BSRR_SET {
                bits
            } else {
                bits << 16u32
            },
            final(self).odr_bits() == bsrr_effect(old(self).odr_bits(), w),
            final(self).trace() == old(self).trace().push(
                MemOp::Store { addr: old(self).bsrr_addr(), value: w },
            ),
    {
        let mut fw = FieldWrite::new();
        proof {
            assert(mask_range(0, 15) >> 0u32 == 0xFFFFu32 && mask_range(16, 31) >> 16u32
                == 0xFFFFu32) by (bit_vector);
            assert(bits & !0xFFFFu32 == 0) by (bit_vector)
                requires
                    bits < 0x10000u32,
            ;
            assert(self.bsrr.fields()[fi as int].fits(bits));
        }
        let res = fw.set(&self.bsrr, fi, bits);
        match res {
            Ok(_) => {},
            Err(_) => {
                return unreached();
            },
        }
        let w: u32;
        if fi == BSRR_SET {
            w = bits;
            proof {
                assert((0u32 & !mask_range(0, 15)) | (bits << 0u32) == bits) by (bit_vector);
            }
        } else {
            w = bits << 16;
            proof {
                assert((0u32 & !mask_range(16, 31)) | (bits << 16u32) == bits << 16u32) by (
                bit_vector);
            }
        }
        let wres = self.bsrr.write(&mut self.blk, &fw);
        match wres {
            Ok(_) => {},
            Err(_) => {
                return unreached();
            },
        }
        // The peripheral's reaction: the stored word sets and clears the
        // output-data bits in one step.
        let odr_now = self.blk.hw_peek(ODR_IDX);
        let new_odr = (odr_now & !(w >> 16)) | (w & 0xFFFF);
        proof {
            assert(((odr_now & !(w >> 16u32)) | (w & 0xFFFFu32)) & 0xFFFF_0000u32 == 0) by (
            bit_vector)
                requires
                    odr_now & 0xFFFF_0000u32 == 0,
            ;
        }
        self.blk.hw_poke(ODR_IDX, new_odr);
        w
    }

    /// Drives `pin` high with one store of bit `pin` to the set/reset
    /// register. Every other pin keeps its state. A pin outside the port
    /// is rejected before any hardware access occurs.
    pub fn turn_on(&mut self, pin: usize) -> (res: Result<(), PinOperationError>)
        requires
            old(self).wf(),
        ensures
            final(self).wf(),
            res is Ok <==> pin < PORT_PINS,
            res is Ok ==> final(self).odr_bits() == apply_command(
                old(self).odr_bits(),
                PinCommand::TurnOn { pin: pin as u32 },
            ) && final(self).trace() == old(self).trace().push(
                MemOp::Store { addr: old(self).bsrr_addr(), value: 1u32 << (pin as u32) },
            ) && final(self).pin_high(pin as u32),
            res is Err ==> final(self).odr_bits() == old(self).odr_bits() && final(self).trace()
                == old(self).trace(),
    {
        if pin >= PORT_PINS {
            return Err(PinOperationError);
        }
        let p = pin as u32;
        proof {
            assert(1u32 << p < 0x10000) by (bit_vector)
                requires
                    p < 16u32,
            ;
        }
        self.write_bsrr(BSRR_SET, 1u32 << p);
        proof {
            lemma_step_same_pin(old(self).odr_bits(), p);
        }
        Ok(())
    }

    /// Drives `pin` low with one store of bit `pin + 16` to the set/reset
    /// register. Every other pin keeps its state. A pin outside the port
    /// is rejected before any hardware access occurs.
    pub fn turn_off(&mut self, pin: usize) -> (res: Result<(), PinOperationError>)
        requires
            old(self).wf(),
        ensures
            final(self).wf(),
            res is Ok <==> pin < PORT_PINS,
            res is Ok ==> final(self).odr_bits() == apply_command(
                old(self).odr_bits(),
                PinCommand::TurnOff { pin: pin as u32 },
            ) && final(self).trace() == old(self).trace().push(
                MemOp::Store { addr: old(self).bsrr_addr(), value: (1u32 << (pin as u32)) << 16u32 },
            ) && !final(self).pin_high(pin as u32),
            res is Err ==> final(self).odr_bits() == old(self).odr_bits() && final(self).trace()
                == old(self).trace(),
    {
        if pin >= PORT_PINS {
            return Err(PinOperationError);
        }
        let p = pin as u32;
        proof {
            assert(1u32 << p < 0x10000) by (bit_vector)
                requires
                    p < 16u32,
            ;
        }
        self.write_bsrr(BSRR_RESET, 1u32 << p);
        proof {
            lemma_step_same_pin(old(self).odr_bits(), p);
        }
        Ok(())
    }

    /// Reads the output-data register through one volatile load: the
    /// current state of all 16 pins, observation only.
    pub fn read_odr(&mut self) -> (v: u32)
        requires
            old(self).wf(),
        ensures
            final(self).wf(),
            v == old(self).odr_bits(),
            final(self).odr_bits() == old(self).odr_bits(),
            final(self).trace() == old(self).trace().push(
                MemOp::Load { addr: (GPIO_BASE + 4 * ODR_IDX) as u32, value: v },
            ),
    {
        match self.odr.read(&mut self.blk) {
            Ok(v) => v,
            Err(_) => unreached(),
        }
    }
}

} // verus!
