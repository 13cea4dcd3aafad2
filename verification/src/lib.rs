//! Safety-checked register access for a small microcontroller, with
//! polling-driven drivers built on top of it.
//!
//! The hardware side is held as an owned, simulated register block: every
//! load and store that a real device would see is recorded, in program
//! order, in a ghost trace, so the contracts can state exactly which bus
//! transactions an operation performs and what each one carries.
//!
//! Layers, bottom up:
//! - [`mmio`]: the volatile access primitive over a peripheral's register
//!   block — one trace entry per load or store, never merged or reordered.
//! - [`reg`]: registers as named bit-fields with per-field permissions and
//!   reserved-bit protection.
//! - [`gpio`], [`timer`], [`serial`]: the pin, delay and transceiver
//!   drivers, plus bounded line framing for the serial port.

use vstd::prelude::*;
use vstd::pervasive::unreached;

pub mod mmio;
pub mod reg;
pub mod gpio;
pub mod timer;
pub mod serial;
pub mod framing;

use crate::gpio::GpioPort;
use crate::gpio::PORT_PINS;
use crate::gpio::lemma_step_other_pin;
use crate::timer::Timer;

verus! {

/// A field assignment was rejected before any hardware access happened:
/// the target register or field lacks the needed permission, the field is
/// not declared on the register, the value does not fit the field's width,
/// or the composed value would touch a reserved bit.
#[derive(Clone, Copy, Debug, PartialEq, Eq, Structural)]
pub struct InvalidFieldError;

/// A pin operation named a pin outside the 16-pin port.
#[derive(Clone, Copy, Debug, PartialEq, Eq, Structural)]
pub struct PinOperationError;

/// A received byte arrived while the line buffer was at capacity; the byte
/// was dropped and is reported here. Reception of the line continues.
#[derive(Clone, Copy, Debug, PartialEq, Eq, Structural)]
pub struct BufferOverflowError {
    pub byte: u8,
}

/// Number of pins in the roulette cycle.
pub const CYCLE_PINS: usize = 8;

/// One step of the pin roulette: the next pin of the fixed 8-step cycle
/// comes on, one delay passes, the current pin goes off, and a second
/// equal delay passes. Returns the new current pin. Pins outside the two
/// touched keep their state; exactly `2 * ms` timer ticks elapse.
pub fn roulette_step(port: &mut GpioPort, timer: &mut Timer, curr: usize, ms: u16) -> (next:
    usize)
    requires
        old(port).wf(),
        old(timer).wf(),
        !old(timer).uif(),
        curr < CYCLE_PINS,
        old(timer).elapsed() + 2 * ms <= u64::MAX,
    ensures
        final(port).wf(),
        final(timer).wf(),
        next == (if curr + 1 < CYCLE_PINS {
            curr + 1
        } else {
            0
        }),
        final(port).pin_high(next as u32),
        !final(port).pin_high(curr as u32),
        forall|q: u32|
            q < PORT_PINS && q != curr as u32 && q != next as u32 ==> final(port).pin_high(q)
                == old(port).pin_high(q),
        final(timer).elapsed() == old(timer).elapsed() + 2 * ms,
        !final(timer).uif(),
{
    let next = if curr + 1 > CYCLE_PINS - 1 {
        0
    } else {
        curr + 1
    };
    match port.turn_on(next) {
        Ok(_) => {},
        Err(_) => {
            return unreached();
        },
    }
    let ghost odr0 = old(port).odr_bits();
    let ghost odr1 = port.odr_bits();
    timer.delay_ms(ms);
    match port.turn_off(curr) {
        Ok(_) => {},
        Err(_) => {
            return unreached();
        },
    }
    timer.delay_ms(ms);
    proof {
        lemma_step_other_pin(odr1, next as u32, curr as u32);
        assert forall|q: u32|
            q < PORT_PINS && q != curr as u32 && q != next as u32 implies port.pin_high(q) == old(
            port,
        ).pin_high(q) by {
            lemma_step_other_pin(odr0, q, next as u32);
            lemma_step_other_pin(odr1, q, curr as u32);
        }
    }
    next
}

} // verus!
