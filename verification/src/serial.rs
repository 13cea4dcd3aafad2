//! The serial (UART) driver: byte-oriented send and receive by polling
//! ready flags, with bounded line framing layered on top.
//!
//! Receive and transmit are independent one-directional polling
//! operations. The wire is part of the simulated device: `wire_in` holds
//! the bytes the remote end has placed on the line and not yet read,
//! `wire_out` the transcript of every byte transmitted. The receiver
//! latches the next pending byte into the data register and raises the
//! ready flag; reading the data register clears the flag as a hardware
//! side effect. The transmitter's empty flag stays set because the
//! simulated shift register drains a stored byte at once.
//!
//! Line framing: receive into a [`LineBuffer`] until the terminator
//! (`\n`, 0x0A) arrives. A byte arriving with the buffer at capacity is
//! dropped and reported for that byte, but reception continues — the line
//! is not abandoned. On the terminator the accumulated buffer, terminator
//! excluded, is the completed line. The echo reply is the buffered line
//! reversed, then the terminator.

use vstd::prelude::*;
use vstd::pervasive::unreached;

use crate::BufferOverflowError;
use crate::framing::LineBuffer;
use crate::mmio::MemOp;
use crate::mmio::RegisterBlock;
use crate::reg::Access;
use crate::reg::Field;
use crate::reg::FieldWrite;
use crate::reg::Register;
use crate::reg::fields_valid;
use crate::reg::mask_range;

verus! {

/// Base address of the transceiver register block.
pub const USART_BASE: u32 = 0x4001_3800;

/// Word offset of the interrupt-and-status register (byte offset 0x1C).
pub const ISR_IDX: usize = 7;

/// Word offset of the received-data register (byte offset 0x24).
pub const RDR_IDX: usize = 9;

/// Word offset of the transmit-data register (byte offset 0x28).
pub const TDR_IDX: usize = 10;

/// Number of register words in the block.
pub const USART_WORDS: usize = 11;

/// Receive-buffer-not-empty flag (bit 5 of the status register).
pub const RXNE_BIT: u32 = 0x20;

/// Transmit-buffer-empty flag (bit 7 of the status register).
pub const TXE_BIT: u32 = 0x80;

/// The bus address of the status register.
pub const ISR_ADDR: u32 = USART_BASE + 0x1C;

/// The bus address of the received-data register.
pub const RDR_ADDR: u32 = USART_BASE + 0x24;

/// The bus address of the transmit-data register.
pub const TDR_ADDR: u32 = USART_BASE + 0x28;

/// The line terminator.
pub const TERMINATOR: u8 = 0x0A;

/// Whether the terminator occurs somewhere in `s`.
pub open spec fn has_newline(s: Seq<u8>) -> bool {
    exists|i: int| 0 <= i < s.len() && #[trigger] s[i] == 10u8
}

/// The index of the first terminator in `s` (meaningful when one exists).
pub open spec fn nl_index(s: Seq<u8>) -> int
    decreases s.len(),
{
    if s.len() == 0 {
        0
    } else if s[0] == 10u8 {
        0
    } else {
        1 + nl_index(s.drop_first())
    }
}

/// The smaller of two integers.
pub open spec fn int_min(a: int, b: int) -> int {
    if a < b {
        a
    } else {
        b
    }
}

/// `nl_index` really is the first terminator: it is in range, holds the
/// terminator, and nothing before it does.
pub proof fn lemma_nl_index(s: Seq<u8>)
    requires
        has_newline(s),
    ensures
        0 <= nl_index(s) < s.len(),
        s[nl_index(s)] == 10u8,
        forall|j: int| 0 <= j < nl_index(s) ==> s[j] != 10u8,
    decreases s.len(),
{
    if s[0] == 10u8 {
    } else {
        let i = choose|i: int| 0 <= i < s.len() && #[trigger] s[i] == 10u8;
        assert(s.drop_first()[i - 1] == s[i]);
        assert(has_newline(s.drop_first()));
        lemma_nl_index(s.drop_first());
        assert forall|j: int| 0 <= j < nl_index(s) implies s[j] != 10u8 by {
            if j > 0 {
                assert(s[j] == s.drop_first()[j - 1]);
            }
        }
    }
}

/// The serial transceiver driver: exclusive owner of its register block,
/// together with the simulated wire on both directions.
pub struct SerialPort {
    blk: RegisterBlock,
    isr: Register,
    rdr: Register,
    tdr: Register,
    wire_in: Vec<u8>,
    wire_out: Vec<u8>,
}

impl SerialPort {
    pub open spec fn rxne_field() -> Field {
        Field { lo: 5, hi: 5, access: Access::ReadOnly }
    }

    pub open spec fn txe_field() -> Field {
        Field { lo: 7, hi: 7, access: Access::ReadOnly }
    }

    pub open spec fn data_in_field() -> Field {
        Field { lo: 0, hi: 8, access: Access::ReadOnly }
    }

    pub open spec fn data_out_field() -> Field {
        Field { lo: 0, hi: 8, access: Access::ReadWrite }
    }

    /// The bytes on the wire not yet read, next first.
    pub closed spec fn pending(self) -> Seq<u8> {
        self.wire_in@
    }

    /// Every byte transmitted so far, in order.
    pub closed spec fn sent(self) -> Seq<u8> {
        self.wire_out@
    }

    /// Every volatile operation performed on the block, in program order.
    pub closed spec fn trace(self) -> Seq<MemOp> {
        self.blk.trace()
    }

    /// The receive-ready flag, as the status register holds it.
    pub closed spec fn rxne(self) -> bool {
        self.blk.mem()[ISR_IDX as int] & RXNE_BIT != 0
    }

    pub closed spec fn wf(self) -> bool {
        &&& self.blk.wf()
        &&& self.blk.base() == USART_BASE
        &&& self.blk.mem().len() == USART_WORDS
        &&& self.isr.wf()
        &&& self.isr.index() == ISR_IDX
        &&& self.isr.access() == Access::ReadOnly
        &&& self.isr.fields() == seq![Self::rxne_field(), Self::txe_field()]
        &&& self.rdr.wf()
        &&& self.rdr.index() == RDR_IDX
        &&& self.rdr.access() == Access::ReadOnly
        &&& self.rdr.fields() == seq![Self::data_in_field()]
        &&& self.tdr.wf()
        &&& self.tdr.index() == TDR_IDX
        &&& self.tdr.access() == Access::ReadWrite
        &&& self.tdr.fields() == seq![Self::data_out_field()]
        &&& self.rxne() == (self.pending().len() > 0)
        &&& (self.pending().len() > 0 ==> self.blk.mem()[RDR_IDX as int] == self.pending()[0]
            as u32)
        &&& self.blk.mem()[ISR_IDX as int] & TXE_BIT != 0
    }

    /// A fresh transceiver with an idle transmitter, nothing pending on
    /// the wire, and no transactions performed yet.
    pub fn new() -> (s: SerialPort)
        ensures
            s.wf(),
            s.pending() == Seq::<u8>::empty(),
            s.sent() == Seq::<u8>::empty(),
            s.trace() == Seq::<MemOp>::empty(),
    {
        let mut blk = RegisterBlock::new(USART_BASE, USART_WORDS);
        let mut isr_fields: Vec<Field> = Vec::new();
        isr_fields.push(Field { lo: 5, hi: 5, access: Access::ReadOnly });
        isr_fields.push(Field { lo: 7, hi: 7, access: Access::ReadOnly });
        proof {
            assert(isr_fields@ =~= seq![Self::rxne_field(), Self::txe_field()]);
            assert forall|i: int, j: int| 0 <= i < j < isr_fields@.len() implies #[trigger]
                isr_fields@[i].mask() & #[trigger] isr_fields@[j].mask() == 0 by {
                assert(mask_range(5, 5) & mask_range(7, 7) == 0) by (bit_vector);
            }
            assert(fields_valid(isr_fields@));
        }
        let isr = match Register::new(ISR_IDX, Access::ReadOnly, isr_fields) {
            Ok(r) => r,
            Err(_) => unreached(),
        };
        let mut rdr_fields: Vec<Field> = Vec::new();
        rdr_fields.push(Field { lo: 0, hi: 8, access: Access::ReadOnly });
        proof {
            assert(rdr_fields@ =~= seq![Self::data_in_field()]);
            assert(fields_valid(rdr_fields@));
        }
        let rdr = match Register::new(RDR_IDX, Access::ReadOnly, rdr_fields) {
            Ok(r) => r,
            Err(_) => unreached(),
        };
        let mut tdr_fields: Vec<Field> = Vec::new();
        tdr_fields.push(Field { lo: 0, hi: 8, access: Access::ReadWrite });
        proof {
            assert(tdr_fields@ =~= seq![Self::data_out_field()]);
            assert(fields_valid(tdr_fields@));
        }
        let tdr = match Register::new(TDR_IDX, Access::ReadWrite, tdr_fields) {
            Ok(r) => r,
            Err(_) => unreached(),
        };
        // The transmitter comes up idle: the empty flag reads set.
        blk.hw_poke(ISR_IDX, TXE_BIT);
        proof {
            assert(0x80u32 & 0x20u32 == 0 && 0x80u32 & 0x80u32 != 0) by (bit_vector);
        }
        SerialPort { blk, isr, rdr, tdr, wire_in: Vec::new(), wire_out: Vec::new() }
    }

    /// The remote end places one byte on the wire. If the receiver was
    /// idle the byte latches into the data register and the ready flag
    /// rises at once.
    pub fn enqueue_input(&mut self, b: u8)
        requires
            old(self).wf(),
        ensures
            final(self).wf(),
            final(self).pending() == old(self).pending().push(b),
            final(self).sent() == old(self).sent(),
            final(self).trace() == old(self).trace(),
    {
        let was_empty = self.wire_in.len() == 0;
        self.wire_in.push(b);
        if was_empty {
            self.blk.hw_poke(RDR_IDX, b as u32);
            let s = self.blk.hw_peek(ISR_IDX);
            self.blk.hw_poke(ISR_IDX, s | RXNE_BIT);
            proof {
                assert((s | 0x20u32) & 0x20u32 != 0) by (bit_vector);
                assert(s & 0x80u32 != 0 ==> (s | 0x20u32) & 0x80u32 != 0) by (bit_vector);
            }
        }
    }

    /// How many bytes the remote end has placed on the wire and the
    /// driver has not read yet.
    pub fn pending_len(&self) -> (n: usize)
        ensures
            n == self.pending().len(),
    {
        self.wire_in.len()
    }

    /// The transcript of every byte transmitted so far.
    pub fn transcript(&self) -> (out: &Vec<u8>)
        ensures
            out@ == self.sent(),
    {
        &self.wire_out
    }

    /// Receives one byte: busy-waits until the ready flag reads set, then
    /// reads the data register — one volatile load each. Reading clears
    /// the flag as a hardware side effect; the next pending byte, if any,
    /// latches at once.
    pub fn read_byte(&mut self) -> (b: u8)
        requires
            old(self).wf(),
            old(self).pending().len() > 0,
        ensures
            final(self).wf(),
            b == old(self).pending()[0],
            final(self).pending() == old(self).pending().drop_first(),
            final(self).sent() == old(self).sent(),
            final(self).trace().len() == old(self).trace().len() + 2,
            old(self).trace().is_prefix_of(final(self).trace()),
            final(self).trace()[final(self).trace().len() - 2] matches MemOp::Load {
                addr,
                value,
            } && addr == ISR_ADDR && value & RXNE_BIT != 0,
            final(self).trace()[final(self).trace().len() - 1] == (MemOp::Load {
                addr: RDR_ADDR,
                value: b as u32,
            }),
    {
        loop
            invariant_except_break
                *self == *old(self),
            invariant
                old(self).wf(),
                old(self).pending().len() > 0,
            ensures
                self.wf(),
                self.pending() == old(self).pending(),
                self.sent() == old(self).sent(),
                self.blk.mem() == old(self).blk.mem(),
                self.isr == old(self).isr,
                self.rdr == old(self).rdr,
                self.tdr == old(self).tdr,
                self.wire_in == old(self).wire_in,
                self.wire_out == old(self).wire_out,
                self.trace() == old(self).trace().push(
                    MemOp::Load {
                        addr: ISR_ADDR,
                        value: old(self).blk.mem()[ISR_IDX as int],
                    },
                ),
            decreases 1int,
        {
            let s = match self.isr.read(&mut self.blk) {
                Ok(v) => v,
                Err(_) => unreached(),
            };
            if s & RXNE_BIT != 0 {
                break ;
            }
            proof {
                // The ready flag was set: the wire holds a pending byte.
                assert(false);
            }
        }
        let d = match self.rdr.read(&mut self.blk) {
            Ok(v) => v,
            Err(_) => unreached(),
        };
        let b = d as u8;
        // The hardware side of the read: the byte leaves the wire; the
        // next one latches, or the ready flag falls.
        self.wire_in.remove(0);
        if self.wire_in.len() > 0 {
            let nb = self.wire_in[0];
            self.blk.hw_poke(RDR_IDX, nb as u32);
        } else {
            let s2 = self.blk.hw_peek(ISR_IDX);
            self.blk.hw_poke(ISR_IDX, s2 & !RXNE_BIT);
            proof {
                assert((s2 & !0x20u32) & 0x20u32 == 0) by (bit_vector);
                assert(s2 & 0x80u32 != 0 ==> (s2 & !0x20u32) & 0x80u32 != 0) by (bit_vector);
            }
        }
        proof {
            assert(old(self).pending().remove(0) =~= old(self).pending().drop_first());
        }
        b
    }

    /// Transmits one byte: busy-waits until the transmit-empty flag reads
    /// set, then stores the byte to the transmit-data register — one
    /// volatile load and one volatile store.
    pub fn send_byte(&mut self, b: u8)
        requires
            old(self).wf(),
        ensures
            final(self).wf(),
            final(self).sent() == old(self).sent().push(b),
            final(self).pending() == old(self).pending(),
            final(self).trace().len() == old(self).trace().len() + 2,
            old(self).trace().is_prefix_of(final(self).trace()),
            final(self).trace()[final(self).trace().len() - 2] matches MemOp::Load {
                addr,
                value,
            } && addr == ISR_ADDR && value & TXE_BIT != 0,
            final(self).trace()[final(self).trace().len() - 1] == (MemOp::Store {
                addr: TDR_ADDR,
                value: b as u32,
            }),
    {
        loop
            invariant_except_break
                *self == *old(self),
            invariant
                old(self).wf(),
            ensures
                self.wf(),
                self.pending() == old(self).pending(),
                self.sent() == old(self).sent(),
                self.blk.mem() == old(self).blk.mem(),
                self.isr == old(self).isr,
                self.rdr == old(self).rdr,
                self.tdr == old(self).tdr,
                self.wire_in == old(self).wire_in,
                self.wire_out == old(self).wire_out,
                self.trace() == old(self).trace().push(
                    MemOp::Load {
                        addr: ISR_ADDR,
                        value: old(self).blk.mem()[ISR_IDX as int],
                    },
                ),
            decreases 1int,
        {
            let s = match self.isr.read(&mut self.blk) {
                Ok(v) => v,
                Err(_) => unreached(),
            };
            if s & TXE_BIT != 0 {
                break ;
            }
            proof {
                // The transmitter's empty flag stays set.
                assert(false);
            }
        }
        let v = b as u32;
        let mut fw = FieldWrite::new();
        proof {
            assert(v & !(mask_range(0, 8) >> 0u32) == 0) by (bit_vector)
                requires
                    v < 0x100u32,
            ;
        }
        match fw.set(&self.tdr, 0, v) {
            Ok(_) => {},
            Err(_) => {
                return unreached();
            },
        }
        proof {
            assert((0u32 & !mask_range(0, 8)) | (v << 0u32) == v) by (bit_vector);
        }
        match self.tdr.write(&mut self.blk, &fw) {
            Ok(_) => {},
            Err(_) => {
                return unreached();
            },
        }
        // The simulated shift register drains the byte onto the wire at
        // once; the empty flag never fell.
        self.wire_out.push(b);
    }

    /// Transmits a sequence of bytes, in order, one `send_byte` each.
    pub fn send_bytes(&mut self, data: &[u8])
        requires
            old(self).wf(),
        ensures
            final(self).wf(),
            final(self).sent() == old(self).sent() + data@,
            final(self).pending() == old(self).pending(),
    {
        let n = data.len();
        let mut i: usize = 0;
        while i < n
            invariant
                i <= n,
                n == data@.len(),
                self.wf(),
                self.pending() == old(self).pending(),
                self.sent() =~= old(self).sent() + data@.take(i as int),
            decreases n - i,
        {
            self.send_byte(data[i]);
            proof {
                assert((old(self).sent() + data@.take(i as int)).push(data@[i as int]) =~= old(
                    self,
                ).sent() + data@.take(i as int + 1));
            }
            i = i + 1;
        }
        proof {
            assert(data@.take(n as int) =~= data@);
            assert(old(self).sent() + data@ =~= self.sent());
        }
    }

    /// Receives one framed line into `buf`: clears the buffer, then
    /// appends received bytes until the terminator arrives (the terminator
    /// itself is excluded). A byte arriving with the buffer at capacity is
    /// dropped and reported, in arrival order, and reception continues.
    /// Returns the per-byte overflow reports.
    pub fn read_line(&mut self, buf: &mut LineBuffer) -> (errs: Vec<BufferOverflowError>)
        requires
            old(self).wf(),
            old(buf).wf(),
            has_newline(old(self).pending()),
        ensures
            final(self).wf(),
            final(buf).wf(),
            final(buf).capacity() == old(buf).capacity(),
            ({
                let p = old(self).pending();
                let k = nl_index(p);
                let c = old(buf).capacity() as int;
                &&& final(buf).bytes() == p.take(int_min(c, k))
                &&& final(self).pending() == p.skip(k + 1)
                &&& final(self).sent() == old(self).sent()
                &&& errs@.len() == (if k > c {
                    k - c
                } else {
                    0int
                })
                &&& (forall|j: int|
                    0 <= j < errs@.len() ==> (#[trigger] errs@[j]).byte == p[c + j])
            }),
    {
        proof {
            lemma_nl_index(old(self).pending());
        }
        buf.clear();
        let mut errs: Vec<BufferOverflowError> = Vec::new();
        let mut i: usize = 0;
        let ghost p = old(self).pending();
        let ghost k = nl_index(p);
        let ghost c = old(buf).capacity() as int;
        let total = self.wire_in.len();
        loop
            invariant_except_break
                i as int <= k,
                self.pending() == p.skip(i as int),
            invariant
                p.len() == total,
                self.wf(),
                buf.wf(),
                buf.capacity() == old(buf).capacity(),
                p == old(self).pending(),
                k == nl_index(p),
                c == old(buf).capacity() as int,
                0 <= k < p.len(),
                p[k] == 10u8,
                forall|j: int| 0 <= j < k ==> p[j] != 10u8,
                i as int <= k + 1,
                self.sent() == old(self).sent(),
                buf.bytes() == p.take(int_min(c, i as int)),
                errs@.len() == (if i as int > c {
                    i as int - c
                } else {
                    0int
                }),
                forall|j: int| 0 <= j < errs@.len() ==> (#[trigger] errs@[j]).byte == p[c + j],
            ensures
                self.wf(),
                buf.wf(),
                buf.capacity() == old(buf).capacity(),
                self.pending() == p.skip(k + 1),
                self.sent() == old(self).sent(),
                buf.bytes() == p.take(int_min(c, k)),
                errs@.len() == (if k > c {
                    k - c
                } else {
                    0int
                }),
                forall|j: int| 0 <= j < errs@.len() ==> (#[trigger] errs@[j]).byte == p[c + j],
            decreases p.len() - i,
        {
            let b = self.read_byte();
            proof {
                assert(p.skip(i as int)[0] == p[i as int]);
                assert(p.skip(i as int).drop_first() =~= p.skip(i as int + 1));
            }
            if b == TERMINATOR {
                proof {
                    if (i as int) < k {
                        assert(p[i as int] != 10u8);
                    }
                    assert(i as int == k);
                }
                break ;
            }
            proof {
                assert(i as int != k);
            }
            match buf.push_byte(b) {
                Ok(_) => {
                    proof {
                        assert(int_min(c, i as int) == i as int);
                        assert(p.take(i as int).push(p[i as int]) =~= p.take(i as int + 1));
                    }
                },
                Err(e) => {
                    errs.push(e);
                    proof {
                        assert(int_min(c, i as int) == c && int_min(c, i as int + 1) == c);
                    }
                },
            }
            i = i + 1;
        }
        errs
    }

    /// Receives one framed line and echoes it back: transmits the
    /// accumulated line in reverse order, then the terminator. Returns the
    /// per-byte overflow reports of the receive side.
    pub fn echo_line(&mut self, buf: &mut LineBuffer) -> (errs: Vec<BufferOverflowError>)
        requires
            old(self).wf(),
            old(buf).wf(),
            has_newline(old(self).pending()),
        ensures
            final(self).wf(),
            final(buf).wf(),
            final(buf).capacity() == old(buf).capacity(),
            ({
                let p = old(self).pending();
                let k = nl_index(p);
                let c = old(buf).capacity() as int;
                &&& final(buf).bytes() == p.take(int_min(c, k))
                &&& final(self).pending() == p.skip(k + 1)
                &&& final(self).sent() == old(self).sent() + p.take(int_min(c, k)).reverse()
                    + seq![10u8]
                &&& errs@.len() == (if k > c {
                    k - c
                } else {
                    0int
                })
                &&& (forall|j: int|
                    0 <= j < errs@.len() ==> (#[trigger] errs@[j]).byte == p[c + j])
            }),
    {
        let errs = self.read_line(buf);
        let ghost s1 = self.sent();
        let ghost acc = buf.bytes();
        let ghost bsnap = *buf;
        let ghost pend = self.pending();
        let n = buf.len();
        let mut j: usize = 0;
        while j < n
            invariant
                j <= n,
                n == acc.len(),
                *buf == bsnap,
                acc == buf.bytes(),
                buf.wf(),
                self.wf(),
                self.pending() == pend,
                self.sent() =~= s1 + acc.reverse().take(j as int),
            decreases n - j,
        {
            let b = buf.byte_at(n - 1 - j);
            self.send_byte(b);
            proof {
                assert(acc.reverse()[j as int] == acc[n - 1 - j as int]);
                assert((s1 + acc.reverse().take(j as int)).push(acc[n - 1 - j as int]) =~= s1
                    + acc.reverse().take(j as int + 1));
            }
            j = j + 1;
        }
        proof {
            assert(acc.reverse().take(n as int) =~= acc.reverse());
        }
        self.send_byte(TERMINATOR);
        proof {
            assert(self.sent() =~= old(self).sent() + acc.reverse() + seq![10u8]);
        }
        errs
    }
}

} // verus!
