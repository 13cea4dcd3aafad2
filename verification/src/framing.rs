//! The bounded line buffer used by the serial driver's line framing.
//!
//! A [`LineBuffer`] accumulates the bytes of one line, oldest first, in a
//! fixed 32-byte backing store with no dynamic allocation, behind an
//! overflow threshold fixed at construction. A byte arriving at the
//! threshold is rejected per byte and reported as a
//! [`BufferOverflowError`], never silently truncated.

use vstd::prelude::*;
use vstd::pervasive::unreached;

use crate::BufferOverflowError;

verus! {

/// Declares heapless::Vec — the fixed-capacity, allocation-free vector —
/// so it can stand in fields; its contents are named by [`hvec_bytes`].
#[verifier::external_type_specification]
#[verifier::external_body]
#[verifier::reject_recursive_types(T)]
pub struct ExHeaplessVec<T, const N: usize>(heapless::Vec<T, N>);

/// The bytes a backing store holds, oldest first.
pub uninterp spec fn hvec_bytes(v: heapless::Vec<u8, 32>) -> Seq<u8>;

/// Relies on heapless::Vec::new: a fresh vector holds nothing.
#[verifier::external_body]
fn hvec_new() -> (v: heapless::Vec<u8, 32>)
    ensures
        hvec_bytes(v) == Seq::<u8>::empty(),
{
    heapless::Vec::new()
}

/// Relies on heapless::Vec::push: appends the item while the vector is
/// under its capacity of 32, and hands the item back untouched once full.
#[verifier::external_body]
fn hvec_push(v: &mut heapless::Vec<u8, 32>, b: u8) -> (r: Result<(), u8>)
    ensures
        r == (if hvec_bytes(*old(v)).len() < 32 {
            Ok::<(), u8>(())
        } else {
            Err::<(), u8>(b)
        }),
        hvec_bytes(*final(v)) == (if hvec_bytes(*old(v)).len() < 32 {
            hvec_bytes(*old(v)).push(b)
        } else {
            hvec_bytes(*old(v))
        }),
{
    v.push(b)
}

/// Relies on heapless::Vec::clear: afterwards the vector holds nothing.
#[verifier::external_body]
fn hvec_clear(v: &mut heapless::Vec<u8, 32>)
    ensures
        hvec_bytes(*final(v)) == Seq::<u8>::empty(),
{
    v.clear()
}

/// Relies on heapless::Vec::len: the number of items held.
#[verifier::external_body]
fn hvec_len(v: &heapless::Vec<u8, 32>) -> (n: usize)
    ensures
        n == hvec_bytes(*v).len(),
{
    v.len()
}

/// Relies on heapless::Vec's view as a slice: the item at position `i`.
#[verifier::external_body]
fn hvec_get(v: &heapless::Vec<u8, 32>, i: usize) -> (b: u8)
    requires
        i < hvec_bytes(*v).len(),
    ensures
        b == hvec_bytes(*v)[i as int],
{
    v[i]
}

/// One line being received: an ordered byte sequence, cleared at the start
/// of each line, append-only up to the overflow threshold fixed at
/// construction.
pub struct LineBuffer {
    data: heapless::Vec<u8, 32>,
    cap: usize,
}

impl LineBuffer {
    /// The buffered bytes, oldest first.
    pub closed spec fn bytes(self) -> Seq<u8> {
        hvec_bytes(self.data)
    }

    /// The overflow threshold fixed at construction.
    pub closed spec fn capacity(self) -> usize {
        self.cap
    }

    /// The length never exceeds the capacity, which fits the backing
    /// store.
    pub open spec fn wf(self) -> bool {
        self.bytes().len() <= self.capacity() && self.capacity() <= 32
    }

    /// A fresh, empty line buffer with overflow threshold `capacity`,
    /// which must fit the 32-byte backing store.
    pub fn new(capacity: usize) -> (b: LineBuffer)
        requires
            capacity <= 32,
        ensures
            b.wf(),
            b.bytes() == Seq::<u8>::empty(),
            b.capacity() == capacity,
    {
        LineBuffer { data: hvec_new(), cap: capacity }
    }

    /// The number of bytes buffered so far.
    pub fn len(&self) -> (n: usize)
        ensures
            n == self.bytes().len(),
    {
        hvec_len(&self.data)
    }

    /// The overflow threshold.
    pub fn capacity_ex(&self) -> (c: usize)
        ensures
            c == self.capacity(),
    {
        self.cap
    }

    /// Appends one byte. A byte arriving with the buffer at capacity is
    /// rejected and reported — exactly then — and the buffer is left as it
    /// was; nothing is silently truncated.
    pub fn push_byte(&mut self, b: u8) -> (r: Result<(), BufferOverflowError>)
        requires
            old(self).wf(),
        ensures
            final(self).wf(),
            final(self).capacity() == old(self).capacity(),
            r is Ok <==> old(self).bytes().len() < old(self).capacity(),
            r is Ok ==> final(self).bytes() == old(self).bytes().push(b),
            r is Err ==> final(self).bytes() == old(self).bytes() && r == Err::<
                (),
                BufferOverflowError,
            >(BufferOverflowError { byte: b }),
    {
        let n = hvec_len(&self.data);
        if n < self.cap {
            match hvec_push(&mut self.data, b) {
                Ok(_) => Ok(()),
                Err(_) => unreached(),
            }
        } else {
            Err(BufferOverflowError { byte: b })
        }
    }

    /// Empties the buffer, readying it for the next line.
    pub fn clear(&mut self)
        requires
            old(self).wf(),
        ensures
            final(self).wf(),
            final(self).capacity() == old(self).capacity(),
            final(self).bytes() == Seq::<u8>::empty(),
    {
        hvec_clear(&mut self.data);
    }

    /// The byte at position `i`, oldest first.
    pub fn byte_at(&self, i: usize) -> (b: u8)
        requires
            i < self.bytes().len(),
        ensures
            b == self.bytes()[i as int],
    {
        hvec_get(&self.data, i)
    }

    /// All buffered bytes, oldest first.
    pub fn contents(&self) -> (out: Vec<u8>)
        ensures
            out@ == self.bytes(),
    {
        let n = hvec_len(&self.data);
        let mut out: Vec<u8> = Vec::new();
        let mut i: usize = 0;
        while i < n
            invariant
                i <= n,
                n == self.bytes().len(),
                out@ =~= self.bytes().take(i as int),
            decreases n - i,
        {
            out.push(hvec_get(&self.data, i));
            i = i + 1;
        }
        proof {
            assert(self.bytes().take(n as int) =~= self.bytes());
        }
        out
    }
}

} // verus!
