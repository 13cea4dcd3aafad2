//! Registers as named bit-fields with per-field permissions and
//! reserved-bit protection.
//!
//! A [`Register`] is a word offset within a [`RegisterBlock`], an access
//! permission for the whole register, and a list of declared [`Field`]s
//! (contiguous bit-ranges, each with its own permission). Bits covered by
//! no declared field are reserved and can never be written: every write
//! goes through a [`FieldWrite`] descriptor that stages assignments to
//! declared, writable fields only, and the `write`/`modify` operations
//! reject anything else with [`InvalidFieldError`] before a single bus
//! transaction happens.

use vstd::prelude::*;

use crate::InvalidFieldError;
use crate::mmio::MemOp;
use crate::mmio::RegisterBlock;

verus! {

/// The access permission of a register or of one of its fields.
#[derive(Clone, Copy, Debug, PartialEq, Eq, Structural)]
pub enum Access {
    ReadOnly,
    WriteOnly,
    ReadWrite,
}

impl Access {
    pub open spec fn readable(self) -> bool {
        self is ReadOnly || self is ReadWrite
    }

    pub open spec fn writable(self) -> bool {
        self is WriteOnly || self is ReadWrite
    }

    pub fn is_readable(&self) -> (b: bool)
        ensures
            b == self.readable(),
    {
        *self == Access::ReadOnly || *self == Access::ReadWrite
    }

    pub fn is_writable(&self) -> (b: bool)
        ensures
            b == self.writable(),
    {
        *self == Access::WriteOnly || *self == Access::ReadWrite
    }
}

/// The word with exactly the bits `lo..=hi` set.
pub open spec fn mask_range(lo: u32, hi: u32) -> u32
    recommends
        lo <= hi < 32,
{
    (u32::MAX >> ((31 - hi) as u32)) & (u32::MAX << lo)
}

/// Computes [`mask_range`].
pub fn mask_range_ex(lo: u32, hi: u32) -> (m: u32)
    requires
        lo <= hi,
        hi < 32,
    ensures
        m == mask_range(lo, hi),
{
    (u32::MAX >> (31 - hi)) & (u32::MAX << lo)
}

/// A contiguous bit-range `lo..=hi` within a register, with its own
/// permission, independent of sibling fields.
#[derive(Clone, Copy, Debug, PartialEq, Eq, Structural)]
pub struct Field {
    pub lo: u32,
    pub hi: u32,
    pub access: Access,
}

impl Field {
    pub open spec fn wf(self) -> bool {
        self.lo <= self.hi && self.hi < 32
    }

    /// The bits this field occupies.
    pub open spec fn mask(self) -> u32 {
        mask_range(self.lo, self.hi)
    }

    /// `v`, as a field value, stays within the field's bit-width.
    pub open spec fn fits(self, v: u32) -> bool {
        v & !(self.mask() >> self.lo) == 0
    }

    /// Computes the field's mask.
    pub fn mask_ex(&self) -> (m: u32)
        requires
            self.wf(),
        ensures
            m == self.mask(),
    {
        mask_range_ex(self.lo, self.hi)
    }

    /// Extracts this field's value from a raw register word.
    pub fn get(&self, raw: u32) -> (v: u32)
        requires
            self.wf(),
        ensures
            v == (raw & self.mask()) >> self.lo,
    {
        (raw & self.mask_ex()) >> self.lo
    }
}

/// The union of the masks of all fields in the list.
pub open spec fn union_masks(fields: Seq<Field>) -> u32
    decreases fields.len(),
{
    if fields.len() == 0 {
        0u32
    } else {
        union_masks(fields.drop_last()) | fields.last().mask()
    }
}

/// The union of the masks of the writable fields in the list.
pub open spec fn writable_masks(fields: Seq<Field>) -> u32
    decreases fields.len(),
{
    if fields.len() == 0 {
        0u32
    } else {
        writable_masks(fields.drop_last()) | (if fields.last().access.writable() {
            fields.last().mask()
        } else {
            0u32
        })
    }
}

/// A field list is valid when every field is in range and no two fields
/// overlap.
pub open spec fn fields_valid(fields: Seq<Field>) -> bool {
    &&& forall|i: int| 0 <= i < fields.len() ==> (#[trigger] fields[i]).wf()
    &&& forall|i: int, j: int|
        0 <= i < j < fields.len() ==> #[trigger] fields[i].mask() & #[trigger] fields[j].mask()
            == 0
}

proof fn lemma_bv_in_union(m: u32, u: u32)
    by (bit_vector)
    ensures
        m & !(u | m) == 0,
{
}

proof fn lemma_bv_still_in_union(x: u32, u: u32, m: u32)
    by (bit_vector)
    requires
        x & !u == 0,
    ensures
        x & !(u | m) == 0,
{
}

proof fn lemma_bv_apart_from_union(x: u32, m: u32, u: u32)
    by (bit_vector)
    requires
        x & !u == 0,
        m & u == 0,
    ensures
        x & m == 0,
{
}

proof fn lemma_bv_or_keeps_apart(m: u32, a: u32, b: u32)
    by (bit_vector)
    requires
        m & a == 0,
        m & b == 0,
    ensures
        m & (a | b) == 0,
{
}

/// Every declared field's bits lie inside the union of the declared masks.
pub proof fn lemma_field_in_union(fields: Seq<Field>, k: int)
    requires
        0 <= k < fields.len(),
    ensures
        fields[k].mask() & !union_masks(fields) == 0,
    decreases fields.len(),
{
    if k == fields.len() - 1 {
        lemma_bv_in_union(fields[k].mask(), union_masks(fields.drop_last()));
    } else {
        lemma_field_in_union(fields.drop_last(), k);
        lemma_bv_still_in_union(
            fields[k].mask(),
            union_masks(fields.drop_last()),
            fields.last().mask(),
        );
    }
}

/// Every writable field's bits lie inside the union of the writable masks.
pub proof fn lemma_writable_field_in_union(fields: Seq<Field>, k: int)
    requires
        0 <= k < fields.len(),
        fields[k].access.writable(),
    ensures
        fields[k].mask() & !writable_masks(fields) == 0,
    decreases fields.len(),
{
    if k == fields.len() - 1 {
        lemma_bv_in_union(fields[k].mask(), writable_masks(fields.drop_last()));
    } else {
        lemma_writable_field_in_union(fields.drop_last(), k);
        lemma_bv_still_in_union(
            fields[k].mask(),
            writable_masks(fields.drop_last()),
            if fields.last().access.writable() {
                fields.last().mask()
            } else {
                0u32
            },
        );
    }
}

/// The writable masks lie inside the declared masks.
pub proof fn lemma_writable_in_declared(fields: Seq<Field>)
    ensures
        writable_masks(fields) & !union_masks(fields) == 0,
    decreases fields.len(),
{
    if fields.len() == 0 {
        assert(0u32 & !0u32 == 0) by (bit_vector);
    } else {
        lemma_writable_in_declared(fields.drop_last());
        let w = writable_masks(fields.drop_last());
        let u = union_masks(fields.drop_last());
        let m = fields.last().mask();
        if fields.last().access.writable() {
            assert((w | m) & !(u | m) == 0 ==> true);
            assert(w & !u == 0 ==> (w | m) & !(u | m) == 0) by (bit_vector);
        } else {
            lemma_bv_still_in_union(w, u, m);
            assert(w & !(u | m) == 0 ==> (w | 0u32) & !(u | m) == 0) by (bit_vector);
        }
    }
}

/// A mask apart from every field of the list is apart from their union.
pub proof fn lemma_apart_from_all_fields(fields: Seq<Field>, m: u32)
    requires
        forall|j: int| 0 <= j < fields.len() ==> m & (#[trigger] fields[j]).mask() == 0,
    ensures
        m & union_masks(fields) == 0,
    decreases fields.len(),
{
    if fields.len() == 0 {
        assert(m & 0u32 == 0) by (bit_vector);
    } else {
        lemma_apart_from_all_fields(fields.drop_last(), m);
        lemma_bv_or_keeps_apart(m, union_masks(fields.drop_last()), fields.last().mask());
    }
}

/// A register: a word offset within its block, a register-wide permission,
/// and the declared fields. `decl` and `wmask` cache the union of all
/// field masks and of the writable field masks.
pub struct Register {
    index: usize,
    access: Access,
    fields: Vec<Field>,
    decl: u32,
    wmask: u32,
}

impl Register {
    /// The word offset of this register within its block.
    pub closed spec fn index(self) -> usize {
        self.index
    }

    /// The register-wide access permission.
    pub closed spec fn access(self) -> Access {
        self.access
    }

    /// The declared fields.
    pub closed spec fn fields(self) -> Seq<Field> {
        self.fields@
    }

    /// The bits covered by some declared field.
    pub closed spec fn declared_mask(self) -> u32 {
        self.decl
    }

    /// The bits covered by some declared writable field.
    pub closed spec fn writable_mask(self) -> u32 {
        self.wmask
    }

    /// The reserved bits: covered by no declared field, never written.
    pub open spec fn reserved_mask(self) -> u32 {
        !self.declared_mask()
    }

    pub open spec fn wf(self) -> bool {
        &&& fields_valid(self.fields())
        &&& self.declared_mask() == union_masks(self.fields())
        &&& self.writable_mask() == writable_masks(self.fields())
    }

    /// Validates and builds a register description: fields out of range or
    /// overlapping are rejected, exactly as stated.
    pub fn new(index: usize, access: Access, fields: Vec<Field>) -> (res: Result<
        Register,
        InvalidFieldError,
    >)
        ensures
            res is Ok <==> fields_valid(fields@),
            res is Ok ==> {
                let r = res->Ok_0;
                &&& r.wf()
                &&& r.index() == index
                &&& r.access() == access
                &&& r.fields() == fields@
            },
    {
        let mut i: usize = 0;
        let mut decl: u32 = 0;
        let mut wmask: u32 = 0;
        while i < fields.len()
            invariant
                i <= fields.len(),
                decl == union_masks(fields@.take(i as int)),
                wmask == writable_masks(fields@.take(i as int)),
                forall|a: int| 0 <= a < i ==> (#[trigger] fields@[a]).wf(),
                forall|a: int, b: int|
                    0 <= a < b < i ==> #[trigger] fields@[a].mask() & #[trigger] fields@[b].mask()
                        == 0,
            decreases fields.len() - i,
        {
            let f = fields[i];
            if f.lo > f.hi || f.hi >= 32 {
                return Err(InvalidFieldError);
            }
            let fm = f.mask_ex();
            if fm & decl != 0 {
                proof {
                    // Were the whole list valid, this field would be apart
                    // from every earlier field, hence from their union.
                    if fields_valid(fields@) {
                        assert forall|j: int| 0 <= j < i implies fm & (#[trigger] fields@.take(
                            i as int,
                        )[j]).mask() == 0 by {
                            assert(fields@[j].mask() & fields@[i as int].mask() == 0);
                            let a = fields@[j].mask();
                            let b = fields@[i as int].mask();
                            assert(a & b == 0 ==> b & a == 0) by (bit_vector);
                        }
                        lemma_apart_from_all_fields(fields@.take(i as int), fm);
                        assert(false);
                    }
                }
                return Err(InvalidFieldError);
            }
            proof {
                // The new field is apart from every earlier field.
                assert forall|a: int| 0 <= a < i implies fields@[a].mask() & fm == 0 by {
                    assert(fields@.take(i as int)[a] == fields@[a]);
                    lemma_field_in_union(fields@.take(i as int), a);
                    lemma_bv_apart_from_union(
                        fields@[a].mask(),
                        fm,
                        union_masks(fields@.take(i as int)),
                    );
                }
                assert(fields@.take(i + 1 as int).drop_last() =~= fields@.take(i as int));
                assert(fields@.take(i + 1 as int).last() == fields@[i as int]);
            }
            decl = decl | fm;
            if f.access.is_writable() {
                wmask = wmask | fm;
            } else {
                proof {
                    let w = writable_masks(fields@.take(i as int));
                    assert(w | 0u32 == w) by (bit_vector);
                }
            }
            i = i + 1;
        }
        proof {
            assert(fields@.take(fields@.len() as int) =~= fields@);
        }
        Ok(Register { index, access, fields, decl, wmask })
    }

    /// The declared field at position `k`.
    pub fn field(&self, k: usize) -> (f: Field)
        requires
            k < self.fields().len(),
        ensures
            f == self.fields()[k as int],
    {
        self.fields[k]
    }

    /// The word offset within the block.
    pub fn index_ex(&self) -> (i: usize)
        ensures
            i == self.index(),
    {
        self.index
    }

    /// Reads the register through one volatile load. Legal only if the
    /// register's permission includes read; a permission violation is
    /// rejected before any hardware access occurs.
    pub fn read(&self, blk: &mut RegisterBlock) -> (res: Result<u32, InvalidFieldError>)
        requires
            old(blk).wf(),
            self.index() < old(blk).mem().len(),
        ensures
            final(blk).wf(),
            final(blk).base() == old(blk).base(),
            final(blk).mem() == old(blk).mem(),
            res is Ok <==> self.access().readable(),
            res is Ok ==> res->Ok_0 == read_step(old(blk).mem(), *self).0 && final(blk).mem()
                == read_step(old(blk).mem(), *self).1 && final(blk).trace() == old(
                blk,
            ).trace().push(
                MemOp::Load {
                    addr: old(blk).addr_of(self.index() as int),
                    value: res->Ok_0,
                },
            ),
            res is Err ==> final(blk).trace() == old(blk).trace(),
    {
        if !self.access.is_readable() {
            return Err(InvalidFieldError);
        }
        Ok(blk.load_word(self.index))
    }

    /// Applies the staged field assignments as exactly one volatile store.
    /// Unassigned bits are written as the register's reset value, zero.
    /// Rejected before any hardware access occurs if the register is not
    /// writable or the descriptor strays outside this register's writable
    /// fields; in particular no reserved bit is ever stored.
    pub fn write(&self, blk: &mut RegisterBlock, fw: &FieldWrite) -> (res: Result<
        (),
        InvalidFieldError,
    >)
        requires
            old(blk).wf(),
            self.index() < old(blk).mem().len(),
            self.wf(),
        ensures
            final(blk).wf(),
            final(blk).base() == old(blk).base(),
            res is Ok <==> self.access().writable() && fw.wf_for(*self),
            res is Ok ==> final(blk).mem() == old(blk).mem().update(
                self.index() as int,
                fw.value(),
            ) && final(blk).trace() == old(blk).trace().push(
                MemOp::Store {
                    addr: old(blk).addr_of(self.index() as int),
                    value: fw.value(),
                },
            ) && fw.value() & self.reserved_mask() == 0,
            res is Err ==> final(blk).mem() == old(blk).mem() && final(blk).trace() == old(
                blk,
            ).trace(),
    {
        if !self.access.is_writable() {
            return Err(InvalidFieldError);
        }
        if fw.mask & !self.wmask != 0 || fw.value & !fw.mask != 0 {
            return Err(InvalidFieldError);
        }
        proof {
            lemma_write_stays_off_reserved(*self, *fw);
        }
        blk.store_word(self.index, fw.value);
        Ok(())
    }

    /// Read-modify-write: one volatile load, then one volatile store of the
    /// loaded value with the staged assignments overlaid. Bits outside the
    /// assignments' field ranges are preserved. Legal only on a read-write
    /// register; rejected before any hardware access occurs otherwise.
    pub fn modify(&self, blk: &mut RegisterBlock, fw: &FieldWrite) -> (res: Result<
        (),
        InvalidFieldError,
    >)
        requires
            old(blk).wf(),
            self.index() < old(blk).mem().len(),
            self.wf(),
        ensures
            final(blk).wf(),
            final(blk).base() == old(blk).base(),
            res is Ok <==> self.access() is ReadWrite && fw.wf_for(*self),
            res is Ok ==> {
                let old_v = old(blk).mem()[self.index() as int];
                let new_v = modify_value(old_v, *fw);
                &&& final(blk).mem() == old(blk).mem().update(self.index() as int, new_v)
                &&& final(blk).trace() == old(blk).trace().push(
                    MemOp::Load { addr: old(blk).addr_of(self.index() as int), value: old_v },
                ).push(
                    MemOp::Store { addr: old(blk).addr_of(self.index() as int), value: new_v },
                )
                &&& new_v & !fw.mask() == old_v & !fw.mask()
                &&& new_v & self.reserved_mask() == old_v & self.reserved_mask()
            },
            res is Err ==> final(blk).mem() == old(blk).mem() && final(blk).trace() == old(
                blk,
            ).trace(),
    {
        if !(self.access == Access::ReadWrite) {
            return Err(InvalidFieldError);
        }
        if fw.mask & !self.wmask != 0 || fw.value & !fw.mask != 0 {
            return Err(InvalidFieldError);
        }
        let old_v = blk.load_word(self.index);
        let new_v = (old_v & !fw.mask) | fw.value;
        proof {
            lemma_write_stays_off_reserved(*self, *fw);
            lemma_masked_update_frame(old_v, fw.value(), fw.mask(), self.reserved_mask());
        }
        blk.store_word(self.index, new_v);
        Ok(())
    }
}

/// The value a `modify` stores: the loaded value with the staged
/// assignments overlaid.
pub open spec fn modify_value(old_v: u32, fw: FieldWrite) -> u32 {
    (old_v & !fw.mask()) | fw.value()
}

/// What one register read observes and leaves behind: the current word
/// value, and the memory unchanged.
pub open spec fn read_step(mem: Seq<u32>, r: Register) -> (u32, Seq<u32>)
    recommends
        0 <= r.index() < mem.len(),
{
    (mem[r.index() as int], mem)
}

/// Law: reading is observation only. A read returns the current word and
/// leaves every register word as it was, so re-reading a readable register
/// without an intervening write returns the same value.
pub proof fn lemma_read_idempotent(mem: Seq<u32>, r: Register)
    requires
        0 <= r.index() < mem.len(),
    ensures
        read_step(mem, r).1 == mem,
        read_step(read_step(mem, r).1, r).0 == read_step(mem, r).0,
{
}

/// Law: a masked update never alters bits outside the assignment's mask,
/// never changes a reserved bit, and a full write of such a value never
/// sets a reserved bit at all.
pub proof fn lemma_masked_update_frame(old_v: u32, value: u32, mask: u32, reserved: u32)
    by (bit_vector)
    requires
        value & !mask == 0,
        mask & reserved == 0,
    ensures
        ((old_v & !mask) | value) & !mask == old_v & !mask,
        ((old_v & !mask) | value) & reserved == old_v & reserved,
        value & reserved == 0,
{
}

/// Law: a descriptor staged against a register's writable fields carries
/// no reserved bit, so neither `write` nor `modify` can set one.
pub proof fn lemma_write_stays_off_reserved(r: Register, fw: FieldWrite)
    requires
        r.wf(),
        fw.wf_for(r),
    ensures
        fw.mask() & r.reserved_mask() == 0,
        fw.value() & r.reserved_mask() == 0,
{
    lemma_writable_in_declared(r.fields());
    let m = fw.mask();
    let v = fw.value();
    let w = r.writable_mask();
    let d = r.declared_mask();
    assert(m & !w == 0 && w & !d == 0 && v & !m == 0 ==> m & !d == 0 && v & !d == 0)
        by (bit_vector);
}

/// A staged, in-memory accumulation of field assignments for a single
/// register, applied atomically as one volatile store. Only declared,
/// writable fields can be set; a field value is validated against the
/// field's bit-width.
pub struct FieldWrite {
    value: u32,
    mask: u32,
}

impl FieldWrite {
    /// The raw word the staged assignments compose to (unassigned bits
    /// zero, the reset value).
    pub closed spec fn value(self) -> u32 {
        self.value
    }

    /// The union of the masks of the assigned fields.
    pub closed spec fn mask(self) -> u32 {
        self.mask
    }

    /// The staged assignments touch only writable fields of `r` and carry
    /// no bit outside their own ranges.
    pub open spec fn wf_for(self, r: Register) -> bool {
        self.mask() & !r.writable_mask() == 0 && self.value() & !self.mask() == 0
    }

    /// An empty descriptor: no field assigned yet. Valid for any register.
    pub fn new() -> (w: FieldWrite)
        ensures
            w.value() == 0,
            w.mask() == 0,
            forall|r: Register| w.wf_for(r),
    {
        proof {
            assert(forall|x: u32| 0u32 & x == 0) by (bit_vector);
        }
        FieldWrite { value: 0, mask: 0 }
    }

    /// Stages field `fi` of register `r` to value `v`. Rejected with
    /// [`InvalidFieldError`] — exactly — when `fi` is not a declared field
    /// of `r`, the field is not writable, or `v` exceeds the field's
    /// bit-width.
    pub fn set(&mut self, r: &Register, fi: usize, v: u32) -> (res: Result<
        (),
        InvalidFieldError,
    >)
        requires
            r.wf(),
        ensures
            res is Ok <==> fi < r.fields().len() && r.fields()[fi as int].access.writable()
                && r.fields()[fi as int].fits(v),
            res is Ok ==> {
                let f = r.fields()[fi as int];
                &&& final(self).mask() == old(self).mask() | f.mask()
                &&& final(self).value() == (old(self).value() & !f.mask()) | (v << f.lo)
            },
            res is Err ==> *final(self) == *old(self),
            old(self).wf_for(*r) && res is Ok ==> final(self).wf_for(*r),
    {
        if fi >= self_fields_len(r) {
            return Err(InvalidFieldError);
        }
        let f = r.field(fi);
        if !f.access.is_writable() {
            return Err(InvalidFieldError);
        }
        let fm = f.mask_ex();
        if v & !(fm >> f.lo) != 0 {
            return Err(InvalidFieldError);
        }
        proof {
            if old(self).wf_for(*r) {
                lemma_writable_field_in_union(r.fields(), fi as int);
                let m0 = old(self).mask();
                let v0 = old(self).value();
                let w = r.writable_mask();
                let sh = (v << f.lo) as u32;
                lemma_fits_shift(v, f.lo, f.hi);
                assert(m0 & !w == 0 && fm & !w == 0 && v0 & !m0 == 0 && sh & !fm == 0 ==> (m0
                    | fm) & !w == 0 && (((v0 & !fm) | sh) & !(m0 | fm)) == 0) by (bit_vector);
            }
        }
        self.value = (self.value & !fm) | (v << f.lo);
        self.mask = self.mask | fm;
        Ok(())
    }
}

/// The number of declared fields of `r`.
fn self_fields_len(r: &Register) -> (n: usize)
    ensures
        n == r.fields().len(),
{
    r.fields.len()
}

/// A value that fits a field loses no bit when shifted into place.
proof fn lemma_fits_shift(v: u32, lo: u32, hi: u32)
    by (bit_vector)
    requires
        lo <= hi,
        hi < 32,
        v & !(mask_range(lo, hi) >> lo) == 0,
    ensures
        (v << lo) & !mask_range(lo, hi) == 0,
{
}

} // verus!
