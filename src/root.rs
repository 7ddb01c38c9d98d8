//! The virtual root-signature register file and its dirty mask.

use vstd::prelude::*;

verus! {

/// Number of registers in a native root signature.
pub const ROOT_SIGNATURE_SIZE: usize = 64;

/// Whether bit `i` of `mask` is set.
pub open spec fn bit(mask: u64, i: int) -> bool {
    (mask >> (i as u64)) & 1u64 == 1u64
}

pub proof fn lemma_bit_set(m: u64, k: u64, i: u64)
    requires
        k < 64,
        i < 64,
    ensures
        ((m | (1u64 << k)) >> i) & 1u64 == 1u64 <==> ((m >> i) & 1u64 == 1u64 || i == k),
{
    assert(((m | (1u64 << k)) >> i) & 1u64 == 1u64 <==> ((m >> i) & 1u64 == 1u64 || i == k))
        by (bit_vector)
        requires
            k < 64,
            i < 64,
    ;
}

pub proof fn lemma_bit_clear(m: u64, k: u64, i: u64)
    requires
        k < 64,
        i < 64,
    ensures
        ((m & !(1u64 << k)) >> i) & 1u64 == 1u64 <==> ((m >> i) & 1u64 == 1u64 && i != k),
{
    assert(((m & !(1u64 << k)) >> i) & 1u64 == 1u64 <==> ((m >> i) & 1u64 == 1u64 && i != k))
        by (bit_vector)
        requires
            k < 64,
            i < 64,
    ;
}

pub proof fn lemma_bit_full(m: u64, i: u64)
    requires
        i < 64,
        m == !0u64,
    ensures
        (m >> i) & 1u64 == 1u64,
{
    assert((m >> i) & 1u64 == 1u64) by (bit_vector)
        requires
            i < 64,
            m == !0u64,
    ;
}

/// Strongly typed content of one root-signature register.
#[derive(Debug, Clone, Copy, PartialEq, Eq, Structural)]
pub enum RootElement {
    /// An inline 32-bit root constant.
    Constant(u32),
    /// Descriptor table into the SRV/CBV/UAV heap, as an offset from the heap base.
    TableSrvCbvUav(u32),
    /// Descriptor table into the sampler heap, as an offset from the heap base.
    TableSampler(u32),
    /// Nothing was written to the register yet.
    Undefined,
}

/// Virtual storage for the registers of the current root signature, with
/// one dirty bit per register.
#[derive(Debug, Clone, Copy)]
pub struct UserData {
    pub data: [RootElement; ROOT_SIGNATURE_SIZE],
    pub dirty_mask: u64,
}

impl UserData {
    /// Whether register `i` holds a value not yet written to the command list.
    pub open spec fn is_dirty(&self, i: int) -> bool {
        bit(self.dirty_mask, i)
    }

    /// An empty register file: every register undefined, nothing dirty.
    pub fn new() -> (r: UserData)
        ensures
            r.data@.len() == ROOT_SIGNATURE_SIZE,
            forall|i: int| 0 <= i < ROOT_SIGNATURE_SIZE ==> r.data@[i] == RootElement::Undefined,
            r.dirty_mask == 0,
    {
        UserData { data: [RootElement::Undefined; ROOT_SIGNATURE_SIZE], dirty_mask: 0 }
    }

    /// Writes `values` to the consecutive registers starting at `offset`
    /// as root constants and marks each of them dirty.
    pub fn set_constants(&mut self, offset: usize, values: &[u32])
        requires
            offset + values@.len() <= ROOT_SIGNATURE_SIZE,
        ensures
            forall|i: int|
                0 <= i < ROOT_SIGNATURE_SIZE ==> #[trigger] final(self).data@[i] == if offset <= i
                    < offset + values@.len() {
                    RootElement::Constant(values@[i - offset])
                } else {
                    old(self).data@[i]
                },
            forall|i: int|
                0 <= i < ROOT_SIGNATURE_SIZE ==> #[trigger] final(self).is_dirty(i) == (
                old(self).is_dirty(i) || offset <= i < offset + values@.len()),
    {
        let mut j: usize = 0;
        while j < values.len()
            invariant
                offset + values@.len() <= ROOT_SIGNATURE_SIZE,
                0 <= j <= values@.len(),
                forall|i: int|
                    0 <= i < ROOT_SIGNATURE_SIZE ==> #[trigger] self.data@[i] == if offset <= i
                        < offset + j {
                        RootElement::Constant(values@[i - offset])
                    } else {
                        old(self).data@[i]
                    },
                forall|i: int|
                    0 <= i < ROOT_SIGNATURE_SIZE ==> #[trigger] self.is_dirty(i) == (old(
                        self,
                    ).is_dirty(i) || offset <= i < offset + j),
            decreases values@.len() - j,
        {
            let k = offset + j;
            let ghost prev = *self;
            self.data[k] = RootElement::Constant(values[j]);
            self.mark_dirty(k);
            assert forall|i: int| 0 <= i < ROOT_SIGNATURE_SIZE implies #[trigger] self.is_dirty(i)
                == (old(self).is_dirty(i) || offset <= i < offset + j + 1) by {
                assert(prev.is_dirty(i) == (old(self).is_dirty(i) || offset <= i < offset + j));
            }
            j = j + 1;
        }
    }

    /// Points register `offset` at an SRV/CBV/UAV descriptor table and marks it dirty.
    pub fn set_srv_cbv_uav_table(&mut self, offset: usize, table_start: u32)
        requires
            offset < ROOT_SIGNATURE_SIZE,
        ensures
            final(self).data@ == old(self).data@.update(
                offset as int,
                RootElement::TableSrvCbvUav(table_start),
            ),
            forall|i: int|
                0 <= i < ROOT_SIGNATURE_SIZE ==> #[trigger] final(self).is_dirty(i) == (
                old(self).is_dirty(i) || i == offset),
    {
        self.data[offset] = RootElement::TableSrvCbvUav(table_start);
        self.mark_dirty(offset);
    }

    /// Points register `offset` at a sampler descriptor table and marks it dirty.
    pub fn set_sampler_table(&mut self, offset: usize, table_start: u32)
        requires
            offset < ROOT_SIGNATURE_SIZE,
        ensures
            final(self).data@ == old(self).data@.update(
                offset as int,
                RootElement::TableSampler(table_start),
            ),
            forall|i: int|
                0 <= i < ROOT_SIGNATURE_SIZE ==> #[trigger] final(self).is_dirty(i) == (
                old(self).is_dirty(i) || i == offset),
    {
        self.data[offset] = RootElement::TableSampler(table_start);
        self.mark_dirty(offset);
    }

    fn mark_dirty(&mut self, k: usize)
        requires
            k < ROOT_SIGNATURE_SIZE,
        ensures
            final(self).data == old(self).data,
            forall|i: int|
                0 <= i < ROOT_SIGNATURE_SIZE ==> #[trigger] final(self).is_dirty(i) == (
                old(self).is_dirty(i) || i == k),
    {
        let ghost m = self.dirty_mask;
        self.dirty_mask = self.dirty_mask | (1u64 << (k as u64));
        proof {
            assert forall|i: int| 0 <= i < ROOT_SIGNATURE_SIZE implies #[trigger] self.is_dirty(i)
                == (bit(m, i) || i == k) by {
                lemma_bit_set(m, k as u64, i as u64);
            }
        }
    }

    /// Clears the dirty bit of register `i`.
    pub fn clear_dirty(&mut self, i: usize)
        requires
            i < ROOT_SIGNATURE_SIZE,
        ensures
            final(self).data == old(self).data,
            forall|j: int|
                0 <= j < ROOT_SIGNATURE_SIZE ==> #[trigger] final(self).is_dirty(j) == (
                old(self).is_dirty(j) && j != i),
    {
        let ghost m = self.dirty_mask;
        self.dirty_mask = self.dirty_mask & !(1u64 << (i as u64));
        proof {
            assert forall|j: int| 0 <= j < ROOT_SIGNATURE_SIZE implies #[trigger] self.is_dirty(j)
                == (bit(m, j) && j != i) by {
                lemma_bit_clear(m, i as u64, j as u64);
            }
        }
    }

    /// Marks every register dirty, as a change of root signature requires.
    pub fn mark_all_dirty(&mut self)
        ensures
            final(self).data == old(self).data,
            forall|i: int| 0 <= i < ROOT_SIGNATURE_SIZE ==> #[trigger] final(self).is_dirty(i),
    {
        self.dirty_mask = !0u64;
        proof {
            assert forall|i: int| 0 <= i < ROOT_SIGNATURE_SIZE implies #[trigger] self.is_dirty(i) by {
                lemma_bit_full(self.dirty_mask, i as u64);
            }
        }
    }
}

/// Exact division: `a / b` where `b` divides `a`.
pub fn div(a: u32, b: u32) -> (r: u32)
    requires
        b != 0,
        a % b == 0,
    ensures
        r as int * b as int == a as int,
        r == a / b,
{
    let r = a / b;
    proof {
        vstd::arithmetic::div_mod::lemma_fundamental_div_mod(a as int, b as int);
        assert(r as int * b as int == b as int * r as int) by (nonlinear_arith);
    }
    r
}

} // verus!
