//! Trusted interface to `fixedbitset::FixedBitSet`, the packed bit array that
//! backs the grid. Each wrapper's contract states, over the abstract bit
//! sequence `bits_of`, what the underlying method does.

use vstd::prelude::*;
use fixedbitset::FixedBitSet;

verus! {

#[verifier::external_type_specification]
#[verifier::external_body]
pub struct ExFixedBitSet(FixedBitSet);

/// The contents of a `FixedBitSet`: one `bool` per bit, in bit-index order,
/// with length equal to the set's capacity in bits.
pub uninterp spec fn bits_of(s: FixedBitSet) -> Seq<bool>;

/// Relies on `FixedBitSet::with_capacity`: a set with exactly `bits` bits,
/// all initially clear.
#[verifier::external_body]
pub(crate) fn bitset_with_capacity(bits: usize) -> (r: FixedBitSet)
    ensures
        bits_of(r).len() == bits,
        forall|k: int| 0 <= k < bits ==> !bits_of(r)[k],
{
    FixedBitSet::with_capacity(bits)
}

/// Relies on `FixedBitSet::contains`: reports whether bit `bit` is enabled.
#[verifier::external_body]
pub(crate) fn bitset_get(s: &FixedBitSet, bit: usize) -> (r: bool)
    requires
        bit < bits_of(*s).len(),
    ensures
        r == bits_of(*s)[bit as int],
{
    s.contains(bit)
}

/// Relies on `FixedBitSet::set`: enables or disables bit `bit`, leaving every
/// other bit unchanged. It panics only when `bit` is out of bounds, which the
/// precondition rules out.
#[verifier::external_body]
pub(crate) fn bitset_set(s: &mut FixedBitSet, bit: usize, enabled: bool)
    requires
        bit < bits_of(*old(s)).len(),
    ensures
        bits_of(*final(s)) == bits_of(*old(s)).update(bit as int, enabled),
{
    s.set(bit, enabled)
}

/// Relies on `FixedBitSet`'s `Clone` impl: the copy has the same length and
/// the same blocks, hence the same bits.
#[verifier::external_body]
pub(crate) fn bitset_clone(s: &FixedBitSet) -> (r: FixedBitSet)
    ensures
        bits_of(r) == bits_of(*s),
{
    s.clone()
}

/// Relies on `FixedBitSet::as_slice`: the backing `u32` blocks. The set keeps
/// one block per 32 bits of capacity, and bit `k` is stored in block `k / 32`
/// at position `k % 32`.
#[verifier::external_body]
pub(crate) fn bitset_blocks(s: &FixedBitSet) -> (r: Vec<u32>)
    ensures
        r@.len() == (bits_of(*s).len() + 31) / 32,
        forall|k: int| 0 <= k < bits_of(*s).len() ==>
            (bits_of(*s)[k] == ((r@[k / 32] >> ((k % 32) as u32)) & 1u32 == 1u32)),
{
    s.as_slice().to_vec()
}

} // verus!
