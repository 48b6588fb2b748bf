//! Trusted boundary around `fixedbitset::FixedBitSet`, the bit-packed store
//! that backs the grid.  The contents of a bit set are modeled as a
//! `Seq<bool>` through the uninterpreted function `bitset_bits`; each wrapper
//! states over that model what the corresponding `FixedBitSet` method does.

use vstd::prelude::*;

use fixedbitset::FixedBitSet;

verus! {

#[verifier::external_type_specification]
#[verifier::external_body]
pub struct ExFixedBitSet(FixedBitSet);

/// The bits held by a `FixedBitSet`, index by index, as a boolean sequence
/// whose length is the number of bits the set was created with.
pub uninterp spec fn bitset_bits(b: FixedBitSet) -> Seq<bool>;

/// Relies on `FixedBitSet::with_capacity`: a fresh set with `bits` bits,
/// all initially clear.
#[verifier::external_body]
pub fn bitset_with_capacity(bits: usize) -> (r: FixedBitSet)
    ensures
        bitset_bits(r).len() == bits,
        forall|i: int| 0 <= i < bits ==> !bitset_bits(r)[i],
{
    FixedBitSet::with_capacity(bits)
}

/// Relies on `FixedBitSet::contains`: returns the bit at `bit`; bits outside
/// the capacity are always disabled.
#[verifier::external_body]
pub fn bitset_contains(b: &FixedBitSet, bit: usize) -> (r: bool)
    ensures
        r == ((bit as int) < bitset_bits(*b).len() && bitset_bits(*b)[bit as int]),
{
    b.contains(bit)
}

/// Relies on `FixedBitSet::set`: writes `enabled` at `bit` and changes no
/// other bit.  It panics when `bit` is out of range, so that is required away.
#[verifier::external_body]
pub fn bitset_set(b: &mut FixedBitSet, bit: usize, enabled: bool)
    requires
        (bit as int) < bitset_bits(*old(b)).len(),
    ensures
        bitset_bits(*final(b)) == bitset_bits(*old(b)).update(bit as int, enabled),
{
    b.set(bit, enabled);
}

/// Relies on `FixedBitSet::toggle`: inverts the bit at `bit` and changes no
/// other bit.  It panics when `bit` is out of range, so that is required away.
#[verifier::external_body]
pub fn bitset_toggle(b: &mut FixedBitSet, bit: usize)
    requires
        (bit as int) < bitset_bits(*old(b)).len(),
    ensures
        bitset_bits(*final(b)) == bitset_bits(*old(b)).update(
            bit as int,
            !bitset_bits(*old(b))[bit as int],
        ),
{
    b.toggle(bit);
}

} // verus!
