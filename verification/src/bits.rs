//! Trusted boundary around `fixedbitset::FixedBitSet`.
//!
//! The bit set is modeled as a sequence of booleans, `bits`; each wrapper
//! states over that sequence what the crate's source shows of the call.

use vstd::prelude::*;
use fixedbitset::FixedBitSet;

verus! {

#[verifier::external_type_specification]
#[verifier::external_body]
pub struct ExFixedBitSet(FixedBitSet);

/// The contents of a bit set: one boolean per bit, in index order.
pub uninterp spec fn bits(b: FixedBitSet) -> Seq<bool>;

/// Relies on `FixedBitSet::with_capacity`: a set of `n` bits, all initially clear.
#[verifier::external_body]
pub(crate) fn bitset_with_capacity(n: usize) -> (r: FixedBitSet)
    ensures
        bits(r) == Seq::new(n as nat, |i: int| false),
{
    FixedBitSet::with_capacity(n)
}

/// Relies on `FixedBitSet::contains`: the value of bit `i` when `i` is in range.
#[verifier::external_body]
pub(crate) fn bitset_get(b: &FixedBitSet, i: usize) -> (r: bool)
    requires
        i < bits(*b).len(),
    ensures
        r == bits(*b)[i as int],
{
    b.contains(i)
}

/// Relies on `FixedBitSet::set`: writes bit `i`; panics only when `i` is out
/// of range, which the precondition rules out.
#[verifier::external_body]
pub(crate) fn bitset_set(b: &mut FixedBitSet, i: usize, v: bool)
    requires
        i < bits(*old(b)).len(),
    ensures
        bits(*final(b)) == bits(*old(b)).update(i as int, v),
{
    b.set(i, v)
}

/// Relies on `Clone for FixedBitSet`: copies the blocks and the length exactly.
#[verifier::external_body]
pub(crate) fn bitset_clone(b: &FixedBitSet) -> (r: FixedBitSet)
    ensures
        bits(r) == bits(*b),
{
    b.clone()
}

} // verus!
