//! Sets of small numbers.
use vstd::prelude::*;

use bit_set::BitSet;

verus! {

#[verifier::external_type_specification]
#[verifier::external_body]
#[verifier::reject_recursive_types(B)]
pub struct ExBitSet<B>(bit_set::BitSet<B>);

/// The numbers that a bit set holds.
pub uninterp spec fn bits(set: BitSet<u32>) -> Set<usize>;

/// An empty set, made by `BitSet::with_capacity` with room for the numbers below `nbits`.
#[verifier::external_body]
pub(crate) fn bits_with_capacity(nbits: usize) -> (set: BitSet<u32>)
    ensures
        bits(set) == Set::<usize>::empty(),
{
    BitSet::with_capacity(nbits)
}

/// Takes all numbers out of the set, by `BitSet::clear`.
#[verifier::external_body]
pub(crate) fn bits_clear(set: &mut BitSet<u32>)
    ensures
        bits(*final(set)) == Set::<usize>::empty(),
{
    set.clear()
}

/// Puts a number into the set, by `BitSet::insert`, and tells whether it was missing. The set grows to
/// hold the number and one place more, so the largest `usize` cannot be put in.
#[verifier::external_body]
pub(crate) fn bits_insert(set: &mut BitSet<u32>, value: usize) -> (missing: bool)
    requires
        value < usize::MAX,
    ensures
        bits(*final(set)) == bits(*old(set)).insert(value),
        missing == !bits(*old(set)).contains(value),
{
    set.insert(value)
}

/// Tells whether the set holds a number, by `BitSet::contains`.
#[verifier::external_body]
pub(crate) fn bits_contains(set: &BitSet<u32>, value: usize) -> (present: bool)
    ensures
        present == bits(*set).contains(value),
{
    set.contains(value)
}

} // verus!
