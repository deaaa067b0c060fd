//! Sets of small integers, kept as bits.
//!
//! The set itself is `bit_set::BitSet`. Nothing in this file is proved: each
//! function states what the `bit_set` crate does.

use bit_set::BitSet;
use vstd::prelude::*;

verus! {

/// `bit_set::BitSet`: the set, of which the functions below say what it
/// holds.
#[verifier::external_type_specification]
#[verifier::external_body]
#[verifier::reject_recursive_types(B)]
pub struct ExBitSet<B>(BitSet<B>);

/// The integers that a set holds.
pub uninterp spec fn bits(set: BitSet) -> Set<usize>;

/// `BitSet::new`: a set that holds nothing.
#[verifier::external_body]
pub(crate) fn bits_new() -> (set: BitSet)
    ensures
        bits(set) == Set::<usize>::empty(),
{
    BitSet::new()
}

/// `BitSet::contains`: whether `value` is in the set.
#[verifier::external_body]
pub(crate) fn bits_contains(set: &BitSet, value: usize) -> (found: bool)
    ensures
        found == bits(*set).contains(value),
{
    set.contains(value)
}

/// `BitSet::insert`: adds `value` and says whether it was new. The set
/// grows to `value + 1` bits, which must be a `usize`.
#[verifier::external_body]
pub(crate) fn bits_insert(set: &mut BitSet, value: usize) -> (added: bool)
    requires
        value < usize::MAX,
    ensures
        bits(*final(set)) == bits(*old(set)).insert(value),
        added == !bits(*old(set)).contains(value),
{
    set.insert(value)
}

/// `BitSet::remove`: takes `value` out and says whether it was there.
#[verifier::external_body]
pub(crate) fn bits_remove(set: &mut BitSet, value: usize) -> (removed: bool)
    ensures
        bits(*final(set)) == bits(*old(set)).remove(value),
        removed == bits(*old(set)).contains(value),
{
    set.remove(value)
}

} // verus!
