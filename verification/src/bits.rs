//! The filter bitset: one bit per possible handle value, set while the
//! handle is registered with the worker's selector. Held in a `bitvec`
//! bit-vector inside an opaque struct behind trusted entry points; its
//! contents are named by `bits_of`.

use vstd::prelude::*;

verus! {

/// One bit per possible handle value. Holds a `bitvec` bit-vector; opaque
/// to verification, its contents are reached only through `bits_of` and the
/// trusted entry points below.
#[verifier::external_body]
pub struct FilterSet {
    bits: bitvec::vec::BitVec<usize, bitvec::order::Lsb0>,
}

/// The bits the set holds, in order of handle value.
pub uninterp spec fn bits_of(v: FilterSet) -> Seq<bool>;

/// Relies on bitvec's BitVec::repeat: a vector of `len` clear bits.
#[verifier::external_body]
pub fn filter_new(len: usize) -> (r: FilterSet)
    ensures
        bits_of(r).len() == len,
        forall|i: int| 0 <= i < len ==> !bits_of(r)[i],
{
    FilterSet { bits: bitvec::vec::BitVec::repeat(false, len) }
}

/// Relies on bitvec's BitSlice::get: reads one bit.
#[verifier::external_body]
pub fn filter_get(v: &FilterSet, i: usize) -> (r: bool)
    requires
        i < bits_of(*v).len(),
    ensures
        r == bits_of(*v)[i as int],
{
    match v.bits.get(i) {
        Some(b) => *b,
        None => false,
    }
}

/// Relies on bitvec's BitSlice::set: writes one bit in place.
#[verifier::external_body]
pub fn filter_set(v: &mut FilterSet, i: usize, b: bool)
    requires
        i < bits_of(*old(v)).len(),
    ensures
        bits_of(*final(v)) == bits_of(*old(v)).update(i as int, b),
{
    v.bits.set(i, b);
}

} // verus!
