//! Random draws. Every draw the library makes goes through this module; the
//! functions that consume the draws take them as plain values.

use vstd::prelude::*;

verus! {

/// Relies on `rand::Rng::gen_range` on `rand::thread_rng()`: a draw from the
/// half-open range `lo..hi`, which panics when the range is empty.
#[verifier::external_body]
pub(crate) fn draw(lo: i32, hi: i32) -> (r: i32)
    requires
        lo < hi,
    ensures
        lo <= r < hi,
{
    rand::Rng::gen_range(&mut rand::thread_rng(), lo..hi)
}

/// Relies on `rand::seq::SliceRandom::shuffle` with `rand::thread_rng()`: it
/// permutes the elements in place by swapping them (a Fisher-Yates pass).
#[verifier::external_body]
pub(crate) fn shuffle(v: &mut Vec<usize>)
    ensures
        final(v)@.len() == old(v)@.len(),
        final(v)@.to_multiset() == old(v)@.to_multiset(),
{
    rand::seq::SliceRandom::shuffle(v.as_mut_slice(), &mut rand::thread_rng());
}

} // verus!
