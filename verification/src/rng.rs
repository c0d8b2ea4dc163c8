//! Access to the thread-local random number generator.

use vstd::prelude::*;

verus! {

/// Relies on rand::random_range: a draw from the thread-local generator,
/// documented to lie in the given range and to panic only when the range is
/// empty.  Nothing more can be promised of a random value.
#[verifier::external_body]
pub(crate) fn random_below(bound: u32) -> (r: u32)
    requires
        bound > 0,
    ensures
        r < bound,
{
    rand::random_range(0..bound)
}

} // verus!
