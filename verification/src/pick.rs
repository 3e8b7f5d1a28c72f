use vstd::prelude::*;

verus! {

/// Relies on rand::random_range: an index drawn uniformly below `n` from
/// the thread's generator. Which index comes back depends on the
/// generator's state, so only the bound is promised; the function panics on
/// an empty range, which the precondition rules out.
#[verifier::external_body]
pub(crate) fn random_index(n: usize) -> (r: usize)
    requires
        n > 0,
    ensures
        r < n,
{
    rand::random_range(0..n)
}

} // verus!
