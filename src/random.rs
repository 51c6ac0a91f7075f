use vstd::prelude::*;

verus! {

#[verifier::external_type_specification]
#[verifier::external_body]
pub struct ExRng(fastrand::Rng);

/// Relies on fastrand's `Rng::u64`: for the range `..bound` it returns a
/// value below `bound`, and it panics where the range is empty.
#[verifier::external_body]
pub(crate) fn draw_below(rng: &mut fastrand::Rng, bound: u64) -> (r: u64)
    requires
        bound > 0,
    ensures
        r < bound,
{
    rng.u64(..bound)
}

} // verus!
