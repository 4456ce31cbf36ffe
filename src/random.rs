//! The pseudo-random generator, passed explicitly so that a run can be seeded.
use rand::Rng;
use rand::rngs::StdRng;
use vstd::prelude::*;

verus! {

/// rand's standard seedable generator, carried through opaquely.
#[verifier::external_type_specification]
#[verifier::external_body]
pub struct ExStdRng(StdRng);

/// Relies on rand's `Rng::gen_range` on an exclusive integer range: it returns a
/// value in `lo..hi` and panics only when that range is empty.
#[verifier::external_body]
pub(crate) fn draw_in_range(rng: &mut StdRng, lo: u64, hi: u64) -> (r: u64)
    requires
        lo < hi,
    ensures
        lo <= r < hi,
{
    rng.gen_range(lo..hi)
}

/// Draws `count` values uniformly from `lo..hi`, one after the other.
pub fn draw_uniform_set(rng: &mut StdRng, lo: u64, hi: u64, count: usize) -> (r: Vec<u64>)
    requires
        lo < hi,
    ensures
        r@.len() == count,
        forall|i: int| 0 <= i < count ==> lo <= #[trigger] r@[i] < hi,
{
    let mut out: Vec<u64> = Vec::new();
    let mut k: usize = 0;
    while k < count
        invariant
            lo < hi,
            k <= count,
            out@.len() == k,
            forall|i: int| 0 <= i < k ==> lo <= #[trigger] out@[i] < hi,
        decreases count - k,
    {
        let x = draw_in_range(rng, lo, hi);
        out.push(x);
        k = k + 1;
    }
    out
}

} // verus!
