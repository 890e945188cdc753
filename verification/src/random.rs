//! Drawing from the random source.
//!
//! The source is `rand`'s `StdRng`. The caller makes it, seeded from the
//! system for real use or from a fixed seed for a reproducible run, and hands
//! it to every function that draws; nothing here keeps a source of its own.

use rand::rngs::StdRng;
use rand::Rng;
use vstd::prelude::*;

verus! {

/// `rand::rngs::StdRng`, whose state is opaque to the proofs.
#[verifier::external_type_specification]
#[verifier::external_body]
pub struct ExStdRng(StdRng);

/// Whether every pick is an index below `bound`.
pub open spec fn picks_in_range(picks: Seq<usize>, bound: nat) -> bool {
    forall|i: int| 0 <= i < picks.len() ==> picks[i] < bound
}

/// One call of `Rng::gen_range` on the half-open range from 0 to `bound`.
///
/// Trusted: the sample lies in the range. `gen_range` panics on an empty
/// range, so a zero `bound` is ruled out. Which index comes back is up to the
/// source, and nothing is claimed about it.
#[verifier::external_body]
fn gen_index(rng: &mut StdRng, bound: usize) -> (index: usize)
    requires
        bound > 0,
    ensures
        index < bound,
{
    rng.gen_range(0..bound)
}

/// Draws `count` indices below `bound`, one after the other, from `rng`.
pub(crate) fn draw_picks(rng: &mut StdRng, bound: usize, count: usize) -> (picks: Vec<usize>)
    requires
        bound > 0,
    ensures
        picks@.len() == count,
        picks_in_range(picks@, bound as nat),
{
    let mut picks: Vec<usize> = Vec::new();
    let mut drawn: usize = 0;
    while drawn < count
        invariant
            bound > 0,
            drawn <= count,
            picks@.len() == drawn,
            picks_in_range(picks@, bound as nat),
        decreases count - drawn,
    {
        let index: usize = gen_index(rng, bound);
        picks.push(index);
        drawn += 1;
    }
    picks
}

} // verus!
