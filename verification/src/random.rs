use vstd::prelude::*;

verus! {

use rand::Rng;
use rand::rngs::ThreadRng;

/// The thread-local generator of the `rand` crate, carried through opaquely.
#[verifier::external_type_specification]
#[verifier::external_body]
pub struct ExThreadRng(rand::rngs::ThreadRng);

/// A value drawn from the generator, together with the end of the half-open
/// range `0..range_end` it was drawn from. Only `gen_below` makes one, so a
/// `Draw` records what was asked of the generator.
pub struct Draw {
    value: usize,
    range_end: usize,
}

impl Draw {
    /// The value that was drawn.
    pub closed spec fn drawn(&self) -> usize {
        self.value
    }

    /// The end of the range the value was drawn from.
    pub closed spec fn drawn_below(&self) -> usize {
        self.range_end
    }

    /// The value that was drawn.
    pub fn value(&self) -> (v: usize)
        ensures
            v == self.drawn(),
    {
        self.value
    }
}

/// Calls `rand::thread_rng`, which hands out a handle to the lazily seeded
/// thread-local generator. Nothing is claimed of the handle. The crate's source
/// panics there if the operating system gives no entropy on first use; that
/// case depends on the machine and is left unsaid.
#[verifier::external_body]
pub(crate) fn new_thread_rng() -> ThreadRng {
    rand::thread_rng()
}

/// Calls `Rng::gen_range(0..bound)` on the generator and records the range
/// asked for beside the value. The crate's source asserts that the range is not
/// empty (hence `0 < bound`) and samples a value of the half-open range, so the
/// value is below `bound`. Which value comes is chance and is left unsaid.
#[verifier::external_body]
pub(crate) fn gen_below(rng: &mut ThreadRng, bound: usize) -> (draw: Draw)
    requires
        0 < bound,
    ensures
        draw.drawn() < bound,
        draw.drawn_below() == bound,
{
    Draw { value: rng.gen_range(0..bound), range_end: bound }
}

} // verus!
