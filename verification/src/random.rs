//! The random source of one worker. Each worker owns one; none is shared.

use rand::rngs::ThreadRng;
use rand::Rng;
use vstd::prelude::*;

verus! {

/// `rand::rngs::ThreadRng`: the handle on a thread's generator, carried as
/// an opaque value.
#[verifier::external_type_specification]
#[verifier::external_body]
pub struct ExThreadRng(rand::rngs::ThreadRng);

/// A pseudorandom generator seeded by the system, handed to whatever draws.
/// Nothing is known of what it draws but the range that was asked for.
pub struct RandomSource {
    rng: ThreadRng,
}

impl RandomSource {
    /// A handle on the generator of the calling thread.
    ///
    /// # Panics
    ///
    /// The generator is seeded on its first use in a thread, and reseeded
    /// from time to time; both panic on a machine whose operating system
    /// gives no entropy.
    pub fn new() -> (source: RandomSource) {
        RandomSource { rng: thread_generator() }
    }

    /// A number from `lo` up to, but not including, `hi`.
    pub(crate) fn draw(&mut self, lo: u64, hi: u64) -> (r: u64)
        requires
            lo < hi,
        ensures
            lo <= r < hi,
    {
        sample_range(&mut self.rng, lo, hi)
    }

    /// An index into a list of `len` entries.
    pub(crate) fn draw_index(&mut self, len: usize) -> (r: usize)
        requires
            len > 0,
        ensures
            r < len,
    {
        sample_range(&mut self.rng, 0, len as u64) as usize
    }
}

/// `rand::thread_rng`: the handle on the calling thread's generator. It is
/// created and seeded from the operating system on first use, and the call
/// panics where the operating system gives no entropy.
#[verifier::external_body]
fn thread_generator() -> (rng: ThreadRng) {
    rand::thread_rng()
}

/// `Rng::gen_range` on the half-open range `lo..hi`: the sample lies in the
/// range. The call panics on an empty range, which `requires` rules out.
#[verifier::external_body]
fn sample_range(rng: &mut ThreadRng, lo: u64, hi: u64) -> (r: u64)
    requires
        lo < hi,
    ensures
        lo <= r < hi,
{
    rng.gen_range(lo..hi)
}

} // verus!
