use vstd::prelude::*;
use rand::Rng;

verus! {

/// A source of uniformly distributed integers, injected into the transform
/// operations so that they can be driven by a real generator in production
/// and by a scripted one in tests.
pub trait UniformSource {
    /// Draw one value from the half-open range `[lo, hi)`.
    fn next_in(&mut self, lo: u8, hi: u8) -> (r: u8)
        requires
            lo < hi,
        ensures
            lo <= r < hi,
    ;
}

#[verifier::external_type_specification]
#[verifier::external_body]
pub struct ExThreadRng(rand::rngs::ThreadRng);

/// The production random source: a handle to the thread-local generator of
/// the `rand` crate.
pub struct ThreadRandom {
    rng: rand::rngs::ThreadRng,
}

/// Relies on rand::thread_rng to hand out a handle to the lazily
/// initialized thread-local generator.
#[verifier::external_body]
fn fresh_thread_rng() -> rand::rngs::ThreadRng {
    rand::thread_rng()
}

/// Relies on rand::Rng::gen_range with a half-open range: the drawn value
/// lies in `[lo, hi)`, and the call panics only on an empty range, which the
/// precondition rules out.
#[verifier::external_body]
fn draw_in_range(rng: &mut rand::rngs::ThreadRng, lo: u8, hi: u8) -> (r: u8)
    requires
        lo < hi,
    ensures
        lo <= r < hi,
{
    rng.gen_range(lo..hi)
}

impl ThreadRandom {
    /// A fresh handle to the shared thread-local generator.
    pub fn new() -> ThreadRandom {
        ThreadRandom { rng: fresh_thread_rng() }
    }
}

impl UniformSource for ThreadRandom {
    fn next_in(&mut self, lo: u8, hi: u8) -> (r: u8) {
        draw_in_range(&mut self.rng, lo, hi)
    }
}

} // verus!
