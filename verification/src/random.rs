//! The random source a record generator draws from.
//!
//! A source is a capability passed in by the caller: it hands out bounded
//! integers and coin flips, and nothing else. `ThreadRandom` draws from the
//! operating system's entropy via `rand`; `SplitMix64` is a deterministic
//! seeded source, so repeated runs from one seed give identical records.

use rand::Rng;
use vstd::prelude::*;

verus! {

/// A supplier of uniform random draws. Every implementation must return a
/// value strictly below the requested bound; nothing is promised about the
/// distribution, which is the implementation's affair.
pub trait RandomSource {
    /// A draw from `[0, bound)`.
    fn next_below(&mut self, bound: u64) -> (r: u64)
        requires
            bound >= 1,
        ensures
            r < bound,
    ;

    /// A uniform coin flip.
    fn next_bool(&mut self) -> bool;
}

/// A deterministic source: the SplitMix64 generator, stepped from a seed.
pub struct SplitMix64 {
    pub state: u64,
}

impl SplitMix64 {
    pub fn new(seed: u64) -> (s: SplitMix64)
        ensures
            s.state == seed,
    {
        SplitMix64 { state: seed }
    }

    /// One SplitMix64 step: advance the state and mix it into an output.
    pub fn next_raw(&mut self) -> u64 {
        self.state = self.state.wrapping_add(0x9E3779B97F4A7C15);
        let mut z: u64 = self.state;
        z = (z ^ (z >> 30)).wrapping_mul(0xBF58476D1CE4E5B9);
        z = (z ^ (z >> 27)).wrapping_mul(0x94D049BB133111EB);
        z ^ (z >> 31)
    }
}

impl RandomSource for SplitMix64 {
    fn next_below(&mut self, bound: u64) -> (r: u64) {
        self.next_raw() % bound
    }

    fn next_bool(&mut self) -> bool {
        self.next_raw() % 2 == 1
    }
}

#[verifier::external_type_specification]
#[verifier::external_body]
pub struct ExThreadRng(rand::rngs::ThreadRng);

/// A source backed by `rand`'s per-thread generator.
pub struct ThreadRandom {
    rng: rand::rngs::ThreadRng,
}

impl ThreadRandom {
    /// Relies on `rand::thread_rng` to hand out the calling thread's
    /// lazily-seeded generator.
    #[verifier::external_body]
    pub fn new() -> ThreadRandom {
        ThreadRandom { rng: rand::thread_rng() }
    }

    /// Relies on `rand::Rng::gen_range`, which returns a value inside the
    /// given range and panics only when the range is empty; `bound >= 1`
    /// keeps the range `0..bound` non-empty.
    #[verifier::external_body]
    fn sys_below(&mut self, bound: u64) -> (r: u64)
        requires
            bound >= 1,
        ensures
            r < bound,
    {
        self.rng.gen_range(0..bound)
    }

    /// Relies on `rand::Rng::gen::<bool>`, a uniform coin flip.
    #[verifier::external_body]
    fn sys_bool(&mut self) -> bool {
        self.rng.gen()
    }
}

impl RandomSource for ThreadRandom {
    fn next_below(&mut self, bound: u64) -> (r: u64) {
        self.sys_below(bound)
    }

    fn next_bool(&mut self) -> bool {
        self.sys_bool()
    }
}

} // verus!
