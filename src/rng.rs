use rand::distributions::Distribution;
use vstd::prelude::*;

verus! {

#[verifier::external_type_specification]
#[verifier::external_body]
pub struct ExThreadRng(rand::rngs::ThreadRng);

/// Relies on rand::thread_rng: a handle to the generator of the current thread.
pub assume_specification[ rand::thread_rng ]() -> rand::rngs::ThreadRng;

/// A source of uniformly distributed random integers.
pub struct UniformRng {
    rng: rand::rngs::ThreadRng,
}

impl UniformRng {
    pub fn new() -> UniformRng {
        UniformRng { rng: rand::thread_rng() }
    }

    /// Relies on rand's `Uniform::from(low..high)` and `Distribution::sample`: a value
    /// in the half-open range; `Uniform::new` panics when `low >= high`.
    #[verifier::external_body]
    pub fn sample(&mut self, low: i64, high: i64) -> (r: i64)
        requires
            low < high,
        ensures
            low <= r < high,
    {
        rand::distributions::Uniform::from(low..high).sample(&mut self.rng)
    }
}

} // verus!
