//! Random selection from the configured status-quote pool.
//!
//! Randomness comes from the `rand` crate; nothing is promised of a drawn
//! number but its range, and everything built on it is verified for every
//! number in that range.

use vstd::prelude::*;

use crate::config::Config;

verus! {

#[verifier::external_type_specification]
#[verifier::external_body]
pub struct ExThreadRng(rand::rngs::ThreadRng);

/// Relies on `rand::rng`: the thread-local generator.
#[verifier::external_body]
fn thread_rng() -> rand::rngs::ThreadRng {
    rand::rng()
}

/// Relies on `rand::Rng::random_range`: a value below the given bound.
#[verifier::external_body]
fn random_below(rng: &mut rand::rngs::ThreadRng, n: usize) -> (r: usize)
    requires
        n > 0,
    ensures
        r < n,
{
    rand::Rng::random_range(rng, 0..n)
}

/// Relies on `rand::Rng::random_range`: a value inside the given closed
/// range.
#[verifier::external_body]
fn random_between(rng: &mut rand::rngs::ThreadRng, min: u64, max: u64) -> (r: u64)
    requires
        min <= max,
    ensures
        min <= r <= max,
{
    rand::Rng::random_range(rng, min..=max)
}

/// Picks one quote from the configured pool.
pub fn get_random_quote(config: &Config) -> (r: String)
    requires
        config.quotes.quotes@.len() > 0,
    ensures
        exists|i: int| 0 <= i < config.quotes.quotes@.len() && r@ == config.quotes.quotes@[i]@,
{
    let mut rng = thread_rng();
    let index = random_below(&mut rng, config.quotes.quotes.len());
    let r = config.quotes.quotes[index].clone();
    proof {
        assert(r@ == config.quotes.quotes@[index as int]@);
    }
    r
}

/// Picks how many minutes to wait before the next status change, inside
/// the configured interval.
pub fn get_random_interval_minutes(config: &Config) -> (r: u64)
    requires
        config.quotes.update_interval_minutes.0 <= config.quotes.update_interval_minutes.1,
    ensures
        config.quotes.update_interval_minutes.0 <= r <= config.quotes.update_interval_minutes.1,
{
    let mut rng = thread_rng();
    let min = config.quotes.update_interval_minutes.0;
    let max = config.quotes.update_interval_minutes.1;
    random_between(&mut rng, min, max)
}

} // verus!
