//! Trusted access to the `rand` crate's thread-local generator.
//!
//! Nothing can be promised about which value comes back, so each
//! contract states only what holds of every outcome.

use vstd::prelude::*;

verus! {

#[verifier::external_type_specification]
#[verifier::external_body]
pub struct ExThreadRng(rand::rngs::ThreadRng);

/// Relies on rand's thread_rng: a handle to the thread-local generator.
#[verifier::external_body]
pub(crate) fn fresh_rng() -> rand::rngs::ThreadRng {
    rand::thread_rng()
}

/// Relies on rand's Rng::gen_range over `0..bound`: a uniformly drawn
/// value below `bound`.  The range is non-empty, so the call cannot
/// panic.
#[verifier::external_body]
pub(crate) fn random_below(rng: &mut rand::rngs::ThreadRng, bound: u32) -> (r: u32)
    requires
        bound > 0,
    ensures
        r < bound,
{
    rand::Rng::gen_range(rng, 0..bound)
}

/// Relies on rand's SliceRandom::choose: `None` exactly on an empty
/// slice, otherwise a reference to one of its elements.
#[verifier::external_body]
pub(crate) fn choose_from<'a>(rng: &mut rand::rngs::ThreadRng, words: &'a Vec<String>) -> (r: Option<
    &'a String,
>)
    ensures
        match r {
            Some(w) => exists|i: int| 0 <= i < words@.len() && words@[i] == *w,
            None => words@.len() == 0,
        },
{
    rand::seq::SliceRandom::choose(words.as_slice(), rng)
}

} // verus!
