//! The identifier entropy source: narrow trusted wrappers around the random
//! draws the engine needs. Every handler is verified for every value these
//! can return.

use vstd::prelude::*;

use rand::distributions::{Alphanumeric, Distribution, Uniform};
use rand::{thread_rng, Rng};

verus! {

/// Relies on rand::distributions::Alphanumeric, whose every draw is one
/// alphanumeric ASCII character, sampled through rand::Rng::sample_iter:
/// taking 32 draws yields a 32-character token.
#[verifier::external_body]
pub(crate) fn random_token() -> (r: String)
    ensures
        r@.len() == 32,
{
    thread_rng().sample_iter(&Alphanumeric).take(32).map(|u| u as char).collect()
}

/// Relies on rand::distributions::Uniform::new_inclusive, which panics when
/// `lo > hi`, and on rand::distributions::Distribution::sample: the draw
/// lies in the closed range `[lo, hi]`.
#[verifier::external_body]
pub(crate) fn random_in_range(lo: u64, hi: u64) -> (r: u64)
    requires
        lo <= hi,
    ensures
        lo <= r <= hi,
{
    Uniform::new_inclusive(lo, hi).sample(&mut thread_rng())
}

} // verus!
