//! The source of randomness that the world logic draws from.

use vstd::prelude::*;
use rand::Rng;

verus! {

/// A source of random numbers. The world logic makes no assumption about
/// the values it hands out; callers may plug in a seeded or scripted source.
pub trait GameRng {
    /// Whether `r` is a value `rand_range(min, max)` of this source may hand
    /// out; a source that says nothing more allows any value.
    closed spec fn range_roll(&self, min: u32, max: u32, r: u32) -> bool {
        true
    }

    /// Whether `r` is a roll `rand_bp(chance)` of this source may hand out;
    /// a source that says nothing more allows any roll.
    closed spec fn bp_roll(&self, chance: u32, r: u32) -> bool {
        true
    }

    /// A number in `min..=max` (when that range is not empty).
    fn rand_range(&self, min: u32, max: u32) -> (r: u32)
        ensures
            min <= max ==> min <= r <= max,
            self.range_roll(min, max, r);

    /// A roll in basis points (0..=10000) for an event of the given chance.
    fn rand_bp(&self, chance: u32) -> (r: u32)
        ensures
            self.bp_roll(chance, r);
}

/// The process-wide random source, backed by the thread-local generator of `rand`.
pub struct ThreadRng;

/// Calls `rand::Rng::gen_range` on the thread-local generator with the
/// inclusive range `min..=max`; `rand` documents that the value lies in the range.
#[verifier::external_body]
fn thread_rand_inclusive(min: u32, max: u32) -> (r: u32)
    requires
        min <= max,
    ensures
        min <= r <= max,
{
    rand::thread_rng().gen_range(min..=max)
}

impl GameRng for ThreadRng {
    open spec fn range_roll(&self, min: u32, max: u32, r: u32) -> bool {
        if min <= max { min <= r <= max } else { r == min }
    }

    open spec fn bp_roll(&self, chance: u32, r: u32) -> bool {
        r <= 9999
    }

    fn rand_range(&self, min: u32, max: u32) -> (r: u32)
        ensures
            min > max ==> r == min,
    {
        if min <= max {
            thread_rand_inclusive(min, max)
        } else {
            min
        }
    }

    fn rand_bp(&self, chance: u32) -> (r: u32)
        ensures
            r <= 9999,
    {
        thread_rand_inclusive(0, 9999)
    }
}

} // verus!
