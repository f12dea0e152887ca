//! How long a philosopher thinks and eats.
//!
//! A delay is a raw number folded into a span and lifted by a floor, all in
//! milliseconds. The raw number comes from the thread's random number
//! generator, or from the caller where a run has to be repeatable.

use vstd::prelude::*;

verus! {

/// No delay is shorter than this.
pub const DELAY_FLOOR_MS: u64 = 100;

/// Thinking takes less than this much over the floor.
pub const THINK_SPAN_MS: u64 = 3000;

/// Eating takes less than this much over the floor.
pub const EAT_SPAN_MS: u64 = 1000;

/// The delay that a raw number stands for in a span: its remainder by the
/// span, over the floor.
pub open spec fn delay_in(raw: int, span: int) -> int {
    raw % span + DELAY_FLOOR_MS
}

/// The time to think that the raw number stands for.
pub fn think_delay_from(raw: u64) -> (ms: u64)
    ensures
        ms == delay_in(raw as int, THINK_SPAN_MS as int),
        DELAY_FLOOR_MS <= ms < DELAY_FLOOR_MS + THINK_SPAN_MS,
{
    raw % THINK_SPAN_MS + DELAY_FLOOR_MS
}

/// The time to eat that the raw number stands for.
pub fn eat_delay_from(raw: u64) -> (ms: u64)
    ensures
        ms == delay_in(raw as int, EAT_SPAN_MS as int),
        DELAY_FLOOR_MS <= ms < DELAY_FLOOR_MS + EAT_SPAN_MS,
{
    raw % EAT_SPAN_MS + DELAY_FLOOR_MS
}

/// `rand::random::<u64>()`: the next number of the thread's generator. Any
/// `u64` may come back and two calls need not agree, so nothing is claimed of
/// it. The first call on a thread seeds the generator from the operating
/// system and panics if that source fails.
#[verifier::external_body]
fn random_number() -> u64 {
    rand::random::<u64>()
}

/// A random time to think, within the span for thinking.
pub fn think_delay() -> (ms: u64)
    ensures
        DELAY_FLOOR_MS <= ms < DELAY_FLOOR_MS + THINK_SPAN_MS,
{
    think_delay_from(random_number())
}

/// A random time to eat, within the span for eating.
pub fn eat_delay() -> (ms: u64)
    ensures
        DELAY_FLOOR_MS <= ms < DELAY_FLOOR_MS + EAT_SPAN_MS,
{
    eat_delay_from(random_number())
}

} // verus!
