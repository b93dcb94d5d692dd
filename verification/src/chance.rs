//! The thread's random number generator, as far as the game draws on it.
//!
//! Nothing here is proved: each contract states what the generator's
//! documentation promises of every draw, and no more.

use vstd::prelude::*;
use rand::Rng;

verus! {

/// `rand::ThreadRng`, the handle to the thread-local generator. Nothing is
/// known of what it holds.
#[verifier::external_type_specification]
#[verifier::external_body]
pub struct ExThreadRng(rand::ThreadRng);

/// `rand::thread_rng` hands out the handle to the thread-local generator.
/// Nothing is claimed of the handle. The call takes no argument; it gives up
/// only where the system has no entropy at all to seed the generator with.
pub assume_specification[ rand::thread_rng ]() -> (rng: rand::ThreadRng);

/// `Rng::gen::<bool>` draws a truth value. Either value can come back, so
/// nothing is claimed of the result.
#[verifier::external_body]
pub(crate) fn draw_bool(rng: &mut rand::ThreadRng) -> (drawn: bool) {
    rng.gen()
}

/// `Rng::gen_range` on `i32` draws from the half-open range that starts at
/// `low` and ends before `high`. It panics unless `low < high`, which the
/// precondition rules out; the claim is that the result lies in the range.
#[verifier::external_body]
pub(crate) fn draw_between(rng: &mut rand::ThreadRng, low: i32, high: i32) -> (drawn: i32)
    requires
        low < high,
    ensures
        low <= drawn < high,
{
    rng.gen_range(low, high)
}

/// `Rng::next_u64` draws the generator's next 64 bits. Any value can come
/// back, so nothing is claimed of the result.
#[verifier::external_body]
pub(crate) fn draw_u64(rng: &mut rand::ThreadRng) -> (drawn: u64) {
    rng.next_u64()
}

} // verus!
