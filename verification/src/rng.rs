//! The spawner's source of randomness: the process-wide generator of the
//! `quad_rand` crate (the one the game's windowing library re-exports as
//! its `rand` module, and which `quad_rand::srand` seeds).

use vstd::prelude::*;

verus! {

/// Relies on quad_rand::gen_range::<u64>: it computes
/// `low + (high - low) * r` in f64, with `r = rand() / 2^32` in [0, 1),
/// and truncates back to `u64`. For `high` up to 2^31 - 1 both bounds are
/// exact in f64 and the rounded sum stays within `[low, high]`: rounding
/// a value below `high` to the nearest f64 cannot pass the representable
/// `high` — though for a narrow range near 2^31 it can land exactly on
/// it, so `high` itself is a possible result. The value drawn depends on
/// hidden generator state, so nothing more is promised of it.
#[verifier::external_body]
fn gen_range_u64(low: u64, high: u64) -> (r: u64)
    requires
        low < high,
        high <= 0x7fff_ffff,
    ensures
        low <= r <= high,
{
    quad_rand::gen_range(low, high)
}

/// A random draw in `[low, high)`: the generator's rare boundary result
/// `high` is folded onto the top of the half-open range.
pub(crate) fn draw_in_range(low: u64, high: u64) -> (r: u64)
    requires
        low < high,
        high <= 0x7fff_ffff,
    ensures
        low <= r < high,
{
    let r = gen_range_u64(low, high);
    if r >= high {
        high - 1
    } else {
        r
    }
}

} // verus!
