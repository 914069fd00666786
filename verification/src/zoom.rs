//! The camera-zoom prototype: a projection scale, held in tenths, that
//! mouse-wheel steps move within fixed bounds.

use vstd::prelude::*;

verus! {

/// Smallest projection scale, in tenths: 0.5.
pub const MIN_SCALE_TENTHS: i64 = 5;

/// Largest projection scale, in tenths: 10.0.
pub const MAX_SCALE_TENTHS: i64 = 100;

/// The scale after one wheel reading: each step scrolled up shrinks the
/// scale by three tenths, clamped to the fixed bounds.
pub open spec fn zoom_step_spec(scale_tenths: i64, scroll_steps: i64) -> int {
    let raw = scale_tenths - scroll_steps * 3;
    if raw < MIN_SCALE_TENTHS {
        MIN_SCALE_TENTHS as int
    } else if raw > MAX_SCALE_TENTHS {
        MAX_SCALE_TENTHS as int
    } else {
        raw
    }
}

/// Applies one wheel reading of `scroll_steps` to a scale in tenths; the
/// result always lies within the fixed bounds.
pub fn zoom_step(scale_tenths: i64, scroll_steps: i64) -> (r: i64)
    ensures
        r == zoom_step_spec(scale_tenths, scroll_steps),
        MIN_SCALE_TENTHS <= r <= MAX_SCALE_TENTHS,
{
    let raw: i128 = scale_tenths as i128 - scroll_steps as i128 * 3;
    if raw < MIN_SCALE_TENTHS as i128 {
        MIN_SCALE_TENTHS
    } else if raw > MAX_SCALE_TENTHS as i128 {
        MAX_SCALE_TENTHS
    } else {
        raw as i64
    }
}

} // verus!
