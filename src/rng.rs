//! Uniform integer draws from macroquad's global generator.
use vstd::prelude::*;

verus! {

/// Widest range a single draw may span.
pub const DRAW_SPAN: i64 = 0x10_0000;

/// Relies on macroquad::rand::gen_range (quad-rand 0.2.3) for `u32`: it maps a
/// 32-bit draw `u` to `lo + (hi - lo) * u / 2^32` in `f64` and truncates, which
/// for `lo < hi <= 2^20` is exact enough to land in `[lo, hi)`.
#[verifier::external_body]
fn gen_range_u32(lo: u32, hi: u32) -> (r: u32)
    requires
        lo < hi <= 0x10_0000,
    ensures
        lo <= r < hi,
{
    macroquad::rand::gen_range::<u32>(lo, hi)
}

/// A uniform draw from `[lo, hi)`; `lo` itself when the range is empty.
pub fn random_between(lo: i64, hi: i64) -> (r: i64)
    requires
        hi - lo <= DRAW_SPAN,
    ensures
        lo < hi ==> lo <= r < hi,
        lo >= hi ==> r == lo,
{
    if lo >= hi {
        lo
    } else {
        let k = gen_range_u32(0, (hi - lo) as u32);
        lo + k as i64
    }
}

} // verus!
