//! Percentage normalization: raw analog readings are scaled to 0..=100 and
//! quantized to the nearest multiple of two, rounding halves away from zero,
//! so that analog noise does not flood the audio backend with sub-perceptible
//! volume changes.

use vstd::prelude::*;

verus! {

/// Highest raw reading the device's analog-to-digital converter produces.
pub const FULL_SCALE: u16 = 4095;

/// The nearest multiple of two, halves rounded away from zero.
/// For a non-negative integer `p` that is `p` itself when even and `p + 1`
/// when odd.
pub open spec fn spec_quantize(p: int) -> int {
    2 * ((p + 1) / 2)
}

/// Percentage for a raw reading: `raw / FULL_SCALE * 100`, quantized by
/// `spec_quantize` over the exact rational value (not a pre-rounded integer).
pub open spec fn spec_percentage(raw: int) -> int {
    2 * ((100 * raw + FULL_SCALE as int) / (2 * FULL_SCALE as int))
}

/// Quantize an integer percentage to the nearest multiple of two, halves away
/// from zero.
pub fn quantize(p: u32) -> (r: u32)
    requires
        p < u32::MAX,
    ensures
        r == spec_quantize(p as int),
{
    if p % 2 == 0 {
        p
    } else {
        p + 1
    }
}

/// Quantization is idempotent: re-quantizing a quantized value changes
/// nothing, and every quantized value is a multiple of two.
pub proof fn lemma_quantize_idempotent(p: int)
    requires
        p >= 0,
    ensures
        spec_quantize(spec_quantize(p)) == spec_quantize(p),
        spec_quantize(p) % 2 == 0,
{
}

/// Normalize one raw reading to a quantized percentage.
///
/// The whole scale maps to the whole percentage range: a reading of zero gives
/// zero and a full-scale reading gives exactly one hundred.  Readings beyond
/// full scale (a misbehaving device) follow the same formula and simply map
/// beyond one hundred; the audio backend treats such values as full volume.
pub fn percentage(raw: u16) -> (r: u32)
    ensures
        r == spec_percentage(raw as int),
        r % 2 == 0,
        raw <= FULL_SCALE ==> r <= 100,
{
    let p: u32 = (100 * (raw as u32) + FULL_SCALE as u32) / (2 * FULL_SCALE as u32);
    proof {
        if raw <= FULL_SCALE {
            assert((100 * (raw as int) + 4095) / 8190 <= 50) by (nonlinear_arith)
                requires
                    0 <= raw <= 4095,
            ;
        }
    }
    2 * p
}

/// A normalized percentage is already quantized: re-quantizing what
/// [`percentage`] produced changes nothing.
pub proof fn lemma_percentage_fixed_under_quantize(raw: u16)
    ensures
        spec_quantize(spec_percentage(raw as int)) == spec_percentage(raw as int),
{
}

/// The ends of the scale land exactly on the ends of the percentage range.
pub proof fn lemma_percentage_round_trip()
    ensures
        spec_percentage(0) == 0,
        spec_percentage(FULL_SCALE as int) == 100,
{
    assert((100 * 4095 + 4095) / 8190 == 50) by (nonlinear_arith);
}

} // verus!
