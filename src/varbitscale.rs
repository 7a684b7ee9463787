use vstd::prelude::*;

verus! {

/// Decoded value and scale level of the variable-bit-scale code `m`.
///
/// The table, from the largest threshold down, is
/// (3328, 4, 16384), (1792, 3, 4096), (1280, 2, 2048), (512, 1, 512), (0, 0, 0):
/// the first entry whose threshold is at most `m` gives
/// `target_base + (m - threshold) * 2^scale`.
pub open spec fn vbs_spec(m: int) -> (int, int) {
    if m >= 3328 {
        (16384 + (m - 3328) * 16, 4)
    } else if m >= 1792 {
        (4096 + (m - 1792) * 8, 3)
    } else if m >= 1280 {
        (2048 + (m - 1280) * 4, 2)
    } else if m >= 512 {
        (512 + (m - 512) * 2, 1)
    } else {
        (m, 0)
    }
}

/// Largest code whose decoded value still fits in a `u32`.
pub const VBS_MAX_CODE: u32 = 268437759;

/// Expands the variable-bit-scale code `scaled` into a distance and writes the
/// scale level that the chosen table entry uses into `scale_level`.
pub fn varbitscale_decode(scaled: u32, scale_level: &mut u32) -> (r: u32)
    requires
        scaled <= VBS_MAX_CODE,
    ensures
        r == vbs_spec(scaled as int).0,
        *final(scale_level) == vbs_spec(scaled as int).1,
{
    if scaled >= 3328 {
        *scale_level = 4;
        16384 + (scaled - 3328) * 16
    } else if scaled >= 1792 {
        *scale_level = 3;
        4096 + (scaled - 1792) * 8
    } else if scaled >= 1280 {
        *scale_level = 2;
        2048 + (scaled - 1280) * 4
    } else if scaled >= 512 {
        *scale_level = 1;
        512 + (scaled - 512) * 2
    } else {
        *scale_level = 0;
        scaled
    }
}

/// The decoded value never decreases as the code grows.
pub proof fn lemma_varbitscale_monotonic(a: int, b: int)
    requires
        0 <= a <= b,
    ensures
        vbs_spec(a).0 <= vbs_spec(b).0,
{
}

} // verus!
