//! The sampling grids of the colour-matching curves and the weights of the
//! composite three-eighths rule that integrates over the fine grid.
use vstd::prelude::*;

verus! {

/// First sampled wavelength, in nanometres.
pub const CIE_LAMBDA_MIN: usize = 360;

/// Last sampled wavelength, in nanometres.
pub const CIE_LAMBDA_MAX: usize = 830;

/// Number of samples of each tabulated curve.
pub const CIE_SAMPLES: usize = 95;

/// Number of samples of the fine grid: three steps to each tabulated step.
pub const CIE_FINE_SAMPLES: usize = (CIE_SAMPLES - 1) * 3 + 1;

/// Weight of fine sample `i`, in eighths of the fine step: 3 at the two ends
/// of the range, 6 where two panels of three steps meet, 9 inside a panel.
pub open spec fn weight_eighths(i: int) -> int {
    if i == 0 || i == CIE_FINE_SAMPLES - 1 {
        3
    } else if (i - 1) % 3 == 2 {
        6
    } else {
        9
    }
}

/// Sum of the weights of the first `n` fine samples, in eighths of the step.
pub open spec fn weight_sum(n: int) -> int
    decreases n,
{
    if n <= 0 {
        0
    } else {
        weight_sum(n - 1) + weight_eighths(n - 1)
    }
}

/// Interval of a tabulated curve in which a position falls: the whole part
/// of the position counted in tabulated steps, held inside the curve.
pub open spec fn segment_of(below: bool, whole: int) -> int {
    if below {
        0
    } else if whole > CIE_SAMPLES - 2 {
        CIE_SAMPLES - 2
    } else {
        whole
    }
}

/// Weight of fine sample `i`, in eighths of the fine step.
pub fn quadrature_weight(i: usize) -> (w: u8)
    ensures
        w == weight_eighths(i as int),
{
    if i == 0 || i == CIE_FINE_SAMPLES - 1 {
        3
    } else if (i - 1) % 3 == 2 {
        6
    } else {
        9
    }
}

/// Interval of a tabulated curve used to interpolate at a position, given
/// whether the position lies below the first sample and, if not, its whole
/// part in tabulated steps. A position outside the curve takes the nearest
/// interval, so the result always has a sample on either side.
pub fn curve_segment(below: bool, whole: usize) -> (r: usize)
    ensures
        r == segment_of(below, whole as int),
        r + 1 < CIE_SAMPLES,
{
    if below {
        0
    } else if whole > CIE_SAMPLES - 2 {
        CIE_SAMPLES - 2
    } else {
        whole
    }
}

/// After the first sample and `t` whole panels the weights add up to 3 and
/// 24 for each panel.
proof fn panels_add_up(t: int)
    requires
        0 <= t,
        3 * t + 1 < CIE_FINE_SAMPLES,
    ensures
        weight_sum(3 * t + 1) == 3 + 24 * t,
    decreases t,
{
    if t == 0 {
        assert(weight_sum(1) == weight_sum(0) + weight_eighths(0));
    } else {
        panels_add_up(t - 1);
        let n = 3 * t + 1;
        assert(weight_sum(n) == weight_sum(n - 1) + weight_eighths(n - 1));
        assert(weight_sum(n - 1) == weight_sum(n - 2) + weight_eighths(n - 2));
        assert(weight_sum(n - 2) == weight_sum(n - 3) + weight_eighths(n - 3));
    }
}

/// The weights add up to the length of the range, 282 fine steps: the rule
/// integrates a constant exactly.
pub proof fn weights_span_the_range()
    ensures
        weight_sum(CIE_FINE_SAMPLES as int) == 8 * (CIE_FINE_SAMPLES - 1),
{
    panels_add_up(93);
    assert(weight_sum(283) == weight_sum(282) + weight_eighths(282));
    assert(weight_sum(282) == weight_sum(281) + weight_eighths(281));
    assert(weight_sum(281) == weight_sum(280) + weight_eighths(280));
}

} // verus!
