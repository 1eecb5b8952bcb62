//! The scale axis of the table: nodes spaced by a smooth step applied twice,
//! which crowds them towards both ends of the unit interval. Node positions
//! are exact fractions.
use vstd::prelude::*;
use crate::layout::TableError;

verus! {

/// Largest number of intervals for which every node has a 128-bit fraction.
pub const MAX_SCALE_STEPS: usize = 16383;

/// Numerator of the smooth step `3x^2 - 2x^3` at `x = a / b`, over the
/// denominator `b^3`.
pub open spec fn smooth_step_num(a: int, b: int) -> int {
    a * a * (3 * b - 2 * a)
}

/// Denominator of the smooth step at a fraction with denominator `b`.
pub open spec fn smooth_step_den(b: int) -> int {
    b * b * b
}

/// Numerator of node `k` of an axis with `res` nodes.
pub open spec fn scale_num(res: int, k: int) -> int {
    smooth_step_num(smooth_step_num(k, res - 1), smooth_step_den(res - 1))
}

/// Denominator shared by the nodes of an axis with `res` nodes.
pub open spec fn scale_den(res: int) -> int {
    smooth_step_den(smooth_step_den(res - 1))
}

/// A node of the scale axis, as the fraction `num / den`.
#[derive(Clone, Copy, Debug, PartialEq, Eq, Structural)]
pub struct ScaleNode {
    pub num: u128,
    pub den: u128,
}

/// The smooth step maps 0 to 0 and 1 to 1.
pub proof fn smooth_step_fixes_ends(b: int)
    ensures
        smooth_step_num(0, b) == 0,
        smooth_step_num(b, b) == smooth_step_den(b),
{
    assert(b * b * (3 * b - 2 * b) == b * b * b) by (nonlinear_arith);
    assert(0 * 0 * (3 * b - 2 * 0) == 0) by (nonlinear_arith);
}

/// The smooth step is strictly increasing on the unit interval.
pub proof fn smooth_step_is_increasing(a1: int, a2: int, b: int)
    requires
        0 <= a1 < a2 <= b,
    ensures
        smooth_step_num(a1, b) < smooth_step_num(a2, b),
{
    let d = a2 - a1;
    let s = 3 * b * (a1 + a2) - 2 * (a1 * a1 + a1 * a2 + a2 * a2);
    assert(smooth_step_num(a2, b) - smooth_step_num(a1, b) == d * s) by (nonlinear_arith)
        requires
            d == a2 - a1,
            s == 3 * b * (a1 + a2) - 2 * (a1 * a1 + a1 * a2 + a2 * a2),
    ;
    assert(3 * b * (a1 + a2) >= 3 * a2 * (a1 + a2)) by (nonlinear_arith)
        requires
            b >= a2,
            a1 + a2 >= 0,
    ;
    assert(3 * a2 * (a1 + a2) - 2 * (a1 * a1 + a1 * a2 + a2 * a2) == (a2 - a1) * (a2 + 2 * a1))
        by (nonlinear_arith);
    assert((a2 - a1) * (a2 + 2 * a1) > 0) by (nonlinear_arith)
        requires
            0 <= a1 < a2,
    ;
    assert(d * s > 0) by (nonlinear_arith)
        requires
            d > 0,
            s > 0,
    ;
}

/// The smooth step keeps the unit interval: its value lies between 0 and 1.
pub proof fn smooth_step_stays_in_unit(a: int, b: int)
    requires
        0 <= a <= b,
    ensures
        0 <= smooth_step_num(a, b) <= smooth_step_den(b),
{
    smooth_step_fixes_ends(b);
    if 0 < a {
        smooth_step_is_increasing(0, a, b);
    }
    if a < b {
        smooth_step_is_increasing(a, b, b);
    }
}

/// The scale axis rises strictly from node to node.
pub proof fn scale_axis_is_increasing(res: int, k: int)
    requires
        0 <= k,
        k + 1 < res,
    ensures
        scale_num(res, k) < scale_num(res, k + 1),
{
    let n = res - 1;
    smooth_step_is_increasing(k, k + 1, n);
    smooth_step_stays_in_unit(k, n);
    smooth_step_stays_in_unit(k + 1, n);
    smooth_step_is_increasing(
        smooth_step_num(k, n),
        smooth_step_num(k + 1, n),
        smooth_step_den(n),
    );
}

/// The scale axis starts at 0 and ends at 1.
pub proof fn scale_axis_spans_unit(res: int)
    requires
        res >= 2,
    ensures
        scale_num(res, 0) == 0,
        scale_num(res, res - 1) == scale_den(res),
        scale_den(res) > 0,
{
    let n = res - 1;
    smooth_step_fixes_ends(n);
    smooth_step_fixes_ends(smooth_step_den(n));
    assert(n * n * n > 0) by (nonlinear_arith)
        requires
            n > 0,
    ;
    let b = smooth_step_den(n);
    assert(b * b * b > 0) by (nonlinear_arith)
        requires
            b > 0,
    ;
}

/// Numerator of the smooth step at `a / b`, for fractions whose denominator
/// is at most `bound`.
fn smooth_step(a: u128, b: u128, bound: u128) -> (r: u128)
    requires
        a <= b <= bound,
        bound * bound * (3 * bound) <= u128::MAX,
    ensures
        r == smooth_step_num(a as int, b as int),
        r <= smooth_step_den(b as int),
{
    proof {
        let x = a as int;
        let y = b as int;
        let z = bound as int;
        smooth_step_stays_in_unit(x, y);
        assert(x * x <= z * z) by (nonlinear_arith)
            requires
                0 <= x <= z,
        ;
        assert(z * z <= z * z * (3 * z) && 3 * z <= z * z * (3 * z)) by (nonlinear_arith)
            requires
                0 <= z,
        ;
        assert(0 <= x * x * (3 * y - 2 * x) <= z * z * (3 * z)) by (nonlinear_arith)
            requires
                0 <= x <= y,
                y <= z,
                0 <= x * x <= z * z,
        ;
    }
    a * a * (3 * b - 2 * a)
}

/// Node `k` of an axis with `res` nodes, as an exact fraction.
pub fn scale_node(res: usize, k: usize) -> (r: ScaleNode)
    requires
        2 <= res <= MAX_SCALE_STEPS + 1,
        k < res,
    ensures
        r.num == scale_num(res as int, k as int),
        r.den == scale_den(res as int),
        r.num <= r.den,
        r.den > 0,
{
    let n: u128 = (res - 1) as u128;
    let a: u128 = k as u128;
    proof {
        let x = n as int;
        assert(0 < x * x <= 268402689) by (nonlinear_arith)
            requires
                1 <= x <= 16383,
        ;
        assert(0 < x * x * x <= 4397241253887) by (nonlinear_arith)
            requires
                1 <= x <= 16383,
                0 < x * x <= 268402689,
        ;
        assert(x * x * (3 * x) == 3 * (x * x * x)) by (nonlinear_arith);
    }
    let inner = smooth_step(a, n, n);
    let cube: u128 = n * n * n;
    proof {
        let c = cube as int;
        assert(0 < c * c <= 19335730644885715992608769) by (nonlinear_arith)
            requires
                1 <= c <= 4397241253887,
        ;
        assert(0 < c * c * c <= 85023872465738556915154752221791535103) by (nonlinear_arith)
            requires
                1 <= c <= 4397241253887,
                0 < c * c <= 19335730644885715992608769,
        ;
        assert(c * c * (3 * c) == 3 * (c * c * c)) by (nonlinear_arith);
    }
    let outer = smooth_step(inner, cube, cube);
    ScaleNode { num: outer, den: cube * cube * cube }
}

/// All nodes of an axis with `res` nodes, in order. Refuses a resolution
/// under 2, and one with more than `MAX_SCALE_STEPS` intervals.
pub fn scale_axis(res: usize) -> (r: Result<Vec<ScaleNode>, TableError>)
    ensures
        res < 2 ==> r == Err::<Vec<ScaleNode>, TableError>(TableError::InvalidResolution),
        res > MAX_SCALE_STEPS + 1 ==> r == Err::<Vec<ScaleNode>, TableError>(TableError::TooLarge),
        2 <= res <= MAX_SCALE_STEPS + 1 ==> r.is_ok() && r.unwrap()@.len() == res && forall|k: int|
            0 <= k < res ==> (#[trigger] r.unwrap()@[k]).num == scale_num(res as int, k)
                && r.unwrap()@[k].den == scale_den(res as int),
{
    if res < 2 {
        return Err(TableError::InvalidResolution);
    }
    if res > MAX_SCALE_STEPS + 1 {
        return Err(TableError::TooLarge);
    }
    let mut axis: Vec<ScaleNode> = Vec::new();
    let mut k: usize = 0;
    while k < res
        invariant
            2 <= res <= MAX_SCALE_STEPS + 1,
            k <= res,
            axis@.len() == k,
            forall|m: int|
                0 <= m < k ==> (#[trigger] axis@[m]).num == scale_num(res as int, m) && axis@[m].den
                    == scale_den(res as int),
        decreases res - k,
    {
        let node = scale_node(res, k);
        axis.push(node);
        k += 1;
    }
    Ok(axis)
}

} // verus!
