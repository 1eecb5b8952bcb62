//! Small generic helpers over values that can be compared, multiplied or
//! copied.
use vstd::prelude::*;
use vstd::std_specs::cmp::{PartialOrdIs, PartialOrdSpec};
use vstd::std_specs::ops::MulSpec;

verus! {

/// What `clamp` returns for a type whose order follows its specification:
/// `min` for a value under it, `max` for a value over it, else the value.
pub open spec fn clamped<T: PartialOrd>(value: T, min: T, max: T) -> T {
    if value.is_lt(&min) {
        min
    } else if value.is_gt(&max) {
        max
    } else {
        value
    }
}

/// The square of a value.
pub fn sqr<T>(val: T) -> (r: T) where T: Copy + core::ops::Mul<Output = T>
    requires
        val.mul_req(val),
    ensures
        T::obeys_mul_spec() ==> r == val.mul_spec(val),
{
    val * val
}

/// Holds a value between two bounds: a value under `min` gives `min`, one
/// over `max` gives `max`, any other is returned as it is. A value that
/// compares with neither bound is returned as it is.
pub fn clamp<T: PartialOrd>(value: T, min: T, max: T) -> (r: T)
    ensures
        r == value || r == min || r == max,
        T::obeys_partial_cmp_spec() ==> r == clamped(value, min, max),
{
    if value < min {
        min
    } else if value > max {
        max
    } else {
        value
    }
}

/// Copies an array into one of another length: the elements that fit are
/// kept in place, and the places past the end of the input hold
/// `default_val`.
pub fn cast_slice<T: Copy, const N: usize, const M: usize>(input: [T; N], default_val: T) -> (r: [
    T;
    M
])
    ensures
        forall|i: int|
            0 <= i < M ==> #[trigger] r@[i] == if i < N {
                input@[i]
            } else {
                default_val
            },
{
    let mut result = [default_val;M];
    let mut i: usize = 0;
    while i < N && i < M
        invariant
            i <= N,
            i <= M,
            forall|t: int| 0 <= t < i ==> #[trigger] result@[t] == input@[t],
            forall|t: int| i <= t < M ==> #[trigger] result@[t] == default_val,
        decreases N - i,
    {
        result[i] = input[i];
        i += 1;
    }
    result
}

} // verus!
