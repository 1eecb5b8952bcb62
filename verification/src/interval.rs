//! Bracketing search over a sampled axis.
use vstd::prelude::*;

verus! {

/// Whether `r` brackets the point where a predicate over the inner nodes
/// `1 ..= sz - 2` of an axis with `sz` nodes turns from true to false: the
/// predicate holds at `r` unless `r` is the first interval, and fails at
/// `r + 1` unless `r` is the last one.
pub open spec fn brackets(holds: spec_fn(int) -> bool, sz: int, r: int) -> bool {
    if sz <= 1 {
        r == 0
    } else {
        &&& 0 <= r <= sz - 2
        &&& (r >= 1 ==> holds(r))
        &&& (r + 1 <= sz - 2 ==> !holds(r + 1))
    }
}

/// A predicate that, once false, stays false on the inner nodes.
pub open spec fn true_then_false(holds: spec_fn(int) -> bool, sz: int) -> bool {
    forall|i: int, j: int| 1 <= i <= j <= sz - 2 && #[trigger] holds(j) ==> #[trigger] holds(i)
}

/// Whether `r` is an interval of an axis with `sz` nodes at which `pred`
/// was seen to stop holding: an index in `0 ..= sz - 2` (0 for an axis with
/// fewer than two nodes) such that `pred` answered true at `r` unless `r` is
/// 0, and false at `r + 1` unless that is the last node.
pub open spec fn found<F: Fn(usize) -> bool>(pred: F, sz: usize, r: usize) -> bool {
    &&& sz <= 1 ==> r == 0
    &&& sz >= 2 ==> r <= sz - 2
    &&& r >= 1 ==> call_ensures(pred, (r,), true)
    &&& r + 1 <= sz - 2 ==> call_ensures(pred, ((r + 1) as usize,), false)
}

/// Index of the interval of an axis with `sz` nodes in which a predicate
/// stops holding, found by bisection over the inner nodes `1 ..= sz - 2`.
pub fn find_interval<F: Fn(usize) -> bool>(sz: usize, pred: F) -> (r: usize)
    requires
        forall|i: usize| 1 <= i && i + 2 <= sz ==> call_requires(pred, (i,)),
    ensures
        found(pred, sz, r),
{
    if sz <= 1 {
        return 0;
    }
    let mut first: usize = 1;
    let mut size: usize = sz - 2;
    while size > 0
        invariant
            sz >= 2,
            1 <= first,
            first + size <= sz - 1,
            first >= 2 ==> call_ensures(pred, ((first - 1) as usize,), true),
            first + size <= sz - 2 ==> call_ensures(pred, ((first + size) as usize,), false),
            forall|i: usize| 1 <= i && i + 2 <= sz ==> call_requires(pred, (i,)),
        decreases size,
    {
        let half: usize = size >> 1;
        assert(half == size / 2) by (bit_vector)
            requires
                half == size >> 1,
        ;
        let mid: usize = first + half;
        if pred(mid) {
            first = mid + 1;
            size -= half + 1;
        } else {
            size = half;
        }
    }
    first - 1
}

/// Where the answers of `pred` are those of `holds`, what the search found
/// brackets the point where `holds` turns false.
pub proof fn found_is_bracket<F: Fn(usize) -> bool>(
    pred: F,
    holds: spec_fn(int) -> bool,
    sz: usize,
    r: usize,
)
    requires
        found(pred, sz, r),
        forall|i: usize, b: bool|
            1 <= i && i + 2 <= sz && #[trigger] call_ensures(pred, (i,), b) ==> b == holds(
                i as int,
            ),
    ensures
        brackets(holds, sz as int, r as int),
{
}

/// Over a predicate that is true up to some inner node and false after it,
/// only one interval brackets the change: two searches agree.
pub proof fn bracket_is_unique(holds: spec_fn(int) -> bool, sz: int, a: int, b: int)
    requires
        true_then_false(holds, sz),
        brackets(holds, sz, a),
        brackets(holds, sz, b),
    ensures
        a == b,
{
    if sz > 1 {
        if a < b {
            assert(holds(b));
            assert(holds(a + 1));
        } else if b < a {
            assert(holds(a));
            assert(holds(b + 1));
        }
    }
}

} // verus!
