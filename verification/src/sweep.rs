//! Order in which the scale nodes of one table row are fitted.
//!
//! A row is fitted in two passes that both begin at a fifth of the axis: one
//! upwards to the last node, each fit started from the result of the one
//! before, and one downwards to node 0, started afresh.
use vstd::prelude::*;

verus! {

/// One fit of a row: the scale node to fit, and whether the fit starts from
/// zero coefficients rather than from the result of the previous step.
#[derive(Clone, Copy, Debug, PartialEq, Eq, Structural)]
pub struct SweepStep {
    pub k: usize,
    pub restart: bool,
}

/// First node of the upward pass.
pub open spec fn split_node(res: int) -> int {
    res / 5
}

/// Scale node fitted at step `n` of a row with `res` nodes.
pub open spec fn node_at(res: int, n: int) -> int {
    if n < res - split_node(res) {
        split_node(res) + n
    } else {
        res - 1 - n
    }
}

/// Whether step `n` starts from zero coefficients: the first step of each
/// pass does.
pub open spec fn restarts_at(res: int, n: int) -> bool {
    n == 0 || n == res - split_node(res)
}

/// Step at which node `k` is fitted.
pub open spec fn step_of(res: int, k: int) -> int {
    if k >= split_node(res) {
        k - split_node(res)
    } else {
        res - 1 - k
    }
}

/// Step `n` of the sweep over a row with `res` nodes.
pub fn sweep_step(res: usize, n: usize) -> (s: SweepStep)
    requires
        n < res,
    ensures
        s.k == node_at(res as int, n as int),
        s.restart == restarts_at(res as int, n as int),
        s.k < res,
{
    let start: usize = res / 5;
    let upward: usize = res - start;
    if n < upward {
        SweepStep { k: start + n, restart: n == 0 }
    } else {
        SweepStep { k: res - 1 - n, restart: n == upward }
    }
}

/// The whole sweep over a row with `res` nodes, in the order of fitting.
pub fn sweep_plan(res: usize) -> (plan: Vec<SweepStep>)
    ensures
        plan@.len() == res,
        forall|n: int|
            0 <= n < res ==> (#[trigger] plan@[n]).k == node_at(res as int, n)
                && plan@[n].restart == restarts_at(res as int, n),
{
    let mut plan: Vec<SweepStep> = Vec::new();
    let mut n: usize = 0;
    while n < res
        invariant
            n <= res,
            plan@.len() == n,
            forall|m: int|
                0 <= m < n ==> (#[trigger] plan@[m]).k == node_at(res as int, m)
                    && plan@[m].restart == restarts_at(res as int, m),
        decreases res - n,
    {
        let step = sweep_step(res, n);
        plan.push(step);
        n += 1;
    }
    plan
}

/// The sweep fits every node of the row exactly once: each step names a node
/// of the row, and each node is fitted at one step only.
pub proof fn sweep_visits_each_node_once(res: int, n: int, k: int)
    requires
        0 <= n < res,
        0 <= k < res,
    ensures
        0 <= node_at(res, n) < res,
        0 <= step_of(res, k) < res,
        node_at(res, step_of(res, k)) == k,
        step_of(res, node_at(res, n)) == n,
{
}

/// A step that does not restart fits a neighbour of the node fitted just
/// before it, so the previous result is a close first guess: one node up in
/// the upward pass, one node down in the downward pass.
pub proof fn continued_steps_are_adjacent(res: int, n: int)
    requires
        0 < n < res,
        !restarts_at(res, n),
    ensures
        n < res - split_node(res) ==> node_at(res, n) == node_at(res, n - 1) + 1,
        n > res - split_node(res) ==> node_at(res, n) == node_at(res, n - 1) - 1,
{
}

/// The upward pass begins at the split node and ends at the last node; the
/// downward pass begins just under the split node and ends at node 0.
pub proof fn passes_cover_both_ends(res: int)
    requires
        res >= 1,
    ensures
        node_at(res, 0) == split_node(res),
        node_at(res, res - split_node(res) - 1) == res - 1,
        split_node(res) > 0 ==> node_at(res, res - split_node(res)) == split_node(res) - 1,
        split_node(res) > 0 ==> node_at(res, res - 1) == 0,
{
}

} // verus!
