//! The iteration of the Gauss-Newton fit: how many steps are taken, when the
//! fit stops, and when it fails. The arithmetic of one step is the caller's.
use vstd::prelude::*;

verus! {

/// Why a fit produced no coefficients.
#[derive(Clone, Copy, Debug, PartialEq, Eq, Structural)]
pub enum FitError {
    /// The Jacobian of the residual could not be decomposed.
    SingularJacobian,
}

/// What one Gauss-Newton step did to the coefficients it was given.
pub enum Step<C> {
    /// The Jacobian was singular: no update was made.
    Singular,
    /// The coefficients were updated; `converged` tells whether the residual
    /// measured at the start of the step was already below the threshold.
    Moved { coefficients: C, converged: bool },
}

/// Whether `step`, given `trace[t]`, may have produced `trace[t + 1]` with
/// the stated convergence flag.
pub open spec fn moved<C, F: Fn(C) -> Step<C>>(
    step: F,
    trace: Seq<C>,
    t: int,
    converged: bool,
) -> bool {
    call_ensures(step, (trace[t],), Step::Moved { coefficients: trace[t + 1], converged })
}

/// Whether `trace` records a fit of at most `max_iter` steps from `start`
/// that ended in `result`. The trace holds the coefficients before the first
/// step and after each step taken. Every step but the last left the fit
/// unconverged. A fit that succeeds returns the last coefficients, and its
/// last step either converged or used up the budget. A fit that fails met a
/// singular Jacobian at the last coefficients, within the budget.
pub open spec fn is_run<C, F: Fn(C) -> Step<C>>(
    step: F,
    start: C,
    max_iter: int,
    trace: Seq<C>,
    result: Result<C, FitError>,
) -> bool {
    let steps = trace.len() - 1;
    &&& steps >= 0
    &&& trace[0] == start
    &&& steps <= max_iter
    &&& forall|t: int| 0 <= t < steps - 1 ==> #[trigger] moved(step, trace, t, false)
    &&& match result {
        Ok(c) => {
            &&& c == trace[steps]
            &&& steps == 0 ==> max_iter == 0
            &&& steps > 0 ==> (moved(step, trace, steps - 1, true) || (steps == max_iter && moved(
                step,
                trace,
                steps - 1,
                false,
            )))
        },
        Err(e) => {
            &&& e == FitError::SingularJacobian
            &&& steps < max_iter
            &&& steps > 0 ==> moved(step, trace, steps - 1, false)
            &&& call_ensures(step, (trace[steps],), Step::<C>::Singular)
        },
    }
}

/// Runs a Gauss-Newton fit: applies `step` to the coefficients, starting
/// from `start`, until a step reports convergence or `max_iter` steps have
/// been taken, and returns the coefficients reached. Running out of steps is
/// no failure. The fit fails only when a step finds a singular Jacobian.
pub fn gauss_newton<C, F: Fn(C) -> Step<C>>(start: C, max_iter: usize, step: F) -> (r: Result<
    C,
    FitError,
>)
    requires
        forall|c: C| call_requires(step, (c,)),
    ensures
        exists|trace: Seq<C>| is_run(step, start, max_iter as int, trace, r),
        max_iter == 0 ==> r == Ok::<C, FitError>(start),
{
    let ghost mut trace: Seq<C> = seq![start];
    let mut current = start;
    let mut taken: usize = 0;
    while taken < max_iter
        invariant
            forall|c: C| call_requires(step, (c,)),
            taken <= max_iter,
            trace.len() == taken + 1,
            trace[0] == start,
            trace[taken as int] == current,
            forall|t: int| 0 <= t < taken ==> #[trigger] moved(step, trace, t, false),
        decreases max_iter - taken,
    {
        match step(current) {
            Step::Singular => {
                let r = Err(FitError::SingularJacobian);
                assert(is_run(step, start, max_iter as int, trace, r));
                return r;
            },
            Step::Moved { coefficients, converged } => {
                let ghost before = trace;
                proof {
                    trace = before.push(coefficients);
                    assert(moved(step, trace, taken as int, converged));
                    assert forall|t: int| 0 <= t < taken implies #[trigger] moved(
                        step,
                        trace,
                        t,
                        false,
                    ) by {
                        assert(moved(step, before, t, false));
                    }
                }
                current = coefficients;
                taken += 1;
                if converged {
                    let r = Ok(current);
                    assert(is_run(step, start, max_iter as int, trace, r));
                    return r;
                }
            },
        }
    }
    let r = Ok(current);
    assert(is_run(step, start, max_iter as int, trace, r));
    r
}

} // verus!
