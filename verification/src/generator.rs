//! Filling the table: each row of scale nodes is fitted in sweep order, each
//! fit handed the first guess that the sweep prescribes, and the coefficients
//! of a cell are written to the three entries that the layout gives it. A
//! table can be filled row by row, by workers that share it, or as a whole.
use vstd::prelude::*;
use crate::fit::FitError;
use crate::layout::{
    cell_count, cell_in_table, cell_rank, cell_rank_in_bounds, cell_rank_is_injective,
    entries_are_disjoint, entry_count, entry_rank, entry_rank_in_bounds, TableError, TableShape,
};
use crate::scale::{scale_axis, scale_den, scale_num, ScaleNode, MAX_SCALE_STEPS};
use crate::sweep::{node_at, restarts_at, sweep_step, sweep_visits_each_node_once};

verus! {

/// First guess handed to the fit at step `n` of a row: `zero` where the
/// sweep restarts, else the coefficients fitted at the step before.
pub open spec fn first_guess<C>(zero: C, row: Seq<C>, n: int) -> C {
    if restarts_at(row.len() as int, n) {
        zero
    } else {
        row[node_at(row.len() as int, n - 1)]
    }
}

/// Whether `out` is how the fit of node `k` may have ended. The node is
/// fitted from `guess`. Where that fails and the guess was the result of the
/// step before, the node is fitted once more, from `zero`; a fit that fails
/// from `zero` is not tried again.
pub open spec fn settles<C, F: Fn(usize, C) -> Result<C, FitError>>(
    fit: F,
    zero: C,
    k: usize,
    guess: C,
    restart: bool,
    out: Result<C, FitError>,
) -> bool {
    ||| call_ensures(fit, (k, guess), out) && (out.is_ok() || restart)
    ||| !restart && call_ensures(fit, (k, zero), out) && exists|e: FitError| #[trigger]
        call_ensures(fit, (k, guess), Err::<C, FitError>(e))
}

/// Whether the coefficients that `row` holds for the node of step `n` are
/// what fitting that node from the first guess of the step may have given.
pub open spec fn fitted_at<C, F: Fn(usize, C) -> Result<C, FitError>>(
    fit: F,
    zero: C,
    row: Seq<C>,
    n: int,
) -> bool {
    settles(
        fit,
        zero,
        node_at(row.len() as int, n) as usize,
        first_guess(zero, row, n),
        restarts_at(row.len() as int, n),
        Ok::<C, FitError>(row[node_at(row.len() as int, n)]),
    )
}

/// Whether a row was fitted as far as step `n` and the fit of that step's
/// node then failed with `e`: `row` holds what the steps before `n` fitted,
/// and fitting the node from the first guess of step `n` may have ended in
/// `e`.
pub open spec fn failed_at<C, F: Fn(usize, C) -> Result<C, FitError>>(
    fit: F,
    zero: C,
    row: Seq<C>,
    n: int,
    e: FitError,
) -> bool {
    &&& 0 <= n < row.len()
    &&& forall|t: int| 0 <= t < n ==> #[trigger] fitted_at(fit, zero, row, t)
    &&& settles(
        fit,
        zero,
        node_at(row.len() as int, n) as usize,
        first_guess(zero, row, n),
        restarts_at(row.len() as int, n),
        Err::<C, FitError>(e),
    )
}

/// Fits node `k` from `guess`, and once more from `zero` where that fails
/// and the guess was not `zero` to begin with.
fn fit_node<C: Copy, F: Fn(usize, C) -> Result<C, FitError>>(
    fit: &F,
    zero: C,
    k: usize,
    guess: C,
    restart: bool,
) -> (out: Result<C, FitError>)
    requires
        call_requires(*fit, (k, guess)),
        call_requires(*fit, (k, zero)),
    ensures
        settles(*fit, zero, k, guess, restart, out),
{
    match fit(k, guess) {
        Ok(c) => Ok(c),
        Err(e) => {
            if restart {
                Err(e)
            } else {
                fit(k, zero)
            }
        },
    }
}

/// Fits the `res` scale nodes of one row. `fit` is given a node and a first
/// guess and returns the coefficients fitted there. The nodes are fitted in
/// sweep order; the result holds the coefficients of node `k` at index `k`.
/// A fit that fails from the result of the step before is tried again from
/// `zero`; the first fit that fails from `zero` ends the row with its error.
pub fn fit_row<C: Copy, F: Fn(usize, C) -> Result<C, FitError>>(res: usize, zero: C, fit: F) -> (r:
    Result<Vec<C>, FitError>)
    requires
        forall|k: usize, c: C| k < res ==> call_requires(fit, (k, c)),
    ensures
        match r {
            Ok(row) => row@.len() == res && forall|n: int|
                0 <= n < res ==> #[trigger] fitted_at(fit, zero, row@, n),
            Err(e) => exists|row: Seq<C>, n: int|
                #[trigger] failed_at(fit, zero, row, n, e) && row.len() == res,
        },
{
    let mut row: Vec<C> = Vec::new();
    let mut m: usize = 0;
    while m < res
        invariant
            m <= res,
            row@.len() == m,
        decreases res - m,
    {
        row.push(zero);
        m += 1;
    }
    let mut previous: C = zero;
    let mut n: usize = 0;
    while n < res
        invariant
            n <= res,
            row@.len() == res,
            forall|k: usize, c: C| k < res ==> call_requires(fit, (k, c)),
            n > 0 ==> previous == row@[node_at(res as int, n - 1)],
            forall|t: int| 0 <= t < n ==> #[trigger] fitted_at(fit, zero, row@, t),
        decreases res - n,
    {
        let step = sweep_step(res, n);
        let guess = if step.restart {
            zero
        } else {
            previous
        };
        match fit_node(&fit, zero, step.k, guess, step.restart) {
            Ok(c) => {
                let ghost before = row@;
                row.set(step.k, c);
                proof {
                    sweep_visits_each_node_once(res as int, n as int, step.k as int);
                    assert forall|t: int| 0 <= t < n + 1 implies #[trigger] fitted_at(
                        fit,
                        zero,
                        row@,
                        t,
                    ) by {
                        sweep_visits_each_node_once(res as int, t, step.k as int);
                        if t < n {
                            assert(fitted_at(fit, zero, before, t));
                            if t > 0 {
                                sweep_visits_each_node_once(res as int, t - 1, step.k as int);
                            }
                        } else {
                            if n > 0 {
                                sweep_visits_each_node_once(res as int, n - 1, step.k as int);
                            }
                        }
                    }
                }
                previous = c;
            },
            Err(e) => {
                assert(failed_at(fit, zero, row@, n as int, e));
                return Err(e);
            },
        }
        n += 1;
    }
    Ok(row)
}

/// The flat table `table` with the coefficients `c` written to the three
/// entries of cell `(l, k, j, i)`.
pub open spec fn with_cell<T>(table: Seq<T>, res: int, l: int, k: int, j: int, i: int, c: Seq<T>) -> Seq<
    T,
> {
    table.update(entry_rank(res, l, k, j, i, 0), c[0]).update(
        entry_rank(res, l, k, j, i, 1),
        c[1],
    ).update(entry_rank(res, l, k, j, i, 2), c[2])
}

/// Writes the three coefficients of cell `(l, k, j, i)` to its entries of the
/// flat table. No other entry changes.
pub fn store_cell<T: Copy>(
    table: &mut Vec<T>,
    shape: &TableShape,
    l: usize,
    k: usize,
    j: usize,
    i: usize,
    coefficients: [T; 3],
)
    requires
        shape.wf(),
        old(table)@.len() == entry_count(shape.nodes()),
        cell_in_table(shape.nodes(), l as int, k as int, j as int, i as int),
    ensures
        final(table)@ == with_cell(
            old(table)@,
            shape.nodes(),
            l as int,
            k as int,
            j as int,
            i as int,
            coefficients@,
        ),
{
    let e0 = shape.entry_index(l, k, j, i, 0);
    let e1 = shape.entry_index(l, k, j, i, 1);
    let e2 = shape.entry_index(l, k, j, i, 2);
    table.set(e0, coefficients[0]);
    table.set(e1, coefficients[1]);
    table.set(e2, coefficients[2]);
}

/// What is written for a cell is what is read back from it, and writing a
/// cell leaves every other cell as it was: after the coefficients `c` are
/// written to cell `(l, k, j, i)`, coefficient `n` of a cell `(l2, k2, j2,
/// i2)` is `c[n]` if it is that cell, and what it was before if it is not.
pub proof fn stored_cell_reads_back<T>(
    table: Seq<T>,
    res: int,
    l: int,
    k: int,
    j: int,
    i: int,
    c: Seq<T>,
    l2: int,
    k2: int,
    j2: int,
    i2: int,
    n: int,
)
    requires
        table.len() == entry_count(res),
        c.len() == 3,
        cell_in_table(res, l, k, j, i),
        cell_in_table(res, l2, k2, j2, i2),
        0 <= n < 3,
    ensures
        with_cell(table, res, l, k, j, i, c).len() == table.len(),
        with_cell(table, res, l, k, j, i, c)[entry_rank(res, l2, k2, j2, i2, n)] == if l2 == l
            && k2 == k && j2 == j && i2 == i {
            c[n]
        } else {
            table[entry_rank(res, l2, k2, j2, i2, n)]
        },
{
    entry_rank_in_bounds(res, l, k, j, i, 0);
    entry_rank_in_bounds(res, l, k, j, i, 1);
    entry_rank_in_bounds(res, l, k, j, i, 2);
    entry_rank_in_bounds(res, l2, k2, j2, i2, n);
    if !(l2 == l && k2 == k && j2 == j && i2 == i) {
        if entry_rank(res, l2, k2, j2, i2, n) == entry_rank(res, l, k, j, i, 0) {
            entries_are_disjoint(res, l2, k2, j2, i2, n, l, k, j, i, 0);
        }
        if entry_rank(res, l2, k2, j2, i2, n) == entry_rank(res, l, k, j, i, 1) {
            entries_are_disjoint(res, l2, k2, j2, i2, n, l, k, j, i, 1);
        }
        if entry_rank(res, l2, k2, j2, i2, n) == entry_rank(res, l, k, j, i, 2) {
            entries_are_disjoint(res, l2, k2, j2, i2, n, l, k, j, i, 2);
        }
    }
}

/// First guess handed to the fit at step `n` of the row `(l, j, i)` of a
/// table whose fitted coefficients are `cells`, one for each cell, in the
/// order of the layout.
pub open spec fn cell_guess<C>(zero: C, cells: Seq<C>, res: int, l: int, j: int, i: int, n: int) -> C {
    if restarts_at(res, n) {
        zero
    } else {
        cells[cell_rank(res, l, node_at(res, n - 1), j, i)]
    }
}

/// Whether `out` is how the fit of cell `(l, k, j, i)` may have ended. The
/// cell is fitted from `guess`. Where that fails and the guess was the result
/// of the step before, the cell is fitted once more, from `zero`; a fit that
/// fails from `zero` is not tried again.
pub open spec fn cell_settles<C, F: Fn(usize, usize, usize, usize, C) -> Result<C, FitError>>(
    fit: F,
    zero: C,
    l: usize,
    k: usize,
    j: usize,
    i: usize,
    guess: C,
    restart: bool,
    out: Result<C, FitError>,
) -> bool {
    ||| call_ensures(fit, (l, k, j, i, guess), out) && (out.is_ok() || restart)
    ||| !restart && call_ensures(fit, (l, k, j, i, zero), out) && exists|e: FitError| #[trigger]
        call_ensures(fit, (l, k, j, i, guess), Err::<C, FitError>(e))
}

/// Whether the coefficients that `cells` holds for the node of step `n` of
/// the row `(l, j, i)` are what fitting that cell from the first guess of the
/// step may have given.
pub open spec fn cell_fitted<C, F: Fn(usize, usize, usize, usize, C) -> Result<C, FitError>>(
    fit: F,
    zero: C,
    cells: Seq<C>,
    res: int,
    l: int,
    j: int,
    i: int,
    n: int,
) -> bool {
    cell_settles(
        fit,
        zero,
        l as usize,
        node_at(res, n) as usize,
        j as usize,
        i as usize,
        cell_guess(zero, cells, res, l, j, i, n),
        restarts_at(res, n),
        Ok::<C, FitError>(cells[cell_rank(res, l, node_at(res, n), j, i)]),
    )
}

/// Where fitting node `k` with `at_node` is fitting cell `(l, k, j, i)` with
/// `fit`, what settles the node settles the cell.
proof fn node_settles_cell<
    C,
    G: Fn(usize, C) -> Result<C, FitError>,
    F: Fn(usize, usize, usize, usize, C) -> Result<C, FitError>,
>(
    at_node: G,
    fit: F,
    zero: C,
    l: usize,
    k: usize,
    j: usize,
    i: usize,
    guess: C,
    restart: bool,
    out: Result<C, FitError>,
)
    requires
        settles(at_node, zero, k, guess, restart, out),
        forall|g: C, o: Result<C, FitError>| #[trigger]
            call_ensures(at_node, (k, g), o) ==> call_ensures(fit, (l, k, j, i, g), o),
    ensures
        cell_settles(fit, zero, l, k, j, i, guess, restart, out),
{
    if !(call_ensures(at_node, (k, guess), out) && (out.is_ok() || restart)) {
        let e = choose|e: FitError| #[trigger]
            call_ensures(at_node, (k, guess), Err::<C, FitError>(e));
        assert(call_ensures(fit, (l, k, j, i, guess), Err::<C, FitError>(e)));
    }
}

/// Whether every node of the row `(l, j, i)` holds fitted coefficients.
pub open spec fn row_fitted<C, F: Fn(usize, usize, usize, usize, C) -> Result<C, FitError>>(
    fit: F,
    zero: C,
    cells: Seq<C>,
    res: int,
    l: int,
    j: int,
    i: int,
) -> bool {
    forall|n: int| 0 <= n < res ==> #[trigger] cell_fitted(fit, zero, cells, res, l, j, i, n)
}

/// Whether the row `(l1, j1, i1)` is fitted before the row `(l, j, i)`: rows
/// are taken channel by channel, and within a channel by `j`, then by `i`.
pub open spec fn comes_before(l1: int, j1: int, i1: int, l: int, j: int, i: int) -> bool {
    l1 < l || (l1 == l && (j1 < j || (j1 == j && i1 < i)))
}

/// Whether every row that comes before `(l, j, i)` holds fitted coefficients.
pub open spec fn fitted_before<C, F: Fn(usize, usize, usize, usize, C) -> Result<C, FitError>>(
    fit: F,
    zero: C,
    cells: Seq<C>,
    res: int,
    l: int,
    j: int,
    i: int,
) -> bool {
    forall|l1: int, j1: int, i1: int|
        0 <= l1 < 3 && 0 <= j1 < res && 0 <= i1 < res && comes_before(l1, j1, i1, l, j, i)
            ==> #[trigger] row_fitted(fit, zero, cells, res, l1, j1, i1)
}

/// Whether every row of the table holds fitted coefficients.
pub open spec fn all_fitted<C, F: Fn(usize, usize, usize, usize, C) -> Result<C, FitError>>(
    fit: F,
    zero: C,
    cells: Seq<C>,
    res: int,
) -> bool {
    &&& cells.len() == cell_count(res)
    &&& forall|l: int, j: int, i: int|
        0 <= l < 3 && 0 <= j < res && 0 <= i < res ==> #[trigger] row_fitted(
            fit,
            zero,
            cells,
            res,
            l,
            j,
            i,
        )
}

/// Whether `fit` may have failed with `e` on some cell of the table.
pub open spec fn fit_failed<C, F: Fn(usize, usize, usize, usize, C) -> Result<C, FitError>>(
    fit: F,
    res: int,
    e: FitError,
) -> bool {
    exists|l: usize, k: usize, j: usize, i: usize, guess: C|
        cell_in_table(res, l as int, k as int, j as int, i as int) && #[trigger] call_ensures(
            fit,
            (l, k, j, i, guess),
            Err::<C, FitError>(e),
        )
}

/// A row whose cells are the same in `before` and `after` is fitted in one if
/// it is fitted in the other.
proof fn row_stays_fitted<C, F: Fn(usize, usize, usize, usize, C) -> Result<C, FitError>>(
    fit: F,
    zero: C,
    before: Seq<C>,
    after: Seq<C>,
    res: int,
    l: int,
    j: int,
    i: int,
)
    requires
        row_fitted(fit, zero, before, res, l, j, i),
        forall|k: int| 0 <= k < res ==> after[#[trigger] cell_rank(res, l, k, j, i)] == before[cell_rank(res, l, k, j, i)],
    ensures
        row_fitted(fit, zero, after, res, l, j, i),
{
    assert forall|n: int| 0 <= n < res implies #[trigger] cell_fitted(
        fit,
        zero,
        after,
        res,
        l,
        j,
        i,
        n,
    ) by {
        assert(cell_fitted(fit, zero, before, res, l, j, i, n));
        sweep_visits_each_node_once(res, n, 0);
        let k = node_at(res, n);
        assert(after[cell_rank(res, l, k, j, i)] == before[cell_rank(res, l, k, j, i)]);
        if !restarts_at(res, n) {
            sweep_visits_each_node_once(res, n - 1, 0);
            let k0 = node_at(res, n - 1);
            assert(after[cell_rank(res, l, k0, j, i)] == before[cell_rank(res, l, k0, j, i)]);
        }
    }
}

/// Fits every cell of a table. `fit` is given a cell `(l, k, j, i)` and a
/// first guess and returns the coefficients fitted there. The rows are taken
/// channel by channel, by `j` and then by `i`, and the nodes of a row in sweep
/// order. The result holds the coefficients of the cells in the order of the
/// layout. A fit that fails from the result of the step before is tried again
/// from `zero`; the first fit that fails from `zero` ends the work with its
/// error.
pub fn fit_cells<C: Copy, F: Fn(usize, usize, usize, usize, C) -> Result<C, FitError>>(
    shape: &TableShape,
    zero: C,
    fit: F,
) -> (r: Result<Vec<C>, FitError>)
    requires
        shape.wf(),
        forall|l: usize, k: usize, j: usize, i: usize, c: C|
            cell_in_table(shape.nodes(), l as int, k as int, j as int, i as int) ==> call_requires(
                fit,
                (l, k, j, i, c),
            ),
    ensures
        match r {
            Ok(cells) => all_fitted(fit, zero, cells@, shape.nodes()),
            Err(e) => fit_failed(fit, shape.nodes(), e),
        },
{
    let res = shape.res();
    let total = shape.len() / 3;
    let mut cells: Vec<C> = Vec::new();
    let mut m: usize = 0;
    while m < total
        invariant
            m <= total,
            cells@.len() == m,
        decreases total - m,
    {
        cells.push(zero);
        m += 1;
    }
    let fit_ref = &fit;
    let mut l: usize = 0;
    while l < 3
        invariant
            shape.wf(),
            res == shape.nodes(),
            l <= 3,
            *fit_ref == fit,
            cells@.len() == cell_count(res as int),
            fitted_before(*fit_ref, zero, cells@, res as int, l as int, 0, 0),
            forall|l: usize, k: usize, j: usize, i: usize, c: C|
                cell_in_table(res as int, l as int, k as int, j as int, i as int) ==> call_requires(
                    *fit_ref,
                    (l, k, j, i, c),
                ),
        decreases 3 - l,
    {
        let mut j: usize = 0;
        while j < res
            invariant
                shape.wf(),
                res == shape.nodes(),
                l < 3,
                j <= res,
                *fit_ref == fit,
                cells@.len() == cell_count(res as int),
                fitted_before(*fit_ref, zero, cells@, res as int, l as int, j as int, 0),
                forall|l: usize, k: usize, j: usize, i: usize, c: C|
                    cell_in_table(res as int, l as int, k as int, j as int, i as int)
                        ==> call_requires(*fit_ref, (l, k, j, i, c)),
            decreases res - j,
        {
            let mut i: usize = 0;
            while i < res
                invariant
                    shape.wf(),
                    res == shape.nodes(),
                    l < 3,
                    j < res,
                    i <= res,
                    *fit_ref == fit,
                    cells@.len() == cell_count(res as int),
                    fitted_before(*fit_ref, zero, cells@, res as int, l as int, j as int, i as int),
                    forall|l: usize, k: usize, j: usize, i: usize, c: C|
                        cell_in_table(res as int, l as int, k as int, j as int, i as int)
                            ==> call_requires(*fit_ref, (l, k, j, i, c)),
                decreases res - i,
            {
                let at_node = |k: usize, guess: C| -> (out: Result<C, FitError>)
                    requires
                        k < res,
                    ensures
                        call_ensures(*fit_ref, (l, k, j, i, guess), out),
                    { fit_ref(l, k, j, i, guess) };
                let row = match fit_row(res, zero, at_node) {
                    Ok(row) => row,
                    Err(e) => {
                        proof {
                            let (partial, n) = choose|partial: Seq<C>, n: int| #[trigger]
                                failed_at(at_node, zero, partial, n, e) && partial.len() == res;
                            sweep_visits_each_node_once(res as int, n, 0);
                            let k = node_at(res as int, n) as usize;
                            let guess = first_guess(zero, partial, n);
                            let restart = restarts_at(res as int, n);
                            let out = Err::<C, FitError>(e);
                            node_settles_cell(
                                at_node,
                                *fit_ref,
                                zero,
                                l,
                                k,
                                j,
                                i,
                                guess,
                                restart,
                                out,
                            );
                            assert(cell_in_table(
                                res as int,
                                l as int,
                                k as int,
                                j as int,
                                i as int,
                            ));
                            if call_ensures(*fit_ref, (l, k, j, i, guess), out) {
                                assert(fit_failed(*fit_ref, res as int, e));
                            } else {
                                assert(call_ensures(*fit_ref, (l, k, j, i, zero), out));
                                assert(fit_failed(*fit_ref, res as int, e));
                            }
                        }
                        return Err(e);
                    },
                };
                let ghost before = cells@;
                let mut k: usize = 0;
                while k < res
                    invariant
                        shape.wf(),
                        res == shape.nodes(),
                        l < 3,
                        j < res,
                        i < res,
                        k <= res,
                        row@.len() == res,
                        before.len() == cell_count(res as int),
                        cells@.len() == before.len(),
                        forall|l2: int, k2: int, j2: int, i2: int|
                            cell_in_table(res as int, l2, k2, j2, i2) ==> cells@[#[trigger] cell_rank(
                                res as int,
                                l2,
                                k2,
                                j2,
                                i2,
                            )] == if l2 == l && j2 == j && i2 == i && k2 < k {
                                row@[k2]
                            } else {
                                before[cell_rank(res as int, l2, k2, j2, i2)]
                            },
                    decreases res - k,
                {
                    let at = shape.cell_index(l, k, j, i);
                    let ghost earlier = cells@;
                    cells.set(at, row[k]);
                    proof {
                        assert forall|l2: int, k2: int, j2: int, i2: int|
                            cell_in_table(res as int, l2, k2, j2, i2) implies cells@[#[trigger] cell_rank(
                            res as int,
                            l2,
                            k2,
                            j2,
                            i2,
                        )] == if l2 == l && j2 == j && i2 == i && k2 < k + 1 {
                            row@[k2]
                        } else {
                            before[cell_rank(res as int, l2, k2, j2, i2)]
                        } by {
                            cell_rank_in_bounds(res as int, l2, k2, j2, i2);
                            if cell_rank(res as int, l2, k2, j2, i2) == at {
                                cell_rank_is_injective(
                                    res as int,
                                    l2,
                                    k2,
                                    j2,
                                    i2,
                                    l as int,
                                    k as int,
                                    j as int,
                                    i as int,
                                );
                            } else {
                                assert(cells@[cell_rank(res as int, l2, k2, j2, i2)]
                                    == earlier[cell_rank(res as int, l2, k2, j2, i2)]);
                            }
                        }
                    }
                    k += 1;
                }
                proof {
                    let r = res as int;
                    assert forall|l1: int, j1: int, i1: int|
                        0 <= l1 < 3 && 0 <= j1 < r && 0 <= i1 < r && comes_before(
                            l1,
                            j1,
                            i1,
                            l as int,
                            j as int,
                            i + 1,
                        ) implies #[trigger] row_fitted(*fit_ref, zero, cells@, r, l1, j1, i1) by {
                        if l1 == l && j1 == j && i1 == i {
                            assert forall|n: int| 0 <= n < r implies #[trigger] cell_fitted(
                                *fit_ref,
                                zero,
                                cells@,
                                r,
                                l1,
                                j1,
                                i1,
                                n,
                            ) by {
                                assert(fitted_at(at_node, zero, row@, n));
                                sweep_visits_each_node_once(r, n, 0);
                                let kn = node_at(r, n);
                                assert(cells@[cell_rank(r, l1, kn, j1, i1)] == row@[kn]);
                                if !restarts_at(r, n) {
                                    sweep_visits_each_node_once(r, n - 1, 0);
                                    let k0 = node_at(r, n - 1);
                                    assert(cells@[cell_rank(r, l1, k0, j1, i1)] == row@[k0]);
                                }
                                node_settles_cell(
                                    at_node,
                                    *fit_ref,
                                    zero,
                                    l,
                                    kn as usize,
                                    j,
                                    i,
                                    first_guess(zero, row@, n),
                                    restarts_at(r, n),
                                    Ok::<C, FitError>(row@[kn]),
                                );
                            }
                        } else {
                            assert(row_fitted(*fit_ref, zero, before, r, l1, j1, i1));
                            assert forall|k1: int| 0 <= k1 < r implies cells@[#[trigger] cell_rank(
                                r,
                                l1,
                                k1,
                                j1,
                                i1,
                            )] == before[cell_rank(r, l1, k1, j1, i1)] by {}
                            row_stays_fitted(*fit_ref, zero, before, cells@, r, l1, j1, i1);
                        }
                    }
                }
                i += 1;
            }
            j += 1;
        }
        l += 1;
    }
    assert(all_fitted(fit, zero, cells@, res as int)) by {
        assert forall|l1: int, j1: int, i1: int|
            0 <= l1 < 3 && 0 <= j1 < res && 0 <= i1 < res implies #[trigger] row_fitted(
            fit,
            zero,
            cells@,
            res as int,
            l1,
            j1,
            i1,
        ) by {
            assert(comes_before(l1, j1, i1, 3, 0, 0));
        }
    }
    Ok(cells)
}

/// Whether the three entries of cell `r` in the flat table `table` are what
/// `encode` may have returned for the coefficients `c`.
pub open spec fn encoded_at<C, T, E: Fn(C) -> [T; 3]>(encode: E, c: C, table: Seq<T>, r: int) -> bool {
    exists|t: [T; 3]| #[trigger]
        call_ensures(encode, (c,), t) && table[3 * r] == t@[0] && table[3 * r + 1] == t@[1]
            && table[3 * r + 2] == t@[2]
}

/// Lays the fitted coefficients out as the flat table: cell by cell, in the
/// order of the layout, the three numbers that `encode` makes of the cell's
/// coefficients.
pub fn encode_cells<C: Copy, T: Copy, E: Fn(C) -> [T; 3]>(cells: &Vec<C>, encode: E) -> (table: Vec<
    T,
>)
    requires
        forall|c: C| call_requires(encode, (c,)),
    ensures
        table@.len() == 3 * cells@.len(),
        forall|r: int| 0 <= r < cells@.len() ==> #[trigger] encoded_at(encode, cells@[r], table@, r),
{
    let mut table: Vec<T> = Vec::new();
    let mut r: usize = 0;
    while r < cells.len()
        invariant
            r <= cells@.len(),
            table@.len() == 3 * r,
            forall|c: C| call_requires(encode, (c,)),
            forall|q: int| 0 <= q < r ==> #[trigger] encoded_at(encode, cells@[q], table@, q),
        decreases cells@.len() - r,
    {
        let t = encode(cells[r]);
        let ghost before = table@;
        table.push(t[0]);
        table.push(t[1]);
        table.push(t[2]);
        proof {
            assert(encoded_at(encode, cells@[r as int], table@, r as int));
            assert forall|q: int| 0 <= q < r implies #[trigger] encoded_at(
                encode,
                cells@[q],
                table@,
                q,
            ) by {
                assert(encoded_at(encode, cells@[q], before, q));
                let w = choose|w: [T; 3]| #[trigger]
                    call_ensures(encode, (cells@[q],), w) && before[3 * q] == w@[0] && before[3 * q
                        + 1] == w@[1] && before[3 * q + 2] == w@[2];
                assert(call_ensures(encode, (cells@[q],), w) && table@[3 * q] == w@[0] && table@[3
                    * q + 1] == w@[1] && table@[3 * q + 2] == w@[2]);
            }
        }
        r += 1;
    }
    table
}

/// Why no table was generated.
#[derive(Clone, Copy, Debug, PartialEq, Eq, Structural)]
pub enum GenerateError {
    /// The resolution cannot be used.
    Table(TableError),
    /// The fit of some cell failed.
    Fit(FitError),
}

/// A generated table: its scale axis, as exact fractions, and its entries.
pub struct SpectrumTables<T> {
    pub scale: Vec<ScaleNode>,
    pub table: Vec<T>,
}

/// Whether `table` is the flat table of some fitted coefficients: there are
/// coefficients for every cell that `fit` may have returned, each row fitted
/// in sweep order from the first guesses that the sweep prescribes, and the
/// three entries of every cell are what `encode` may have made of them.
pub open spec fn is_generated<
    C,
    T,
    F: Fn(usize, usize, usize, usize, C) -> Result<C, FitError>,
    E: Fn(C) -> [T; 3],
>(fit: F, encode: E, zero: C, res: int, table: Seq<T>) -> bool {
    exists|cells: Seq<C>| #[trigger]
        all_fitted(fit, zero, cells, res) && table.len() == entry_count(res) && forall|r: int|
            0 <= r < cell_count(res) ==> #[trigger] encoded_at(encode, cells[r], table, r)
}

/// Generates the table of resolution `res`: the scale axis, and the entries
/// made by fitting every cell with `fit`, from `zero` where the sweep
/// restarts, and encoding the fitted coefficients with `encode`.
///
/// A resolution under 2 is refused, and so is one whose table cannot be
/// addressed or whose scale axis has more than `MAX_SCALE_STEPS` intervals.
/// Otherwise the table is generated unless the fit of some cell fails from
/// `zero`.
pub fn generate_spectrum_tables<
    C: Copy,
    T: Copy,
    F: Fn(usize, usize, usize, usize, C) -> Result<C, FitError>,
    E: Fn(C) -> [T; 3],
>(res: usize, zero: C, fit: F, encode: E) -> (r: Result<SpectrumTables<T>, GenerateError>)
    requires
        forall|l: usize, k: usize, j: usize, i: usize, c: C|
            cell_in_table(res as int, l as int, k as int, j as int, i as int) ==> call_requires(
                fit,
                (l, k, j, i, c),
            ),
        forall|c: C| call_requires(encode, (c,)),
    ensures
        res < 2 ==> r.is_err() && r->Err_0 == GenerateError::Table(TableError::InvalidResolution),
        res >= 2 && (entry_count(res as int) > usize::MAX || res > MAX_SCALE_STEPS + 1)
            ==> r.is_err() && r->Err_0 == GenerateError::Table(TableError::TooLarge),
        res >= 2 && entry_count(res as int) <= usize::MAX && res <= MAX_SCALE_STEPS + 1 ==> match r {
            Ok(tables) => {
                &&& tables.scale@.len() == res
                &&& forall|k: int|
                    0 <= k < res ==> (#[trigger] tables.scale@[k]).num == scale_num(res as int, k)
                        && tables.scale@[k].den == scale_den(res as int)
                &&& is_generated(fit, encode, zero, res as int, tables.table@)
            },
            Err(GenerateError::Fit(e)) => fit_failed(fit, res as int, e),
            Err(GenerateError::Table(_)) => false,
        },
{
    let shape = match TableShape::new(res) {
        Ok(shape) => shape,
        Err(e) => { return Err(GenerateError::Table(e)); },
    };
    let scale = match scale_axis(res) {
        Ok(scale) => scale,
        Err(e) => { return Err(GenerateError::Table(e)); },
    };
    let cells = match fit_cells(&shape, zero, fit) {
        Ok(cells) => cells,
        Err(e) => { return Err(GenerateError::Fit(e)); },
    };
    let table = encode_cells(&cells, encode);
    assert(is_generated(fit, encode, zero, res as int, table@)) by {
        assert(all_fitted(fit, zero, cells@, res as int));
    }
    Ok(SpectrumTables { scale, table })
}

} // verus!
