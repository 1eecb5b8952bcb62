use spectrum_table::fit::{gauss_newton, FitError, Step};
use spectrum_table::generator::{fit_row, store_cell};
use spectrum_table::layout::TableShape;
use spectrum_table::pivot::{select_pivot, RowOrder};
use std::cell::RefCell;

fn newton_sqrt2(x: f64) -> Step<f64> {
    let residual = x * x - 2.0;
    if x == 0.0 {
        return Step::Singular;
    }
    Step::Moved { coefficients: x - residual / (2.0 * x), converged: residual * residual < 1.0e-6 }
}

#[test]
fn fit_stops_when_a_step_converges() {
    let calls = RefCell::new(0usize);
    let r = gauss_newton(1.0f64, 15, |x| {
        *calls.borrow_mut() += 1;
        newton_sqrt2(x)
    });
    let x = r.unwrap();
    assert!((x - 2.0f64.sqrt()).abs() < 1e-9);
    assert!(*calls.borrow() < 15);
    assert_eq!(*calls.borrow(), 4);
}

#[test]
fn fit_that_runs_out_of_steps_is_no_failure() {
    let calls = RefCell::new(0usize);
    let r = gauss_newton(0i32, 15, |c| {
        *calls.borrow_mut() += 1;
        Step::Moved { coefficients: c + 1, converged: false }
    });
    assert_eq!(r, Ok(15));
    assert_eq!(*calls.borrow(), 15);
}

#[test]
fn fit_without_budget_returns_the_start() {
    let r = gauss_newton(7i32, 0, |_| Step::Singular);
    assert_eq!(r, Ok(7));
}

#[test]
fn fit_fails_on_a_singular_jacobian() {
    let r = gauss_newton(0.0f64, 15, newton_sqrt2);
    assert_eq!(r, Err(FitError::SingularJacobian));
    let r = gauss_newton(0i32, 15, |c| {
        if c == 3 {
            Step::Singular
        } else {
            Step::Moved { coefficients: c + 1, converged: false }
        }
    });
    assert_eq!(r, Err(FitError::SingularJacobian));
}

#[test]
fn fit_applies_the_update_of_the_converging_step() {
    let r = gauss_newton(10i32, 15, |c| Step::Moved { coefficients: c + 5, converged: true });
    assert_eq!(r, Ok(15));
}

#[test]
fn row_is_fitted_in_sweep_order_with_warm_starts() {
    let log = RefCell::new(Vec::new());
    let row = fit_row(10, 0i64, |k, guess| {
        log.borrow_mut().push((k, guess));
        Ok(100 + k as i64)
    })
    .unwrap();
    assert_eq!(row, vec![100, 101, 102, 103, 104, 105, 106, 107, 108, 109]);
    assert_eq!(
        *log.borrow(),
        vec![
            (2, 0),
            (3, 102),
            (4, 103),
            (5, 104),
            (6, 105),
            (7, 106),
            (8, 107),
            (9, 108),
            (1, 0),
            (0, 101)
        ]
    );
}

#[test]
fn row_fit_ends_at_the_first_failure_from_zero() {
    let log = RefCell::new(Vec::new());
    let r = fit_row(10, 0i64, |k, guess| {
        log.borrow_mut().push((k, guess));
        if k == 5 {
            Err(FitError::SingularJacobian)
        } else {
            Ok(k as i64)
        }
    });
    assert_eq!(r, Err(FitError::SingularJacobian));
    assert_eq!(*log.borrow(), vec![(2, 0), (3, 2), (4, 3), (5, 4), (5, 0)]);
}

#[test]
fn failed_warm_start_is_tried_again_from_zero() {
    let log = RefCell::new(Vec::new());
    let row = fit_row(10, 0i64, |k, guess| {
        log.borrow_mut().push((k, guess));
        if k == 5 && guess != 0 {
            Err(FitError::SingularJacobian)
        } else {
            Ok(100 + k as i64)
        }
    })
    .unwrap();
    assert_eq!(row, vec![100, 101, 102, 103, 104, 105, 106, 107, 108, 109]);
    assert_eq!(
        *log.borrow(),
        vec![
            (2, 0),
            (3, 102),
            (4, 103),
            (5, 104),
            (5, 0),
            (6, 105),
            (7, 106),
            (8, 107),
            (9, 108),
            (1, 0),
            (0, 101)
        ]
    );
}

#[test]
fn failed_restart_is_not_tried_again() {
    let calls = RefCell::new(0usize);
    let r = fit_row(10, 0i64, |_, _| {
        *calls.borrow_mut() += 1;
        Err(FitError::SingularJacobian)
    });
    assert_eq!(r, Err(FitError::SingularJacobian));
    assert_eq!(*calls.borrow(), 1);
}

#[test]
fn empty_row_is_fitted_without_a_call() {
    let r = fit_row(0, 0i64, |_, _| Err(FitError::SingularJacobian));
    assert_eq!(r, Ok(vec![]));
}

#[test]
fn cell_is_stored_at_its_three_entries() {
    let shape = TableShape::new(2).unwrap();
    let mut table = vec![0.0f32; shape.len()];
    store_cell(&mut table, &shape, 1, 0, 1, 1, [1.5, 2.5, 3.5]);
    let base = 3 * (((1 * 2 + 0) * 2 + 1) * 2 + 1);
    for (n, v) in table.iter().enumerate() {
        if n == base {
            assert_eq!(*v, 1.5);
        } else if n == base + 1 {
            assert_eq!(*v, 2.5);
        } else if n == base + 2 {
            assert_eq!(*v, 3.5);
        } else {
            assert_eq!(*v, 0.0);
        }
    }
}

#[test]
fn cells_fill_the_table_without_overlap() {
    let shape = TableShape::new(3).unwrap();
    let mut table = vec![usize::MAX; shape.len()];
    for l in 0..3 {
        for k in 0..3 {
            for j in 0..3 {
                for i in 0..3 {
                    let cell = shape.cell_index(l, k, j, i);
                    assert_eq!(table[3 * cell], usize::MAX);
                    store_cell(&mut table, &shape, l, k, j, i, [cell, cell + 1000, cell + 2000]);
                }
            }
        }
    }
    for (n, v) in table.iter().enumerate() {
        assert_eq!(*v, n / 3 + 1000 * (n % 3));
    }
}

#[test]
fn pivot_is_the_first_row_of_largest_magnitude() {
    let column = [0.5f64, -3.0, 2.0, 3.0, -1.0];
    let exceeds = |k: usize, kept: Option<usize>| {
        let best = match kept {
            Some(b) => column[b].abs(),
            None => 0.0,
        };
        column[k].abs() > best
    };
    assert_eq!(select_pivot(0, 5, exceeds), Some(1));
    assert_eq!(select_pivot(2, 5, exceeds), Some(3));
    assert_eq!(select_pivot(4, 5, exceeds), Some(4));
    assert_eq!(select_pivot(5, 5, exceeds), None);
    assert_eq!(select_pivot(6, 5, exceeds), None);
}

#[test]
fn pivot_of_a_zero_column_is_none() {
    let column = [0.0f64, 0.0, 0.0];
    let r = select_pivot(0, 3, |k, kept| {
        column[k].abs() > kept.map_or(0.0, |b: usize| column[b].abs())
    });
    assert_eq!(r, None);
}

#[test]
fn row_order_starts_as_identity() {
    let order = RowOrder::identity(3).unwrap();
    assert_eq!(order.len(), 3);
    assert_eq!(order.next_column(), 0);
    assert_eq!(order.exchange_count(), 0);
    assert_eq!((order.row(0), order.row(1), order.row(2)), (0, 1, 2));
    assert!(RowOrder::identity(usize::MAX).is_none());
    assert_eq!(RowOrder::identity(0).unwrap().len(), 0);
}

#[test]
fn row_order_records_exchanges() {
    let mut order = RowOrder::identity(3).unwrap();
    assert!(order.pivot_on(2));
    assert_eq!((order.row(0), order.row(1), order.row(2)), (2, 1, 0));
    assert_eq!(order.exchange_count(), 1);
    assert_eq!(order.next_column(), 1);
    assert!(!order.pivot_on(1));
    assert_eq!((order.row(0), order.row(1), order.row(2)), (2, 1, 0));
    assert_eq!(order.exchange_count(), 1);
    assert!(order.pivot_on(2) == false);
    assert_eq!(order.next_column(), 3);
    let mut other = RowOrder::identity(3).unwrap();
    assert!(other.pivot_on(1));
    assert!(other.pivot_on(2));
    assert_eq!((other.row(0), other.row(1), other.row(2)), (1, 2, 0));
    assert_eq!(other.exchange_count(), 2);
}

#[test]
fn right_hand_side_is_arranged_by_row_order() {
    let mut order = RowOrder::identity(3).unwrap();
    order.pivot_on(1);
    order.pivot_on(2);
    let b = vec![10.0f64, 20.0, 30.0];
    assert_eq!(order.arrange(&b), vec![20.0, 30.0, 10.0]);
}
