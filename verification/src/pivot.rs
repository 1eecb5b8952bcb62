//! Row bookkeeping of an LU decomposition with partial pivoting: which row
//! is chosen as pivot of a column, and the order of the rows after the
//! exchanges made so far.
use vstd::prelude::*;

verus! {

/// Whether step `t` of a scan that begins at row `first` went as `exceeds`
/// said: the row looked at is kept when it exceeds the one kept before it,
/// and the one kept before stays otherwise.
pub open spec fn scanned<F: Fn(usize, Option<usize>) -> bool>(
    exceeds: F,
    first: usize,
    kept: Seq<Option<usize>>,
    t: int,
) -> bool {
    let k = (first + t) as usize;
    (kept[t + 1] == Some(k) && call_ensures(exceeds, (k, kept[t]), true)) || (kept[t + 1]
        == kept[t] && call_ensures(exceeds, (k, kept[t]), false))
}

/// Whether `kept` records a scan of the rows `first .. end`: the row kept
/// before the first row is looked at, none, and after each row in turn.
pub open spec fn is_scan<F: Fn(usize, Option<usize>) -> bool>(
    exceeds: F,
    first: usize,
    end: usize,
    kept: Seq<Option<usize>>,
) -> bool {
    &&& first <= end
    &&& kept.len() == end - first + 1
    &&& kept[0].is_none()
    &&& forall|t: int| 0 <= t < end - first ==> #[trigger] scanned(exceeds, first, kept, t)
}

/// First row of largest key among the rows `first .. end`, if any key is
/// positive.
pub open spec fn first_largest(keys: Seq<int>, first: int, end: int) -> Option<int>
    decreases end - first,
{
    if end <= first {
        None
    } else {
        match first_largest(keys, first, end - 1) {
            None => if keys[end - 1] > 0 {
                Some(end - 1)
            } else {
                None
            },
            Some(b) => if keys[end - 1] > keys[b] {
                Some(end - 1)
            } else {
                Some(b)
            },
        }
    }
}

/// The order of the rows of an `n` by `n` system during its decomposition,
/// column by column.
pub struct RowOrder {
    p: Vec<usize>,
    column: usize,
}

/// Scans the rows `first .. n` of a column for its pivot. `exceeds(k, kept)`
/// tells whether the magnitude of row `k` is larger than that of the row
/// kept so far, or than zero when none is kept. Returns the row kept at the
/// end: `None` when no row of the column exceeds zero.
pub fn select_pivot<F: Fn(usize, Option<usize>) -> bool>(first: usize, n: usize, exceeds: F) -> (r:
    Option<usize>)
    requires
        forall|k: usize, kept: Option<usize>|
            first <= k < n ==> call_requires(exceeds, (k, kept)),
    ensures
        n <= first ==> r.is_none(),
        first <= n ==> exists|kept: Seq<Option<usize>>|
            is_scan(exceeds, first, n, kept) && r == kept[n - first],
        r.is_some() ==> first <= r.unwrap() < n,
{
    if n <= first {
        assert(n == first ==> is_scan(exceeds, first, n, seq![None::<usize>]));
        return None;
    }
    let mut kept: Option<usize> = None;
    let ghost mut trace: Seq<Option<usize>> = seq![None::<usize>];
    let mut k: usize = first;
    while k < n
        invariant
            first <= k <= n,
            is_scan(exceeds, first, k, trace),
            kept == trace[k - first],
            kept.is_some() ==> first <= kept.unwrap() < k,
            forall|row: usize, other: Option<usize>|
                first <= row < n ==> call_requires(exceeds, (row, other)),
        decreases n - k,
    {
        let ghost before = trace;
        if exceeds(k, kept) {
            kept = Some(k);
        }
        proof {
            trace = before.push(kept);
            assert(scanned(exceeds, first, trace, k - first));
            assert forall|t: int| 0 <= t < k - first implies #[trigger] scanned(
                exceeds,
                first,
                trace,
                t,
            ) by {
                assert(scanned(exceeds, first, before, t));
            }
        }
        k += 1;
    }
    kept
}

/// Where magnitudes are measured by keys that are never negative and a row
/// exceeds another when its key is larger, a scan keeps the first row of
/// largest key among those it has looked at, and none while every key was
/// zero.
pub proof fn pivot_is_first_largest<F: Fn(usize, Option<usize>) -> bool>(
    exceeds: F,
    keys: Seq<int>,
    first: usize,
    end: usize,
    kept: Seq<Option<usize>>,
    t: int,
)
    requires
        end <= keys.len(),
        is_scan(exceeds, first, end, kept),
        0 <= t <= end - first,
        forall|k: usize, other: Option<usize>, b: bool|
            first <= k < end && (other.is_some() ==> first <= other.unwrap() < end)
                && #[trigger] call_ensures(exceeds, (k, other), b) ==> b == (keys[k as int] > (
            match other {
                Some(row) => keys[row as int],
                None => 0,
            })),
    ensures
        match first_largest(keys, first as int, first + t) {
            Some(row) => kept[t] == Some(row as usize) && first <= row < first + t,
            None => kept[t].is_none(),
        },
    decreases t,
{
    if t > 0 {
        pivot_is_first_largest(exceeds, keys, first, end, kept, t - 1);
        assert(scanned(exceeds, first, kept, t - 1));
    }
}

impl RowOrder {
    /// Size of the system.
    pub closed spec fn size(&self) -> int {
        self.p@.len() - 1
    }

    /// Which row of the system, counted as it was given, now stands at each place.
    pub closed spec fn rows(&self) -> Seq<usize> {
        self.p@.take(self.p@.len() - 1)
    }

    /// Number of columns whose pivot has been chosen.
    pub closed spec fn columns_done(&self) -> int {
        self.column as int
    }

    /// Number of exchanges made.
    pub closed spec fn exchanges(&self) -> int {
        self.p@.last() - self.size()
    }

    /// The rows are a rearrangement of `0 .. n`, and no more exchanges were
    /// made than columns were done.
    pub closed spec fn wf(&self) -> bool {
        &&& self.p@.len() >= 1
        &&& self.size() <= usize::MAX / 2
        &&& self.column <= self.size()
        &&& 0 <= self.exchanges() <= self.column
        &&& forall|i: int| 0 <= i < self.size() ==> #[trigger] self.p@[i] < self.size()
        &&& forall|i: int, j: int|
            0 <= i < j < self.size() ==> #[trigger] self.p@[i] != #[trigger] self.p@[j]
    }

    /// The rows in the order in which they were given, before any column is done. There is
    /// none for a system of more than `usize::MAX / 2` rows.
    pub fn identity(n: usize) -> (r: Option<RowOrder>)
        ensures
            n > usize::MAX / 2 ==> r.is_none(),
            n <= usize::MAX / 2 ==> r.is_some() && r.unwrap().wf() && r.unwrap().size() == n
                && r.unwrap().columns_done() == 0 && r.unwrap().exchanges() == 0
                && r.unwrap().rows().len() == n && forall|i: int|
                0 <= i < n ==> #[trigger] r.unwrap().rows()[i] == i,
    {
        if n > usize::MAX / 2 {
            return None;
        }
        let mut p: Vec<usize> = Vec::new();
        let mut i: usize = 0;
        while i <= n
            invariant
                n <= usize::MAX / 2,
                i <= n + 1,
                p@.len() == i,
                forall|t: int| 0 <= t < i ==> #[trigger] p@[t] == t,
            decreases n + 1 - i,
        {
            p.push(i);
            i += 1;
        }
        Some(RowOrder { p, column: 0 })
    }

    /// Size of the system.
    pub fn len(&self) -> (r: usize)
        requires
            self.wf(),
        ensures
            r == self.size(),
    {
        self.p.len() - 1
    }

    /// The row of the system, counted as it was given, that stands at place `i`.
    pub fn row(&self, i: usize) -> (r: usize)
        requires
            self.wf(),
            i < self.size(),
        ensures
            r == self.rows()[i as int],
            r < self.size(),
    {
        self.p[i]
    }

    /// Number of exchanges made.
    pub fn exchange_count(&self) -> (r: usize)
        requires
            self.wf(),
        ensures
            r == self.exchanges(),
    {
        let n = self.p.len() - 1;
        self.p[n] - n
    }

    /// The column whose pivot is chosen next.
    pub fn next_column(&self) -> (r: usize)
        requires
            self.wf(),
        ensures
            r == self.columns_done(),
            r <= self.size(),
    {
        self.column
    }

    /// The right-hand side `b` in the order of the rows: place `i` of the result
    /// holds the entry of `b` that belongs to the row standing at place `i`.
    pub fn arrange<T: Copy>(&self, b: &Vec<T>) -> (r: Vec<T>)
        requires
            self.wf(),
            b@.len() == self.size(),
        ensures
            r@.len() == self.size(),
            forall|i: int| 0 <= i < self.size() ==> #[trigger] r@[i] == b@[self.rows()[i] as int],
    {
        let n = self.p.len() - 1;
        let mut r: Vec<T> = Vec::new();
        let mut i: usize = 0;
        while i < n
            invariant
                self.wf(),
                n == self.size(),
                b@.len() == n,
                i <= n,
                r@.len() == i,
                forall|t: int| 0 <= t < i ==> #[trigger] r@[t] == b@[self.rows()[t] as int],
            decreases n - i,
        {
            r.push(b[self.p[i]]);
            i += 1;
        }
        r
    }

    /// Takes the row at place `row` as pivot of the next column: the rows at
    /// that place and at the column's place change places, which counts as
    /// an exchange unless they are the same place. Returns whether an
    /// exchange was made.
    pub fn pivot_on(&mut self, row: usize) -> (exchanged: bool)
        requires
            old(self).wf(),
            old(self).columns_done() <= row < old(self).size(),
        ensures
            final(self).wf(),
            final(self).size() == old(self).size(),
            final(self).rows().len() == final(self).size(),
            final(self).columns_done() == old(self).columns_done() + 1,
            exchanged == (row != old(self).columns_done()),
            final(self).exchanges() == old(self).exchanges() + if exchanged {
                1int
            } else {
                0int
            },
            final(self).rows() == old(self).rows().update(
                old(self).columns_done(),
                old(self).rows()[row as int],
            ).update(row as int, old(self).rows()[old(self).columns_done()]),
    {
        let n = self.p.len() - 1;
        let column = self.column;
        let exchanged = row != column;
        if exchanged {
            let a = self.p[column];
            let b = self.p[row];
            let count = self.p[n];
            self.p.set(column, b);
            self.p.set(row, a);
            self.p.set(n, count + 1);
        }
        self.column = column + 1;
        assert(self.rows() =~= old(self).rows().update(
            old(self).columns_done(),
            old(self).rows()[row as int],
        ).update(row as int, old(self).rows()[old(self).columns_done()]));
        exchanged
    }
}

/// The rows always name every row of the system once: no row is lost or
/// doubled by the exchanges.
pub proof fn rows_are_distinct(order: RowOrder, i: int, j: int)
    requires
        order.wf(),
        0 <= i < order.size(),
        0 <= j < order.size(),
        i != j,
    ensures
        order.rows().len() == order.size(),
        order.rows()[i] < order.size(),
        order.rows()[i] != order.rows()[j],
{
    if i < j {
        assert(order.p@[i] != order.p@[j]);
    } else {
        assert(order.p@[j] != order.p@[i]);
    }
}

} // verus!
