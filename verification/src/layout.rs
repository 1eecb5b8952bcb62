//! Layout of the coefficient table: a flat array indexed by dominant channel,
//! scale node, two chroma nodes and coefficient, in that order of significance.
use vstd::prelude::*;
use vstd::arithmetic::div_mod::lemma_fundamental_div_mod_converse;
use vstd::arithmetic::mul::lemma_mul_inequality;

verus! {

/// Number of colour channels, each of which can be the dominant one.
pub const CHANNELS: usize = 3;

/// Number of polynomial coefficients stored per cell.
pub const COEFFICIENTS: usize = 3;

/// Why a resolution cannot be used for a table.
#[derive(Clone, Copy, Debug, PartialEq, Eq, Structural)]
pub enum TableError {
    /// Fewer than two nodes per axis: the axis has no interval.
    InvalidResolution,
    /// The table would have more entries than can be addressed.
    TooLarge,
    /// The data handed over do not have the length that the resolution asks.
    LengthMismatch,
}

/// Number of cells of a table with `res` nodes per axis.
pub open spec fn cell_count(res: int) -> int {
    3 * (res * res * res)
}

/// Number of entries of a table with `res` nodes per axis.
pub open spec fn entry_count(res: int) -> int {
    3 * cell_count(res)
}

/// Position of cell `(l, k, j, i)` among the cells: dominant channel `l`,
/// scale node `k`, then chroma nodes `j` and `i`.
pub open spec fn cell_rank(res: int, l: int, k: int, j: int, i: int) -> int {
    ((l * res + k) * res + j) * res + i
}

/// Position of coefficient `c` of cell `(l, k, j, i)` in the flat table.
pub open spec fn entry_rank(res: int, l: int, k: int, j: int, i: int, c: int) -> int {
    3 * cell_rank(res, l, k, j, i) + c
}

/// Whether `(l, k, j, i)` names a cell of a table with `res` nodes per axis.
pub open spec fn cell_in_table(res: int, l: int, k: int, j: int, i: int) -> bool {
    0 <= l < 3 && 0 <= k < res && 0 <= j < res && 0 <= i < res
}

/// The dimensions of a table: one resolution shared by the three axes.
#[derive(Clone, Copy, Debug)]
pub struct TableShape {
    res: usize,
}

/// The cell ranks of a table stay below its cell count.
pub proof fn cell_rank_in_bounds(res: int, l: int, k: int, j: int, i: int)
    requires
        cell_in_table(res, l, k, j, i),
    ensures
        0 <= l * res + k < 3 * res,
        0 <= (l * res + k) * res + j < 3 * (res * res),
        0 <= cell_rank(res, l, k, j, i) < cell_count(res),
{
    assert(0 <= l * res && l * res <= 2 * res) by (nonlinear_arith)
        requires
            0 <= l <= 2,
            0 <= res,
    ;
    let a = l * res + k;
    assert(0 <= a * res && a * res <= (3 * res - 1) * res) by (nonlinear_arith)
        requires
            0 <= a <= 3 * res - 1,
            0 <= res,
    ;
    assert((3 * res - 1) * res == 3 * (res * res) - res) by (nonlinear_arith);
    let b = a * res + j;
    assert(0 <= b * res && b * res <= (3 * (res * res) - 1) * res) by (nonlinear_arith)
        requires
            0 <= b <= 3 * (res * res) - 1,
            0 <= res,
    ;
    assert((3 * (res * res) - 1) * res == 3 * (res * res * res) - res) by (nonlinear_arith);
}

/// Two cells with the same rank are the same cell.
pub proof fn cell_rank_is_injective(
    res: int,
    l1: int,
    k1: int,
    j1: int,
    i1: int,
    l2: int,
    k2: int,
    j2: int,
    i2: int,
)
    requires
        cell_in_table(res, l1, k1, j1, i1),
        cell_in_table(res, l2, k2, j2, i2),
        cell_rank(res, l1, k1, j1, i1) == cell_rank(res, l2, k2, j2, i2),
    ensures
        l1 == l2 && k1 == k2 && j1 == j2 && i1 == i2,
{
    let x = cell_rank(res, l1, k1, j1, i1);
    let b1 = (l1 * res + k1) * res + j1;
    let b2 = (l2 * res + k2) * res + j2;
    lemma_fundamental_div_mod_converse(x, res, b1, i1);
    lemma_fundamental_div_mod_converse(x, res, b2, i2);
    let a1 = l1 * res + k1;
    let a2 = l2 * res + k2;
    lemma_fundamental_div_mod_converse(b1, res, a1, j1);
    lemma_fundamental_div_mod_converse(b1, res, a2, j2);
    lemma_fundamental_div_mod_converse(a1, res, l1, k1);
    lemma_fundamental_div_mod_converse(a1, res, l2, k2);
}

/// Distinct coefficients of the table lie at distinct positions: writers that
/// own different cells never touch the same entry.
pub proof fn entries_are_disjoint(
    res: int,
    l1: int,
    k1: int,
    j1: int,
    i1: int,
    c1: int,
    l2: int,
    k2: int,
    j2: int,
    i2: int,
    c2: int,
)
    requires
        cell_in_table(res, l1, k1, j1, i1),
        cell_in_table(res, l2, k2, j2, i2),
        0 <= c1 < 3,
        0 <= c2 < 3,
        entry_rank(res, l1, k1, j1, i1, c1) == entry_rank(res, l2, k2, j2, i2, c2),
    ensures
        l1 == l2 && k1 == k2 && j1 == j2 && i1 == i2 && c1 == c2,
{
    cell_rank_is_injective(res, l1, k1, j1, i1, l2, k2, j2, i2);
}

/// Every entry of the table lies inside it.
pub proof fn entry_rank_in_bounds(res: int, l: int, k: int, j: int, i: int, c: int)
    requires
        cell_in_table(res, l, k, j, i),
        0 <= c < 3,
    ensures
        0 <= entry_rank(res, l, k, j, i, c) < entry_count(res),
{
    cell_rank_in_bounds(res, l, k, j, i);
}

/// Walking the table with `l` outermost, then `k`, `j`, `i`, and the
/// coefficient innermost visits the entries in the order of their positions,
/// one after the other.
pub proof fn entries_follow_nesting(res: int, l: int, k: int, j: int, i: int, c: int)
    requires
        cell_in_table(res, l, k, j, i),
        0 <= c < 3,
    ensures
        entry_rank(res, 0, 0, 0, 0, 0) == 0,
        c + 1 < 3 ==> entry_rank(res, l, k, j, i, c + 1) == entry_rank(res, l, k, j, i, c) + 1,
        i + 1 < res ==> entry_rank(res, l, k, j, i + 1, 0) == entry_rank(res, l, k, j, i, 2) + 1,
        j + 1 < res ==> entry_rank(res, l, k, j + 1, 0, 0) == entry_rank(res, l, k, j, res - 1, 2)
            + 1,
        k + 1 < res ==> entry_rank(res, l, k + 1, 0, 0, 0) == entry_rank(
            res,
            l,
            k,
            res - 1,
            res - 1,
            2,
        ) + 1,
        l + 1 < 3 ==> entry_rank(res, l + 1, 0, 0, 0, 0) == entry_rank(
            res,
            l,
            res - 1,
            res - 1,
            res - 1,
            2,
        ) + 1,
        entry_rank(res, 2, res - 1, res - 1, res - 1, 2) + 1 == entry_count(res),
{
    assert(((l * res + k) * res + (j + 1)) * res == ((l * res + k) * res + j) * res + res)
        by (nonlinear_arith);
    assert(((l * res + (k + 1)) * res + 0) * res == ((l * res + k) * res + (res - 1)) * res + res)
        by (nonlinear_arith);
    assert((((l + 1) * res + 0) * res + 0) * res == ((l * res + (res - 1)) * res + (res - 1)) * res
        + res) by (nonlinear_arith);
    assert(((2 * res + (res - 1)) * res + (res - 1)) * res + (res - 1) + 1 == 3 * (res * res
        * res)) by (nonlinear_arith);
    assert(((0 * res + 0) * res + 0) * res + 0 == 0) by (nonlinear_arith);
}

/// The two channels that follow channel `l`, in cyclic order: the first
/// runs along `i`, the second along `j`.
pub open spec fn chroma_channels(l: int) -> (int, int) {
    ((l + 1) % 3, (l + 2) % 3)
}

/// The two channels other than the dominant channel `l`, in cyclic order.
pub fn secondary_channels(l: usize) -> (r: (usize, usize))
    requires
        l < 3,
    ensures
        r.0 == chroma_channels(l as int).0,
        r.1 == chroma_channels(l as int).1,
        r.0 < 3 && r.1 < 3,
        r.0 != l && r.1 != l && r.0 != r.1,
{
    ((l + 1) % 3, (l + 2) % 3)
}

impl TableShape {
    /// The resolution is at least 2 and the whole table can be addressed.
    pub closed spec fn wf(&self) -> bool {
        self.res >= 2 && entry_count(self.res as int) <= usize::MAX
    }

    /// Nodes per axis.
    pub closed spec fn nodes(&self) -> int {
        self.res as int
    }

    /// A shape with `res` nodes per axis. Refuses a resolution under 2, and
    /// one whose table has more than `usize::MAX` entries.
    pub fn new(res: usize) -> (r: Result<TableShape, TableError>)
        ensures
            res < 2 ==> r == Err::<TableShape, TableError>(TableError::InvalidResolution),
            res >= 2 && entry_count(res as int) > usize::MAX ==> r == Err::<TableShape, TableError>(
                TableError::TooLarge,
            ),
            res >= 2 && entry_count(res as int) <= usize::MAX ==> r.is_ok() && r.unwrap().wf()
                && r.unwrap().nodes() == res,
    {
        if res < 2 {
            return Err(TableError::InvalidResolution);
        }
        let ghost n = res as int;
        proof {
            assert(n * n >= n && n * n * n >= n * n) by (nonlinear_arith)
                requires
                    n >= 2,
            ;
        }
        let sq = match res.checked_mul(res) {
            Some(v) => v,
            None => { return Err(TableError::TooLarge); },
        };
        let cube = match sq.checked_mul(res) {
            Some(v) => v,
            None => { return Err(TableError::TooLarge); },
        };
        match cube.checked_mul(9) {
            Some(_) => Ok(TableShape { res }),
            None => Err(TableError::TooLarge),
        }
    }

    /// Nodes per axis.
    pub fn res(&self) -> (r: usize)
        requires
            self.wf(),
        ensures
            r == self.nodes(),
            r >= 2,
    {
        self.res
    }

    /// Number of entries of the flat table: three coefficients for each cell.
    pub fn len(&self) -> (r: usize)
        requires
            self.wf(),
        ensures
            r == entry_count(self.nodes()),
    {
        let ghost n = self.res as int;
        proof {
            assert(n * n >= 0 && n * n * n >= n * n) by (nonlinear_arith)
                requires
                    n >= 2,
            ;
        }
        9 * (self.res * self.res * self.res)
    }

    /// Position of cell `(l, k, j, i)` among the cells of the table.
    pub fn cell_index(&self, l: usize, k: usize, j: usize, i: usize) -> (r: usize)
        requires
            self.wf(),
            cell_in_table(self.nodes(), l as int, k as int, j as int, i as int),
        ensures
            r == cell_rank(self.nodes(), l as int, k as int, j as int, i as int),
            r < cell_count(self.nodes()),
    {
        proof {
            cell_rank_in_bounds(self.res as int, l as int, k as int, j as int, i as int);
            let n = self.res as int;
            assert(3 * n <= 3 * (n * n) && 3 * (n * n) <= 3 * (n * n * n) && l * n >= 0)
                by (nonlinear_arith)
                requires
                    n >= 2,
                    l >= 0,
            ;
        }
        ((l * self.res + k) * self.res + j) * self.res + i
    }

    /// Position of coefficient `c` of cell `(l, k, j, i)` in the flat table.
    pub fn entry_index(&self, l: usize, k: usize, j: usize, i: usize, c: usize) -> (r: usize)
        requires
            self.wf(),
            cell_in_table(self.nodes(), l as int, k as int, j as int, i as int),
            c < 3,
        ensures
            r == entry_rank(self.nodes(), l as int, k as int, j as int, i as int, c as int),
            r < entry_count(self.nodes()),
    {
        let cell = self.cell_index(l, k, j, i);
        3 * cell + c
    }
}

} // verus!
