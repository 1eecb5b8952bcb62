//! Reading the table back: which channel dominates a colour, which cell of
//! the grid the colour falls in, and the eight corners of that cell between
//! which the coefficients are interpolated.
use vstd::prelude::*;
use crate::interval::{brackets, find_interval};
use crate::layout::{cell_in_table, entry_count, entry_rank, TableError, TableShape};

verus! {

/// Index of the largest of three channels, from the outcome of comparing
/// them in pairs. Ties go to the later channel.
pub open spec fn dominant_of(first_over_second: bool, first_over_third: bool, second_over_third: bool) -> int {
    if first_over_second {
        if first_over_third {
            0
        } else {
            2
        }
    } else {
        if second_over_third {
            1
        } else {
            2
        }
    }
}

/// Lower corner of the cell that holds a coordinate whose whole part is
/// `whole`, on an axis with `res` nodes: the last interval for anything at or
/// past the last node.
pub open spec fn cell_floor(res: int, whole: int) -> int {
    if whole < res - 2 {
        whole
    } else {
        res - 2
    }
}

/// Whether `zi` is an interval of the scale axis `axis` at which `below` was
/// seen to stop holding: `below` answered true for node `zi` unless that is
/// node 0, and false for node `zi + 1` unless that is the last node.
pub open spec fn bracketed_by<T, P: Fn(T) -> bool>(below: P, axis: Seq<T>, zi: int) -> bool {
    &&& 0 <= zi <= axis.len() - 2
    &&& zi >= 1 ==> call_ensures(below, (axis[zi],), true)
    &&& zi + 1 <= axis.len() - 2 ==> call_ensures(below, (axis[zi + 1],), false)
}

/// Coefficient `c` at the eight corners of the cell of dominant channel `l`
/// whose lower corner is `(xi, yi, zi)`, read from the flat table `entries`.
/// The corner that lies `dx`, `dy`, `dz` nodes above the lower corner along
/// the three axes stands at index `dx + 2 * dy + 4 * dz`.
pub open spec fn corner_values<T>(
    entries: Seq<T>,
    res: int,
    l: int,
    xi: int,
    yi: int,
    zi: int,
    c: int,
) -> Seq<T> {
    Seq::new(
        8,
        |n: int| entries[entry_rank(res, l, zi + n / 4, yi + (n / 2) % 2, xi + n % 2, c)],
    )
}

/// A cell of the grid, named by its lower corner along each axis.
#[derive(Clone, Copy, Debug, PartialEq, Eq, Structural)]
pub struct Cell {
    pub xi: usize,
    pub yi: usize,
    pub zi: usize,
}

/// A coefficient table with its scale axis, over any kind of number.
pub struct RgbToSpectrumTable<T> {
    shape: TableShape,
    coefficients: Vec<T>,
    z_node: Vec<T>,
}

/// Whether `r` is what blending the eight corners `c` of a cell with the
/// weights `dx`, `dy`, `dz` may give, `mid` holding the six values in
/// between: each pair of corners along `x` is blended with `dx`, the results
/// pairwise with `dy`, and the two that remain with `dz`.
pub open spec fn is_blend<T, L: Fn(T, T, T) -> T>(
    lerp: L,
    c: Seq<T>,
    dx: T,
    dy: T,
    dz: T,
    mid: Seq<T>,
    r: T,
) -> bool {
    &&& mid.len() == 6
    &&& call_ensures(lerp, (dx, c[0], c[1]), mid[0])
    &&& call_ensures(lerp, (dx, c[2], c[3]), mid[1])
    &&& call_ensures(lerp, (dy, mid[0], mid[1]), mid[2])
    &&& call_ensures(lerp, (dx, c[4], c[5]), mid[3])
    &&& call_ensures(lerp, (dx, c[6], c[7]), mid[4])
    &&& call_ensures(lerp, (dy, mid[3], mid[4]), mid[5])
    &&& call_ensures(lerp, (dz, mid[2], mid[5]), r)
}

/// Whether `lerp(t, a, b)` gives `a` exactly for the weight `zero` and `b`
/// exactly for the weight `one`.
pub open spec fn exact_at_ends<T, L: Fn(T, T, T) -> T>(lerp: L, zero: T, one: T) -> bool {
    forall|t: T, a: T, b: T, r: T| #[trigger]
        call_ensures(lerp, (t, a, b), r) ==> (t == zero ==> r == a) && (t == one ==> r == b)
}

/// Interpolates between the eight corners of a cell, ordered as `corners`
/// returns them: along `x` with weight `dx`, then along `y` with `dy`, then
/// along `z` with `dz`. `lerp(t, a, b)` blends `a` and `b` with weight `t`.
pub fn trilinear<T: Copy, L: Fn(T, T, T) -> T>(corners: [T; 8], dx: T, dy: T, dz: T, lerp: L) -> (r:
    T)
    requires
        forall|t: T, a: T, b: T| call_requires(lerp, (t, a, b)),
    ensures
        exists|mid: Seq<T>| is_blend(lerp, corners@, dx, dy, dz, mid, r),
{
    let m0 = lerp(dx, corners[0], corners[1]);
    let m1 = lerp(dx, corners[2], corners[3]);
    let m2 = lerp(dy, m0, m1);
    let m3 = lerp(dx, corners[4], corners[5]);
    let m4 = lerp(dx, corners[6], corners[7]);
    let m5 = lerp(dy, m3, m4);
    let r = lerp(dz, m2, m5);
    assert(is_blend(lerp, corners@, dx, dy, dz, seq![m0, m1, m2, m3, m4, m5], r));
    r
}

/// At a grid node the interpolation returns the stored value: when each
/// weight is exactly zero or one, and blending is exact at those weights, the
/// result is the corner that the weights name.
pub proof fn blend_at_node_is_corner<T, L: Fn(T, T, T) -> T>(
    lerp: L,
    zero: T,
    one: T,
    c: Seq<T>,
    ix: int,
    iy: int,
    iz: int,
    mid: Seq<T>,
    r: T,
)
    requires
        c.len() == 8,
        exact_at_ends(lerp, zero, one),
        0 <= ix <= 1 && 0 <= iy <= 1 && 0 <= iz <= 1,
        is_blend(
            lerp,
            c,
            if ix == 0 {
                zero
            } else {
                one
            },
            if iy == 0 {
                zero
            } else {
                one
            },
            if iz == 0 {
                zero
            } else {
                one
            },
            mid,
            r,
        ),
    ensures
        r == c[ix + 2 * iy + 4 * iz],
{
}

/// A lookup at a grid node returns what the table stores there. Take node
/// `(l, k, j, i)` of a table with `res` nodes per axis, the cell that its
/// chroma coordinates select, and along the scale axis an interval `zi` that
/// brackets node `k` on a rising axis. Let `c` hold one coefficient at the
/// corners of that cell, and let each weight be exactly zero where the node is
/// the lower corner and exactly one where it is the upper. Then blending `c`
/// with a `lerp` that is exact at those weights gives the stored coefficient.
pub proof fn lookup_at_node_is_exact<T, L: Fn(T, T, T) -> T>(
    entries: Seq<T>,
    res: int,
    l: int,
    k: int,
    j: int,
    i: int,
    n: int,
    zi: int,
    c: Seq<T>,
    lerp: L,
    zero: T,
    one: T,
    mid: Seq<T>,
    r: T,
)
    requires
        res >= 2,
        0 <= l < 3 && 0 <= k < res && 0 <= j < res && 0 <= i < res && 0 <= n < 3,
        brackets(|m: int| m < k, res, zi),
        c == corner_values(entries, res, l, cell_floor(res, i), cell_floor(res, j), zi, n),
        exact_at_ends(lerp, zero, one),
        is_blend(
            lerp,
            c,
            if i == cell_floor(res, i) {
                zero
            } else {
                one
            },
            if j == cell_floor(res, j) {
                zero
            } else {
                one
            },
            if k == zi {
                zero
            } else {
                one
            },
            mid,
            r,
        ),
    ensures
        r == entries[entry_rank(res, l, k, j, i, n)],
{
    node_is_a_corner(res, i);
    node_is_a_corner(res, j);
    node_ends_its_bracket(res, k, zi);
    let ix = i - cell_floor(res, i);
    let iy = j - cell_floor(res, j);
    let iz = k - zi;
    blend_at_node_is_corner(lerp, zero, one, c, ix, iy, iz, mid, r);
    assert(c[ix + 2 * iy + 4 * iz] == entries[entry_rank(
        res,
        l,
        zi + iz,
        cell_floor(res, j) + iy,
        cell_floor(res, i) + ix,
        n,
    )]);
}

/// Index of the largest of three channels, given which of them exceed which.
pub fn dominant_channel(
    first_over_second: bool,
    first_over_third: bool,
    second_over_third: bool,
) -> (r: usize)
    ensures
        r == dominant_of(first_over_second, first_over_third, second_over_third),
        r < 3,
{
    if first_over_second {
        if first_over_third {
            0
        } else {
            2
        }
    } else {
        if second_over_third {
            1
        } else {
            2
        }
    }
}

/// The channel picked from pairwise comparisons holds the largest value.
pub proof fn dominant_channel_is_largest(v: Seq<int>)
    requires
        v.len() == 3,
    ensures
        ({
            let d = dominant_of(v[0] > v[1], v[0] > v[2], v[1] > v[2]);
            v[d] >= v[0] && v[d] >= v[1] && v[d] >= v[2]
        }),
{
}

/// Where `below` answers for node `m` of the axis what `holds` says of `m`,
/// the interval that a lookup found brackets the point where `holds` turns
/// false.
pub proof fn located_is_bracket<T, P: Fn(T) -> bool>(
    below: P,
    axis: Seq<T>,
    holds: spec_fn(int) -> bool,
    zi: int,
)
    requires
        axis.len() >= 2,
        bracketed_by(below, axis, zi),
        forall|m: int, b: bool|
            1 <= m <= axis.len() - 2 && #[trigger] call_ensures(below, (axis[m],), b) ==> b
                == holds(m),
    ensures
        brackets(holds, axis.len() as int, zi),
{
    if zi >= 1 {
        assert(call_ensures(below, (axis[zi],), true));
    }
    if zi + 1 <= axis.len() - 2 {
        assert(call_ensures(below, (axis[zi + 1],), false));
    }
}

/// A grid node is a corner of the cell that its own coordinate selects: it
/// lies no more than one node above the cell's lower corner.
pub proof fn node_is_a_corner(res: int, i: int)
    requires
        res >= 2,
        0 <= i < res,
    ensures
        0 <= cell_floor(res, i) <= res - 2,
        0 <= i - cell_floor(res, i) <= 1,
{
}

/// On a rising axis the search for the value of node `k` itself, which asks
/// of each node whether it lies below that value, brackets `k` from below: the
/// interval found ends at node `k`, or begins there when `k` is node 0.
pub proof fn node_ends_its_bracket(res: int, k: int, r: int)
    requires
        res >= 2,
        0 <= k < res,
        brackets(|i: int| i < k, res, r),
    ensures
        0 <= r <= res - 2,
        k <= 1 ==> r == 0,
        k >= 1 ==> r == k - 1,
{
    let holds = |i: int| i < k;
    if r >= 1 {
        assert(holds(r));
    }
    if r + 1 <= res - 2 {
        assert(!holds(r + 1));
    }
}

impl<T: Copy> RgbToSpectrumTable<T> {
    /// The axis has one node per grid node and the table one entry per
    /// coefficient.
    pub closed spec fn wf(&self) -> bool {
        &&& self.shape.wf()
        &&& self.z_node@.len() == self.shape.nodes()
        &&& self.coefficients@.len() == entry_count(self.shape.nodes())
    }

    /// Nodes per axis.
    pub closed spec fn nodes(&self) -> int {
        self.shape.nodes()
    }

    /// The flat table.
    pub closed spec fn entries(&self) -> Seq<T> {
        self.coefficients@
    }

    /// The scale axis.
    pub closed spec fn axis(&self) -> Seq<T> {
        self.z_node@
    }

    /// A table of resolution `res` from its scale axis and its flat array of
    /// coefficients. Refuses a resolution that no table can have, and data
    /// whose lengths are not those of that resolution.
    pub fn new(res: usize, z_node: Vec<T>, coefficients: Vec<T>) -> (r: Result<Self, TableError>)
        ensures
            res < 2 ==> r.is_err() && r->Err_0 == TableError::InvalidResolution,
            res >= 2 && entry_count(res as int) > usize::MAX ==> r.is_err() && r->Err_0
                == TableError::TooLarge,
            res >= 2 && entry_count(res as int) <= usize::MAX && (z_node@.len() != res
                || coefficients@.len() != entry_count(res as int)) ==> r.is_err() && r->Err_0
                == TableError::LengthMismatch,
            res >= 2 && entry_count(res as int) <= usize::MAX && z_node@.len() == res
                && coefficients@.len() == entry_count(res as int) ==> r.is_ok() && r->Ok_0.wf()
                && r->Ok_0.nodes() == res && r->Ok_0.entries() == coefficients@ && r->Ok_0.axis()
                == z_node@,
    {
        let shape = match TableShape::new(res) {
            Ok(shape) => shape,
            Err(e) => { return Err(e); },
        };
        if z_node.len() != res || coefficients.len() != shape.len() {
            return Err(TableError::LengthMismatch);
        }
        Ok(RgbToSpectrumTable { shape, coefficients, z_node })
    }

    /// Nodes per axis.
    pub fn res(&self) -> (r: usize)
        requires
            self.wf(),
        ensures
            r == self.nodes(),
            r >= 2,
    {
        self.shape.res()
    }

    /// Node `k` of the scale axis.
    pub fn z_node(&self, k: usize) -> (r: T)
        requires
            self.wf(),
            k < self.nodes(),
        ensures
            r == self.axis()[k as int],
    {
        self.z_node[k]
    }

    /// Coefficient `c` stored for cell `(l, k, j, i)`.
    pub fn coefficient(&self, l: usize, k: usize, j: usize, i: usize, c: usize) -> (r: T)
        requires
            self.wf(),
            cell_in_table(self.nodes(), l as int, k as int, j as int, i as int),
            c < 3,
        ensures
            r == self.entries()[entry_rank(
                self.nodes(),
                l as int,
                k as int,
                j as int,
                i as int,
                c as int,
            )],
    {
        let e = self.shape.entry_index(l, k, j, i, c);
        self.coefficients[e]
    }

    /// The cell in which a colour falls. `x_whole` and `y_whole` are the whole
    /// parts of its two chroma coordinates, in nodes; `below` tells of a node
    /// of the scale axis whether it lies below the colour's dominant channel.
    /// Along the chroma axes the cell is the one at the coordinate, or the
    /// last one. Along the scale axis it is found by bisection: `below` held
    /// at its lower node, unless that is node 0, and failed at its upper node,
    /// unless that is the last node.
    pub fn locate<P: Fn(T) -> bool>(&self, x_whole: usize, y_whole: usize, below: P) -> (cell: Cell)
        requires
            self.wf(),
            forall|t: T| call_requires(below, (t,)),
        ensures
            cell.xi == cell_floor(self.nodes(), x_whole as int),
            cell.yi == cell_floor(self.nodes(), y_whole as int),
            cell.zi + 2 <= self.nodes(),
            bracketed_by(below, self.axis(), cell.zi as int),
    {
        let res = self.shape.res();
        let xi = if x_whole < res - 2 {
            x_whole
        } else {
            res - 2
        };
        let yi = if y_whole < res - 2 {
            y_whole
        } else {
            res - 2
        };
        let axis = &self.z_node;
        let asked = &below;
        let probe = |i: usize| -> (b: bool)
            requires
                i < axis@.len(),
            ensures
                call_ensures(*asked, (axis@[i as int],), b),
            { asked(axis[i]) };
        let zi = find_interval(res, probe);
        Cell { xi, yi, zi }
    }

    /// Coefficient `c` at the eight corners of a cell of dominant channel
    /// `l`. The corner that lies `dx`, `dy`, `dz` nodes above the lower corner
    /// along the three axes stands at index `dx + 2 * dy + 4 * dz`.
    pub fn corners(&self, l: usize, cell: Cell, c: usize) -> (r: [T; 8])
        requires
            self.wf(),
            l < 3,
            c < 3,
            cell.xi + 2 <= self.nodes(),
            cell.yi + 2 <= self.nodes(),
            cell.zi + 2 <= self.nodes(),
        ensures
            r@ == corner_values(
                self.entries(),
                self.nodes(),
                l as int,
                cell.xi as int,
                cell.yi as int,
                cell.zi as int,
                c as int,
            ),
    {
        let Cell { xi, yi, zi } = cell;
        let res = self.res();
        assert(xi + 2 <= res && yi + 2 <= res && zi + 2 <= res);
        let r = [
            self.coefficient(l, zi, yi, xi, c),
            self.coefficient(l, zi, yi, xi + 1, c),
            self.coefficient(l, zi, yi + 1, xi, c),
            self.coefficient(l, zi, yi + 1, xi + 1, c),
            self.coefficient(l, zi + 1, yi, xi, c),
            self.coefficient(l, zi + 1, yi, xi + 1, c),
            self.coefficient(l, zi + 1, yi + 1, xi, c),
            self.coefficient(l, zi + 1, yi + 1, xi + 1, c),
        ];
        assert(r@ =~= corner_values(
            self.entries(),
            self.nodes(),
            l as int,
            xi as int,
            yi as int,
            zi as int,
            c as int,
        ));
        r
    }

    /// The three coefficients at a point of a cell of dominant channel `l`:
    /// each is interpolated between its values at the eight corners of the
    /// cell, with the weights `dx`, `dy`, `dz` along the three axes.
    pub fn interpolate<L: Fn(T, T, T) -> T>(
        &self,
        l: usize,
        cell: Cell,
        dx: T,
        dy: T,
        dz: T,
        lerp: L,
    ) -> (r: [T; 3])
        requires
            self.wf(),
            l < 3,
            cell.xi + 2 <= self.nodes(),
            cell.yi + 2 <= self.nodes(),
            cell.zi + 2 <= self.nodes(),
            forall|t: T, a: T, b: T| call_requires(lerp, (t, a, b)),
        ensures
            forall|c: int|
                0 <= c < 3 ==> exists|mid: Seq<T>|
                    is_blend(
                        lerp,
                        #[trigger] corner_values(
                            self.entries(),
                            self.nodes(),
                            l as int,
                            cell.xi as int,
                            cell.yi as int,
                            cell.zi as int,
                            c,
                        ),
                        dx,
                        dy,
                        dz,
                        mid,
                        r@[c],
                    ),
    {
        let c0 = self.blend(l, cell, 0, dx, dy, dz, &lerp);
        let c1 = self.blend(l, cell, 1, dx, dy, dz, &lerp);
        let c2 = self.blend(l, cell, 2, dx, dy, dz, &lerp);
        [c0, c1, c2]
    }

    /// Coefficient `c` at a point of a cell, interpolated between its values
    /// at the corners.
    fn blend<L: Fn(T, T, T) -> T>(
        &self,
        l: usize,
        cell: Cell,
        c: usize,
        dx: T,
        dy: T,
        dz: T,
        lerp: &L,
    ) -> (r: T)
        requires
            self.wf(),
            l < 3,
            c < 3,
            cell.xi + 2 <= self.nodes(),
            cell.yi + 2 <= self.nodes(),
            cell.zi + 2 <= self.nodes(),
            forall|t: T, a: T, b: T| call_requires(*lerp, (t, a, b)),
        ensures
            exists|mid: Seq<T>|
                is_blend(
                    *lerp,
                    corner_values(
                        self.entries(),
                        self.nodes(),
                        l as int,
                        cell.xi as int,
                        cell.yi as int,
                        cell.zi as int,
                        c as int,
                    ),
                    dx,
                    dy,
                    dz,
                    mid,
                    r,
                ),
    {
        let corners = self.corners(l, cell, c);
        let through = |t: T, a: T, b: T| -> (out: T)
            ensures
                call_ensures(*lerp, (t, a, b), out),
            { lerp(t, a, b) };
        let r = trilinear(corners, dx, dy, dz, through);
        proof {
            let mid = choose|mid: Seq<T>| is_blend(through, corners@, dx, dy, dz, mid, r);
            assert(is_blend(*lerp, corners@, dx, dy, dz, mid, r));
        }
        r
    }
}

} // verus!
