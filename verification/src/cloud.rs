//! Building the point cloud: one point for every cell whose quality exceeds
//! the threshold, in row-major order, with the extremes of the retained phase
//! values folded in the same scan.

use vstd::prelude::*;
use crate::extrema::{extend_extrema, extrema_of, Extrema};
use crate::grid::{lemma_flat_index, nonzero_extent, shape_admits, SampleGrid};
use crate::sample::{gt, sample_gt};

verus! {

/// A retained cell: its column and row, its phase value and its quality.
#[derive(Clone, Copy, Debug, PartialEq, Eq, Structural)]
pub struct Point {
    /// The column of the cell.
    pub x: usize,
    /// The row of the cell.
    pub y: usize,
    /// The encoding of the phase value.
    pub z: u64,
    /// The encoding of the quality value.
    pub quality: u64,
}

/// An ordered sequence of points.
#[derive(Debug)]
pub struct PointCloud {
    pub points: Vec<Point>,
}

impl View for PointCloud {
    type V = Seq<Point>;

    open spec fn view(&self) -> Seq<Point> {
        self.points@
    }
}

/// The points with their depths replaced, one for one.
pub open spec fn redepthed(points: Seq<Point>, depths: Seq<u64>) -> Seq<Point> {
    Seq::new(
        points.len(),
        |i: int| Point { x: points[i].x, y: points[i].y, z: depths[i], quality: points[i].quality },
    )
}

/// The points picked in the given order.
pub open spec fn picked(points: Seq<Point>, order: Seq<usize>) -> Seq<Point> {
    Seq::new(order.len(), |i: int| points[order[i] as int])
}

impl PointCloud {
    /// The number of points.
    pub fn len(&self) -> (n: usize)
        ensures
            n == self@.len(),
    {
        self.points.len()
    }

    /// The depth of every point, in the order of the cloud.
    pub fn depths(&self) -> (r: Vec<u64>)
        ensures
            r@ == phases(self@),
    {
        let mut r: Vec<u64> = Vec::new();
        let mut i: usize = 0;
        while i < self.points.len()
            invariant
                i <= self.points.len(),
                r@ == phases(self@).take(i as int),
            decreases self.points.len() - i,
        {
            r.push(self.points[i].z);
            i += 1;
        }
        r
    }

    /// The cloud with the depth of each point replaced by the one given for
    /// it; columns, rows and qualities stay. There must be one depth for
    /// each point. An empty cloud gives an empty cloud.
    pub fn with_depths(&self, depths: &Vec<u64>) -> (r: Option<PointCloud>)
        ensures
            r.is_some() <==> depths.len() == self@.len(),
            r matches Some(cloud) ==> cloud@ == redepthed(self@, depths@),
    {
        if depths.len() != self.points.len() {
            return None;
        }
        let mut points: Vec<Point> = Vec::new();
        let mut i: usize = 0;
        while i < self.points.len()
            invariant
                i <= self.points.len(),
                depths.len() == self.points.len(),
                points@ == redepthed(self@, depths@).take(i as int),
            decreases self.points.len() - i,
        {
            let p = self.points[i];
            points.push(Point { x: p.x, y: p.y, z: depths[i], quality: p.quality });
            i += 1;
        }
        Some(PointCloud { points })
    }

    /// The cloud with its points picked in the given order. Every entry of
    /// the order must be a position of the cloud.
    pub fn reordered(&self, order: &Vec<usize>) -> (r: Option<PointCloud>)
        ensures
            r.is_some() <==> forall|i: int| 0 <= i < order.len() ==> #[trigger] order[i] < self@.len(),
            r matches Some(cloud) ==> cloud@ == picked(self@, order@),
    {
        let mut points: Vec<Point> = Vec::new();
        let mut i: usize = 0;
        while i < order.len()
            invariant
                i <= order.len(),
                forall|j: int| 0 <= j < i ==> #[trigger] order[j] < self@.len(),
                points@ == picked(self@, order@).take(i as int),
            decreases order.len() - i,
        {
            let k: usize = order[i];
            if k >= self.points.len() {
                return None;
            }
            points.push(self.points[k]);
            i += 1;
        }
        Some(PointCloud { points })
    }
}

/// What the scan of the two grids yields.
#[derive(Debug)]
pub struct Scan {
    /// The retained points in row-major order.
    pub cloud: PointCloud,
    /// The extremes of the retained phase values.
    pub phase_extrema: Option<Extrema>,
}

/// Why no cloud was built.
#[derive(Clone, Copy, Debug, PartialEq, Eq, Structural)]
pub enum InputError {
    /// The phase grid and the quality grid differ in shape.
    ShapeMismatch { phase_rows: usize, phase_cols: usize, quality_rows: usize, quality_cols: usize },
}

/// The flat positions below `n` whose quality exceeds the threshold, in
/// ascending order.
pub open spec fn kept(quality: Seq<u64>, threshold: u64, n: nat) -> Seq<int>
    decreases n,
{
    if n == 0 {
        Seq::empty()
    } else if gt(quality[n - 1], threshold) {
        kept(quality, threshold, (n - 1) as nat).push(n - 1)
    } else {
        kept(quality, threshold, (n - 1) as nat)
    }
}

/// The point made from the cell at flat position `k` of grids with `cols`
/// columns.
pub open spec fn cell_point(phase: Seq<u64>, quality: Seq<u64>, cols: nat, k: int) -> Point {
    Point {
        x: (k % cols as int) as usize,
        y: (k / cols as int) as usize,
        z: phase[k],
        quality: quality[k],
    }
}

/// The points of the first `n` cells that are kept.
pub open spec fn retained_below(
    phase: Seq<u64>,
    quality: Seq<u64>,
    cols: nat,
    threshold: u64,
    n: nat,
) -> Seq<Point> {
    kept(quality, threshold, n).map_values(|k: int| cell_point(phase, quality, cols, k))
}

/// The cloud of two grids of the same shape, given by their cells in
/// row-major order.
pub open spec fn retained(phase: Seq<u64>, quality: Seq<u64>, cols: nat, threshold: u64) -> Seq<
    Point,
> {
    retained_below(phase, quality, cols, threshold, quality.len())
}

/// The phase values of a sequence of points.
pub open spec fn phases(points: Seq<Point>) -> Seq<u64> {
    points.map_values(|p: Point| p.z)
}

/// The position of a point in the row-major scan of a grid with `cols`
/// columns.
pub open spec fn scan_position(p: Point, cols: nat) -> int {
    p.y * cols + p.x
}

/// Taking one more cell into account appends its point or changes nothing.
proof fn lemma_retained_step(phase: Seq<u64>, quality: Seq<u64>, cols: nat, threshold: u64, n: nat)
    ensures
        retained_below(phase, quality, cols, threshold, n + 1) == if gt(quality[n as int], threshold) {
            retained_below(phase, quality, cols, threshold, n).push(
                cell_point(phase, quality, cols, n as int),
            )
        } else {
            retained_below(phase, quality, cols, threshold, n)
        },
        phases(retained_below(phase, quality, cols, threshold, n).push(
            cell_point(phase, quality, cols, n as int),
        )).drop_last() == phases(retained_below(phase, quality, cols, threshold, n)),
{
}

/// What `kept` holds: positions below `n`, each with a quality above the
/// threshold, in strictly ascending order, none left out, and as many as
/// there are such qualities among the first `n`.
pub proof fn lemma_kept(quality: Seq<u64>, threshold: u64, n: nat)
    requires
        n <= quality.len(),
    ensures
        forall|i: int|
            0 <= i < kept(quality, threshold, n).len() ==> {
                let k = #[trigger] kept(quality, threshold, n)[i];
                0 <= k < n && gt(quality[k], threshold)
            },
        forall|i: int, j: int|
            0 <= i < j < kept(quality, threshold, n).len() ==> #[trigger] kept(quality, threshold, n)[i]
                < #[trigger] kept(quality, threshold, n)[j],
        forall|k: int|
            0 <= k < n && gt(#[trigger] quality[k], threshold) ==> kept(
                quality,
                threshold,
                n,
            ).contains(k),
        kept(quality, threshold, n).len() == quality.take(n as int).filter(
            |q: u64| gt(q, threshold),
        ).len(),
    decreases n,
{
    let pred = |q: u64| gt(q, threshold);
    if n > 0 {
        let m = (n - 1) as nat;
        lemma_kept(quality, threshold, m);
        let before = kept(quality, threshold, m);
        let now = kept(quality, threshold, n);
        assert(quality.take(n as int) =~= quality.take(m as int).push(quality[m as int]));
        quality.take(m as int).lemma_filter_push(quality[m as int], pred);
        assert forall|k: int| 0 <= k < n && gt(#[trigger] quality[k], threshold) implies now.contains(
            k,
        ) by {
            if k < m {
                let i = choose|i: int| 0 <= i < before.len() && before[i] == k;
                assert(now[i] == k);
            } else {
                assert(now[now.len() - 1] == k);
            }
        }
    }
}

/// Filtering is exact. Every point of the cloud is a cell of the grid whose
/// quality exceeds the threshold, with the cell's column and row as `x` and
/// `y` and its phase value as `z`; every such cell is a point of the cloud;
/// the points stand in row-major order, so none occurs twice; and there are
/// as many points as qualities above the threshold.
pub proof fn lemma_filtering_exact(
    phase: Seq<u64>,
    quality: Seq<u64>,
    rows: nat,
    cols: nat,
    threshold: u64,
)
    requires
        shape_admits(rows, cols, phase.len()),
        shape_admits(rows, cols, quality.len()),
    ensures
        forall|i: int|
            0 <= i < retained(phase, quality, cols, threshold).len() ==> {
                let p = #[trigger] retained(phase, quality, cols, threshold)[i];
                &&& p.x < cols
                &&& p.y < rows
                &&& gt(p.quality, threshold)
                &&& p.z == phase[scan_position(p, cols)]
                &&& p.quality == quality[scan_position(p, cols)]
            },
        forall|row: int, col: int|
            0 <= row < rows && 0 <= col < cols && gt(#[trigger] quality[row * cols + col], threshold)
                ==> exists|i: int|
                0 <= i < retained(phase, quality, cols, threshold).len() && (#[trigger] retained(
                    phase,
                    quality,
                    cols,
                    threshold,
                )[i]).x == col && retained(phase, quality, cols, threshold)[i].y == row,
        forall|i: int, j: int|
            0 <= i < j < retained(phase, quality, cols, threshold).len() ==> scan_position(
                #[trigger] retained(phase, quality, cols, threshold)[i],
                cols,
            ) < scan_position(#[trigger] retained(phase, quality, cols, threshold)[j], cols),
        retained(phase, quality, cols, threshold).len() == quality.filter(
            |q: u64| gt(q, threshold),
        ).len(),
{
    let n = quality.len();
    let ks = kept(quality, threshold, n);
    let cloud = retained(phase, quality, cols, threshold);
    assert(rows * cols <= usize::MAX) by (nonlinear_arith)
        requires
            nonzero_extent(rows, cols) <= isize::MAX,
    ;
    lemma_kept(quality, threshold, n);
    assert(quality.take(n as int) =~= quality);
    assert forall|i: int| 0 <= i < cloud.len() implies {
        let p = #[trigger] cloud[i];
        &&& p.x < cols
        &&& p.y < rows
        &&& gt(p.quality, threshold)
        &&& scan_position(p, cols) == ks[i]
        &&& p.z == phase[scan_position(p, cols)]
        &&& p.quality == quality[scan_position(p, cols)]
    } by {
        lemma_position_splits(rows, cols, ks[i]);
    }
    assert forall|row: int, col: int|
        0 <= row < rows && 0 <= col < cols && gt(
            #[trigger] quality[row * cols + col],
            threshold,
        ) implies exists|i: int|
        0 <= i < cloud.len() && (#[trigger] cloud[i]).x == col && cloud[i].y == row by {
        lemma_flat_index(rows, cols, row as nat, col as nat);
        let k = row * cols + col;
        let i = choose|i: int| 0 <= i < ks.len() && ks[i] == k;
        assert(cloud[i].x == col && cloud[i].y == row);
    }
}

/// A flat position below `rows * cols` splits into a row and a column of the
/// grid, from which it is put together again.
proof fn lemma_position_splits(rows: nat, cols: nat, k: int)
    requires
        0 <= k < rows * cols,
    ensures
        cols > 0,
        0 <= k % (cols as int) < cols,
        0 <= k / (cols as int) < rows,
        (k / (cols as int)) * cols + k % (cols as int) == k,
{
    let c = cols as int;
    vstd::arithmetic::div_mod::lemma_fundamental_div_mod(k, c);
    vstd::arithmetic::div_mod::lemma_mod_bound(k, c);
    vstd::arithmetic::div_mod::lemma_div_pos_is_pos(k, c);
    assert(k / c < rows) by (nonlinear_arith)
        requires
            0 <= k < rows * c,
            c > 0,
            k == c * (k / c) + k % c,
            0 <= k % c < c,
    ;
}

/// Scans the two grids in row-major order and keeps the cells whose quality
/// exceeds `threshold`.
///
/// Fails, before any point is built, exactly when the grids differ in shape.
pub fn build_point_cloud(phase: &SampleGrid, quality: &SampleGrid, threshold: u64) -> (r: Result<
    Scan,
    InputError,
>)
    ensures
        phase.wf(),
        quality.wf(),
        r.is_ok() <==> phase.rows() == quality.rows() && phase.cols() == quality.cols(),
        r matches Ok(scan) ==> {
            &&& scan.cloud@ == retained(phase.cells(), quality.cells(), phase.cols(), threshold)
            &&& scan.phase_extrema == extrema_of(phases(scan.cloud@))
        },
        r matches Err(e) ==> e == (InputError::ShapeMismatch {
            phase_rows: phase.rows() as usize,
            phase_cols: phase.cols() as usize,
            quality_rows: quality.rows() as usize,
            quality_cols: quality.cols() as usize,
        }),
{
    let (rows, cols) = phase.dim();
    let (q_rows, q_cols) = quality.dim();
    if rows != q_rows || cols != q_cols {
        return Err(
            InputError::ShapeMismatch {
                phase_rows: rows,
                phase_cols: cols,
                quality_rows: q_rows,
                quality_cols: q_cols,
            },
        );
    }
    let ghost ps = phase.cells();
    let ghost qs = quality.cells();
    let mut points: Vec<Point> = Vec::new();
    let mut seen: Option<Extrema> = None;
    let mut row: usize = 0;
    while row < rows
        invariant
            row <= rows,
            phase.wf(),
            quality.wf(),
            ps == phase.cells(),
            qs == quality.cells(),
            rows == phase.rows() == quality.rows(),
            cols == phase.cols() == quality.cols(),
            points@ == retained_below(ps, qs, cols as nat, threshold, (row * cols) as nat),
            seen == extrema_of(phases(points@)),
        decreases rows - row,
    {
        let mut col: usize = 0;
        while col < cols
            invariant
                row < rows,
                col <= cols,
                phase.wf(),
                quality.wf(),
                ps == phase.cells(),
                qs == quality.cells(),
                rows == phase.rows() == quality.rows(),
                cols == phase.cols() == quality.cols(),
                points@ == retained_below(ps, qs, cols as nat, threshold, (row * cols + col) as nat),
                seen == extrema_of(phases(points@)),
            decreases cols - col,
        {
            proof {
                lemma_flat_index(rows as nat, cols as nat, row as nat, col as nat);
                lemma_retained_step(ps, qs, cols as nat, threshold, (row * cols + col) as nat);
            }
            let q = quality.get(row, col).unwrap();
            if sample_gt(q, threshold) {
                let z = phase.get(row, col).unwrap();
                points.push(Point { x: col, y: row, z, quality: q });
                seen = extend_extrema(seen, z);
            }
            col += 1;
        }
        proof {
            assert(row * cols + cols == (row + 1) * cols) by (nonlinear_arith);
        }
        row += 1;
    }
    Ok(Scan { cloud: PointCloud { points }, phase_extrema: seen })
}

} // verus!
