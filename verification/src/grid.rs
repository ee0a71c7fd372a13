//! A two-dimensional grid of sample encodings, held in an `ndarray` array.

use vstd::prelude::*;

verus! {

/// A grid of binary64 encodings indexed by (row, column).
///
/// The cells live in an `ndarray::Array2<u64>`, which the verifier does not
/// look into: what it holds is named by [`grid_cells`] and [`grid_dim`], and
/// read only through the trusted functions of this module.
#[verifier::external_body]
pub struct SampleGrid {
    inner: ndarray::Array2<u64>,
}

/// `ndarray::ShapeError`, the error of the array constructors; it is carried
/// through unread.
#[verifier::external_type_specification]
#[verifier::external_body]
pub struct ExShapeError(ndarray::ShapeError);

/// The cells of the array in row-major order: first all of row 0, then all of
/// row 1, and so on.
pub uninterp spec fn grid_cells(g: SampleGrid) -> Seq<u64>;

/// The lengths of the array's two axes: rows, then columns.
pub uninterp spec fn grid_dim(g: SampleGrid) -> (nat, nat);

/// Why a grid could not be made.
#[derive(Clone, Copy, Debug, PartialEq, Eq, Structural)]
pub enum GridError {
    /// The cells do not fill the shape, or the shape is too large to address.
    BadShape,
}

/// The product of the axis lengths that are not zero.
pub open spec fn nonzero_extent(rows: nat, cols: nat) -> nat {
    (if rows == 0 { 1 } else { rows }) * (if cols == 0 { 1 } else { cols })
}

/// Whether `len` cells fill a `rows` by `cols` grid that can be addressed.
pub open spec fn shape_admits(rows: nat, cols: nat, len: nat) -> bool {
    nonzero_extent(rows, cols) <= isize::MAX && rows * cols == len
}

/// `ndarray::Array2::from_shape_vec` on the shape `(rows, cols)`. It succeeds
/// exactly when the product of the non-zero axis lengths fits `isize` and the
/// vector has `rows * cols` elements; the array then has that shape and holds
/// the vector's elements in row-major order.
#[verifier::external_body]
fn array_from_shape_vec(rows: usize, cols: usize, cells: Vec<u64>) -> (r: Result<
    SampleGrid,
    ndarray::ShapeError,
>)
    ensures
        r.is_ok() <==> shape_admits(rows as nat, cols as nat, cells@.len()),
        r matches Ok(g) ==> grid_dim(g) == (rows as nat, cols as nat) && grid_cells(g) == cells@,
{
    ndarray::Array2::from_shape_vec((rows, cols), cells).map(|inner| SampleGrid { inner })
}

/// `dim` of an `ndarray::Array2`: the pair of its axis lengths, rows first.
/// The array holds as many cells as their product, and the product of its
/// non-zero axis lengths fits `isize`, as of every array.
#[verifier::external_body]
fn array_dim(g: &SampleGrid) -> (d: (usize, usize))
    ensures
        grid_dim(*g) == (d.0 as nat, d.1 as nat),
        grid_cells(*g).len() == d.0 * d.1,
        nonzero_extent(d.0 as nat, d.1 as nat) <= isize::MAX,
{
    g.inner.dim()
}

/// `get` of an `ndarray::Array2` at the index `(row, col)`: the cell there,
/// or nothing when the index lies outside the array.
#[verifier::external_body]
fn array_get(g: &SampleGrid, row: usize, col: usize) -> (r: Option<u64>)
    ensures
        row < grid_dim(*g).0 && col < grid_dim(*g).1 ==> r == Some(
            grid_cells(*g)[row * grid_dim(*g).1 + col],
        ),
        !(row < grid_dim(*g).0 && col < grid_dim(*g).1) ==> r.is_none(),
{
    g.inner.get((row, col)).copied()
}

impl SampleGrid {
    /// The number of rows.
    pub open spec fn rows(&self) -> nat {
        grid_dim(*self).0
    }

    /// The number of columns.
    pub open spec fn cols(&self) -> nat {
        grid_dim(*self).1
    }

    /// The cells in row-major order.
    pub open spec fn cells(&self) -> Seq<u64> {
        grid_cells(*self)
    }

    /// The cell at (`row`, `col`).
    pub open spec fn cell(&self, row: int, col: int) -> u64 {
        self.cells()[row * self.cols() + col]
    }

    /// What holds of every grid: it has exactly `rows * cols` cells, and its
    /// shape can be addressed.
    pub open spec fn wf(&self) -> bool {
        shape_admits(self.rows(), self.cols(), self.cells().len())
    }

    /// Makes a grid of the given shape from its cells in row-major order.
    pub fn from_shape_vec(rows: usize, cols: usize, cells: Vec<u64>) -> (r: Result<
        SampleGrid,
        GridError,
    >)
        ensures
            r.is_ok() <==> shape_admits(rows as nat, cols as nat, cells@.len()),
            r matches Ok(g) ==> g.rows() == rows && g.cols() == cols && g.cells() == cells@
                && g.wf(),
            r matches Err(e) ==> e == GridError::BadShape,
    {
        match array_from_shape_vec(rows, cols, cells) {
            Ok(g) => Ok(g),
            Err(_) => Err(GridError::BadShape),
        }
    }

    /// The shape of the grid: rows, then columns.
    pub fn dim(&self) -> (d: (usize, usize))
        ensures
            d.0 == self.rows(),
            d.1 == self.cols(),
            self.wf(),
    {
        array_dim(self)
    }

    /// The cell at (`row`, `col`), or `None` outside the grid.
    pub fn get(&self, row: usize, col: usize) -> (r: Option<u64>)
        ensures
            row < self.rows() && col < self.cols() ==> r == Some(self.cell(row as int, col as int)),
            !(row < self.rows() && col < self.cols()) ==> r.is_none(),
    {
        array_get(self, row, col)
    }
}

/// The flat position of an in-range cell lies below `rows * cols`, and
/// determines its row and column.
pub proof fn lemma_flat_index(rows: nat, cols: nat, row: nat, col: nat)
    requires
        row < rows,
        col < cols,
    ensures
        row * cols + col < rows * cols,
        (row * cols + col) / cols == row,
        (row * cols + col) % cols == col,
{
    assert(row * cols + col < rows * cols) by (nonlinear_arith)
        requires
            row < rows,
            col < cols,
    ;
    vstd::arithmetic::div_mod::lemma_fundamental_div_mod_converse(
        (row * cols + col) as int,
        cols as int,
        row as int,
        col as int,
    );
}

} // verus!
