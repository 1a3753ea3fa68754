//! The grid type: a two-dimensional array of whole numbers.

use crate::cells::{
    binary, combined, combines, constant_rows, multiplies, product, rectangular, same_shape, total,
    weight, Rows,
};
use crate::shapes::Shape;
use ndarray::Array2;
use vstd::prelude::*;

verus! {

/// A grid of `i64` cells, `height` rows by `width` columns, held in an
/// `ndarray::Array2`. Verus sees nothing inside it: what it holds goes by
/// the names `grid_rows` and `grid_width`.
#[verifier::external_body]
pub struct Grid {
    cells: Array2<i64>,
}

/// The cells of a grid, row by row from the top.
pub uninterp spec fn grid_rows(grid: Grid) -> Seq<Seq<i64>>;

/// The number of columns of a grid, which its rows cannot tell when there
/// are none.
pub uninterp spec fn grid_width(grid: Grid) -> nat;

/// Whether a grid of `height` rows and `width` columns can be allocated:
/// no side and no cell count beyond `isize::MAX`, eight bytes to a cell.
pub open spec fn grid_fits(height: usize, width: usize) -> bool {
    &&& height <= isize::MAX
    &&& width <= isize::MAX
    &&& height * width * 8 <= isize::MAX
}

/// The raster of `shape` on `height` rows and `width` columns.
pub open spec fn raster(shape: Shape, height: nat, width: nat) -> Rows {
    Seq::new(height, |r: int| Seq::new(width, |c: int| shape.cell_value(c, r)))
}

/// A raster has the shape asked for and holds zeros and ones.
pub proof fn lemma_raster_binary(shape: Shape, height: nat, width: nat)
    ensures
        raster(shape, height, width).len() == height,
        rectangular(raster(shape, height, width), width),
        binary(raster(shape, height, width), width),
{
}

/// Calls `Array2::from_elem`. Believed, not proved: the array has the
/// shape asked for and `value` in every cell. Shapes that make the call
/// panic are left out.
#[verifier::external_body]
pub(crate) fn filled(height: usize, width: usize, value: i64) -> (grid: Grid)
    requires
        grid_fits(height, width),
    ensures
        grid_rows(grid) == constant_rows(height as nat, width as nat, value),
        grid_width(grid) == width,
{
    Grid { cells: Array2::from_elem((height, width), value) }
}

/// Calls `Array2::from_shape_fn` with the covering rule of `shape`.
/// Believed, not proved: the array has the shape asked for, and the cell
/// in row `r`, column `c` holds what the rule gives for that index. The
/// rule is asked about cells of the array only, and in an array that can
/// be allocated every index is within the coordinate limit.
#[verifier::external_body]
pub(crate) fn drawn(shape: &Shape, height: usize, width: usize) -> (grid: Grid)
    requires
        grid_fits(height, width),
        shape.in_limit(),
    ensures
        grid_rows(grid) == raster(*shape, height as nat, width as nat),
        grid_width(grid) == width,
{
    Grid { cells: Array2::from_shape_fn((height, width), |(cy, cx)| shape.cell(cx, cy)) }
}

/// Calls `ArrayBase::dim`. Believed, not proved: it gives the number of
/// rows, then the number of columns.
#[verifier::external_body]
pub(crate) fn extent(grid: &Grid) -> (size: (usize, usize))
    ensures
        size.0 == grid_rows(*grid).len(),
        size.1 == grid_width(*grid),
{
    grid.cells.dim()
}

/// Reads one cell through `Index`. Believed, not proved: it gives the cell
/// in that row and column. An index outside the grid is left out: the
/// call panics on it.
#[verifier::external_body]
pub(crate) fn cell_at(grid: &Grid, row: usize, col: usize) -> (value: i64)
    requires
        row < grid_rows(*grid).len(),
        col < grid_width(*grid),
    ensures
        value == grid_rows(*grid)[row as int][col as int],
{
    grid.cells[[row, col]]
}

/// Writes one cell through `IndexMut`. Believed, not proved: that cell
/// holds `value` afterwards and nothing else changes.
#[verifier::external_body]
pub(crate) fn store_cell(grid: &mut Grid, row: usize, col: usize, value: i64)
    requires
        row < grid_rows(*old(grid)).len(),
        col < grid_width(*old(grid)),
    ensures
        grid_rows(*final(grid)) == grid_rows(*old(grid)).update(
            row as int,
            grid_rows(*old(grid))[row as int].update(col as int, value),
        ),
        grid_width(*final(grid)) == grid_width(*old(grid)),
{
    grid.cells[[row, col]] = value;
}

/// Multiplies two arrays cell by cell through `Mul`. Believed, not
/// proved: the result has the shape of both and holds the products.
/// Arrays of different shapes, and products beyond `i64`, are left out.
#[verifier::external_body]
pub(crate) fn times(a: &Grid, b: &Grid) -> (grid: Grid)
    requires
        same_shape(grid_rows(*a), grid_rows(*b)),
        grid_width(*a) == grid_width(*b),
        multiplies(grid_rows(*a), grid_rows(*b)),
    ensures
        grid_rows(grid) == product(grid_rows(*a), grid_rows(*b)),
        grid_width(grid) == grid_width(*a),
{
    Grid { cells: &a.cells * &b.cells }
}

/// Calls `ArrayBase::sum`. Believed, not proved: it gives the sum of all
/// cells. It adds in an order of its own, so grids are left out in which
/// some of the cells could add up beyond `i64`.
#[verifier::external_body]
pub(crate) fn sum_of(grid: &Grid) -> (sum: i64)
    requires
        weight(grid_rows(*grid), grid_width(*grid)) <= i64::MAX,
    ensures
        sum == total(grid_rows(*grid), grid_width(*grid)),
{
    grid.cells.sum()
}

/// Adds `other` to `grid` cell by cell through `AddAssign`. Believed, not
/// proved: each cell grows by its counterpart. Arrays of different shapes,
/// and sums beyond `i64`, are left out.
#[verifier::external_body]
pub(crate) fn add_in_place(grid: &mut Grid, other: &Grid)
    requires
        same_shape(grid_rows(*old(grid)), grid_rows(*other)),
        grid_width(*old(grid)) == grid_width(*other),
        combines(grid_rows(*old(grid)), grid_rows(*other), 1),
    ensures
        grid_rows(*final(grid)) == combined(grid_rows(*old(grid)), grid_rows(*other), 1),
        grid_width(*final(grid)) == grid_width(*old(grid)),
{
    std::ops::AddAssign::add_assign(&mut grid.cells, &other.cells);
}

/// Takes `other` from `grid` cell by cell through `SubAssign`. Believed,
/// not proved: each cell shrinks by its counterpart. Arrays of different
/// shapes, and differences beyond `i64`, are left out.
#[verifier::external_body]
pub(crate) fn subtract_in_place(grid: &mut Grid, other: &Grid)
    requires
        same_shape(grid_rows(*old(grid)), grid_rows(*other)),
        grid_width(*old(grid)) == grid_width(*other),
        combines(grid_rows(*old(grid)), grid_rows(*other), -1),
    ensures
        grid_rows(*final(grid)) == combined(grid_rows(*old(grid)), grid_rows(*other), -1),
        grid_width(*final(grid)) == grid_width(*old(grid)),
{
    std::ops::SubAssign::sub_assign(&mut grid.cells, &other.cells);
}

/// Calls `Clone::clone` on the array. Believed, not proved: the copy has
/// the same shape and cells.
#[verifier::external_body]
pub(crate) fn copy_of(grid: &Grid) -> (copy: Grid)
    ensures
        grid_rows(copy) == grid_rows(*grid),
        grid_width(copy) == grid_width(*grid),
{
    Grid { cells: grid.cells.clone() }
}

impl Grid {
    /// The cells, row by row from the top.
    pub open spec fn view(&self) -> Rows {
        grid_rows(*self)
    }

    /// The number of rows.
    pub open spec fn rows(&self) -> nat {
        grid_rows(*self).len()
    }

    /// The number of columns.
    pub open spec fn columns(&self) -> nat {
        grid_width(*self)
    }

    /// Whether every row has as many cells as the grid has columns.
    pub open spec fn wf(&self) -> bool {
        rectangular(self@, self.columns())
    }

    /// A grid of zeros.
    pub fn zeros(height: usize, width: usize) -> (grid: Grid)
        requires
            grid_fits(height, width),
        ensures
            grid.wf(),
            grid.columns() == width,
            grid@ == constant_rows(height as nat, width as nat, 0),
    {
        filled(height, width, 0)
    }

    /// The raster of `shape`: 1 in the cells that it covers, 0 elsewhere.
    pub fn rasterize(shape: &Shape, max_width: usize, max_height: usize) -> (grid: Grid)
        requires
            grid_fits(max_height, max_width),
            shape.in_limit(),
        ensures
            grid.wf(),
            grid.columns() == max_width,
            grid@ == raster(*shape, max_height as nat, max_width as nat),
    {
        drawn(shape, max_height, max_width)
    }

    /// The number of rows.
    pub fn height(&self) -> (height: usize)
        ensures
            height == self.rows(),
    {
        extent(self).0
    }

    /// The number of columns.
    pub fn width(&self) -> (width: usize)
        ensures
            width == self.columns(),
    {
        extent(self).1
    }

    /// The cell in row `row`, column `col`.
    pub fn get(&self, row: usize, col: usize) -> (value: i64)
        requires
            row < self.rows(),
            col < self.columns(),
        ensures
            value == self@[row as int][col as int],
    {
        cell_at(self, row, col)
    }

    /// Puts `value` in row `row`, column `col`.
    pub fn set(&mut self, row: usize, col: usize, value: i64)
        requires
            old(self).wf(),
            row < old(self).rows(),
            col < old(self).columns(),
        ensures
            final(self).wf(),
            final(self).columns() == old(self).columns(),
            final(self)@ == old(self)@.update(row as int, old(self)@[row as int].update(col as int, value)),
    {
        store_cell(self, row, col, value)
    }

    /// A copy of the grid.
    pub fn duplicate(&self) -> (copy: Grid)
        ensures
            copy@ == self@,
            copy.columns() == self.columns(),
    {
        copy_of(self)
    }
}

} // verus!
