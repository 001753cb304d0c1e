//! The two-dimensional arrays that hold the cells of a map, and what the
//! library takes from them.

use vstd::prelude::*;
use ndarray::Array2;
use ndarray::Axis;
use ndarray::Slice;

verus! {

/// A two-dimensional array of cell values.
#[verifier::external_body]
#[derive(Debug, PartialEq, Eq, Hash)]
pub struct Grid {
    a: Array2<i32>,
}

/// A two-dimensional array of cells that hold a value or none.
#[verifier::external_body]
#[derive(Debug, PartialEq, Eq)]
pub struct SparseGrid {
    a: Array2<Option<i32>>,
}

/// The length of the first axis of an array.
pub uninterp spec fn grid_width(g: Grid) -> nat;

/// The length of the second axis of an array.
pub uninterp spec fn grid_height(g: Grid) -> nat;

/// What an array holds, by index pair.
pub uninterp spec fn grid_cells(g: Grid) -> Map<(int, int), i32>;

/// The length of the first axis of an array of optional cells.
pub uninterp spec fn sparse_width(g: SparseGrid) -> nat;

/// The length of the second axis of an array of optional cells.
pub uninterp spec fn sparse_height(g: SparseGrid) -> nat;

/// What an array of optional cells holds, by index pair.
pub uninterp spec fn sparse_cells(g: SparseGrid) -> Map<(int, int), Option<i32>>;

/// Whether an array of `w` by `h` cells can be made: with one more cell
/// along each axis, and eight bytes to the cell, it stays within the
/// largest size of an object.
pub open spec fn cells_fit(w: int, h: int) -> bool {
    0 <= w && 0 <= h && (w + 1) * (h + 1) * 8 <= isize::MAX
}

/// The sides of an array that fits are far below the largest index.
pub proof fn lemma_cells_fit_sides(w: int, h: int)
    requires
        cells_fit(w, h),
    ensures
        8 * (w + 1) <= isize::MAX,
        8 * (h + 1) <= isize::MAX,
        8 * (w + h + 1) <= isize::MAX,
        w <= usize::MAX,
        h <= usize::MAX,
{
    assert((w + 1) * (h + 1) >= w + h + 1) by (nonlinear_arith)
        requires
            w >= 0,
            h >= 0,
    ;
}

/// An array with smaller sides than one that fits does fit.
pub proof fn lemma_cells_fit_smaller(w1: int, h1: int, w2: int, h2: int)
    requires
        0 <= w1 <= w2,
        0 <= h1 <= h2,
        cells_fit(w2, h2),
    ensures
        cells_fit(w1, h1),
{
    assert((w1 + 1) * (h1 + 1) <= (w2 + 1) * (h2 + 1)) by (nonlinear_arith)
        requires
            0 <= w1 <= w2,
            0 <= h1 <= h2,
    ;
}

impl Grid {
    /// `Array2::zeros`: an array of the given lengths that holds zero
    /// everywhere. It panics where the number of cells overflows, which
    /// `cells_fit` rules out.
    #[verifier::external_body]
    pub(crate) fn zeros(w: usize, h: usize) -> (g: Grid)
        requires
            cells_fit(w as int, h as int),
        ensures
            grid_width(g) == w,
            grid_height(g) == h,
            forall|i: int, j: int|
                0 <= i < w && 0 <= j < h ==> #[trigger] grid_cells(g)[(i, j)] == 0,
    {
        Grid { a: Array2::zeros((w, h)) }
    }

    /// `ArrayBase::dim`: the lengths of the two axes.
    #[verifier::external_body]
    pub(crate) fn dim(&self) -> (d: (usize, usize))
        ensures
            d.0 == grid_width(*self),
            d.1 == grid_height(*self),
    {
        self.a.dim()
    }

    /// Indexing by a pair: the cell at the index. It panics outside the
    /// array.
    #[verifier::external_body]
    pub(crate) fn get(&self, i: usize, j: usize) -> (v: i32)
        requires
            i < grid_width(*self),
            j < grid_height(*self),
        ensures
            v == grid_cells(*self)[(i as int, j as int)],
    {
        self.a[(i, j)]
    }

    /// Assigning through an index pair: the cell at the index is replaced
    /// and nothing else changes. It panics outside the array.
    #[verifier::external_body]
    pub(crate) fn set(&mut self, i: usize, j: usize, v: i32)
        requires
            i < grid_width(*old(self)),
            j < grid_height(*old(self)),
        ensures
            grid_width(*final(self)) == grid_width(*old(self)),
            grid_height(*final(self)) == grid_height(*old(self)),
            grid_cells(*final(self)) == grid_cells(*old(self)).insert((i as int, j as int), v),
    {
        self.a[(i, j)] = v;
    }

    /// `slice_axis_inplace` along both axes, with step 1: what stays is the
    /// block of cells from `(i, j)` up to, and without, `(i_end, j_end)`.
    /// It panics where the block does not lie in the array.
    #[verifier::external_body]
    pub(crate) fn crop(&mut self, i: usize, i_end: usize, j: usize, j_end: usize)
        requires
            i <= i_end <= grid_width(*old(self)),
            j <= j_end <= grid_height(*old(self)),
        ensures
            grid_width(*final(self)) == i_end - i,
            grid_height(*final(self)) == j_end - j,
            forall|a: int, b: int|
                0 <= a < i_end - i && 0 <= b < j_end - j ==> #[trigger] grid_cells(*final(self))[(
                    a,
                    b,
                )] == grid_cells(*old(self))[(i + a, j + b)],
    {
        self.a.slice_axis_inplace(Axis(0), Slice::from(i..i_end));
        self.a.slice_axis_inplace(Axis(1), Slice::from(j..j_end));
    }
}

impl Clone for Grid {
    /// `Clone::clone` of the array: the same lengths and the same cells.
    #[verifier::external_body]
    fn clone(&self) -> (g: Grid)
        ensures
            grid_width(g) == grid_width(*self),
            grid_height(g) == grid_height(*self),
            grid_cells(g) == grid_cells(*self),
    {
        Grid { a: self.a.clone() }
    }
}

impl Clone for SparseGrid {
    /// `Clone::clone` of the array: the same lengths and the same cells.
    #[verifier::external_body]
    fn clone(&self) -> (g: SparseGrid)
        ensures
            sparse_width(g) == sparse_width(*self),
            sparse_height(g) == sparse_height(*self),
            sparse_cells(g) == sparse_cells(*self),
    {
        SparseGrid { a: self.a.clone() }
    }
}

impl SparseGrid {
    /// `Array2::default`: an array of the given lengths that holds no
    /// value anywhere. It panics where the number of cells overflows, which
    /// `cells_fit` rules out.
    #[verifier::external_body]
    pub(crate) fn empty(w: usize, h: usize) -> (g: SparseGrid)
        requires
            cells_fit(w as int, h as int),
        ensures
            sparse_width(g) == w,
            sparse_height(g) == h,
            forall|i: int, j: int|
                0 <= i < w && 0 <= j < h ==> #[trigger] sparse_cells(g)[(i, j)] == None::<i32>,
    {
        SparseGrid { a: Array2::default((w, h)) }
    }

    /// `ArrayBase::dim`: the lengths of the two axes.
    #[verifier::external_body]
    pub(crate) fn dim(&self) -> (d: (usize, usize))
        ensures
            d.0 == sparse_width(*self),
            d.1 == sparse_height(*self),
    {
        self.a.dim()
    }

    /// Indexing by a pair: the cell at the index. It panics outside the
    /// array.
    #[verifier::external_body]
    pub(crate) fn get(&self, i: usize, j: usize) -> (v: Option<i32>)
        requires
            i < sparse_width(*self),
            j < sparse_height(*self),
        ensures
            v == sparse_cells(*self)[(i as int, j as int)],
    {
        self.a[(i, j)]
    }

    /// Assigning through an index pair: the cell at the index is replaced
    /// and nothing else changes. It panics outside the array.
    #[verifier::external_body]
    pub(crate) fn set(&mut self, i: usize, j: usize, v: Option<i32>)
        requires
            i < sparse_width(*old(self)),
            j < sparse_height(*old(self)),
        ensures
            sparse_width(*final(self)) == sparse_width(*old(self)),
            sparse_height(*final(self)) == sparse_height(*old(self)),
            sparse_cells(*final(self)) == sparse_cells(*old(self)).insert(
                (i as int, j as int),
                v,
            ),
    {
        self.a[(i, j)] = v;
    }
}

} // verus!
