//! A dense two-dimensional grid stored row by row.
//!
//! Every image and every flow field of the library is a `Grid`: the cell at row
//! `i` and column `j` lives at position `i * width + j` of one flat vector.
use vstd::prelude::*;

verus! {

/// Position of the cell `(i, j)` in the row-major storage of a grid that is
/// `width` cells wide.
pub open spec fn flat_index(i: int, j: int, width: int) -> int {
    i * width + j
}

/// Row-major order: the next cell of a row follows its predecessor in the
/// storage, and a row starts right after the end of the row before it.
pub proof fn lemma_row_major_order(i: int, j: int, width: int)
    requires
        0 <= i,
        0 <= j,
        width >= 1,
    ensures
        flat_index(i, j + 1, width) == flat_index(i, j, width) + 1,
        flat_index(i + 1, 0, width) == flat_index(i, width - 1, width) + 1,
        flat_index(0, 0, width) == 0,
{
    assert((i + 1) * width == i * width + width) by (nonlinear_arith);
}

/// Row-major positions are in bounds and tell cells apart.
pub proof fn lemma_flat_index(i: int, j: int, height: int, width: int)
    requires
        0 <= i < height,
        0 <= j < width,
    ensures
        0 <= flat_index(i, j, width),
        flat_index(i, j, width) < height * width,
        flat_index(i, j, width) + 1 <= height * width,
        forall|i2: int, j2: int|
            0 <= i2 < height && 0 <= j2 < width && flat_index(i2, j2, width) == flat_index(
                i,
                j,
                width,
            ) ==> i2 == i && j2 == j,
{
    assert(0 <= i * width) by (nonlinear_arith)
        requires
            0 <= i,
            0 <= width,
    ;
    assert(i * width + j < height * width) by (nonlinear_arith)
        requires
            0 <= i < height,
            0 <= j < width,
    ;
    assert forall|i2: int, j2: int|
        0 <= i2 < height && 0 <= j2 < width && flat_index(i2, j2, width) == flat_index(
            i,
            j,
            width,
        ) implies i2 == i && j2 == j by {
        assert(i2 == i) by (nonlinear_arith)
            requires
                0 <= j < width,
                0 <= j2 < width,
                i2 * width + j2 == i * width + j,
        {
            if i2 < i {
                assert(i2 * width + width <= i * width) by (nonlinear_arith)
                    requires
                        i2 < i,
                        0 <= width,
                ;
            } else if i2 > i {
                assert(i * width + width <= i2 * width) by (nonlinear_arith)
                    requires
                        i < i2,
                        0 <= width,
                ;
            }
        }
    }
}

/// A `height` by `width` grid of values of type `T`.
pub struct Grid<T> {
    height: usize,
    width: usize,
    cells: Vec<T>,
}

impl<T> Grid<T> {
    #[verifier::type_invariant]
    spec fn well_formed(self) -> bool {
        self.cells@.len() == self.height * self.width
    }

    /// Number of rows.
    pub closed spec fn rows(&self) -> nat {
        self.height as nat
    }

    /// Number of columns.
    pub closed spec fn cols(&self) -> nat {
        self.width as nat
    }

    /// The cells in row-major order.
    pub closed spec fn flat(&self) -> Seq<T> {
        self.cells@
    }

    /// The value at row `i`, column `j`.
    pub open spec fn at(&self, i: int, j: int) -> T {
        self.flat()[flat_index(i, j, self.cols() as int)]
    }

    /// A grid's dimensions are machine sizes.
    pub proof fn lemma_dims_bounded(&self)
        ensures
            self.rows() <= usize::MAX,
            self.cols() <= usize::MAX,
    {
    }

    /// Number of rows.
    pub fn height(&self) -> (h: usize)
        ensures
            h == self.rows(),
    {
        self.height
    }

    /// Number of columns.
    pub fn width(&self) -> (w: usize)
        ensures
            w == self.cols(),
    {
        self.width
    }

    /// Builds a grid from its cells in row-major order; `None` when the number
    /// of cells is not `height * width`.
    pub fn from_cells(height: usize, width: usize, cells: Vec<T>) -> (res: Option<Grid<T>>)
        ensures
            res is Some <==> cells@.len() == height * width,
            res matches Some(g) ==> g.rows() == height && g.cols() == width && g.flat()
                == cells@,
    {
        let n: usize = cells.len();
        match height.checked_mul(width) {
            Some(total) => {
                if total == n {
                    Some(Grid { height, width, cells })
                } else {
                    None
                }
            },
            None => None,
        }
    }

    /// Gives back the cells in row-major order.
    pub fn into_cells(self) -> (cells: Vec<T>)
        ensures
            cells@ == self.flat(),
            cells@.len() == self.rows() * self.cols(),
    {
        proof {
            use_type_invariant(&self);
        }
        self.cells
    }

    /// The cells in row-major order.
    pub fn cells(&self) -> (cells: &Vec<T>)
        ensures
            cells@ == self.flat(),
            cells@.len() == self.rows() * self.cols(),
    {
        proof {
            use_type_invariant(self);
        }
        &self.cells
    }
}

impl<T: Copy> Grid<T> {
    /// A grid whose every cell holds `value`.
    pub fn filled(height: usize, width: usize, value: T) -> (g: Grid<T>)
        requires
            height * width <= usize::MAX,
        ensures
            g.rows() == height,
            g.cols() == width,
            forall|i: int, j: int| 0 <= i < height && 0 <= j < width ==> g.at(i, j) == value,
    {
        let total: usize = height * width;
        let mut cells: Vec<T> = Vec::new();
        let mut k: usize = 0;
        while k < total
            invariant
                k <= total,
                cells@.len() == k,
                forall|m: int| 0 <= m < k ==> cells@[m] == value,
            decreases total - k,
        {
            cells.push(value);
            k = k + 1;
        }
        let g = Grid { height, width, cells };
        proof {
            assert forall|i: int, j: int| 0 <= i < height && 0 <= j < width implies g.at(
                i,
                j,
            ) == value by {
                lemma_flat_index(i, j, height as int, width as int);
            }
        }
        g
    }

    /// The value at row `i`, column `j`.
    pub fn get(&self, i: usize, j: usize) -> (v: T)
        requires
            i < self.rows(),
            j < self.cols(),
        ensures
            v == self.at(i as int, j as int),
    {
        proof {
            use_type_invariant(self);
            lemma_flat_index(i as int, j as int, self.height as int, self.width as int);
        }
        let n: usize = self.cells.len();
        assert(i * self.width + j < n);
        self.cells[i * self.width + j]
    }

    /// Writes `v` at row `i`, column `j` and leaves every other cell as it was.
    pub fn set(&mut self, i: usize, j: usize, v: T)
        requires
            i < old(self).rows(),
            j < old(self).cols(),
        ensures
            final(self).rows() == old(self).rows(),
            final(self).cols() == old(self).cols(),
            final(self).at(i as int, j as int) == v,
            forall|a: int, b: int|
                0 <= a < old(self).rows() && 0 <= b < old(self).cols() && !(a == i && b == j)
                    ==> final(self).at(a, b) == old(self).at(a, b),
        no_unwind
    {
        proof {
            use_type_invariant(&*self);
            lemma_flat_index(i as int, j as int, self.height as int, self.width as int);
        }
        let n: usize = self.cells.len();
        assert(i * self.width + j < n);
        let k: usize = i * self.width + j;
        self.cells[k] = v;
        proof {
            assert forall|a: int, b: int|
                0 <= a < old(self).rows() && 0 <= b < old(self).cols() && !(a == i && b == j)
                    implies self.at(a, b) == old(self).at(a, b) by {
                lemma_flat_index(a, b, self.height as int, self.width as int);
            }
        }
    }
}

} // verus!
