//! One- and two-dimensional arrays of words, kept by `ndarray`.

use vstd::prelude::*;

verus! {

/// `ndarray::ShapeError`: why `ndarray` refused a shape.
#[verifier::external_type_specification]
#[verifier::external_body]
pub struct ExShapeError(ndarray::ShapeError);

/// A one-dimensional `ndarray` array of words.
#[verifier::external_body]
pub struct Line {
    cells: ndarray::Array1<u64>,
}

/// A two-dimensional `ndarray` array of words.
#[verifier::external_body]
pub struct Grid {
    cells: ndarray::Array2<u64>,
}

/// The words of a line, in the order of their indices.
pub uninterp spec fn line_words(line: Line) -> Seq<u64>;

/// The words of a grid, row after row.
pub uninterp spec fn grid_words(grid: Grid) -> Seq<u64>;

/// The numbers of rows and of columns of a grid.
pub uninterp spec fn grid_dim(grid: Grid) -> (nat, nat);

/// `ndarray::Array1::from` on a `Vec`: the array that holds the elements of
/// the vector, in their order. It takes every vector of words.
#[verifier::external_body]
pub(crate) fn line_from_vec(words: Vec<u64>) -> (line: Line)
    ensures
        line_words(line) == words@,
{
    Line { cells: ndarray::Array1::from(words) }
}

/// `ndarray::ArrayBase::len` on a one-dimensional array: the number of its
/// elements.
#[verifier::external_body]
fn line_len(line: &Line) -> (n: usize)
    ensures
        n == line_words(*line).len(),
{
    line.cells.len()
}

/// Indexing a one-dimensional `ndarray` array: the element at `i`. It panics
/// where `i` is not below the length.
#[verifier::external_body]
fn line_cell(line: &Line, i: usize) -> (word: u64)
    requires
        i < line_words(*line).len(),
    ensures
        word == line_words(*line)[i as int],
{
    line.cells[i]
}

/// `ndarray::Array2::from_shape_vec` with the shape `(rows, cols)`: an array
/// of `rows` rows and `cols` columns that holds the elements of the vector row
/// after row. Where neither is zero it succeeds exactly where the vector
/// holds `rows * cols` elements: its other test, that this product is no
/// more than `isize::MAX`, no vector of words fails, which holds at most
/// `isize::MAX` bytes.
#[verifier::external_body]
pub(crate) fn grid_from_shape_vec(rows: usize, cols: usize, words: Vec<u64>) -> (r: Result<
    Grid,
    ndarray::ShapeError,
>)
    requires
        rows > 0,
        cols > 0,
    ensures
        r is Ok <==> rows * cols == words@.len(),
        r matches Ok(grid) ==> grid_words(grid) == words@ && grid_dim(grid) == (
            rows as nat,
            cols as nat,
        ),
{
    match ndarray::Array2::from_shape_vec((rows, cols), words) {
        Ok(cells) => Ok(Grid { cells }),
        Err(e) => Err(e),
    }
}

/// `ndarray::ArrayBase::dim` on a two-dimensional array: the numbers of its
/// rows and columns, whose product is the number of its elements.
#[verifier::external_body]
fn grid_dim_of(grid: &Grid) -> (dim: (usize, usize))
    ensures
        grid_dim(*grid) == (dim.0 as nat, dim.1 as nat),
        grid_words(*grid).len() == dim.0 * dim.1,
{
    grid.cells.dim()
}

/// Indexing a two-dimensional `ndarray` array: the element in row `row` and
/// column `col`. It panics where either is out of bounds.
#[verifier::external_body]
fn grid_cell(grid: &Grid, row: usize, col: usize) -> (word: u64)
    requires
        row < grid_dim(*grid).0,
        col < grid_dim(*grid).1,
    ensures
        word == grid_words(*grid)[row * grid_dim(*grid).1 + col],
{
    grid.cells[[row, col]]
}

impl Line {
    /// The number of words.
    pub fn len(&self) -> (n: usize)
        ensures
            n == line_words(*self).len(),
    {
        line_len(self)
    }

    /// The word at `i`, if there is one.
    pub fn get(&self, i: usize) -> (word: Option<u64>)
        ensures
            i < line_words(*self).len() ==> word == Some(line_words(*self)[i as int]),
            i >= line_words(*self).len() ==> word is None,
    {
        if i < line_len(self) {
            Some(line_cell(self, i))
        } else {
            None
        }
    }

    /// The words, in order.
    pub fn to_words(&self) -> (words: Vec<u64>)
        ensures
            words@ == line_words(*self),
    {
        let n = line_len(self);
        let mut words: Vec<u64> = Vec::new();
        let mut i: usize = 0;
        while i < n
            invariant
                i <= n,
                n == line_words(*self).len(),
                words@ == line_words(*self).take(i as int),
            decreases n - i,
        {
            words.push(line_cell(self, i));
            i += 1;
        }
        words
    }
}

impl Grid {
    /// The numbers of rows and of columns.
    pub fn dim(&self) -> (dim: (usize, usize))
        ensures
            grid_dim(*self) == (dim.0 as nat, dim.1 as nat),
            grid_words(*self).len() == dim.0 * dim.1,
    {
        grid_dim_of(self)
    }

    /// The words of row `row`, if there is one.
    pub fn row(&self, row: usize) -> (words: Option<Vec<u64>>)
        ensures
            row < grid_dim(*self).0 ==> words is Some && words->Some_0@ == grid_words(
                *self,
            ).subrange(row * grid_dim(*self).1, (row + 1) * grid_dim(*self).1),
            row >= grid_dim(*self).0 ==> words is None,
    {
        let (rows, cols) = grid_dim_of(self);
        if row >= rows {
            return None;
        }
        let ghost from = row * cols;
        assert(from + cols == (row + 1) * cols && from + cols <= rows * cols) by (nonlinear_arith)
            requires
                from == row * cols,
                row < rows,
        ;
        let mut words: Vec<u64> = Vec::new();
        let mut col: usize = 0;
        while col < cols
            invariant
                col <= cols,
                row < rows,
                grid_dim(*self) == (rows as nat, cols as nat),
                grid_words(*self).len() == rows * cols,
                from == row * cols,
                from + cols <= rows * cols,
                words@ == grid_words(*self).subrange(from, from + col),
            decreases cols - col,
        {
            words.push(grid_cell(self, row, col));
            col += 1;
        }
        Some(words)
    }

    /// The word in row `row` and column `col`, if there is one.
    pub fn get(&self, row: usize, col: usize) -> (word: Option<u64>)
        ensures
            row < grid_dim(*self).0 && col < grid_dim(*self).1 ==> word == Some(
                grid_words(*self)[row * grid_dim(*self).1 + col],
            ),
            row >= grid_dim(*self).0 || col >= grid_dim(*self).1 ==> word is None,
    {
        let (rows, cols) = grid_dim_of(self);
        if row < rows && col < cols {
            Some(grid_cell(self, row, col))
        } else {
            None
        }
    }
}

} // verus!
