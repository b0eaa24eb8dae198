//! Addressing of the cells of an `n` by `n` grid.
//!
//! Cells are numbered with the row running fastest inside a column:
//! `id = column * n + row`.
use vstd::arithmetic::div_mod::{
    lemma_fundamental_div_mod, lemma_fundamental_div_mod_converse,
};
use vstd::prelude::*;

verus! {

/// Identifier of the cell at `(column, row)` in a grid of side `n`.
pub open spec fn id_spec(n: int, column: int, row: int) -> int {
    column * n + row
}

/// Coordinate `(column, row)` of the cell `id` in a grid of side `n`.
pub open spec fn coordinate_spec(n: int, id: int) -> (int, int) {
    (id / n, id % n)
}

/// Column of the cell `id`.
pub open spec fn column_spec(n: int, id: int) -> int {
    id / n
}

/// Row of the cell `id`.
pub open spec fn row_spec(n: int, id: int) -> int {
    id % n
}

/// A coordinate pair lies on the grid.
pub open spec fn on_grid(n: int, column: int, row: int) -> bool {
    0 <= column < n && 0 <= row < n
}

/// Why a grid cannot be built.
#[derive(Debug, Clone, Copy, PartialEq, Eq, Structural)]
pub enum GridError {
    /// The side of the grid is zero.
    ZeroSize,
    /// The grid, or its extent on screen, does not fit in a machine word.
    TooLarge,
}

/// The geometry of a square grid of side `n`.
#[derive(Debug, Clone, Copy, PartialEq, Eq, Structural)]
pub struct Grid {
    n: usize,
}

/// Every identifier below `n * n` splits into a column and a row on the grid.
pub proof fn lemma_split(n: int, id: int)
    requires
        n > 0,
        0 <= id < n * n,
    ensures
        id == id_spec(n, id / n, id % n),
        on_grid(n, id / n, id % n),
{
    lemma_fundamental_div_mod(id, n);
    assert(id == (id / n) * n + id % n) by (nonlinear_arith)
        requires id == n * (id / n) + (id % n);
    assert(0 <= id % n < n);
    assert(0 <= id / n) by (nonlinear_arith)
        requires id == (id / n) * n + id % n, 0 <= id % n < n, n > 0, 0 <= id;
    assert(id / n < n) by (nonlinear_arith)
        requires id == (id / n) * n + id % n, 0 <= id % n < n, n > 0, id < n * n;
}

/// A coordinate on the grid has an identifier below `n * n`.
pub proof fn lemma_id_in_range(n: int, column: int, row: int)
    requires
        n > 0,
        on_grid(n, column, row),
    ensures
        0 <= id_spec(n, column, row) < n * n,
{
    assert(0 <= column * n + row < n * n) by (nonlinear_arith)
        requires 0 <= column < n, 0 <= row < n;
}

/// Addressing is a bijection between `[0, n * n)` and the coordinates of the
/// grid: going from an identifier to its coordinate and back gives the
/// identifier, and going from a coordinate to its identifier and back gives
/// the coordinate.
pub proof fn lemma_addressing_bijection(n: int, id: int, column: int, row: int)
    requires
        n > 0,
    ensures
        0 <= id < n * n ==> on_grid(n, coordinate_spec(n, id).0, coordinate_spec(n, id).1)
            && id_spec(n, coordinate_spec(n, id).0, coordinate_spec(n, id).1) == id,
        on_grid(n, column, row) ==> 0 <= id_spec(n, column, row) < n * n
            && coordinate_spec(n, id_spec(n, column, row)) == (column, row),
{
    if 0 <= id < n * n {
        lemma_split(n, id);
    }
    if on_grid(n, column, row) {
        lemma_id_in_range(n, column, row);
        lemma_fundamental_div_mod_converse(column * n + row, n, column, row);
    }
}

impl Grid {
    /// Side of the grid, as a specification value.
    pub closed spec fn side(&self) -> int {
        self.n as int
    }

    /// Number of cells of the grid, as a specification value.
    pub open spec fn total(&self) -> int {
        self.side() * self.side()
    }

    /// The side is positive and the number of cells fits in a `usize`.
    pub open spec fn wf(&self) -> bool {
        0 < self.side() && self.total() <= usize::MAX
    }

    /// Builds the geometry of a grid of side `n`; fails on a zero side or on
    /// one whose number of cells does not fit in a `usize`.
    pub fn new(n: usize) -> (r: Result<Grid, GridError>)
        ensures
            n == 0 <==> r == Err::<Grid, GridError>(GridError::ZeroSize),
            n > 0 && n * n > usize::MAX <==> r == Err::<Grid, GridError>(GridError::TooLarge),
            r matches Ok(g) ==> g.wf() && g.side() == n,
    {
        if n == 0 {
            return Err(GridError::ZeroSize);
        }
        match n.checked_mul(n) {
            Some(_) => Ok(Grid { n }),
            None => Err(GridError::TooLarge),
        }
    }

    /// Side of the grid.
    pub fn side_len(&self) -> (r: usize)
        ensures
            r == self.side(),
    {
        self.n
    }

    /// Number of cells of the grid.
    pub fn cell_count(&self) -> (r: usize)
        requires
            self.wf(),
        ensures
            r == self.total(),
    {
        self.n * self.n
    }

    /// Identifier of the cell at `(column, row)`, or `None` when either
    /// coordinate lies off the grid.
    pub fn id_of(&self, column: usize, row: usize) -> (r: Option<usize>)
        requires
            self.wf(),
        ensures
            on_grid(self.side(), column as int, row as int) <==> r.is_some(),
            r matches Some(id) ==> id == id_spec(self.side(), column as int, row as int)
                && id < self.total(),
    {
        if column < self.n && row < self.n {
            proof {
                lemma_id_in_range(self.n as int, column as int, row as int);
            }
            Some(column * self.n + row)
        } else {
            None
        }
    }

    /// Coordinate `(column, row)` of the cell `id`, or `None` when `id` is
    /// not below the number of cells.
    pub fn coordinate_of(&self, id: usize) -> (r: Option<(usize, usize)>)
        requires
            self.wf(),
        ensures
            id < self.total() <==> r.is_some(),
            r matches Some(c) ==> c.0 as int == coordinate_spec(self.side(), id as int).0
                && c.1 as int == coordinate_spec(self.side(), id as int).1
                && on_grid(self.side(), c.0 as int, c.1 as int),
    {
        if id < self.n * self.n {
            proof {
                lemma_split(self.n as int, id as int);
            }
            Some((id / self.n, id % self.n))
        } else {
            None
        }
    }
}

} // verus!
