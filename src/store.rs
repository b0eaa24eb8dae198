//! The cell store: one record per cell, built once, of which only the
//! live/dead flag ever changes.
use crate::grid::{
    column_spec, lemma_addressing_bijection, lemma_split, row_spec, Grid, GridError,
};
use crate::position_table::{
    table_entries, table_get, table_insert, table_new, Position, PositionTable,
};
use vstd::prelude::*;

verus! {

/// Top-left corner on screen of the cell `id`, in a grid of side `n` whose
/// cells are `cell_size` units wide.
pub open spec fn cell_position(n: int, cell_size: int, id: int) -> (int, int) {
    (column_spec(n, id) * cell_size, row_spec(n, id) * cell_size)
}

/// The point `(x, y)` lies in the half-open square `[pos, pos + cell_size)`.
pub open spec fn covers(pos: (int, int), cell_size: int, x: int, y: int) -> bool {
    pos.0 <= x < pos.0 + cell_size && pos.1 <= y < pos.1 + cell_size
}

/// One cell: its identifier, the top-left corner of its square on screen, and
/// whether it is alive.
#[derive(Debug, Clone, Copy, PartialEq, Eq)]
pub struct Cell {
    pub id: usize,
    pub pos: Position,
    pub alive: bool,
}

impl Cell {
    /// A cell record with the given fields.
    pub fn new(id: usize, pos: Position, alive: bool) -> (r: Cell)
        ensures
            r == (Cell { id, pos, alive }),
    {
        Cell { id, pos, alive }
    }
}

/// All the cells of one grid, indexed by identifier.
pub struct CellStore {
    grid: Grid,
    cell_size: usize,
    coords: PositionTable,
    cells: Vec<Cell>,
}

impl CellStore {
    /// Geometry of the grid the store covers.
    pub closed spec fn grid_spec(&self) -> Grid {
        self.grid
    }

    /// Width of one cell on screen.
    pub closed spec fn cell_size_spec(&self) -> int {
        self.cell_size as int
    }

    /// The live/dead flag of every cell, by identifier.
    pub closed spec fn alive(&self) -> Seq<bool> {
        self.cells@.map_values(|c: Cell| c.alive)
    }

    /// Side of the grid.
    pub open spec fn side(&self) -> int {
        self.grid_spec().side()
    }

    /// Number of cells.
    pub open spec fn total(&self) -> int {
        self.grid_spec().total()
    }

    /// Screen position of the cell `id`.
    pub open spec fn position(&self, id: int) -> (int, int) {
        cell_position(self.side(), self.cell_size_spec(), id)
    }

    /// Records and position table agree with the grid's geometry.
    pub closed spec fn layout_wf(&self) -> bool {
        &&& self.cells@.len() == self.grid.total()
        &&& table_entries(self.coords).len() == self.grid.total()
        &&& forall|i: int| 0 <= i < self.cells@.len() ==> {
            &&& (#[trigger] self.cells@[i]).id == i
            &&& self.cells@[i].pos.0 == self.position(i).0
            &&& self.cells@[i].pos.1 == self.position(i).1
        }
        &&& forall|i: int| 0 <= i < table_entries(self.coords).len() ==> {
            &&& (#[trigger] table_entries(self.coords)[i]).0 == i
            &&& table_entries(self.coords)[i].1.0 == self.position(i).0
            &&& table_entries(self.coords)[i].1.1 == self.position(i).1
        }
    }

    /// The store is well formed: a valid grid whose extent on screen fits in
    /// a `usize`, one record per cell, and one position per cell.
    pub open spec fn wf(&self) -> bool {
        &&& self.grid_spec().wf()
        &&& self.side() * self.cell_size_spec() <= usize::MAX
        &&& self.cell_size_spec() >= 0
        &&& self.alive().len() == self.total()
        &&& self.layout_wf()
    }

    /// Builds the store of a grid of side `n` whose cells are `cell_size`
    /// units wide, with every cell dead. Fails on a zero side, and when the
    /// number of cells or the grid's extent on screen does not fit in a
    /// `usize`.
    pub fn new(n: usize, cell_size: usize) -> (r: Result<CellStore, GridError>)
        ensures
            n == 0 <==> r == Err::<CellStore, GridError>(GridError::ZeroSize),
            n > 0 && (n * n > usize::MAX || n * cell_size > usize::MAX)
                <==> r == Err::<CellStore, GridError>(GridError::TooLarge),
            r matches Ok(s) ==> {
                &&& s.wf()
                &&& s.side() == n
                &&& s.cell_size_spec() == cell_size
                &&& s.alive() == Seq::new(s.total() as nat, |i: int| false)
            },
    {
        let grid = match Grid::new(n) {
            Ok(g) => g,
            Err(e) => return Err(e),
        };
        if n.checked_mul(cell_size).is_none() {
            return Err(GridError::TooLarge);
        }
        let total = grid.cell_count();
        let ghost nn = n as int;
        let ghost cs = cell_size as int;
        let mut coords = table_new();
        let mut id: usize = 0;
        let mut column: usize = 0;
        while column < n
            invariant
                grid.side() == nn,
                nn == n,
                cs == cell_size,
                grid.wf(),
                nn * cs <= usize::MAX,
                column <= n,
                id == column * nn,
                table_entries(coords).len() == id,
                forall|i: int| 0 <= i < id ==> {
                    &&& (#[trigger] table_entries(coords)[i]).0 == i
                    &&& table_entries(coords)[i].1.0 == cell_position(nn, cs, i).0
                    &&& table_entries(coords)[i].1.1 == cell_position(nn, cs, i).1
                },
            decreases n - column,
        {
            let mut row: usize = 0;
            while row < n
                invariant
                    grid.side() == nn,
                    nn == n,
                    cs == cell_size,
                    grid.wf(),
                    nn * cs <= usize::MAX,
                    column < n,
                    row <= n,
                    id == column * nn + row,
                    table_entries(coords).len() == id,
                    forall|i: int| 0 <= i < id ==> {
                        &&& (#[trigger] table_entries(coords)[i]).0 == i
                        &&& table_entries(coords)[i].1.0 == cell_position(nn, cs, i).0
                        &&& table_entries(coords)[i].1.1 == cell_position(nn, cs, i).1
                    },
                decreases n - row,
            {
                proof {
                    lemma_addressing_bijection(nn, 0, column as int, row as int);
                    assert(column * cs <= nn * cs) by (nonlinear_arith)
                        requires column < nn, cs >= 0;
                    assert(row * cs <= nn * cs) by (nonlinear_arith)
                        requires row < nn, cs >= 0;
                }
                let pos: Position = (column * cell_size, row * cell_size);
                table_insert(&mut coords, id, pos);
                id = id + 1;
                row = row + 1;
            }
            column = column + 1;
            assert(id == column * nn) by (nonlinear_arith)
                requires id == (column - 1) * nn + nn;
        }
        let mut cells: Vec<Cell> = Vec::new();
        let mut k: usize = 0;
        while k < total
            invariant
                total == nn * nn,
                table_entries(coords).len() == total,
                forall|i: int| 0 <= i < total ==> {
                    &&& (#[trigger] table_entries(coords)[i]).0 == i
                    &&& table_entries(coords)[i].1.0 == cell_position(nn, cs, i).0
                    &&& table_entries(coords)[i].1.1 == cell_position(nn, cs, i).1
                },
                k <= total,
                cells@.len() == k,
                forall|i: int| 0 <= i < k ==> {
                    &&& (#[trigger] cells@[i]).id == i
                    &&& cells@[i].pos.0 == cell_position(nn, cs, i).0
                    &&& cells@[i].pos.1 == cell_position(nn, cs, i).1
                    &&& !cells@[i].alive
                },
            decreases total - k,
        {
            assert(table_entries(coords)[k as int].0 == k);
            match table_get(&coords, k) {
                Some(pos) => {
                    cells.push(Cell::new(k, pos, false));
                },
                None => {},
            }
            k = k + 1;
        }
        let s = CellStore { grid, cell_size, coords, cells };
        assert(s.alive() =~= Seq::new(s.total() as nat, |i: int| false));
        Ok(s)
    }

    /// Geometry of the grid.
    pub fn grid(&self) -> (r: Grid)
        ensures
            r == self.grid_spec(),
    {
        self.grid
    }

    /// Width of one cell on screen.
    pub fn cell_size(&self) -> (r: usize)
        ensures
            r == self.cell_size_spec(),
    {
        self.cell_size
    }

    /// Number of cells.
    pub fn cell_count(&self) -> (r: usize)
        requires
            self.wf(),
        ensures
            r == self.total(),
    {
        self.grid.cell_count()
    }

    /// Whether the cell `id` is alive, or `None` when there is no such cell.
    pub fn get_alive(&self, id: usize) -> (r: Option<bool>)
        requires
            self.wf(),
        ensures
            r == (if id < self.total() { Some(self.alive()[id as int]) } else { None::<bool> }),
    {
        if id < self.cells.len() {
            Some(self.cells[id].alive)
        } else {
            None
        }
    }

    /// Sets the flag of the cell `id`; returns whether there was such a cell.
    /// Nothing changes when there is none.
    pub fn set_alive(&mut self, id: usize, alive: bool) -> (r: bool)
        requires
            old(self).wf(),
        ensures
            r == (id < old(self).total()),
            final(self).wf(),
            final(self).grid_spec() == old(self).grid_spec(),
            final(self).cell_size_spec() == old(self).cell_size_spec(),
            final(self).alive() == (if r { old(self).alive().update(id as int, alive) } else {
                old(self).alive()
            }),
    {
        if id < self.cells.len() {
            let mut c = self.cells[id];
            c.alive = alive;
            self.cells.set(id, c);
            assert(self.alive() =~= old(self).alive().update(id as int, alive));
            true
        } else {
            false
        }
    }

    /// Screen position of the cell `id`, or `None` when there is no such cell.
    pub fn position_of(&self, id: usize) -> (r: Option<Position>)
        requires
            self.wf(),
        ensures
            id < self.total() <==> r.is_some(),
            r matches Some(p) ==> p.0 == self.position(id as int).0 && p.1 == self.position(
                id as int,
            ).1,
    {
        proof {
            if id < self.total() {
                assert(table_entries(self.coords)[id as int].0 == id);
            }
        }
        table_get(&self.coords, id)
    }

    /// The cell whose square `[position, position + cell_size)` holds the
    /// point `(x, y)`, or `None` when no cell does.
    pub fn point_to_cell(&self, x: usize, y: usize) -> (r: Option<usize>)
        requires
            self.wf(),
        ensures
            r matches Some(id) ==> id < self.total() && covers(
                self.position(id as int),
                self.cell_size_spec(),
                x as int,
                y as int,
            ) && forall|j: int|
                0 <= j < id ==> !covers(
                    #[trigger] self.position(j),
                    self.cell_size_spec(),
                    x as int,
                    y as int,
                ),
            r is None ==> forall|j: int|
                0 <= j < self.total() ==> !covers(
                    #[trigger] self.position(j),
                    self.cell_size_spec(),
                    x as int,
                    y as int,
                ),
    {
        let mut k: usize = 0;
        while k < self.cells.len()
            invariant
                self.wf(),
                k <= self.cells@.len(),
                forall|j: int|
                    0 <= j < k ==> !covers(
                        #[trigger] self.position(j),
                        self.cell_size_spec(),
                        x as int,
                        y as int,
                    ),
            decreases self.cells@.len() - k,
        {
            let c = self.cells[k];
            proof {
                let nn = self.side();
                let cs = self.cell_size_spec();
                lemma_split(nn, k as int);
                assert(column_spec(nn, k as int) * cs + cs <= nn * cs) by (nonlinear_arith)
                    requires 0 <= column_spec(nn, k as int) < nn, cs >= 0;
                assert(row_spec(nn, k as int) * cs + cs <= nn * cs) by (nonlinear_arith)
                    requires 0 <= row_spec(nn, k as int) < nn, cs >= 0;
            }
            if c.pos.0 <= x && x < c.pos.0 + self.cell_size && c.pos.1 <= y && y < c.pos.1
                + self.cell_size {
                return Some(k);
            }
            k = k + 1;
        }
        None
    }

    /// Sets every cell dead.
    pub fn clear(&mut self)
        requires
            old(self).wf(),
        ensures
            final(self).wf(),
            final(self).grid_spec() == old(self).grid_spec(),
            final(self).cell_size_spec() == old(self).cell_size_spec(),
            final(self).alive() == Seq::new(old(self).total() as nat, |i: int| false),
    {
        let mut k: usize = 0;
        while k < self.cells.len()
            invariant
                self.wf(),
                self.grid_spec() == old(self).grid_spec(),
                self.cell_size_spec() == old(self).cell_size_spec(),
                k <= self.cells@.len(),
                forall|j: int| 0 <= j < k ==> !(#[trigger] self.alive()[j]),
            decreases self.cells@.len() - k,
        {
            self.set_alive(k, false);
            k = k + 1;
        }
        assert(self.alive() =~= Seq::new(old(self).total() as nat, |i: int| false));
    }
}

} // verus!
