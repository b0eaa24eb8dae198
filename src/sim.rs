//! The simulation controller: a grid of cells together with a run/pause
//! state, driven by toggle, start/pause, step and reset commands.
use crate::engine::{advance, next_generation};
use crate::grid::GridError;
use crate::position_table::Position;
use crate::store::CellStore;
use vstd::prelude::*;

verus! {

/// Whether generations advance on each step.
#[derive(Debug, Clone, Copy, PartialEq, Eq, Structural)]
pub enum SimState {
    Paused,
    Running,
}

impl SimState {
    /// The other state.
    pub open spec fn flipped(self) -> SimState {
        match self {
            SimState::Paused => SimState::Running,
            SimState::Running => SimState::Paused,
        }
    }

    /// Text naming the state, for display.
    pub fn label(&self) -> (r: &'static str)
        ensures
            *self == SimState::Paused ==> r@ == "Paused"@,
            *self == SimState::Running ==> r@ == "Running"@,
    {
        match self {
            SimState::Paused => "Paused",
            SimState::Running => "Running",
        }
    }
}

/// The flags `alive` with the cell `id` flipped; unchanged when there is no
/// such cell.
pub open spec fn toggled(alive: Seq<bool>, id: int) -> Seq<bool> {
    if 0 <= id < alive.len() {
        alive.update(id, !alive[id])
    } else {
        alive
    }
}

/// Toggling a cell twice gives back the flags it started from.
pub proof fn lemma_toggle_twice(alive: Seq<bool>, id: int)
    ensures
        toggled(toggled(alive, id), id) == alive,
{
    assert(toggled(toggled(alive, id), id) =~= alive);
}

/// A Game of Life: its cells and whether it is running.
pub struct Life {
    store: CellStore,
    state: SimState,
}

impl Life {
    /// The cells.
    pub closed spec fn store_spec(&self) -> CellStore {
        self.store
    }

    /// The run/pause state.
    pub closed spec fn state_spec(&self) -> SimState {
        self.state
    }

    /// The live/dead flag of every cell, by identifier.
    pub open spec fn alive(&self) -> Seq<bool> {
        self.store_spec().alive()
    }

    /// Side of the grid.
    pub open spec fn side(&self) -> int {
        self.store_spec().side()
    }

    /// Number of cells.
    pub open spec fn total(&self) -> int {
        self.store_spec().total()
    }

    /// The cells are well formed.
    pub open spec fn wf(&self) -> bool {
        self.store_spec().wf()
    }

    /// The geometry of the grid and of its cells on screen is that of `other`.
    pub open spec fn same_layout(&self, other: &Life) -> bool {
        &&& self.store_spec().grid_spec() == other.store_spec().grid_spec()
        &&& self.store_spec().cell_size_spec() == other.store_spec().cell_size_spec()
    }

    /// A paused game on a grid of side `n` with cells `cell_size` units wide,
    /// every cell dead. Fails on a zero side, and when the number of cells or
    /// the grid's extent on screen does not fit in a `usize`.
    pub fn new(n: usize, cell_size: usize) -> (r: Result<Life, GridError>)
        ensures
            n == 0 <==> r == Err::<Life, GridError>(GridError::ZeroSize),
            n > 0 && (n * n > usize::MAX || n * cell_size > usize::MAX)
                <==> r == Err::<Life, GridError>(GridError::TooLarge),
            r matches Ok(g) ==> {
                &&& g.wf()
                &&& g.side() == n
                &&& g.store_spec().cell_size_spec() == cell_size
                &&& g.state_spec() == SimState::Paused
                &&& g.alive() == Seq::new((n * n) as nat, |i: int| false)
            },
    {
        match CellStore::new(n, cell_size) {
            Ok(store) => Ok(Life { store, state: SimState::Paused }),
            Err(e) => Err(e),
        }
    }

    /// The cells.
    pub fn store(&self) -> (r: &CellStore)
        ensures
            *r == self.store_spec(),
    {
        &self.store
    }

    /// The run/pause state.
    pub fn state(&self) -> (r: SimState)
        ensures
            r == self.state_spec(),
    {
        self.state
    }

    /// Whether generations advance on each step.
    pub fn is_running(&self) -> (r: bool)
        ensures
            r == (self.state_spec() == SimState::Running),
    {
        self.state == SimState::Running
    }

    /// Whether the cell `id` is alive, or `None` when there is no such cell.
    pub fn get_alive(&self, id: usize) -> (r: Option<bool>)
        requires
            self.wf(),
        ensures
            r == (if id < self.total() { Some(self.alive()[id as int]) } else { None::<bool> }),
    {
        self.store.get_alive(id)
    }

    /// Screen position of the cell `id`, or `None` when there is no such cell.
    pub fn position_of(&self, id: usize) -> (r: Option<Position>)
        requires
            self.wf(),
        ensures
            id < self.total() <==> r.is_some(),
            r matches Some(p) ==> p.0 == self.store_spec().position(id as int).0 && p.1
                == self.store_spec().position(id as int).1,
    {
        self.store.position_of(id)
    }

    /// Flips the cell `id` between alive and dead, in either state of the
    /// game; returns whether there was such a cell. Nothing changes when
    /// there is none.
    pub fn toggle(&mut self, id: usize) -> (r: bool)
        requires
            old(self).wf(),
        ensures
            r == (id < old(self).total()),
            final(self).wf(),
            final(self).same_layout(old(self)),
            final(self).state_spec() == old(self).state_spec(),
            final(self).alive() == toggled(old(self).alive(), id as int),
    {
        match self.store.get_alive(id) {
            Some(now) => {
                self.store.set_alive(id, !now);
                true
            },
            None => false,
        }
    }

    /// Switches between paused and running; the cells do not change.
    pub fn start_pause(&mut self)
        requires
            old(self).wf(),
        ensures
            final(self).wf(),
            final(self).same_layout(old(self)),
            final(self).store_spec() == old(self).store_spec(),
            final(self).state_spec() == old(self).state_spec().flipped(),
    {
        self.state = match self.state {
            SimState::Paused => SimState::Running,
            SimState::Running => SimState::Paused,
        };
    }

    /// Advances one generation when running; does nothing when paused.
    pub fn step(&mut self)
        requires
            old(self).wf(),
        ensures
            final(self).wf(),
            final(self).same_layout(old(self)),
            final(self).state_spec() == old(self).state_spec(),
            old(self).state_spec() == SimState::Running ==> final(self).alive() == next_generation(
                old(self).side(),
                old(self).alive(),
            ),
            old(self).state_spec() == SimState::Paused ==> final(self).store_spec() == old(
                self,
            ).store_spec(),
    {
        if self.state == SimState::Running {
            advance(&mut self.store);
        }
    }

    /// Pauses the game and makes every cell dead, whatever the state before.
    pub fn reset(&mut self)
        requires
            old(self).wf(),
        ensures
            final(self).wf(),
            final(self).same_layout(old(self)),
            final(self).state_spec() == SimState::Paused,
            final(self).alive() == Seq::new(old(self).total() as nat, |i: int| false),
    {
        self.state = SimState::Paused;
        self.store.clear();
    }
}

} // verus!
