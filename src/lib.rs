//! Conway's Game of Life on a fixed square grid: cell addressing, the cell
//! store, neighbour counting, the generation rule and the run/pause control.

pub mod engine;
pub mod grid;
pub mod neighbors;
pub mod position_table;
pub mod sim;
pub mod store;

pub use engine::{advance, commit, next_alive_set, next_state_of};
pub use grid::{Grid, GridError};
pub use neighbors::count_live_neighbors;
pub use position_table::Position;
pub use sim::{Life, SimState};
pub use store::{Cell, CellStore};
