//! Cellular automata on square grids of integer cell states: Conway's Game
//! of Life, Life without Death, Seeds and Brian's Brain, with the neighbour
//! count, the random starting grids and the per-cell rendering decisions
//! that they share.

pub mod common;
pub mod counting;
pub mod drawn;
pub mod generation;
pub mod grid;
pub mod render;
pub mod rulesets;
pub mod symmetry;

pub use crate::common::{
    cell_glyph, check_alive_neighbors, grid_from_samples, initialize_grid, state_from_sample,
};
pub use crate::generation::{generation_is_quiet, try_simulate_generation, Automaton};
pub use crate::render::{cell_paint, CellPaint, Ruleset};
pub use crate::rulesets::brians_brain_ruleset::{
    brian_grid_from_draws, init_brian_grid_scaled, simulate_brian_generation,
};
pub use crate::rulesets::conway_ruleset::simulate_conway_generation;
pub use crate::rulesets::lwod_ruleset::simulate_lwod_generation;
pub use crate::rulesets::seeds_ruleset::simulate_seeds_generation;
