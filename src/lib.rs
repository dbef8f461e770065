//! Simulation core of a snake game on a square toroidal grid.
//!
//! The grid has side `width` and its cells are numbered row by row from 0 to
//! `width * width - 1`. A snake moves one cell per tick; every edge of the
//! grid wraps around to the opposite edge. The host drives the game: it asks
//! for turns, calls `World::update` once per tick, and draws random cells for
//! `World::offer_reward_cell` until one is accepted whenever no reward is on
//! the grid.

mod grid;
mod snake;
mod world;

pub use grid::{
    lemma_cell_of_coords, lemma_coords_of_cell, lemma_step_on_grid, lemma_step_round_trip, on_grid,
    opposite, step, step_cell, Direction,
};
pub use snake::{spawn_body, GameError, Snake, SnakeCell};
pub use world::{
    lemma_growth, lemma_reversal_ignored, lemma_shift, lemma_tick_valid, moved_body, World, WorldView, SPAWN_LENGTH,
};
