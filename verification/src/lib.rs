//! A toroidal 2-D cellular-automaton engine.
//!
//! The library keeps a generic fixed-size grid over a flat buffer, folds
//! arbitrary signed coordinates back into the grid with wraparound
//! addressing, and advances a boolean grid by the standard
//! survive-on-2-or-3, born-on-3 neighbour rule.  For the continuous
//! (convolution) rule it provides the verified index plumbing: the nine
//! wrapped sample positions of a 3x3 stencil and the conversions between a
//! flat buffer and its rows.

mod conway;
mod grid;
mod sim;
mod stencil;
mod wrap;

pub use conway::count_neighbors;
pub use conway::life_rule;
pub use conway::life_step;
pub use conway::live_neighbors;
pub use conway::neighbor_bit;
pub use conway::step_cell;
pub use conway::step_grid;
pub use grid::lemma_flat_index_in_range;
pub use grid::lemma_last_write_wins;
pub use grid::Grid;
pub use sim::ConwaySimulation;
pub use sim::Simulation;
pub use stencil::flat_of;
pub use stencil::flatten_rows;
pub use stencil::lemma_rows_round_trip;
pub use stencil::neighborhood_indices;
pub use stencil::rectangular;
pub use stencil::row_views;
pub use stencil::rows_of;
pub use stencil::split_rows;
pub use stencil::stencil_index;
pub use wrap::lemma_wrap_edges;
pub use wrap::lemma_wrap_is_mod;
pub use wrap::wrap_index;
pub use wrap::wrap_spec;
