//! A verified engine for Conway's Game of Life on a fixed-size toroidal grid.
//!
//! The grid is a row-major sequence of two-valued cells.  Each generation is
//! computed from a snapshot of the previous one under the classic
//! birth/survival rule, with neighbour lookups wrapping around both axes.

mod rules;
mod universe;

pub use rules::Cell;
pub use rules::alive_at;
pub use rules::glyph;
pub use rules::ind;
pub use rules::lemma_all_dead_fixed_point;
pub use rules::lemma_birth_rule;
pub use rules::lemma_cell_two_valued;
pub use rules::lemma_index_in_bounds;
pub use rules::lemma_next_grid_at;
pub use rules::lemma_next_grid_deterministic;
pub use rules::lemma_render_glyph_at;
pub use rules::lemma_render_newline_at;
pub use rules::lemma_survival_rule;
pub use rules::lemma_toroidal_wraparound;
pub use rules::live_neighbors;
pub use rules::next_cell;
pub use rules::next_grid;
pub use rules::render_grid;
pub use rules::seed_cell;
pub use universe::InvalidDimensions;
pub use universe::Universe;
