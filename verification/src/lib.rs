//! ttygrid renders tabular data to a fixed-width text surface, deciding per
//! render which columns to keep when the full table would not fit the
//! available width.

use vstd::prelude::*;

pub mod error;
pub mod grid;
pub mod header;
pub mod line;
pub mod render;
pub mod select;
pub mod widths;

pub use error::GridError;
pub use grid::{
    grid_cells, grid_selection, lemma_grid_fits_all, lemma_grid_infeasible,
    lemma_grid_selection_sound, lemma_render_deterministic, GridText, TTYGrid, TTYGridView,
};
pub use header::{ColumnModel, GridHeader, GridHeaderView, HeaderList, DEFAULT_PAD};
pub use line::{CellModel, GridItem, GridItemView, GridLine};
pub use select::{lemma_select_none_iff, select_columns};

verus! {

/// Width budget used when no terminal width is supplied by the caller.
pub const DEFAULT_WIDTH: usize = 80;

} // verus!
