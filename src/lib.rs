//! Perfect rectangular mazes: a four-direction wall algebra, a grid of
//! per-cell walls, a randomized depth-first carver, and text and image
//! renderers over the finished grid.
use vstd::prelude::*;

pub mod direction4;
pub mod generators;
pub mod grid_coord_2d;
pub mod render_unicode;
pub mod renderers;
pub mod room4;
pub mod room4_list;
pub mod unicode_renderer;
pub mod visit_map_2d;
pub mod wall4_grid;

pub use direction4::Direction4;
pub use generators::{MazeGenerator2D, RecursiveBacktracker4};
pub use grid_coord_2d::{GetCoordinateBounds2D, GridCoord2D, LinearizeCoords2D};
pub use visit_map_2d::VisitMap2D;
pub use wall4_grid::Wall4Grid;

verus! {

} // verus!
