pub mod recursive_backtracker4;

use crate::wall4_grid::{is_perfect_maze, Wall4Grid};
use crate::grid_coord_2d::GetCoordinateBounds2D;
use vstd::prelude::*;

pub use recursive_backtracker4::RecursiveBacktracker4;

verus! {

/// A source of perfect mazes.
pub trait MazeGenerator2D: Sized {
    /// A generator seeded from the operating system's entropy.
    fn new_random() -> Self;

    /// A generator seeded by `rng_seed`; zero asks for an entropy seed.
    fn new_from_seed(rng_seed: u64) -> Self;

    /// A perfect maze of `width` by `height` cells.
    fn generate(&self, width: usize, height: usize) -> (r: Wall4Grid)
        requires
            1 <= width,
            1 <= height,
            width * height <= usize::MAX,
        ensures
            r.spec_width() == width,
            r.spec_height() == height,
            is_perfect_maze(&r),
    ;
}

} // verus!
