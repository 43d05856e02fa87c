use crate::grid_coord_2d::GetCoordinateBounds2D;
use crate::renderers::unicode_renderer::{glyph_table, grid_text, UnicodeRenderStyle};
use crate::wall4_grid::Wall4Grid;
use vstd::prelude::*;

verus! {

/// Renders the passages of `grid` with double box-drawing lines, one glyph
/// per cell, each row ended by a line break.
pub fn render_paths_unicode(grid: &Wall4Grid) -> (r: String)
    requires
        grid.wf(),
    ensures
        r@ == grid_text(
            grid.cells(),
            grid.spec_width(),
            grid.spec_height(),
            glyph_table(UnicodeRenderStyle::Double),
            true,
        ),
{
    crate::renderers::UnicodeRenderer::new(UnicodeRenderStyle::Double, true).render(grid)
}

} // verus!
