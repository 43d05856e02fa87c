use crate::grid_coord_2d::GetCoordinateBounds2D;
use crate::renderers::unicode_renderer::{glyph_table, grid_text, UnicodeRenderStyle};
use crate::wall4_grid::Wall4Grid;
use vstd::prelude::*;

verus! {

/// A box-drawing renderer that ends every row with a line break.
pub struct UnicodeRenderer {
    style: UnicodeRenderStyle,
}

impl UnicodeRenderer {
    /// The glyph set this renderer draws with.
    pub closed spec fn spec_style(&self) -> UnicodeRenderStyle {
        self.style
    }

    /// A renderer with thin lines.
    pub fn new_thin() -> (r: Self)
        ensures
            r.spec_style() == UnicodeRenderStyle::Thin,
    {
        UnicodeRenderer { style: UnicodeRenderStyle::Thin }
    }

    /// A renderer with double lines.
    pub fn new_double() -> (r: Self)
        ensures
            r.spec_style() == UnicodeRenderStyle::Double,
    {
        UnicodeRenderer { style: UnicodeRenderStyle::Double }
    }

    /// A renderer with heavy lines.
    pub fn new_heavy() -> (r: Self)
        ensures
            r.spec_style() == UnicodeRenderStyle::Heavy,
    {
        UnicodeRenderer { style: UnicodeRenderStyle::Heavy }
    }

    /// Renders `grid`, one glyph per cell, each row ended by a line break.
    pub fn render(&self, grid: &Wall4Grid) -> (r: String)
        requires
            grid.wf(),
        ensures
            r@ == grid_text(
                grid.cells(),
                grid.spec_width(),
                grid.spec_height(),
                glyph_table(self.spec_style()),
                true,
            ),
    {
        crate::renderers::UnicodeRenderer::new(self.style, true).render(grid)
    }
}

} // verus!
