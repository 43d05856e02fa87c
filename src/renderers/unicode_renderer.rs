use crate::direction4::{complement_bits, Direction4, ALL_BITS};
use crate::grid_coord_2d::{linear_index, GridCoord2D};
use crate::wall4_grid::Wall4Grid;
use crate::grid_coord_2d::GetCoordinateBounds2D;
use vstd::prelude::*;

verus! {

/// The glyph sets a text rendering can use. Each maps the 16 door patterns
/// of a cell (bit 0 north, 1 south, 2 east, 3 west) to one character.
#[derive(Debug, Clone, Copy, PartialEq, Eq, Structural)]
pub enum UnicodeRenderStyle {
    /// Thin box-drawing lines.
    Thin,
    /// Double box-drawing lines.
    Double,
    /// Heavy box-drawing lines.
    Heavy,
    /// The door pattern as one hexadecimal digit.
    Hexadecimal,
}

/// The glyphs of `style`, indexed by door pattern.
pub open spec fn glyph_table(style: UnicodeRenderStyle) -> Seq<char> {
    match style {
        UnicodeRenderStyle::Thin => seq![
            ' ', '\u{2575}', '\u{2577}', '\u{2502}', '\u{2576}', '\u{2514}', '\u{250C}', '\u{251C}',
            '\u{2574}', '\u{2518}', '\u{2510}', '\u{2524}', '\u{2500}', '\u{2534}', '\u{252C}', '\u{253C}',
        ],
        UnicodeRenderStyle::Double => seq![
            ' ', '\u{2568}', '\u{2565}', '\u{2551}', '\u{255E}', '\u{255A}', '\u{2554}', '\u{2560}',
            '\u{2561}', '\u{255D}', '\u{2557}', '\u{2563}', '\u{2550}', '\u{2569}', '\u{2566}', '\u{256C}',
        ],
        UnicodeRenderStyle::Heavy => seq![
            ' ', '\u{2579}', '\u{257B}', '\u{2503}', '\u{257A}', '\u{2517}', '\u{250F}', '\u{2523}',
            '\u{2578}', '\u{251B}', '\u{2513}', '\u{252B}', '\u{2501}', '\u{253B}', '\u{2533}', '\u{254B}',
        ],
        UnicodeRenderStyle::Hexadecimal => seq![
            '0', '1', '2', '3', '4', '5', '6', '7', '8', '9', 'A', 'B', 'C', 'D', 'E', 'F',
        ],
    }
}

/// The glyphs of `style`, indexed by door pattern.
pub fn glyphs(style: UnicodeRenderStyle) -> (r: [char; 16])
    ensures
        r@ == glyph_table(style),
{
    match style {
        UnicodeRenderStyle::Thin => [
            ' ', '\u{2575}', '\u{2577}', '\u{2502}', '\u{2576}', '\u{2514}', '\u{250C}', '\u{251C}',
            '\u{2574}', '\u{2518}', '\u{2510}', '\u{2524}', '\u{2500}', '\u{2534}', '\u{252C}', '\u{253C}',
        ],
        UnicodeRenderStyle::Double => [
            ' ', '\u{2568}', '\u{2565}', '\u{2551}', '\u{255E}', '\u{255A}', '\u{2554}', '\u{2560}',
            '\u{2561}', '\u{255D}', '\u{2557}', '\u{2563}', '\u{2550}', '\u{2569}', '\u{2566}', '\u{256C}',
        ],
        UnicodeRenderStyle::Heavy => [
            ' ', '\u{2579}', '\u{257B}', '\u{2503}', '\u{257A}', '\u{2517}', '\u{250F}', '\u{2523}',
            '\u{2578}', '\u{251B}', '\u{2513}', '\u{252B}', '\u{2501}', '\u{253B}', '\u{2533}', '\u{254B}',
        ],
        UnicodeRenderStyle::Hexadecimal => [
            '0', '1', '2', '3', '4', '5', '6', '7', '8', '9', 'A', 'B', 'C', 'D', 'E', 'F',
        ],
    }
}

/// The glyphs of the first `n` cells of row `y`: each cell shows the glyph
/// of its doors, the complement of its walls.
pub open spec fn row_text(cells: Seq<u8>, width: nat, y: nat, table: Seq<char>, n: nat) -> Seq<char>
    decreases n,
{
    if n == 0 {
        seq![]
    } else {
        row_text(cells, width, y, table, (n - 1) as nat).push(
            table[complement_bits(cells[y * width + n - 1]) as int],
        )
    }
}

/// The text of the first `rows` rows of a grid `width` cells wide, each row
/// followed by a line break when `line_breaks` holds.
pub open spec fn grid_text(
    cells: Seq<u8>,
    width: nat,
    rows: nat,
    table: Seq<char>,
    line_breaks: bool,
) -> Seq<char>
    decreases rows,
{
    if rows == 0 {
        seq![]
    } else {
        grid_text(cells, width, (rows - 1) as nat, table, line_breaks) + row_text(
            cells,
            width,
            (rows - 1) as nat,
            table,
            width,
        ) + if line_breaks {
            seq!['\n']
        } else {
            seq![]
        }
    }
}

/// The text of `rows` rows of `width` copies of the glyph `glyph`, each row
/// followed by a line break when `line_breaks` holds.
pub open spec fn uniform_text(width: nat, rows: nat, glyph: char, line_breaks: bool) -> Seq<char>
    decreases rows,
{
    if rows == 0 {
        seq![]
    } else {
        uniform_text(width, (rows - 1) as nat, glyph, line_breaks) + Seq::new(width, |i: int| glyph)
            + if line_breaks {
            seq!['\n']
        } else {
            seq![]
        }
    }
}

/// A grid whose cells all keep their four walls renders, in any style, as
/// the glyph for "no doors" in every cell.
pub proof fn lemma_walled_grid_text(
    width: nat,
    height: nat,
    style: UnicodeRenderStyle,
    line_breaks: bool,
)
    ensures
        grid_text(
            Seq::new(width * height, |i: int| ALL_BITS),
            width,
            height,
            glyph_table(style),
            line_breaks,
        ) == uniform_text(width, height, glyph_table(style)[0], line_breaks),
{
    lemma_walled_grid_text_rows(width, height, height, style, line_breaks);
}

/// The rows below `rows` of a fully walled grid read as uniform text.
proof fn lemma_walled_grid_text_rows(
    width: nat,
    height: nat,
    rows: nat,
    style: UnicodeRenderStyle,
    line_breaks: bool,
)
    requires
        rows <= height,
    ensures
        grid_text(
            Seq::new(width * height, |i: int| ALL_BITS),
            width,
            rows,
            glyph_table(style),
            line_breaks,
        ) == uniform_text(width, rows, glyph_table(style)[0], line_breaks),
    decreases rows,
{
    if rows > 0 {
        let y = (rows - 1) as nat;
        lemma_walled_grid_text_rows(width, height, y, style, line_breaks);
        lemma_walled_row_text(width, height, y, style, width);
    }
}

/// The first `n` cells of row `y` of a fully walled grid show the glyph for
/// "no doors".
proof fn lemma_walled_row_text(width: nat, height: nat, y: nat, style: UnicodeRenderStyle, n: nat)
    requires
        y < height,
        n <= width,
    ensures
        row_text(Seq::new(width * height, |i: int| ALL_BITS), width, y, glyph_table(style), n)
            == Seq::new(n, |i: int| glyph_table(style)[0]),
    decreases n,
{
    let cells = Seq::new(width * height, |i: int| ALL_BITS);
    if n > 0 {
        lemma_walled_row_text(width, height, y, style, (n - 1) as nat);
        assert(y * width + n - 1 < width * height) by (nonlinear_arith)
            requires
                y < height,
                n <= width,
                n > 0,
        ;
        assert(complement_bits(ALL_BITS) == 0) by (bit_vector);
        assert(row_text(cells, width, y, glyph_table(style), n) =~= Seq::new(
            n,
            |i: int| glyph_table(style)[0],
        ));
    }
}

/// Relies on `String::push`: appends one character.
#[verifier::external_body]
pub(crate) fn push_char(out: &mut String, c: char)
    ensures
        final(out)@ == old(out)@.push(c),
{
    out.push(c);
}

/// A text renderer: one glyph per cell, in a chosen style.
#[derive(Debug, Clone, Copy)]
pub struct UnicodeRenderer {
    style: UnicodeRenderStyle,
    line_breaks: bool,
}

impl UnicodeRenderer {
    /// The style this renderer draws with.
    pub closed spec fn spec_style(&self) -> UnicodeRenderStyle {
        self.style
    }

    /// Whether each row ends with a line break.
    pub closed spec fn spec_line_breaks(&self) -> bool {
        self.line_breaks
    }

    /// A renderer with the glyphs of `style`, each row followed by a line
    /// break when `line_breaks` holds.
    pub fn new(style: UnicodeRenderStyle, line_breaks: bool) -> (r: Self)
        ensures
            r.spec_style() == style,
            r.spec_line_breaks() == line_breaks,
    {
        UnicodeRenderer { style, line_breaks }
    }

    /// The glyph of the door pattern `doors`.
    fn lookup(&self, doors: Direction4) -> (r: char)
        ensures
            r == glyph_table(self.style)[doors@ as int],
    {
        let table = glyphs(self.style);
        table[doors.bits() as usize]
    }

    /// Renders `grid`.
    pub fn render(&self, grid: &Wall4Grid) -> (r: String)
        requires
            grid.wf(),
        ensures
            r@ == grid_text(
                grid.cells(),
                grid.spec_width(),
                grid.spec_height(),
                glyph_table(self.spec_style()),
                self.spec_line_breaks(),
            ),
    {
        let width = grid.width();
        let height = grid.height();
        let ghost cells = grid.cells();
        let mut output = String::new();
        let mut y: usize = 0;
        while y < height
            invariant
                y <= height,
                width == grid.spec_width(),
                height == grid.spec_height(),
                grid.wf(),
                cells == grid.cells(),
                output@ == grid_text(
                    cells,
                    width as nat,
                    y as nat,
                    glyph_table(self.style),
                    self.line_breaks,
                ),
            decreases height - y,
        {
            let ghost before = output@;
            let mut x: usize = 0;
            while x < width
                invariant
                    x <= width,
                    y < height,
                    width == grid.spec_width(),
                    height == grid.spec_height(),
                    grid.wf(),
                    cells == grid.cells(),
                    output@ == before + row_text(
                        cells,
                        width as nat,
                        y as nat,
                        glyph_table(self.style),
                        x as nat,
                    ),
                decreases width - x,
            {
                let coord = GridCoord2D::new(x, y);
                proof {
                    crate::grid_coord_2d::lemma_linear_index_in_bounds(
                        coord,
                        width as nat,
                        height as nat,
                    );
                    assert(cells[linear_index(coord, width as nat)] <= ALL_BITS);
                }
                let doors = grid.index(coord).complement();
                push_char(&mut output, self.lookup(doors));
                x = x + 1;
            }
            if self.line_breaks {
                push_char(&mut output, '\n');
            }
            y = y + 1;
            proof {
                assert(output@ =~= grid_text(
                    cells,
                    width as nat,
                    y as nat,
                    glyph_table(self.style),
                    self.line_breaks,
                ));
            }
        }
        output
    }
}

} // verus!
