use crate::direction4::{Direction4, EAST_BIT, NORTH_BIT, SOUTH_BIT, WEST_BIT};
use crate::grid_coord_2d::{lemma_linear_index_in_bounds, GetCoordinateBounds2D, GridCoord2D};
use crate::renderers::unicode_renderer::push_char;
use crate::wall4_grid::{has_wall, Wall4Grid};
use vstd::prelude::*;

verus! {

/// The image formats an image rendering can take.
#[derive(Debug, Clone, Copy, PartialEq, Eq, Structural)]
pub enum ImageFormat {
    /// Portable pixmap: plain-text RGB colors.
    PPM,
    /// Portable bitmap: plain-text ones for walls and zeros for paths.
    PBM,
}

/// An RGB color.
pub type Rgb = (u8, u8, u8);

/// Renders grids as images of `2 * width + 1` by `2 * height + 1` pixels:
/// cell `(x, y)` is the pixel `(2x + 1, 2y + 1)`, the pixels between two
/// cells show whether a passage joins them, and all else is wall.
pub struct ImageRenderer {
    format: ImageFormat,
    wall_color: Rgb,
    path_color: Rgb,
}

/// The decimal digits of `n`, without leading zeros.
pub open spec fn decimal(n: nat) -> Seq<char>
    decreases n,
{
    if n < 10 {
        seq![digit_of(n)]
    } else {
        decimal(n / 10).push(digit_of(n % 10))
    }
}

/// The character of the decimal digit `d`.
pub open spec fn digit_of(d: nat) -> char {
    seq!['0', '1', '2', '3', '4', '5', '6', '7', '8', '9'][d as int]
}

/// The cell at column `x` and row `y`.
pub open spec fn cell_at(x: int, y: int) -> GridCoord2D {
    GridCoord2D { x: x as usize, y: y as usize }
}

/// Whether pixel `(ix, iy)` of the image of a grid is path rather than
/// wall: a cell's center, or the pixel between two neighboring cells when
/// either of them lacks the wall towards the other.
pub open spec fn pixel_is_path(cells: Seq<u8>, width: nat, height: nat, ix: int, iy: int) -> bool {
    let (x, y) = (ix / 2, iy / 2);
    if ix % 2 == 1 && iy % 2 == 1 {
        x < width && y < height
    } else if ix % 2 == 1 && iy % 2 == 0 {
        &&& x < width
        &&& 1 <= y < height
        &&& (!has_wall(cells, width, cell_at(x, y), NORTH_BIT) || !has_wall(
            cells,
            width,
            cell_at(x, y - 1),
            SOUTH_BIT,
        ))
    } else if ix % 2 == 0 && iy % 2 == 1 {
        &&& 1 <= x < width
        &&& y < height
        &&& (!has_wall(cells, width, cell_at(x, y), WEST_BIT) || !has_wall(
            cells,
            width,
            cell_at(x - 1, y),
            EAST_BIT,
        ))
    } else {
        false
    }
}

/// The text of one PPM pixel: its three channels, each followed by a space.
pub open spec fn ppm_pixel(c: Rgb) -> Seq<char> {
    decimal(c.0 as nat) + seq![' '] + decimal(c.1 as nat) + seq![' '] + decimal(c.2 as nat) + seq![
        ' ',
    ]
}

/// The PPM text of the first `n` pixels of image row `iy`, with a line break
/// after every fifth pixel.
pub open spec fn ppm_row(
    cells: Seq<u8>,
    width: nat,
    height: nat,
    wall: Rgb,
    path: Rgb,
    iy: int,
    n: nat,
) -> Seq<char>
    decreases n,
{
    if n == 0 {
        seq![]
    } else {
        let ix = n - 1;
        let c = if pixel_is_path(cells, width, height, ix, iy) {
            path
        } else {
            wall
        };
        ppm_row(cells, width, height, wall, path, iy, (n - 1) as nat) + ppm_pixel(c) + if ix % 5
            == 4 {
            seq!['\n']
        } else {
            seq![]
        }
    }
}

/// The PPM text of the first `rows` image rows, each ended by a line break.
pub open spec fn ppm_rows(
    cells: Seq<u8>,
    width: nat,
    height: nat,
    wall: Rgb,
    path: Rgb,
    rows: nat,
) -> Seq<char>
    decreases rows,
{
    if rows == 0 {
        seq![]
    } else {
        ppm_rows(cells, width, height, wall, path, (rows - 1) as nat) + ppm_row(
            cells,
            width,
            height,
            wall,
            path,
            rows - 1,
            2 * width + 1,
        ) + seq!['\n']
    }
}

/// The PPM image of a grid: the header `P3`, the image size and the channel
/// maximum 255, then the pixels row by row.
pub open spec fn ppm_text(cells: Seq<u8>, width: nat, height: nat, wall: Rgb, path: Rgb) -> Seq<
    char,
> {
    "P3\n"@ + decimal(2 * width + 1) + seq![' '] + decimal(2 * height + 1) + "\n255\n"@ + ppm_rows(
        cells,
        width,
        height,
        wall,
        path,
        2 * height + 1,
    )
}

/// The PBM text of the first `n` pixels of image row `iy`: `1 ` for wall,
/// `0 ` for path.
pub open spec fn pbm_row(cells: Seq<u8>, width: nat, height: nat, iy: int, n: nat) -> Seq<char>
    decreases n,
{
    if n == 0 {
        seq![]
    } else {
        pbm_row(cells, width, height, iy, (n - 1) as nat) + if pixel_is_path(
            cells,
            width,
            height,
            n - 1,
            iy,
        ) {
            seq!['0', ' ']
        } else {
            seq!['1', ' ']
        }
    }
}

/// The PBM text of the first `rows` image rows, each ended by a line break.
pub open spec fn pbm_rows(cells: Seq<u8>, width: nat, height: nat, rows: nat) -> Seq<char>
    decreases rows,
{
    if rows == 0 {
        seq![]
    } else {
        pbm_rows(cells, width, height, (rows - 1) as nat) + pbm_row(
            cells,
            width,
            height,
            rows - 1,
            2 * width + 1,
        ) + seq!['\n']
    }
}

/// The PBM image of a grid: the header `P1` and the image size, then the
/// pixels row by row.
pub open spec fn pbm_text(cells: Seq<u8>, width: nat, height: nat) -> Seq<char> {
    "P1\n"@ + decimal(2 * width + 1) + seq![' '] + decimal(2 * height + 1) + seq!['\n'] + pbm_rows(
        cells,
        width,
        height,
        2 * height + 1,
    )
}

/// Appends the decimal digits of `n`.
pub fn push_decimal(out: &mut String, n: usize)
    ensures
        final(out)@ == old(out)@ + decimal(n as nat),
    decreases n,
{
    let digits: [char; 10] = ['0', '1', '2', '3', '4', '5', '6', '7', '8', '9'];
    if n >= 10 {
        push_decimal(out, n / 10);
    }
    push_char(out, digits[n % 10]);
    proof {
        assert(digits@ == seq!['0', '1', '2', '3', '4', '5', '6', '7', '8', '9']);
        if n >= 10 {
            assert(final(out)@ =~= old(out)@ + decimal(n as nat));
        } else {
            assert(final(out)@ =~= old(out)@ + decimal(n as nat));
        }
    }
}

/// Whether pixel `(ix, iy)` of the image of `grid` is path.
fn pixel_path(grid: &Wall4Grid, ix: usize, iy: usize) -> (r: bool)
    requires
        grid.wf(),
    ensures
        r == pixel_is_path(
            grid.cells(),
            grid.spec_width(),
            grid.spec_height(),
            ix as int,
            iy as int,
        ),
{
    let width = grid.width();
    let height = grid.height();
    let x = ix / 2;
    let y = iy / 2;
    if ix % 2 == 1 && iy % 2 == 1 {
        x < width && y < height
    } else if ix % 2 == 1 && iy % 2 == 0 {
        if x < width && 1 <= y && y < height {
            let here = GridCoord2D::new(x, y);
            let above = GridCoord2D::new(x, y - 1);
            proof {
                lemma_linear_index_in_bounds(here, width as nat, height as nat);
                lemma_linear_index_in_bounds(above, width as nat, height as nat);
            }
            !grid.index(here).contains(Direction4::north()) || !grid.index(above).contains(
                Direction4::south(),
            )
        } else {
            false
        }
    } else if ix % 2 == 0 && iy % 2 == 1 {
        if 1 <= x && x < width && y < height {
            let here = GridCoord2D::new(x, y);
            let left = GridCoord2D::new(x - 1, y);
            proof {
                lemma_linear_index_in_bounds(here, width as nat, height as nat);
                lemma_linear_index_in_bounds(left, width as nat, height as nat);
            }
            !grid.index(here).contains(Direction4::west()) || !grid.index(left).contains(
                Direction4::east(),
            )
        } else {
            false
        }
    } else {
        false
    }
}

/// Appends the three channels of `c`, each followed by a space.
fn push_rgb(out: &mut String, c: Rgb)
    ensures
        final(out)@ == old(out)@ + ppm_pixel(c),
{
    push_decimal(out, c.0 as usize);
    push_char(out, ' ');
    push_decimal(out, c.1 as usize);
    push_char(out, ' ');
    push_decimal(out, c.2 as usize);
    push_char(out, ' ');
    assert(final(out)@ =~= old(out)@ + ppm_pixel(c));
}

impl ImageRenderer {
    /// The format this renderer writes.
    pub closed spec fn spec_format(&self) -> ImageFormat {
        self.format
    }

    /// The color of wall pixels in PPM images.
    pub closed spec fn spec_wall_color(&self) -> Rgb {
        self.wall_color
    }

    /// The color of path pixels in PPM images.
    pub closed spec fn spec_path_color(&self) -> Rgb {
        self.path_color
    }

    /// A renderer for `format`, with near-black walls `(12, 12, 72)` and
    /// white paths.
    pub fn new(format: ImageFormat) -> (r: Self)
        ensures
            r.spec_format() == format,
            r.spec_wall_color() == (12u8, 12u8, 72u8),
            r.spec_path_color() == (255u8, 255u8, 255u8),
    {
        ImageRenderer { format, wall_color: (12, 12, 72), path_color: (255, 255, 255) }
    }

    /// Sets the colors of walls and paths, which PPM images use.
    pub fn set_colors(&mut self, wall_color: Rgb, path_color: Rgb)
        ensures
            final(self).spec_format() == old(self).spec_format(),
            final(self).spec_wall_color() == wall_color,
            final(self).spec_path_color() == path_color,
    {
        self.wall_color = wall_color;
        self.path_color = path_color;
    }

    /// Renders `grid` in this renderer's format.
    pub fn render(&self, grid: &Wall4Grid) -> (r: String)
        requires
            grid.wf(),
            2 * grid.spec_width() + 1 <= usize::MAX,
            2 * grid.spec_height() + 1 <= usize::MAX,
        ensures
            self.spec_format() == ImageFormat::PPM ==> r@ == ppm_text(
                grid.cells(),
                grid.spec_width(),
                grid.spec_height(),
                self.spec_wall_color(),
                self.spec_path_color(),
            ),
            self.spec_format() == ImageFormat::PBM ==> r@ == pbm_text(
                grid.cells(),
                grid.spec_width(),
                grid.spec_height(),
            ),
    {
        match self.format {
            ImageFormat::PPM => self.render_ppm(grid),
            ImageFormat::PBM => self.render_pbm(grid),
        }
    }

    /// Renders `grid` as a PPM image.
    fn render_ppm(&self, grid: &Wall4Grid) -> (r: String)
        requires
            grid.wf(),
            2 * grid.spec_width() + 1 <= usize::MAX,
            2 * grid.spec_height() + 1 <= usize::MAX,
        ensures
            r@ == ppm_text(
                grid.cells(),
                grid.spec_width(),
                grid.spec_height(),
                self.wall_color,
                self.path_color,
            ),
    {
        let width = grid.width();
        let height = grid.height();
        let image_width = width * 2 + 1;
        let image_height = height * 2 + 1;
        let ghost cells = grid.cells();
        let mut ppm = String::from_str("P3\n");
        push_decimal(&mut ppm, image_width);
        push_char(&mut ppm, ' ');
        push_decimal(&mut ppm, image_height);
        ppm.append("\n255\n");
        let ghost header = ppm@;
        assert(header =~= "P3\n"@ + decimal(2 * width as nat + 1) + seq![' '] + decimal(
            2 * height as nat + 1,
        ) + "\n255\n"@);
        let mut iy: usize = 0;
        while iy < image_height
            invariant
                iy <= image_height,
                image_width == 2 * width + 1,
                image_height == 2 * height + 1,
                width == grid.spec_width(),
                height == grid.spec_height(),
                grid.wf(),
                cells == grid.cells(),
                ppm@ == header + ppm_rows(
                    cells,
                    width as nat,
                    height as nat,
                    self.wall_color,
                    self.path_color,
                    iy as nat,
                ),
            decreases image_height - iy,
        {
            let ghost before = ppm@;
            let mut ix: usize = 0;
            while ix < image_width
                invariant
                    ix <= image_width,
                    iy < image_height,
                    image_width == 2 * width + 1,
                    width == grid.spec_width(),
                    height == grid.spec_height(),
                    grid.wf(),
                    cells == grid.cells(),
                    ppm@ == before + ppm_row(
                        cells,
                        width as nat,
                        height as nat,
                        self.wall_color,
                        self.path_color,
                        iy as int,
                        ix as nat,
                    ),
                decreases image_width - ix,
            {
                let pixel = if pixel_path(grid, ix, iy) {
                    self.path_color
                } else {
                    self.wall_color
                };
                push_rgb(&mut ppm, pixel);
                if ix % 5 == 4 {
                    push_char(&mut ppm, '\n');
                }
                ix = ix + 1;
                proof {
                    assert(ppm@ =~= before + ppm_row(
                        cells,
                        width as nat,
                        height as nat,
                        self.wall_color,
                        self.path_color,
                        iy as int,
                        ix as nat,
                    ));
                }
            }
            push_char(&mut ppm, '\n');
            iy = iy + 1;
            proof {
                assert(ppm@ =~= header + ppm_rows(
                    cells,
                    width as nat,
                    height as nat,
                    self.wall_color,
                    self.path_color,
                    iy as nat,
                ));
            }
        }
        ppm
    }

    /// Renders `grid` as a PBM image.
    fn render_pbm(&self, grid: &Wall4Grid) -> (r: String)
        requires
            grid.wf(),
            2 * grid.spec_width() + 1 <= usize::MAX,
            2 * grid.spec_height() + 1 <= usize::MAX,
        ensures
            r@ == pbm_text(grid.cells(), grid.spec_width(), grid.spec_height()),
    {
        let width = grid.width();
        let height = grid.height();
        let image_width = width * 2 + 1;
        let image_height = height * 2 + 1;
        let ghost cells = grid.cells();
        let mut pbm = String::from_str("P1\n");
        push_decimal(&mut pbm, image_width);
        push_char(&mut pbm, ' ');
        push_decimal(&mut pbm, image_height);
        push_char(&mut pbm, '\n');
        let ghost header = pbm@;
        assert(header =~= "P1\n"@ + decimal(2 * width as nat + 1) + seq![' '] + decimal(
            2 * height as nat + 1,
        ) + seq!['\n']);
        let mut iy: usize = 0;
        while iy < image_height
            invariant
                iy <= image_height,
                image_width == 2 * width + 1,
                image_height == 2 * height + 1,
                width == grid.spec_width(),
                height == grid.spec_height(),
                grid.wf(),
                cells == grid.cells(),
                pbm@ == header + pbm_rows(cells, width as nat, height as nat, iy as nat),
            decreases image_height - iy,
        {
            let ghost before = pbm@;
            let mut ix: usize = 0;
            while ix < image_width
                invariant
                    ix <= image_width,
                    iy < image_height,
                    image_width == 2 * width + 1,
                    width == grid.spec_width(),
                    height == grid.spec_height(),
                    grid.wf(),
                    cells == grid.cells(),
                    pbm@ == before + pbm_row(cells, width as nat, height as nat, iy as int, ix as nat),
                decreases image_width - ix,
            {
                if pixel_path(grid, ix, iy) {
                    push_char(&mut pbm, '0');
                } else {
                    push_char(&mut pbm, '1');
                }
                push_char(&mut pbm, ' ');
                ix = ix + 1;
                proof {
                    assert(pbm@ =~= before + pbm_row(
                        cells,
                        width as nat,
                        height as nat,
                        iy as int,
                        ix as nat,
                    ));
                }
            }
            push_char(&mut pbm, '\n');
            iy = iy + 1;
            proof {
                assert(pbm@ =~= header + pbm_rows(cells, width as nat, height as nat, iy as nat));
            }
        }
        pbm
    }
}

} // verus!
