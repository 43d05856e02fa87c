use amaze::render_unicode::render_paths_unicode;
use amaze::renderers::{ImageFormat, ImageRenderer, RenderStyle, UnicodeRenderStyle, UnicodeRenderer};
use amaze::unicode_renderer::UnicodeRenderer as BoxRenderer;
use amaze::{GridCoord2D, RecursiveBacktracker4, Wall4Grid};

#[test]
fn walled_grid_renders_blank_cells() {
    let grid = Wall4Grid::new(3, 2);
    let heavy = UnicodeRenderer::new(UnicodeRenderStyle::Heavy, true);
    assert_eq!(heavy.render(&grid), "   \n   \n");
    let hex = UnicodeRenderer::new(UnicodeRenderStyle::Hexadecimal, false);
    assert_eq!(hex.render(&grid), "000000");
}

#[test]
fn open_cell_renders_cross() {
    let mut grid = Wall4Grid::new(3, 3);
    let c = GridCoord2D::new(1, 1);
    grid.remove_wall_between(c, GridCoord2D::new(1, 0));
    grid.remove_wall_between(c, GridCoord2D::new(1, 2));
    grid.remove_wall_between(c, GridCoord2D::new(0, 1));
    grid.remove_wall_between(c, GridCoord2D::new(2, 1));
    let hex = UnicodeRenderer::new(UnicodeRenderStyle::Hexadecimal, true);
    assert_eq!(hex.render(&grid), "020\n4F8\n010\n");
    let heavy = UnicodeRenderer::new(UnicodeRenderStyle::Heavy, true);
    assert_eq!(heavy.render(&grid), " ╻ \n╺╋╸\n ╹ \n");
}

// The layouts below are what the generator's modulo pick yields for seed
// 0xdeadbeef; see tests/generator.rs for why they differ from the widely
// quoted example layouts.
#[test]
fn box_renderers_end_rows() {
    let grid = RecursiveBacktracker4::new_from_seed(0xdeadbeef).generate(6, 6);
    let heavy = "╻╺┳┓╺┓\n┗━┛┗━┫\n┏━━━┓┃\n┗┓╻┏┛┃\n╻┗┫┗━┛\n┗━┻━━╸\n";
    let double = "╥╞╦╗╞╗\n╚═╝╚═╣\n╔═══╗║\n╚╗╥╔╝║\n╥╚╣╚═╝\n╚═╩══╡\n";
    let thin = "╷╶┬┐╶┐\n└─┘└─┤\n┌───┐│\n└┐╷┌┘│\n╷└┤└─┘\n└─┴──╴\n";
    assert_eq!(BoxRenderer::new_heavy().render(&grid), heavy);
    assert_eq!(BoxRenderer::new_double().render(&grid), double);
    assert_eq!(BoxRenderer::new_thin().render(&grid), thin);
    assert_eq!(render_paths_unicode(&grid), double);
}

#[test]
fn pbm_of_single_cell() {
    let grid = Wall4Grid::new(1, 1);
    let renderer = ImageRenderer::new(ImageFormat::PBM);
    assert_eq!(renderer.render(&grid), "P1\n3 3\n1 1 1 \n1 0 1 \n1 1 1 \n");
}

#[test]
fn pbm_shows_passages() {
    let mut grid = Wall4Grid::new(2, 1);
    grid.remove_wall_between(GridCoord2D::new(0, 0), GridCoord2D::new(1, 0));
    let renderer = ImageRenderer::new(ImageFormat::PBM);
    assert_eq!(
        renderer.render(&grid),
        "P1\n5 3\n1 1 1 1 1 \n1 0 0 0 1 \n1 1 1 1 1 \n"
    );
}

#[test]
fn ppm_of_two_cells() {
    let grid = Wall4Grid::new(2, 1);
    let mut renderer = ImageRenderer::new(ImageFormat::PPM);
    let wall = "12 12 72 ";
    let path = "255 255 255 ";
    let full_wall_row = format!("{w}{w}{w}{w}{w}\n\n", w = wall);
    let middle = format!("{w}{p}{w}{p}{w}\n\n", w = wall, p = path);
    let expected = format!("P3\n5 3\n255\n{}{}{}", full_wall_row, middle, full_wall_row);
    assert_eq!(renderer.render(&grid), expected);

    renderer.set_colors((255, 0, 0), (0, 0, 0));
    let image = renderer.render(&grid);
    assert!(image.starts_with("P3\n5 3\n255\n255 0 0 255 0 0 "));
    assert!(image.contains("255 0 0 0 0 0 255 0 0 0 0 0 255 0 0 \n\n"));
}

#[test]
fn ppm_line_breaks_every_fifth_pixel() {
    let grid = Wall4Grid::new(3, 1);
    let renderer = ImageRenderer::new(ImageFormat::PPM);
    let image = renderer.render(&grid);
    let first_row = format!("{}\n{}\n", "12 12 72 ".repeat(5), "12 12 72 ".repeat(2));
    assert!(image.starts_with(&format!("P3\n7 3\n255\n{}", first_row)));
}

#[test]
fn style_names_parse() {
    assert_eq!(
        RenderStyle::parse("heavy"),
        Ok(RenderStyle::Unicode(UnicodeRenderStyle::Heavy))
    );
    assert_eq!(
        RenderStyle::parse("Thin"),
        Ok(RenderStyle::Unicode(UnicodeRenderStyle::Thin))
    );
    assert_eq!(
        RenderStyle::parse("DOUBLE"),
        Ok(RenderStyle::Unicode(UnicodeRenderStyle::Double))
    );
    assert_eq!(
        RenderStyle::parse("hex"),
        Ok(RenderStyle::Unicode(UnicodeRenderStyle::Hexadecimal))
    );
    assert_eq!(RenderStyle::parse("PPM"), Ok(RenderStyle::Image(ImageFormat::PPM)));
    assert_eq!(
        "pbm".parse::<RenderStyle>(),
        Ok(RenderStyle::Image(ImageFormat::PBM))
    );
    assert_eq!(
        RenderStyle::default(),
        RenderStyle::Unicode(UnicodeRenderStyle::Heavy)
    );
}

#[test]
fn unknown_style_is_rejected() {
    assert_eq!(
        RenderStyle::parse("Bold"),
        Err(String::from(
            "Invalid style 'Bold'. Valid styles are: heavy, thin, double, hex, ppm, pbm."
        ))
    );
    assert!(RenderStyle::parse("").is_err());
}

#[test]
fn lowercase_names_select_styles() {
    assert_eq!(
        RenderStyle::from_lowercase_name("thin"),
        Some(RenderStyle::Unicode(UnicodeRenderStyle::Thin))
    );
    assert_eq!(
        RenderStyle::from_lowercase_name("pbm"),
        Some(RenderStyle::Image(ImageFormat::PBM))
    );
    assert_eq!(RenderStyle::from_lowercase_name("Thin"), None);
    assert_eq!(RenderStyle::from_lowercase_name("bold"), None);
}
