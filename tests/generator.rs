use amaze::renderers::{UnicodeRenderStyle, UnicodeRenderer};
use amaze::VisitMap2D;
use rand::rngs::StdRng;
use rand::seq::SliceRandom;
use rand::SeedableRng;
use amaze::{Direction4, GridCoord2D, MazeGenerator2D, RecursiveBacktracker4, Wall4Grid};

fn walls_at(grid: &Wall4Grid, x: usize, y: usize) -> Direction4 {
    *grid.get(GridCoord2D::new(x, y)).unwrap()
}

fn cells_of(grid: &Wall4Grid) -> Vec<u8> {
    let mut out = Vec::new();
    for y in 0..grid.height() {
        for x in 0..grid.width() {
            out.push(walls_at(grid, x, y).bits());
        }
    }
    out
}

/// Checks that the walls agree, that there are `w * h - 1` passages, and
/// that every cell is reachable from the origin.
fn assert_perfect(grid: &Wall4Grid) {
    let (w, h) = (grid.width(), grid.height());
    let mut passages = 0;
    for y in 0..h {
        for x in 0..w {
            let c = walls_at(grid, x, y);
            if x == 0 {
                assert!(c.contains(Direction4::west()));
            }
            if y == 0 {
                assert!(c.contains(Direction4::north()));
            }
            if x + 1 == w {
                assert!(c.contains(Direction4::east()));
            } else {
                let r = walls_at(grid, x + 1, y);
                assert_eq!(c.contains(Direction4::east()), r.contains(Direction4::west()));
                if !c.contains(Direction4::east()) {
                    passages += 1;
                }
            }
            if y + 1 == h {
                assert!(c.contains(Direction4::south()));
            } else {
                let d = walls_at(grid, x, y + 1);
                assert_eq!(c.contains(Direction4::south()), d.contains(Direction4::north()));
                if !c.contains(Direction4::south()) {
                    passages += 1;
                }
            }
        }
    }
    assert_eq!(passages, w * h - 1);
    let mut seen = vec![false; w * h];
    let mut todo = vec![(0usize, 0usize)];
    seen[0] = true;
    while let Some((x, y)) = todo.pop() {
        let c = walls_at(grid, x, y);
        let mut next = Vec::new();
        if !c.contains(Direction4::north()) {
            next.push((x, y - 1));
        }
        if !c.contains(Direction4::south()) {
            next.push((x, y + 1));
        }
        if !c.contains(Direction4::east()) {
            next.push((x + 1, y));
        }
        if !c.contains(Direction4::west()) {
            next.push((x - 1, y));
        }
        for (nx, ny) in next {
            if !seen[ny * w + nx] {
                seen[ny * w + nx] = true;
                todo.push((nx, ny));
            }
        }
    }
    assert!(seen.iter().all(|&s| s));
}

#[test]
fn recursive_backtracker4_it_works() {
    let gen = RecursiveBacktracker4::new_random();
    let grid = gen.generate(16, 16);
    assert_eq!(grid.width(), 16);
    assert_eq!(grid.height(), 16);

    let renderer = UnicodeRenderer::new(UnicodeRenderStyle::Heavy, true);
    let str = renderer.render(&grid);
    println!("{}", str);
}

#[test]
fn generated_mazes_are_spanning_trees() {
    for (w, h, seed) in [(1, 1, 3), (1, 7, 9), (7, 1, 11), (6, 6, 0xdeadbeef), (13, 5, 42), (20, 20, 7)] {
        let grid = RecursiveBacktracker4::new_from_seed(seed).generate(w, h);
        assert_eq!(grid.width(), w);
        assert_eq!(grid.height(), h);
        assert_perfect(&grid);
    }
    let grid = RecursiveBacktracker4::new_random().generate(9, 4);
    assert_perfect(&grid);
}

#[test]
fn same_seed_gives_same_maze() {
    let a = RecursiveBacktracker4::new_from_seed(1337).generate(18, 24);
    let b = RecursiveBacktracker4::new_from_seed(1337).generate(18, 24);
    assert_eq!(cells_of(&a), cells_of(&b));
    let gen = RecursiveBacktracker4::new_from_seed(99);
    assert_eq!(cells_of(&gen.generate(10, 10)), cells_of(&gen.generate(10, 10)));
    let random = RecursiveBacktracker4::new_from_seed(0);
    assert_eq!(cells_of(&random.generate(8, 8)), cells_of(&random.generate(8, 8)));
}

#[test]
fn single_cell_keeps_all_walls() {
    let grid = RecursiveBacktracker4::new_from_seed(5).generate(1, 1);
    assert!(walls_at(&grid, 0, 0).is_all());
}

#[test]
fn generator_trait_delegates() {
    let gen: RecursiveBacktracker4 = MazeGenerator2D::new_from_seed(0xdeadbeef);
    let grid = MazeGenerator2D::generate(&gen, 6, 6);
    let direct = RecursiveBacktracker4::new_from_seed(0xdeadbeef).generate(6, 6);
    assert_eq!(cells_of(&grid), cells_of(&direct));
}

// Seed 0xdeadbeef, 6 by 6. The generator picks among the unvisited
// neighbors (up, right, down, left) with one 64-bit draw per step, taken
// modulo their count. The layouts it yields for this seed are NOT the
// widely quoted example layouts (first heavy row `╻╺┳━━┓`, first hex row
// `24ECCA`). The random stream is not the cause: with the same StdRng
// stream, those example layouts come from picking with rand's
// `SliceRandom::choose` (a 32-bit draw with rejection sampling, and no draw
// when no neighbor is left). The `choose_pick_*` tests below carve that way,
// through this crate's grid, visit map and renderers, and reproduce the
// example layouts exactly.

#[test]
fn seeded_heavy_layout() {
    let grid = RecursiveBacktracker4::new_from_seed(0xdeadbeef).generate(6, 6);
    let renderer = UnicodeRenderer::new(UnicodeRenderStyle::Heavy, true);
    assert_eq!(renderer.render(&grid), "╻╺┳┓╺┓\n┗━┛┗━┫\n┏━━━┓┃\n┗┓╻┏┛┃\n╻┗┫┗━┛\n┗━┻━━╸\n");
}

#[test]
fn seeded_double_layout() {
    let grid = RecursiveBacktracker4::new_from_seed(0xdeadbeef).generate(6, 6);
    let renderer = UnicodeRenderer::new(UnicodeRenderStyle::Double, true);
    assert_eq!(renderer.render(&grid), "╥╞╦╗╞╗\n╚═╝╚═╣\n╔═══╗║\n╚╗╥╔╝║\n╥╚╣╚═╝\n╚═╩══╡\n");
}

#[test]
fn seeded_thin_layout() {
    let grid = RecursiveBacktracker4::new_from_seed(0xdeadbeef).generate(6, 6);
    let renderer = UnicodeRenderer::new(UnicodeRenderStyle::Thin, true);
    assert_eq!(renderer.render(&grid), "╷╶┬┐╶┐\n└─┘└─┤\n┌───┐│\n└┐╷┌┘│\n╷└┤└─┘\n└─┴──╴\n");
}

#[test]
fn seeded_hex_layout() {
    let grid = RecursiveBacktracker4::new_from_seed(0xdeadbeef).generate(6, 6);
    let renderer = UnicodeRenderer::new(UnicodeRenderStyle::Hexadecimal, true);
    assert_eq!(renderer.render(&grid), "24EA4A\n5C95CB\n6CCCA3\n5A2693\n25B5C9\n5CDCC8\n");
    let renderer = UnicodeRenderer::new(UnicodeRenderStyle::Hexadecimal, false);
    assert_eq!(renderer.render(&grid), "24EA4A5C95CB6CCCA35A269325B5C95CDCC8");
}

/// Carves the depth-first maze from the origin, picking each next cell
/// with `SliceRandom::choose` on the unvisited neighbors.
fn carve_with_choose(seed: u64, width: usize, height: usize) -> Wall4Grid {
    let mut rng = StdRng::seed_from_u64(seed);
    let mut grid = Wall4Grid::new(width, height);
    let mut visits = VisitMap2D::new(width, height);
    let mut current = GridCoord2D::default();
    let mut stack = Vec::new();
    loop {
        visits.set(current, true);
        let neighbors = visits.unvisited_neighbors(current);
        if let Some(&next) = neighbors.choose(&mut rng) {
            stack.push(current);
            grid.remove_wall_between(current, next);
            current = next;
            continue;
        }
        match stack.pop() {
            Some(cell) => current = cell,
            None => break,
        }
    }
    grid
}

#[test]
fn choose_pick_heavy_layout() {
    let grid = carve_with_choose(0xdeadbeef, 6, 6);
    let renderer = UnicodeRenderer::new(UnicodeRenderStyle::Heavy, true);
    let expected = "╻╺┳━━┓\n┗┓┃┏┓╹\n╻┃┣┛┗┓\n┣┛┗━╸┃\n┗━┓┏━┫\n╺━┻┛╺┛\n";
    assert_eq!(renderer.render(&grid), expected);
    assert_perfect(&grid);
}

#[test]
fn choose_pick_double_layout() {
    let grid = carve_with_choose(0xdeadbeef, 6, 6);
    let renderer = UnicodeRenderer::new(UnicodeRenderStyle::Double, true);
    let expected = "╥╞╦══╗\n╚╗║╔╗╨\n╥║╠╝╚╗\n╠╝╚═╡║\n╚═╗╔═╣\n╞═╩╝╞╝\n";
    assert_eq!(renderer.render(&grid), expected);
}

#[test]
fn choose_pick_thin_layout() {
    let grid = carve_with_choose(0xdeadbeef, 6, 6);
    let renderer = UnicodeRenderer::new(UnicodeRenderStyle::Thin, true);
    let expected = "╷╶┬──┐\n└┐│┌┐╵\n╷│├┘└┐\n├┘└─╴│\n└─┐┌─┤\n╶─┴┘╶┘\n";
    assert_eq!(renderer.render(&grid), expected);
}

#[test]
fn choose_pick_hex_layout() {
    let grid = carve_with_choose(0xdeadbeef, 6, 6);
    let renderer = UnicodeRenderer::new(UnicodeRenderStyle::Hexadecimal, true);
    let expected = "24ECCA\n5A36A1\n23795A\n795C83\n5CA6CB\n4CD949\n";
    assert_eq!(renderer.render(&grid), expected);

    let renderer = UnicodeRenderer::new(UnicodeRenderStyle::Hexadecimal, false);
    let expected = "24ECCA5A36A123795A795C835CA6CB4CD949";
    assert_eq!(renderer.render(&grid), expected);
}

#[test]
fn modulo_pick_differs_from_choose_pick() {
    let generated = RecursiveBacktracker4::new_from_seed(0xdeadbeef).generate(6, 6);
    let chosen = carve_with_choose(0xdeadbeef, 6, 6);
    assert_ne!(cells_of(&generated), cells_of(&chosen));
}
