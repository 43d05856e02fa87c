use amaze::visit_map_2d::VisitMap2D;
use amaze::generators::recursive_backtracker4::pick_unvisited_neighbor;
use amaze::{Direction4, GetCoordinateBounds2D, GridCoord2D, LinearizeCoords2D, Wall4Grid};

fn walls_at(grid: &Wall4Grid, x: usize, y: usize) -> Direction4 {
    *grid.get(GridCoord2D::new(x, y)).unwrap()
}

fn all_cells(grid: &Wall4Grid) -> Vec<u8> {
    let mut out = Vec::new();
    for y in 0..grid.height() {
        for x in 0..grid.width() {
            out.push(walls_at(grid, x, y).bits());
        }
    }
    out
}

#[test]
fn linearize_coords_correctly() {
    let grid = Wall4Grid::new(4, 4);
    assert_eq!(grid.linearize_coords(GridCoord2D::new(0, 0)), 0);
    assert_eq!(grid.linearize_coords(GridCoord2D::new(1, 0)), 1);
    assert_eq!(grid.linearize_coords(GridCoord2D::new(3, 0)), 3);
    assert_eq!(grid.linearize_coords(GridCoord2D::new(0, 1)), 4);
    assert_eq!(grid.linearize_coords(GridCoord2D::new(2, 2)), 10);
    assert_eq!(grid.linearize_coords(GridCoord2D::new(3, 3)), 15);
}

#[test]
fn new_grid_is_fully_walled() {
    let grid = Wall4Grid::new(3, 2);
    assert_eq!(grid.width(), 3);
    assert_eq!(grid.height(), 2);
    assert!(all_cells(&grid).iter().all(|&b| b == 0b1111));
    assert!(grid.get(GridCoord2D::new(3, 0)).is_none());
    assert!(grid.get(GridCoord2D::new(0, 2)).is_none());
}

#[test]
fn coordinate_steps_stop_at_zero() {
    let origin = GridCoord2D::default();
    assert_eq!(origin, GridCoord2D::new(0, 0));
    assert_eq!(origin.up(), None);
    assert_eq!(origin.left(), None);
    assert_eq!(origin.down(), Some(GridCoord2D::new(0, 1)));
    assert_eq!(origin.right(), Some(GridCoord2D::new(1, 0)));
    assert_eq!(GridCoord2D::new(2, 3).up(), Some(GridCoord2D::new(2, 2)));
    assert_eq!(GridCoord2D::new(2, 3).left(), Some(GridCoord2D::new(1, 3)));
    assert_eq!(GridCoord2D::new(usize::MAX, 0).right(), None);
}

#[test]
fn coordinates_add_and_subtract() {
    let a = GridCoord2D::new(3, 5);
    let b = GridCoord2D::new(1, 2);
    assert_eq!(a + b, GridCoord2D::new(4, 7));
    assert_eq!(a - b, GridCoord2D::new(2, 3));
}

#[test]
fn carving_removes_both_facing_walls_only() {
    let mut grid = Wall4Grid::new(3, 3);
    grid.remove_wall_between(GridCoord2D::new(1, 1), GridCoord2D::new(2, 1));
    assert_eq!(walls_at(&grid, 1, 1), Direction4::all().without(Direction4::east()));
    assert_eq!(walls_at(&grid, 2, 1), Direction4::all().without(Direction4::west()));
    grid.remove_wall_between(GridCoord2D::new(1, 1), GridCoord2D::new(1, 0));
    assert_eq!(
        walls_at(&grid, 1, 1),
        Direction4::south().join(Direction4::west())
    );
    assert_eq!(walls_at(&grid, 1, 0), Direction4::all().without(Direction4::south()));
    let untouched = [(0, 0), (2, 0), (0, 1), (0, 2), (1, 2), (2, 2)];
    for (x, y) in untouched {
        assert!(walls_at(&grid, x, y).is_all());
    }
}

#[test]
fn carving_twice_equals_carving_once() {
    let mut once = Wall4Grid::new(2, 2);
    once.remove_wall_between(GridCoord2D::new(0, 1), GridCoord2D::new(0, 0));
    let mut twice = Wall4Grid::new(2, 2);
    twice.remove_wall_between(GridCoord2D::new(0, 1), GridCoord2D::new(0, 0));
    twice.remove_wall_between(GridCoord2D::new(0, 1), GridCoord2D::new(0, 0));
    assert_eq!(all_cells(&once), all_cells(&twice));
}

#[test]
fn get_mut_changes_one_cell() {
    let mut grid = Wall4Grid::new(2, 1);
    *grid.get_mut(GridCoord2D::new(1, 0)).unwrap() = Direction4::none();
    assert_eq!(all_cells(&grid), vec![0b1111, 0]);
    assert!(grid.get_mut(GridCoord2D::new(2, 0)).is_none());
    assert_eq!(grid.index(GridCoord2D::new(1, 0)).bits(), 0);
}

#[test]
fn unvisited_neighbors_in_fixed_order() {
    let mut map = VisitMap2D::new(3, 3);
    let center = GridCoord2D::new(1, 1);
    assert_eq!(
        map.unvisited_neighbors(center),
        vec![
            GridCoord2D::new(1, 0),
            GridCoord2D::new(2, 1),
            GridCoord2D::new(1, 2),
            GridCoord2D::new(0, 1)
        ]
    );
    map.set(GridCoord2D::new(2, 1), true);
    *map.get_mut(GridCoord2D::new(1, 0)).unwrap() = true;
    assert_eq!(
        map.unvisited_neighbors(center),
        vec![GridCoord2D::new(1, 2), GridCoord2D::new(0, 1)]
    );
    assert_eq!(map.get(GridCoord2D::new(1, 0)), Some(&true));
    assert_eq!(map.get(GridCoord2D::new(3, 0)), None);
    assert!(map.unvisited_neighbors(GridCoord2D::new(5, 5)).is_empty());
    assert_eq!(
        map.unvisited_neighbors(GridCoord2D::new(0, 0)),
        vec![GridCoord2D::new(0, 1)]
    );
}

#[test]
fn new_like_copies_extent() {
    let grid = Wall4Grid::new(5, 2);
    let map = VisitMap2D::new_like(&grid);
    assert_eq!(map.width(), 5);
    assert_eq!(map.height(), 2);
    assert_eq!(map.get(GridCoord2D::new(4, 1)), Some(&false));
}

#[test]
fn draw_indexes_neighbors_modulo_their_count() {
    let map = VisitMap2D::new(3, 3);
    let center = GridCoord2D::new(1, 1);
    assert_eq!(pick_unvisited_neighbor(0, &map, center), Some(GridCoord2D::new(1, 0)));
    assert_eq!(pick_unvisited_neighbor(5, &map, center), Some(GridCoord2D::new(2, 1)));
    assert_eq!(pick_unvisited_neighbor(6, &map, center), Some(GridCoord2D::new(1, 2)));
    assert_eq!(pick_unvisited_neighbor(u64::MAX, &map, center), Some(GridCoord2D::new(0, 1)));
    let corner = GridCoord2D::new(0, 0);
    assert_eq!(pick_unvisited_neighbor(1, &map, corner), Some(GridCoord2D::new(0, 1)));
    let single = VisitMap2D::new(1, 1);
    assert_eq!(pick_unvisited_neighbor(7, &single, corner), None);
}
