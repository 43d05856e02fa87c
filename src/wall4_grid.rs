use crate::direction4::{
    contains_bits, lemma_without_direction, without_bits, Direction4, ALL_BITS, EAST_BIT,
    NORTH_BIT, SOUTH_BIT, WEST_BIT,
};
use crate::grid_coord_2d::{
    adjacent, facing, in_bounds, lemma_linear_index_in_bounds, lemma_linear_index_injective,
    linear_index, GetCoordinateBounds2D, GridCoord2D, LinearizeCoords2D,
};
use vstd::prelude::*;

verus! {

/// The walls of a rectangular maze: one set of present walls per cell, in
/// row-major order.
#[derive(Debug)]
pub struct Wall4Grid {
    width: usize,
    height: usize,
    walls: Vec<Direction4>,
}

impl Wall4Grid {
    /// The wall masks of the cells, in row-major order.
    pub closed spec fn cells(&self) -> Seq<u8> {
        self.walls@.map_values(|d: Direction4| d@)
    }

    /// The grid holds one wall mask of four bits per cell, and its cell
    /// count fits in `usize`.
    pub open spec fn wf(&self) -> bool {
        &&& self.spec_width() <= usize::MAX
        &&& self.spec_height() <= usize::MAX
        &&& self.spec_width() * self.spec_height() <= usize::MAX
        &&& self.cells().len() == self.spec_width() * self.spec_height()
        &&& forall|i: int| 0 <= i < self.cells().len() ==> #[trigger] self.cells()[i] <= ALL_BITS
    }

    /// The wall mask of the cell at `c`.
    pub open spec fn cell(&self, c: GridCoord2D) -> u8 {
        self.cells()[linear_index(c, self.spec_width())]
    }

    /// A grid of `width` by `height` cells, each walled on all four sides.
    pub fn new(width: usize, height: usize) -> (r: Self)
        requires
            width * height <= usize::MAX,
        ensures
            r.wf(),
            r.spec_width() == width,
            r.spec_height() == height,
            r.cells() == Seq::new((width * height) as nat, |i: int| ALL_BITS),
    {
        let count = width * height;
        let mut walls: Vec<Direction4> = Vec::new();
        let mut i: usize = 0;
        while i < count
            invariant
                i <= count,
                walls@.len() == i,
                forall|j: int| 0 <= j < i ==> #[trigger] walls@[j]@ == ALL_BITS,
            decreases count - i,
        {
            let d = Direction4::all();
            walls.push(d);
            i = i + 1;
        }
        let grid = Wall4Grid { width, height, walls };
        assert(grid.cells() =~= Seq::new((width * height) as nat, |i: int| ALL_BITS));
        grid
    }

    /// The walls of the cell at `coords`, or none outside the grid.
    pub fn get(&self, coords: GridCoord2D) -> (r: Option<&Direction4>)
        requires
            self.wf(),
        ensures
            r is Some <==> in_bounds(coords, self.spec_width(), self.spec_height()),
            r matches Some(d) ==> d@ == self.cell(coords),
    {
        if coords.x >= self.width || coords.y >= self.height {
            return None;
        }
        proof {
            lemma_linear_index_in_bounds(
                coords,
                self.width as nat,
                self.height as nat,
            );
        }
        let i = self.linearize_coords(coords);
        Some(&self.walls[i])
    }

    /// The walls of the cell at `coords`, for change in place, or none
    /// outside the grid.
    pub fn get_mut(&mut self, coords: GridCoord2D) -> (r: Option<&mut Direction4>)
        requires
            old(self).wf(),
        ensures
            r is Some <==> in_bounds(coords, old(self).spec_width(), old(self).spec_height()),
            r matches Some(d) ==> {
                &&& d@ == old(self).cell(coords)
                &&& final(self).spec_width() == old(self).spec_width()
                &&& final(self).spec_height() == old(self).spec_height()
                &&& final(self).cells() == old(self).cells().update(
                    linear_index(coords, old(self).spec_width()),
                    final(d)@,
                )
            },
            r is None ==> *final(self) == *old(self),
    {
        if coords.x >= self.width || coords.y >= self.height {
            return None;
        }
        proof {
            lemma_linear_index_in_bounds(
                coords,
                self.width as nat,
                self.height as nat,
            );
        }
        let i = self.linearize_coords(coords);
        Some(&mut self.walls[i])
    }

    /// The walls of the cell at `coords`, whose row-major index must fall
    /// inside the grid.
    pub fn index(&self, coords: GridCoord2D) -> (r: &Direction4)
        requires
            self.wf(),
            linear_index(coords, self.spec_width()) < self.spec_width() * self.spec_height(),
        ensures
            r@ == self.cell(coords),
    {
        let i = self.linearize_coords(coords);
        &self.walls[i]
    }

    /// Carves a passage between the neighboring cells `current` and
    /// `selected`: each loses the wall that faces the other, and no other
    /// cell changes.
    pub fn remove_wall_between(&mut self, current: GridCoord2D, selected: GridCoord2D)
        requires
            old(self).wf(),
            adjacent(current, selected),
            linear_index(current, old(self).spec_width()) < old(self).spec_width() * old(
                self,
            ).spec_height(),
            linear_index(selected, old(self).spec_width()) < old(self).spec_width() * old(
                self,
            ).spec_height(),
        ensures
            final(self).wf(),
            final(self).spec_width() == old(self).spec_width(),
            final(self).spec_height() == old(self).spec_height(),
            final(self).cells() == carved(
                old(self).cells(),
                old(self).spec_width(),
                current,
                selected,
            ),
    {
        let ghost w = self.width as nat;
        let cur = self.linearize_coords(current);
        let sel = self.linearize_coords(selected);
        proof {
            let h = self.height as nat;
            assert(w > 0) by (nonlinear_arith)
                requires
                    cur < w * h,
            ;
            assert(cur != sel) by (nonlinear_arith)
                requires
                    adjacent(current, selected),
                    cur == current.y * w + current.x,
                    sel == selected.y * w + selected.x,
                    w > 0,
            ;
        }
        let (cur_side, sel_side) = if current.x > selected.x {
            (Direction4::west(), Direction4::east())
        } else if current.x < selected.x {
            (Direction4::east(), Direction4::west())
        } else if current.y > selected.y {
            (Direction4::north(), Direction4::south())
        } else {
            (Direction4::south(), Direction4::north())
        };
        let sel_walls = self.walls[sel].without(sel_side);
        self.walls.set(sel, sel_walls);
        let cur_walls = self.walls[cur].without(cur_side);
        self.walls.set(cur, cur_walls);
        proof {
            let old_cells = old(self).cells();
            lemma_without_direction(old_cells[cur as int], cur_side@);
            lemma_without_direction(old_cells[sel as int], sel_side@);
            assert(self.cells() =~= carved(old_cells, w, current, selected));
        }
    }

    /// The number of columns.
    pub fn width(&self) -> (r: usize)
        ensures
            r == self.spec_width(),
    {
        self.width
    }

    /// The number of rows.
    pub fn height(&self) -> (r: usize)
        ensures
            r == self.spec_height(),
    {
        self.height
    }
}

impl GetCoordinateBounds2D for Wall4Grid {
    closed spec fn spec_width(&self) -> nat {
        self.width as nat
    }

    closed spec fn spec_height(&self) -> nat {
        self.height as nat
    }

    fn width(&self) -> (r: usize) {
        self.width
    }

    fn height(&self) -> (r: usize) {
        self.height
    }
}

/// The wall masks `cells` of a grid `width` cells wide after the passage
/// between the neighbors `a` and `b` is carved: `a` loses its wall facing
/// `b`, and `b` its wall facing `a`.
pub open spec fn carved(cells: Seq<u8>, width: nat, a: GridCoord2D, b: GridCoord2D) -> Seq<u8> {
    let ia = linear_index(a, width);
    let ib = linear_index(b, width);
    cells.update(ib, without_bits(cells[ib], facing(b, a))).update(
        ia,
        without_bits(cells[ia], facing(a, b)),
    )
}

/// The origin, where every generated maze starts.
pub open spec fn origin() -> GridCoord2D {
    GridCoord2D { x: 0, y: 0 }
}

/// The cell one column right of `c`.
pub open spec fn right_of(c: GridCoord2D) -> GridCoord2D {
    GridCoord2D { x: (c.x + 1) as usize, y: c.y }
}

/// The cell one row below `c`.
pub open spec fn below(c: GridCoord2D) -> GridCoord2D {
    GridCoord2D { x: c.x, y: (c.y + 1) as usize }
}

/// Whether the cell at `c` in `cells` (a grid `width` wide) has the wall of
/// direction bit `b`.
pub open spec fn has_wall(cells: Seq<u8>, width: nat, c: GridCoord2D, b: u8) -> bool {
    contains_bits(cells[linear_index(c, width)], b)
}

/// Whether `a` and `b` are neighbors inside the grid with the walls between
/// them removed on both sides.
pub open spec fn open_between(
    cells: Seq<u8>,
    width: nat,
    height: nat,
    a: GridCoord2D,
    b: GridCoord2D,
) -> bool {
    &&& adjacent(a, b)
    &&& in_bounds(a, width, height)
    &&& in_bounds(b, width, height)
    &&& !has_wall(cells, width, a, facing(a, b))
    &&& !has_wall(cells, width, b, facing(b, a))
}

/// The walls of the cell at `c` agree with the border and with its east
/// and south neighbors: a border cell keeps its outer walls, and `c` has
/// its east (south) wall exactly when the neighbor there has its west
/// (north) wall.
pub open spec fn consistent_at(cells: Seq<u8>, width: nat, height: nat, c: GridCoord2D) -> bool {
    &&& (c.x == 0 ==> has_wall(cells, width, c, WEST_BIT))
    &&& (c.x + 1 == width ==> has_wall(cells, width, c, EAST_BIT))
    &&& (c.y == 0 ==> has_wall(cells, width, c, NORTH_BIT))
    &&& (c.y + 1 == height ==> has_wall(cells, width, c, SOUTH_BIT))
    &&& (c.x + 1 < width ==> (has_wall(cells, width, c, EAST_BIT) == has_wall(
        cells,
        width,
        right_of(c),
        WEST_BIT,
    )))
    &&& (c.y + 1 < height ==> (has_wall(cells, width, c, SOUTH_BIT) == has_wall(
        cells,
        width,
        below(c),
        NORTH_BIT,
    )))
}

/// The walls agree: every cell on the border keeps its outer walls, and
/// each pair of neighbors either both have the wall between them or both
/// lack it.
pub open spec fn walls_consistent(cells: Seq<u8>, width: nat, height: nat) -> bool {
    forall|c: GridCoord2D|
        in_bounds(c, width, height) ==> #[trigger] consistent_at(cells, width, height, c)
}

/// The passages that a cell's mask `m` opens towards east and south.
pub open spec fn openings(m: u8) -> nat {
    (if contains_bits(m, EAST_BIT) {
        0nat
    } else {
        1nat
    }) + (if contains_bits(m, SOUTH_BIT) {
        0nat
    } else {
        1nat
    })
}

/// The number of open passages in a grid whose walls agree, each counted
/// once, at its west or north end.
pub open spec fn passage_count(cells: Seq<u8>) -> nat
    decreases cells.len(),
{
    if cells.len() == 0 {
        0
    } else {
        passage_count(cells.drop_last()) + openings(cells.last())
    }
}

/// Whether `p` is a walk through open passages.
pub open spec fn is_path(cells: Seq<u8>, width: nat, height: nat, p: Seq<GridCoord2D>) -> bool {
    &&& p.len() >= 1
    &&& forall|i: int|
        0 <= i < p.len() - 1 ==> #[trigger] open_between(cells, width, height, p[i], p[i + 1])
}

/// Whether a walk through open passages leads from `c` to the origin.
pub open spec fn reaches_origin(cells: Seq<u8>, width: nat, height: nat, c: GridCoord2D) -> bool {
    exists|p: Seq<GridCoord2D>|
        #[trigger] is_path(cells, width, height, p) && p[0] == c && p.last() == origin()
}

/// A perfect maze: the walls agree, every cell is connected to the origin
/// through open passages, and there are exactly `width * height - 1`
/// passages, so the passages form a spanning tree without cycles.
pub open spec fn is_perfect_maze(g: &Wall4Grid) -> bool {
    let (cells, w, h) = (g.cells(), g.spec_width(), g.spec_height());
    &&& g.wf()
    &&& w >= 1
    &&& h >= 1
    &&& walls_consistent(cells, w, h)
    &&& passage_count(cells) + 1 == w * h
    &&& forall|c: GridCoord2D| #[trigger]
        in_bounds(c, w, h) ==> reaches_origin(cells, w, h, c)
}

/// Consistency survives the removal of the two walls between neighbors.
proof fn lemma_carved_consistent(
    cells: Seq<u8>,
    n: Seq<u8>,
    width: nat,
    height: nat,
    a: GridCoord2D,
    b: GridCoord2D,
)
    requires
        width <= usize::MAX,
        height <= usize::MAX,
        walls_consistent(cells, width, height),
        adjacent(a, b),
        in_bounds(a, width, height),
        in_bounds(b, width, height),
        forall|c: GridCoord2D, d: u8|
            #![trigger has_wall(n, width, c, d)]
            in_bounds(c, width, height) && crate::direction4::is_direction_bit(d) ==> has_wall(
                n,
                width,
                c,
                d,
            ) == (has_wall(cells, width, c, d) && !(c == a && d == facing(a, b)) && !(c == b
                && d == facing(b, a))),
    ensures
        walls_consistent(n, width, height),
{
    assert forall|c: GridCoord2D|
        in_bounds(c, width, height) implies #[trigger] consistent_at(n, width, height, c) by {
        assert(consistent_at(cells, width, height, c));
        if b.x + 1 == a.x {
            assert(facing(a, b) == WEST_BIT && facing(b, a) == EAST_BIT);
        } else if a.x + 1 == b.x {
            assert(facing(a, b) == EAST_BIT && facing(b, a) == WEST_BIT);
        } else if b.y + 1 == a.y {
            assert(facing(a, b) == NORTH_BIT && facing(b, a) == SOUTH_BIT);
        } else {
            assert(facing(a, b) == SOUTH_BIT && facing(b, a) == NORTH_BIT);
        }
        assert(has_wall(n, width, c, WEST_BIT) == has_wall(n, width, c, WEST_BIT));
        assert(has_wall(n, width, c, EAST_BIT) == has_wall(n, width, c, EAST_BIT));
        assert(has_wall(n, width, c, NORTH_BIT) == has_wall(n, width, c, NORTH_BIT));
        assert(has_wall(n, width, c, SOUTH_BIT) == has_wall(n, width, c, SOUTH_BIT));
        if c.x + 1 < width {
            let r = right_of(c);
            assert(in_bounds(r, width, height));
            assert(has_wall(n, width, r, WEST_BIT) == has_wall(n, width, r, WEST_BIT));
        }
        if c.y + 1 < height {
            let r = below(c);
            assert(in_bounds(r, width, height));
            assert(has_wall(n, width, r, NORTH_BIT) == has_wall(n, width, r, NORTH_BIT));
        }
    }
}

/// The doors of a cell are the complement of its walls: together they
/// hold all four directions, and they share none.
pub proof fn lemma_walls_doors_complement(g: &Wall4Grid, c: GridCoord2D)
    requires
        g.wf(),
        in_bounds(c, g.spec_width(), g.spec_height()),
    ensures
        g.cell(c) | crate::direction4::complement_bits(g.cell(c)) == ALL_BITS,
        g.cell(c) & crate::direction4::complement_bits(g.cell(c)) == 0,
{
    lemma_linear_index_in_bounds(c, g.spec_width(), g.spec_height());
    crate::direction4::lemma_complement(g.cell(c));
}

/// Carving between neighbors `a` and `b` removes the wall of `a` that
/// faces `b` and the wall of `b` that faces `a`, and changes no other
/// cell.
pub proof fn lemma_carving_symmetric(g: &Wall4Grid, a: GridCoord2D, b: GridCoord2D)
    requires
        g.wf(),
        adjacent(a, b),
        in_bounds(a, g.spec_width(), g.spec_height()),
        in_bounds(b, g.spec_width(), g.spec_height()),
    ensures
        ({
            let (w, h) = (g.spec_width(), g.spec_height());
            let n = carved(g.cells(), w, a, b);
            &&& !has_wall(n, w, a, facing(a, b))
            &&& !has_wall(n, w, b, facing(b, a))
            &&& forall|c: GridCoord2D|
                #![trigger n[linear_index(c, w)]]
                in_bounds(c, w, h) && c != a && c != b ==> n[linear_index(c, w)]
                    == g.cells()[linear_index(c, w)]
        }),
{
    lemma_carved(g.cells(), g.spec_width(), g.spec_height(), a, b);
}

/// Carving the same passage twice leaves the grid as carving it once.
pub proof fn lemma_carving_idempotent(g: &Wall4Grid, a: GridCoord2D, b: GridCoord2D)
    requires
        g.wf(),
        adjacent(a, b),
        in_bounds(a, g.spec_width(), g.spec_height()),
        in_bounds(b, g.spec_width(), g.spec_height()),
    ensures
        carved(carved(g.cells(), g.spec_width(), a, b), g.spec_width(), a, b) == carved(
            g.cells(),
            g.spec_width(),
            a,
            b,
        ),
{
    let (w, h) = (g.spec_width(), g.spec_height());
    let cells = g.cells();
    let ia = linear_index(a, w);
    let ib = linear_index(b, w);
    lemma_linear_index_in_bounds(a, w, h);
    lemma_linear_index_in_bounds(b, w, h);
    if ia == ib {
        lemma_linear_index_injective(a, b, w);
    }
    lemma_without_direction(cells[ia], facing(a, b));
    lemma_without_direction(cells[ib], facing(b, a));
    let n = carved(cells, w, a, b);
    assert(carved(n, w, a, b) =~= n);
}

/// Whether a walk through open passages leads from `a` to `b`.
pub open spec fn connected(
    cells: Seq<u8>,
    width: nat,
    height: nat,
    a: GridCoord2D,
    b: GridCoord2D,
) -> bool {
    exists|p: Seq<GridCoord2D>|
        #[trigger] is_path(cells, width, height, p) && p[0] == a && p.last() == b
}

/// A walk read backwards is a walk.
proof fn lemma_path_reversed(cells: Seq<u8>, width: nat, height: nat, p: Seq<GridCoord2D>)
    requires
        is_path(cells, width, height, p),
    ensures
        is_path(cells, width, height, p.reverse()),
        p.reverse()[0] == p.last(),
        p.reverse().last() == p[0],
{
    let r = p.reverse();
    assert forall|i: int| 0 <= i < r.len() - 1 implies #[trigger] open_between(
        cells,
        width,
        height,
        r[i],
        r[i + 1],
    ) by {
        let j = p.len() - 2 - i;
        assert(open_between(cells, width, height, p[j], p[j + 1]));
        assert(r[i] == p[j + 1]);
        assert(r[i + 1] == p[j]);
    }
}

/// In a perfect maze any two cells are joined by a walk through open
/// passages.
pub proof fn lemma_maze_connected(g: &Wall4Grid, a: GridCoord2D, b: GridCoord2D)
    requires
        is_perfect_maze(g),
        in_bounds(a, g.spec_width(), g.spec_height()),
        in_bounds(b, g.spec_width(), g.spec_height()),
    ensures
        connected(g.cells(), g.spec_width(), g.spec_height(), a, b),
{
    let (cells, w, h) = (g.cells(), g.spec_width(), g.spec_height());
    assert(reaches_origin(cells, w, h, a));
    assert(reaches_origin(cells, w, h, b));
    let pa = choose|p: Seq<GridCoord2D>|
        #[trigger] is_path(cells, w, h, p) && p[0] == a && p.last() == origin();
    let pb = choose|p: Seq<GridCoord2D>|
        #[trigger] is_path(cells, w, h, p) && p[0] == b && p.last() == origin();
    lemma_path_reversed(cells, w, h, pb);
    let rb = pb.reverse();
    let p = pa + rb.drop_first();
    assert forall|i: int| 0 <= i < p.len() - 1 implies #[trigger] open_between(
        cells,
        w,
        h,
        p[i],
        p[i + 1],
    ) by {
        if i < pa.len() - 1 {
            assert(open_between(cells, w, h, pa[i], pa[i + 1]));
        } else {
            let k = i - pa.len() + 1;
            assert(p[i] == rb[k]);
            assert(p[i + 1] == rb[k + 1]);
            assert(open_between(cells, w, h, rb[k], rb[k + 1]));
        }
    }
    assert(is_path(cells, w, h, p));
    if rb.len() > 1 {
        assert(p.last() == rb.last());
    } else {
        assert(p.last() == pa.last());
    }
}

/// A perfect maze of a single cell keeps all four walls.
pub proof fn lemma_single_cell_walled(g: &Wall4Grid)
    requires
        is_perfect_maze(g),
        g.spec_width() == 1,
        g.spec_height() == 1,
    ensures
        g.cell(origin()) == ALL_BITS,
{
    assert(consistent_at(g.cells(), 1, 1, origin()));
    lemma_linear_index_in_bounds(origin(), 1, 1);
    let m = g.cell(origin());
    assert(m <= ALL_BITS);
    assert(m <= 15 && m & 1 == 1 && m & 2 == 2 && m & 4 == 4 && m & 8 == 8 ==> m == 15)
        by (bit_vector);
}

/// Replacing one mask changes the passage count by the difference of the
/// openings of the two masks.
pub proof fn lemma_passage_count_update(cells: Seq<u8>, i: int, m: u8)
    requires
        0 <= i < cells.len(),
    ensures
        passage_count(cells.update(i, m)) + openings(cells[i]) == passage_count(cells) + openings(
            m,
        ),
    decreases cells.len(),
{
    let u = cells.update(i, m);
    if i == cells.len() - 1 {
        assert(u.drop_last() =~= cells.drop_last());
    } else {
        assert(u.drop_last() =~= cells.drop_last().update(i, m));
        lemma_passage_count_update(cells.drop_last(), i, m);
    }
}

/// Carving between two neighbors inside the grid removes exactly the two
/// walls between them; the walls stay consistent; and the passage count
/// grows by one where both walls stood.
pub proof fn lemma_carved(cells: Seq<u8>, width: nat, height: nat, a: GridCoord2D, b: GridCoord2D)
    requires
        width <= usize::MAX,
        height <= usize::MAX,
        cells.len() == width * height,
        forall|i: int| 0 <= i < cells.len() ==> #[trigger] cells[i] <= ALL_BITS,
        adjacent(a, b),
        in_bounds(a, width, height),
        in_bounds(b, width, height),
    ensures
        ({
            let n = carved(cells, width, a, b);
            &&& n.len() == cells.len()
            &&& forall|i: int| 0 <= i < n.len() ==> #[trigger] n[i] <= ALL_BITS
            &&& !has_wall(n, width, a, facing(a, b))
            &&& !has_wall(n, width, b, facing(b, a))
            &&& open_between(n, width, height, a, b)
            &&& forall|c: GridCoord2D|
                #![trigger n[linear_index(c, width)]]
                in_bounds(c, width, height) && c != a && c != b ==> n[linear_index(c, width)]
                    == cells[linear_index(c, width)]
            &&& forall|c: GridCoord2D, d: u8|
                #![trigger has_wall(n, width, c, d)]
                in_bounds(c, width, height) && crate::direction4::is_direction_bit(d) && has_wall(
                    n,
                    width,
                    c,
                    d,
                ) ==> has_wall(cells, width, c, d)
            &&& forall|d: u8|
                #![trigger has_wall(n, width, a, d)]
                crate::direction4::is_direction_bit(d) && d != facing(a, b) ==> has_wall(
                    n,
                    width,
                    a,
                    d,
                ) == has_wall(cells, width, a, d)
            &&& forall|d: u8|
                #![trigger has_wall(n, width, b, d)]
                crate::direction4::is_direction_bit(d) && d != facing(b, a) ==> has_wall(
                    n,
                    width,
                    b,
                    d,
                ) == has_wall(cells, width, b, d)
            &&& walls_consistent(cells, width, height) ==> walls_consistent(n, width, height)
            &&& has_wall(cells, width, a, facing(a, b)) && has_wall(cells, width, b, facing(b, a))
                ==> passage_count(n) == passage_count(cells) + 1
        }),
{
    let ia = linear_index(a, width);
    let ib = linear_index(b, width);
    lemma_linear_index_in_bounds(a, width, height);
    lemma_linear_index_in_bounds(b, width, height);
    assert(ia != ib) by {
        if ia == ib {
            lemma_linear_index_injective(a, b, width);
        }
    }
    let n = carved(cells, width, a, b);
    let mid = cells.update(ib, without_bits(cells[ib], facing(b, a)));
    lemma_without_direction(cells[ia], facing(a, b));
    lemma_without_direction(cells[ib], facing(b, a));
    assert forall|c: GridCoord2D|
        #![trigger n[linear_index(c, width)]]
        in_bounds(c, width, height) && c != a && c != b implies n[linear_index(c, width)]
        == cells[linear_index(c, width)] by {
        lemma_linear_index_in_bounds(c, width, height);
        if linear_index(c, width) == ia {
            lemma_linear_index_injective(c, a, width);
        }
        if linear_index(c, width) == ib {
            lemma_linear_index_injective(c, b, width);
        }
    }
    assert forall|c: GridCoord2D, d: u8|
        #![trigger has_wall(n, width, c, d)]
        in_bounds(c, width, height) && crate::direction4::is_direction_bit(d) && has_wall(
            n,
            width,
            c,
            d,
        ) implies has_wall(cells, width, c, d) by {
        lemma_linear_index_in_bounds(c, width, height);
        if c == a {
        } else if c == b {
        } else {
            if linear_index(c, width) == ia {
                lemma_linear_index_injective(c, a, width);
            }
            if linear_index(c, width) == ib {
                lemma_linear_index_injective(c, b, width);
            }
        }
    }
    assert forall|c: GridCoord2D, d: u8|
        #![trigger has_wall(n, width, c, d)]
        in_bounds(c, width, height) && crate::direction4::is_direction_bit(d) implies has_wall(
            n,
            width,
            c,
            d,
        ) == (has_wall(cells, width, c, d) && !(c == a && d == facing(a, b)) && !(c == b && d
            == facing(b, a))) by {
        lemma_linear_index_in_bounds(c, width, height);
        if c != a && c != b {
            if linear_index(c, width) == ia {
                lemma_linear_index_injective(c, a, width);
            }
            if linear_index(c, width) == ib {
                lemma_linear_index_injective(c, b, width);
            }
        }
    }
    if walls_consistent(cells, width, height) {
        lemma_carved_consistent(cells, n, width, height, a, b);
    }
    lemma_passage_count_update(cells, ib, without_bits(cells[ib], facing(b, a)));
    lemma_passage_count_update(mid, ia, without_bits(cells[ia], facing(a, b)));
}

} // verus!
