use vstd::prelude::*;

verus! {

/// A cell position in a grid: column `x`, row `y`, both counted from zero.
#[derive(Clone, Copy, PartialEq, Eq, Structural, PartialOrd, Ord, Hash, Debug)]
pub struct GridCoord2D {
    pub x: usize,
    pub y: usize,
}

impl GridCoord2D {
    /// The position `(x, y)`.
    pub fn new(x: usize, y: usize) -> (r: Self)
        ensures
            r.x == x,
            r.y == y,
    {
        GridCoord2D { x, y }
    }

    /// The position one row up, or none in row zero.
    pub open spec fn spec_up(self) -> Option<GridCoord2D> {
        if self.y == 0 {
            None
        } else {
            Some(GridCoord2D { x: self.x, y: (self.y - 1) as usize })
        }
    }

    /// The position one row down, or none where the row number would
    /// overflow.
    pub open spec fn spec_down(self) -> Option<GridCoord2D> {
        if self.y == usize::MAX {
            None
        } else {
            Some(GridCoord2D { x: self.x, y: (self.y + 1) as usize })
        }
    }

    /// The position one column left, or none in column zero.
    pub open spec fn spec_left(self) -> Option<GridCoord2D> {
        if self.x == 0 {
            None
        } else {
            Some(GridCoord2D { x: (self.x - 1) as usize, y: self.y })
        }
    }

    /// The position one column right, or none where the column number would
    /// overflow.
    pub open spec fn spec_right(self) -> Option<GridCoord2D> {
        if self.x == usize::MAX {
            None
        } else {
            Some(GridCoord2D { x: (self.x + 1) as usize, y: self.y })
        }
    }

    /// The position one row up.
    pub fn up(&self) -> (r: Option<Self>)
        ensures
            r == self.spec_up(),
    {
        if self.y == 0 {
            None
        } else {
            Some(GridCoord2D { x: self.x, y: self.y - 1 })
        }
    }

    /// The position one row down.
    pub fn down(&self) -> (r: Option<Self>)
        ensures
            r == self.spec_down(),
    {
        if self.y == usize::MAX {
            None
        } else {
            Some(GridCoord2D { x: self.x, y: self.y + 1 })
        }
    }

    /// The position one column left.
    pub fn left(&self) -> (r: Option<Self>)
        ensures
            r == self.spec_left(),
    {
        if self.x == 0 {
            None
        } else {
            Some(GridCoord2D { x: self.x - 1, y: self.y })
        }
    }

    /// The position one column right.
    pub fn right(&self) -> (r: Option<Self>)
        ensures
            r == self.spec_right(),
    {
        if self.x == usize::MAX {
            None
        } else {
            Some(GridCoord2D { x: self.x + 1, y: self.y })
        }
    }
}

impl Default for GridCoord2D {
    /// The origin `(0, 0)`, where generation starts.
    fn default() -> (r: GridCoord2D)
        ensures
            r.x == 0,
            r.y == 0,
    {
        GridCoord2D { x: 0, y: 0 }
    }
}

impl core::ops::Add for GridCoord2D {
    type Output = GridCoord2D;

    /// The componentwise sum; both sums must fit in `usize`.
    fn add(self, rhs: GridCoord2D) -> (r: GridCoord2D) {
        GridCoord2D::new(self.x + rhs.x, self.y + rhs.y)
    }
}

impl vstd::std_specs::ops::AddSpecImpl for GridCoord2D {
    open spec fn obeys_add_spec() -> bool {
        true
    }

    open spec fn add_req(self, rhs: GridCoord2D) -> bool {
        self.x + rhs.x <= usize::MAX && self.y + rhs.y <= usize::MAX
    }

    open spec fn add_spec(self, rhs: GridCoord2D) -> GridCoord2D {
        GridCoord2D { x: (self.x + rhs.x) as usize, y: (self.y + rhs.y) as usize }
    }
}

impl core::ops::Sub for GridCoord2D {
    type Output = GridCoord2D;

    /// The componentwise difference; neither may go below zero.
    fn sub(self, rhs: GridCoord2D) -> (r: GridCoord2D) {
        GridCoord2D::new(self.x - rhs.x, self.y - rhs.y)
    }
}

impl vstd::std_specs::ops::SubSpecImpl for GridCoord2D {
    open spec fn obeys_sub_spec() -> bool {
        true
    }

    open spec fn sub_req(self, rhs: GridCoord2D) -> bool {
        self.x >= rhs.x && self.y >= rhs.y
    }

    open spec fn sub_spec(self, rhs: GridCoord2D) -> GridCoord2D {
        GridCoord2D { x: (self.x - rhs.x) as usize, y: (self.y - rhs.y) as usize }
    }
}

/// The row-major index of `c` in a grid `width` cells wide.
pub open spec fn linear_index(c: GridCoord2D, width: nat) -> int {
    c.y * width + c.x
}

/// Whether `c` lies inside a grid of `width` by `height` cells.
pub open spec fn in_bounds(c: GridCoord2D, width: nat, height: nat) -> bool {
    c.x < width && c.y < height
}

/// Whether `a` and `b` are orthogonal neighbors: one step apart along one
/// axis.
pub open spec fn adjacent(a: GridCoord2D, b: GridCoord2D) -> bool {
    ((a.x + 1 == b.x || b.x + 1 == a.x) && a.y == b.y) || ((a.y + 1 == b.y || b.y + 1 == a.y)
        && a.x == b.x)
}

/// The direction bit of the side of `a` that faces its neighbor `b`.
pub open spec fn facing(a: GridCoord2D, b: GridCoord2D) -> u8 {
    if b.x + 1 == a.x {
        crate::direction4::WEST_BIT
    } else if a.x + 1 == b.x {
        crate::direction4::EAST_BIT
    } else if b.y + 1 == a.y {
        crate::direction4::NORTH_BIT
    } else {
        crate::direction4::SOUTH_BIT
    }
}

/// The extent of a rectangular grid.
pub trait GetCoordinateBounds2D {
    /// The number of columns.
    spec fn spec_width(&self) -> nat;

    /// The number of rows.
    spec fn spec_height(&self) -> nat;

    /// The number of columns.
    fn width(&self) -> (r: usize)
        ensures
            r == self.spec_width(),
    ;

    /// The number of rows.
    fn height(&self) -> (r: usize)
        ensures
            r == self.spec_height(),
    ;
}

/// Row-major indexing of a rectangular grid.
pub trait LinearizeCoords2D: GetCoordinateBounds2D {
    /// The row-major index of `coords`, which must fall inside the grid's
    /// cell count.
    fn linearize_coords(&self, coords: GridCoord2D) -> (r: usize)
        requires
            self.spec_width() * self.spec_height() <= usize::MAX,
            linear_index(coords, self.spec_width()) < self.spec_width() * self.spec_height(),
        ensures
            r == linear_index(coords, self.spec_width()),
    ;
}

impl<T: GetCoordinateBounds2D> LinearizeCoords2D for T {
    fn linearize_coords(&self, coords: GridCoord2D) -> (r: usize) {
        let width = self.width();
        let height = self.height();
        proof {
            lemma_linear_index_fits(coords, width as nat, height as nat);
        }
        coords.y * width + coords.x
    }
}

/// An index below the cell count fits in `usize` when the count does.
pub proof fn lemma_linear_index_fits(c: GridCoord2D, width: nat, height: nat)
    requires
        width * height <= usize::MAX,
        linear_index(c, width) < width * height,
    ensures
        c.y * width <= usize::MAX,
        c.y * width + c.x <= usize::MAX,
{
    assert(c.y * width <= c.y * width + c.x) by (nonlinear_arith);
}

/// Distinct positions inside a grid have distinct indices, and every index
/// lies below the cell count.
pub proof fn lemma_linear_index_in_bounds(c: GridCoord2D, width: nat, height: nat)
    requires
        in_bounds(c, width, height),
    ensures
        0 <= linear_index(c, width) < width * height,
{
    assert(c.y * width + c.x < width * height) by (nonlinear_arith)
        requires
            c.x < width,
            c.y < height,
    ;
}

/// Positions inside a grid with the same index are the same position.
pub proof fn lemma_linear_index_injective(a: GridCoord2D, b: GridCoord2D, width: nat)
    requires
        a.x < width,
        b.x < width,
        linear_index(a, width) == linear_index(b, width),
    ensures
        a == b,
{
    if a.y < b.y {
        assert(a.y * width + width <= b.y * width) by (nonlinear_arith)
            requires
                a.y < b.y,
        ;
    } else if b.y < a.y {
        assert(b.y * width + width <= a.y * width) by (nonlinear_arith)
            requires
                b.y < a.y,
        ;
    }
}

} // verus!
