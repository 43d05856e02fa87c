use crate::grid_coord_2d::{
    in_bounds, lemma_linear_index_in_bounds, linear_index, GetCoordinateBounds2D, GridCoord2D,
    LinearizeCoords2D,
};
use vstd::prelude::*;

verus! {

/// Which cells of a rectangular grid a traversal has visited, in row-major
/// order.
#[derive(Debug)]
pub struct VisitMap2D {
    width: usize,
    height: usize,
    cells: Vec<bool>,
}

impl VisitMap2D {
    /// The visited flags of the cells, in row-major order.
    pub closed spec fn visited(&self) -> Seq<bool> {
        self.cells@
    }

    /// The map holds one flag per cell, and its cell count fits in `usize`.
    pub open spec fn wf(&self) -> bool {
        &&& self.spec_width() <= usize::MAX
        &&& self.spec_height() <= usize::MAX
        &&& self.spec_width() * self.spec_height() <= usize::MAX
        &&& self.visited().len() == self.spec_width() * self.spec_height()
    }

    /// Whether the cell at `c` has been visited.
    pub open spec fn is_visited(&self, c: GridCoord2D) -> bool {
        self.visited()[linear_index(c, self.spec_width())]
    }

    /// `c` as a one-element sequence when it is a cell of the grid that has
    /// not been visited, else the empty sequence.
    pub open spec fn unvisited_at(&self, c: Option<GridCoord2D>) -> Seq<GridCoord2D> {
        unvisited_cell(self.visited(), self.spec_width(), self.spec_height(), c)
    }

    /// The unvisited neighbors of `c`, in the order up, right, down, left;
    /// none when `c` lies outside the grid.
    pub open spec fn spec_unvisited_neighbors(&self, c: GridCoord2D) -> Seq<GridCoord2D> {
        unvisited_neighbors_in(self.visited(), self.spec_width(), self.spec_height(), c)
    }

    /// A map of `width` by `height` cells, none of them visited.
    pub fn new(width: usize, height: usize) -> (r: Self)
        requires
            width * height <= usize::MAX,
        ensures
            r.wf(),
            r.spec_width() == width,
            r.spec_height() == height,
            r.visited() == Seq::new((width * height) as nat, |i: int| false),
    {
        let count = width * height;
        let mut cells: Vec<bool> = Vec::new();
        let mut i: usize = 0;
        while i < count
            invariant
                i <= count,
                cells@ == Seq::new(i as nat, |j: int| false),
            decreases count - i,
        {
            cells.push(false);
            assert(cells@ =~= Seq::new((i + 1) as nat, |j: int| false));
            i = i + 1;
        }
        VisitMap2D { width, height, cells }
    }

    /// A map of the same extent as `other`, none of its cells visited.
    pub fn new_like<T: GetCoordinateBounds2D>(other: &T) -> (r: Self)
        requires
            other.spec_width() * other.spec_height() <= usize::MAX,
        ensures
            r.wf(),
            r.spec_width() == other.spec_width(),
            r.spec_height() == other.spec_height(),
            r.visited() == Seq::new(
                (other.spec_width() * other.spec_height()) as nat,
                |i: int| false,
            ),
    {
        Self::new(other.width(), other.height())
    }

    /// Whether the cell at `coords` has been visited, or none outside the
    /// map.
    pub fn get(&self, coords: GridCoord2D) -> (r: Option<&bool>)
        requires
            self.wf(),
        ensures
            r is Some <==> in_bounds(coords, self.spec_width(), self.spec_height()),
            r matches Some(v) ==> *v == self.is_visited(coords),
    {
        if coords.x >= self.width || coords.y >= self.height {
            return None;
        }
        proof {
            lemma_linear_index_in_bounds(coords, self.width as nat, self.height as nat);
        }
        let i = self.linearize_coords(coords);
        Some(&self.cells[i])
    }

    /// The visited flag of the cell at `coords`, for change in place, or none
    /// outside the map.
    pub fn get_mut(&mut self, coords: GridCoord2D) -> (r: Option<&mut bool>)
        requires
            old(self).wf(),
        ensures
            r is Some <==> in_bounds(coords, old(self).spec_width(), old(self).spec_height()),
            r matches Some(v) ==> {
                &&& *v == old(self).is_visited(coords)
                &&& final(self).spec_width() == old(self).spec_width()
                &&& final(self).spec_height() == old(self).spec_height()
                &&& final(self).visited() == old(self).visited().update(
                    linear_index(coords, old(self).spec_width()),
                    *final(v),
                )
            },
            r is None ==> *final(self) == *old(self),
    {
        if coords.x >= self.width || coords.y >= self.height {
            return None;
        }
        proof {
            lemma_linear_index_in_bounds(coords, self.width as nat, self.height as nat);
        }
        let i = self.linearize_coords(coords);
        Some(&mut self.cells[i])
    }

    /// Sets the visited flag of the cell at `coords`, whose row-major index
    /// must fall inside the map.
    pub fn set(&mut self, coords: GridCoord2D, value: bool)
        requires
            old(self).wf(),
            linear_index(coords, old(self).spec_width()) < old(self).spec_width() * old(
                self,
            ).spec_height(),
        ensures
            final(self).wf(),
            final(self).spec_width() == old(self).spec_width(),
            final(self).spec_height() == old(self).spec_height(),
            final(self).visited() == old(self).visited().update(
                linear_index(coords, old(self).spec_width()),
                value,
            ),
    {
        let i = self.linearize_coords(coords);
        self.cells.set(i, value);
    }

    /// The neighbors of `coords` inside the map that have not been visited,
    /// in the order up, right, down, left; empty when `coords` lies outside
    /// the map.
    pub fn unvisited_neighbors(&self, coords: GridCoord2D) -> (r: Vec<GridCoord2D>)
        requires
            self.wf(),
        ensures
            r@ == self.spec_unvisited_neighbors(coords),
    {
        let mut vec: Vec<GridCoord2D> = Vec::new();
        if coords.x >= self.width || coords.y >= self.height {
            return vec;
        }
        self.push_if_unvisited(&mut vec, coords.up());
        self.push_if_unvisited(&mut vec, coords.right());
        self.push_if_unvisited(&mut vec, coords.down());
        self.push_if_unvisited(&mut vec, coords.left());
        vec
    }

    /// Appends `coord` to `vec` when it is an unvisited cell of the map.
    fn push_if_unvisited(&self, vec: &mut Vec<GridCoord2D>, coord: Option<GridCoord2D>)
        requires
            self.wf(),
        ensures
            final(vec)@ == old(vec)@ + self.unvisited_at(coord),
    {
        if let Some(coord) = self.is_unvisited(coord) {
            vec.push(coord);
        }
        assert(final(vec)@ =~= old(vec)@ + self.unvisited_at(coord));
    }

    /// `coord` itself when it is an unvisited cell of the map.
    fn is_unvisited(&self, coord: Option<GridCoord2D>) -> (r: Option<GridCoord2D>)
        requires
            self.wf(),
        ensures
            r matches Some(v) ==> self.unvisited_at(coord) == seq![v],
            r is None ==> self.unvisited_at(coord) == Seq::<GridCoord2D>::empty(),
    {
        match coord {
            None => None,
            Some(value) => match self.get(value) {
                None => None,
                Some(true) => None,
                Some(false) => Some(value),
            },
        }
    }
}

/// `c` as a one-element sequence when it is a cell of a `width` by
/// `height` grid whose flag in `visited` is clear, else the empty sequence.
pub open spec fn unvisited_cell(
    visited: Seq<bool>,
    width: nat,
    height: nat,
    c: Option<GridCoord2D>,
) -> Seq<GridCoord2D> {
    match c {
        Some(v) => if in_bounds(v, width, height) && !visited[linear_index(v, width)] {
            seq![v]
        } else {
            seq![]
        },
        None => seq![],
    }
}

/// The neighbors of `c` in a `width` by `height` grid whose flags in
/// `visited` are clear, in the order up, right, down, left; none when `c`
/// lies outside the grid.
pub open spec fn unvisited_neighbors_in(
    visited: Seq<bool>,
    width: nat,
    height: nat,
    c: GridCoord2D,
) -> Seq<GridCoord2D> {
    if !in_bounds(c, width, height) {
        seq![]
    } else {
        unvisited_cell(visited, width, height, c.spec_up()) + unvisited_cell(
            visited,
            width,
            height,
            c.spec_right(),
        ) + unvisited_cell(visited, width, height, c.spec_down()) + unvisited_cell(
            visited,
            width,
            height,
            c.spec_left(),
        )
    }
}

impl GetCoordinateBounds2D for VisitMap2D {
    closed spec fn spec_width(&self) -> nat {
        self.width as nat
    }

    closed spec fn spec_height(&self) -> nat {
        self.height as nat
    }

    fn width(&self) -> (r: usize) {
        self.width
    }

    fn height(&self) -> (r: usize) {
        self.height
    }
}

} // verus!
