use crate::direction4::{lemma_all_and_none, ALL_BITS, EAST_BIT, SOUTH_BIT};
use crate::generators::MazeGenerator2D;
use crate::grid_coord_2d::{
    adjacent, facing, in_bounds, lemma_linear_index_in_bounds, lemma_linear_index_injective,
    linear_index, GetCoordinateBounds2D, GridCoord2D,
};
use crate::visit_map_2d::{unvisited_neighbors_in, VisitMap2D};
use crate::wall4_grid::{
    below, carved, consistent_at, has_wall, is_path, is_perfect_maze, lemma_carved, open_between,
    openings, origin, passage_count, reaches_origin, right_of, walls_consistent, Wall4Grid,
};
use rand::rngs::StdRng;
use rand::{RngCore, SeedableRng};
use vstd::prelude::*;

verus! {

/// rand's `StdRng`, carried through the generator as an opaque value.
#[verifier::external_type_specification]
#[verifier::external_body]
pub struct ExStdRng(StdRng);

/// Relies on rand's `SeedableRng::from_entropy` for `StdRng`: a generator
/// seeded from the operating system's entropy (rand panics when the
/// operating system offers none).
#[verifier::external_body]
fn entropy_rng() -> StdRng {
    StdRng::from_entropy()
}

/// Relies on rand's `SeedableRng::seed_from_u64` for `StdRng`: a generator
/// whose sequence the seed fixes.
#[verifier::external_body]
fn seeded_rng(seed: u64) -> StdRng {
    StdRng::seed_from_u64(seed)
}

/// Relies on `Clone` for `StdRng`: a copy that continues the same sequence.
#[verifier::external_body]
fn copy_rng(rng: &StdRng) -> StdRng {
    rng.clone()
}

/// Relies on rand's `RngCore::next_u64` for `StdRng`: the next 64 bits of
/// the sequence; any value may come.
#[verifier::external_body]
fn next_draw(rng: &mut StdRng) -> u64 {
    rng.next_u64()
}

/// A maze generator that carves passages by a randomized depth-first
/// search with an explicit stack.
pub struct RecursiveBacktracker4 {
    rng: StdRng,
    seed: Ghost<Option<u64>>,
}

/// The number of `true` flags in `s`.
spec fn count_true(s: Seq<bool>) -> nat
    decreases s.len(),
{
    if s.len() == 0 {
        0
    } else {
        count_true(s.drop_last()) + if s.last() {
            1nat
        } else {
            0nat
        }
    }
}

/// The neighbor that a draw of `value` picks among the unvisited neighbors
/// of `c`, in the order up, right, down, left; none when there is none.
pub open spec fn picked_neighbor(m: &VisitMap2D, c: GridCoord2D, value: u64) -> Option<
    GridCoord2D,
> {
    let list = m.spec_unvisited_neighbors(c);
    if list.len() == 0 {
        None
    } else {
        Some(list[(value as usize) as int % (list.len() as int)])
    }
}

/// A state of the search: the wall masks, the visited flags, the current
/// cell, and the stack of cells to come back to.
pub type SearchState = (Seq<u8>, Seq<bool>, GridCoord2D, Seq<GridCoord2D>);

/// The state in which the search of a `width` by `height` grid starts:
/// every cell walled, only the origin visited, the stack empty.
pub open spec fn search_start(width: nat, height: nat) -> SearchState {
    (
        Seq::new(width * height, |i: int| ALL_BITS),
        Seq::new(width * height, |i: int| false).update(0, true),
        origin(),
        seq![],
    )
}

/// One step of the search with the draw `draw`: when the current cell has
/// unvisited neighbors, the draw modulo their number picks one (in the
/// order up, right, down, left), the current cell is pushed, the wall
/// between them is carved and the pick becomes current and visited; else
/// the top of the stack becomes current; else nothing changes.
pub open spec fn search_step(width: nat, height: nat, s: SearchState, draw: u64) -> SearchState {
    let list = unvisited_neighbors_in(s.1, width, height, s.2);
    if list.len() > 0 {
        let sel = list[(draw as usize) as int % (list.len() as int)];
        (
            carved(s.0, width, s.2, sel),
            s.1.update(linear_index(sel, width), true),
            sel,
            s.3.push(s.2),
        )
    } else if s.3.len() > 0 {
        (s.0, s.1, s.3.last(), s.3.drop_last())
    } else {
        s
    }
}

/// The state after one step per draw of `draws`, in order, from the start.
pub open spec fn search_run(width: nat, height: nat, draws: Seq<u64>) -> SearchState
    decreases draws.len(),
{
    if draws.len() == 0 {
        search_start(width, height)
    } else {
        search_step(width, height, search_run(width, height, draws.drop_last()), draws.last())
    }
}

/// Whether the search has ended in `s`: the current cell has no unvisited
/// neighbor and the stack is empty.
pub open spec fn search_done(width: nat, height: nat, s: SearchState) -> bool {
    unvisited_neighbors_in(s.1, width, height, s.2).len() == 0 && s.3.len() == 0
}

/// The state of the search: the walls carved so far, the visited cells,
/// the current cell, and the stack of cells to come back to; `parent` and
/// `depth` record the tree that the carved passages form.
spec fn search_inv(
    g: &Wall4Grid,
    m: &VisitMap2D,
    cur: GridCoord2D,
    stack: Seq<GridCoord2D>,
    parent: Map<GridCoord2D, GridCoord2D>,
    depth: Map<GridCoord2D, nat>,
) -> bool {
    let (w, h) = (g.spec_width(), g.spec_height());
    &&& g.wf()
    &&& m.wf()
    &&& m.spec_width() == w
    &&& m.spec_height() == h
    &&& w >= 1
    &&& h >= 1
    &&& in_bounds(cur, w, h)
    &&& m.is_visited(cur)
    &&& forall|k: int|
        0 <= k < stack.len() ==> in_bounds(#[trigger] stack[k], w, h) && m.is_visited(stack[k])
    &&& forall|c: GridCoord2D|
        in_bounds(c, w, h) && !#[trigger] m.is_visited(c) ==> g.cell(c) == ALL_BITS
    &&& walls_consistent(g.cells(), w, h)
    &&& passage_count(g.cells()) + 1 == count_true(m.visited())
    &&& m.is_visited(origin())
    &&& forall|c: GridCoord2D|
        in_bounds(c, w, h) && #[trigger] m.is_visited(c) ==> depth.dom().contains(c)
    &&& forall|c: GridCoord2D|
        in_bounds(c, w, h) && #[trigger] m.is_visited(c) && c != origin() ==> {
            &&& parent.dom().contains(c)
            &&& in_bounds(parent[c], w, h)
            &&& m.is_visited(parent[c])
            &&& open_between(g.cells(), w, h, c, parent[c])
            &&& depth[parent[c]] < depth[c]
        }
    &&& forall|c: GridCoord2D, n: GridCoord2D|
        #![trigger adjacent(c, n), m.is_visited(c)]
        in_bounds(c, w, h) && in_bounds(n, w, h) && adjacent(c, n) && m.is_visited(c) && c != cur
            && !stack.contains(c) ==> m.is_visited(n)
}

impl RecursiveBacktracker4 {
    /// The seed that fixes this generator's random sequence, or none when
    /// the sequence was seeded from the operating system's entropy.
    pub closed spec fn spec_seed(&self) -> Option<u64> {
        self.seed@
    }

    /// A generator seeded from the operating system's entropy.
    pub fn new_random() -> (r: Self)
        ensures
            r.spec_seed() is None,
    {
        RecursiveBacktracker4 { rng: entropy_rng(), seed: Ghost(None) }
    }

    /// A generator seeded by `rng_seed`; a seed of zero asks for an entropy
    /// seed instead.
    pub fn new_from_seed(rng_seed: u64) -> (r: Self)
        ensures
            r.spec_seed() == (if rng_seed == 0 {
                None::<u64>
            } else {
                Some(rng_seed)
            }),
    {
        if rng_seed == 0 {
            Self::new_random()
        } else {
            RecursiveBacktracker4 { rng: seeded_rng(rng_seed), seed: Ghost(Some(rng_seed)) }
        }
    }

    /// A perfect maze of `width` by `height` cells. Each call starts from
    /// the generator's own random state, so one generator always yields the
    /// same maze for the same extent.
    pub fn generate(&self, width: usize, height: usize) -> (r: Wall4Grid)
        requires
            1 <= width,
            1 <= height,
            width * height <= usize::MAX,
        ensures
            r.spec_width() == width,
            r.spec_height() == height,
            is_perfect_maze(&r),
            exists|draws: Seq<u64>|
                {
                    let s = #[trigger] search_run(width as nat, height as nat, draws);
                    r.cells() == s.0 && search_done(width as nat, height as nat, s)
                },
    {
        let mut cells = Wall4Grid::new(width, height);
        let mut visit_map = VisitMap2D::new_like(&cells);
        let start_coordinate = GridCoord2D::default();
        let mut backtrace: Vec<GridCoord2D> = Vec::new();
        let rng = copy_rng(&self.rng);
        let draws = Self::backtrack(
            rng,
            &mut cells,
            &mut visit_map,
            start_coordinate,
            &mut backtrace,
        );
        proof {
            let s = search_run(width as nat, height as nat, draws@);
            assert(cells.cells() == s.0 && search_done(width as nat, height as nat, s));
        }
        cells
    }

    /// Runs the search from `current_cell` over a fully walled grid and a
    /// map with nothing visited, until every cell is visited and the stack
    /// is empty.
    fn backtrack(
        rng: StdRng,
        cells: &mut Wall4Grid,
        visit_map: &mut VisitMap2D,
        current_cell: GridCoord2D,
        backtrace: &mut Vec<GridCoord2D>,
    ) -> (draws: Ghost<Seq<u64>>)
        requires
            old(cells).wf(),
            old(visit_map).wf(),
            old(cells).spec_width() >= 1,
            old(cells).spec_height() >= 1,
            old(visit_map).spec_width() == old(cells).spec_width(),
            old(visit_map).spec_height() == old(cells).spec_height(),
            forall|i: int|
                0 <= i < old(cells).cells().len() ==> #[trigger] old(cells).cells()[i] == ALL_BITS,
            forall|i: int|
                0 <= i < old(visit_map).visited().len() ==> !#[trigger] old(
                    visit_map,
                ).visited()[i],
            current_cell == origin(),
            old(backtrace)@.len() == 0,
        ensures
            final(cells).spec_width() == old(cells).spec_width(),
            final(cells).spec_height() == old(cells).spec_height(),
            is_perfect_maze(final(cells)),
            final(visit_map).wf(),
            final(visit_map).spec_width() == old(cells).spec_width(),
            final(visit_map).spec_height() == old(cells).spec_height(),
            forall|c: GridCoord2D|
                in_bounds(c, old(cells).spec_width(), old(cells).spec_height())
                    ==> #[trigger] final(visit_map).is_visited(c),
            final(backtrace)@.len() == 0,
            ({
                let s = search_run(old(cells).spec_width(), old(cells).spec_height(), draws@);
                &&& final(cells).cells() == s.0
                &&& final(visit_map).visited() == s.1
                &&& final(backtrace)@ == s.3
                &&& search_done(old(cells).spec_width(), old(cells).spec_height(), s)
            }),
    {
        let mut rng = rng;
        let mut current = current_cell;
        let ghost w = cells.spec_width();
        let ghost h = cells.spec_height();
        let ghost before = *visit_map;
        proof {
            lemma_linear_index_in_bounds(current, w, h);
        }
        visit_map.set(current, true);
        let ghost mut parent: Map<GridCoord2D, GridCoord2D> = Map::empty();
        let ghost mut depth: Map<GridCoord2D, nat> = Map::empty().insert(origin(), 0nat);
        let ghost mut log: Seq<u64> = seq![];
        proof {
            lemma_start(cells, &before, visit_map);
            assert(cells.cells() =~= search_start(w, h).0);
            assert(visit_map.visited() =~= search_start(w, h).1);
            assert(backtrace@ =~= search_start(w, h).3);
        }
        loop
            invariant_except_break
                search_inv(cells, visit_map, current, backtrace@, parent, depth),
            invariant
                cells.spec_width() == w,
                cells.spec_height() == h,
                (cells.cells(), visit_map.visited(), current, backtrace@) == search_run(w, h, log),
            ensures
                search_done(w, h, search_run(w, h, log)),
                cells.spec_width() == w,
                cells.spec_height() == h,
                is_perfect_maze(cells),
                visit_map.wf(),
                visit_map.spec_width() == w,
                visit_map.spec_height() == h,
                forall|c: GridCoord2D| in_bounds(c, w, h) ==> #[trigger] visit_map.is_visited(c),
                backtrace@.len() == 0,
            decreases 2 * (w * h - count_true(visit_map.visited())) + backtrace@.len(),
        {
            proof {
                lemma_count_true_bound(visit_map.visited());
            }
            let (selected, draw) = Self::select_random_unvisited_neighbor(
                &mut rng,
                visit_map,
                current,
            );
            let ghost state = (cells.cells(), visit_map.visited(), current, backtrace@);
            proof {
                assert(log.push(draw@).drop_last() =~= log);
                log = log.push(draw@);
            }
            match selected {
                Some(selected_cell) => {
                    proof {
                        lemma_unvisited_neighbors(visit_map, current);
                        lemma_linear_index_in_bounds(selected_cell, w, h);
                        lemma_linear_index_in_bounds(current, w, h);
                    }
                    let ghost g0 = *cells;
                    let ghost m0 = *visit_map;
                    let ghost s0 = backtrace@;
                    backtrace.push(current);
                    cells.remove_wall_between(current, selected_cell);
                    visit_map.set(selected_cell, true);
                    proof {
                        lemma_advance(
                            &g0,
                            &m0,
                            current,
                            s0,
                            parent,
                            depth,
                            selected_cell,
                            cells,
                            visit_map,
                        );
                        lemma_count_true_bound(visit_map.visited());
                        depth = depth.insert(selected_cell, depth[current] + 1);
                        parent = parent.insert(selected_cell, current);
                    }
                    current = selected_cell;
                    proof {
                        assert(search_run(w, h, log) == search_step(w, h, state, draw@));
                    }
                },
                None => {
                    let ghost s0 = backtrace@;
                    match backtrace.pop() {
                        Some(cell) => {
                            proof {
                                lemma_backtrack(cells, visit_map, current, s0, parent, depth);
                            }
                            current = cell;
                            proof {
                                assert(search_run(w, h, log) == search_step(w, h, state, draw@));
                            }
                        },
                        None => {
                            proof {
                                lemma_finish(cells, visit_map, current, parent, depth);
                                assert(search_run(w, h, log) == state);
                            }
                            break ;
                        },
                    }
                },
            }
        }
        Ghost(log)
    }

    /// Draws one number from `rng` and picks with it an unvisited neighbor
    /// of `current_cell`, none when there is none; the draw comes back too.
    fn select_random_unvisited_neighbor(
        rng: &mut StdRng,
        visit_map: &VisitMap2D,
        current_cell: GridCoord2D,
    ) -> (r: (Option<GridCoord2D>, Ghost<u64>))
        requires
            visit_map.wf(),
        ensures
            r.0 == picked_neighbor(visit_map, current_cell, r.1@),
            r.0 is None <==> visit_map.spec_unvisited_neighbors(current_cell).len() == 0,
            r.0 matches Some(c) ==> visit_map.spec_unvisited_neighbors(current_cell).contains(c),
    {
        let value = next_draw(rng);
        let r = pick_unvisited_neighbor(value, visit_map, current_cell);
        proof {
            let list = visit_map.spec_unvisited_neighbors(current_cell);
            if list.len() > 0 {
                assert(list.contains(list[(value as usize) as int % (list.len() as int)]));
            }
        }
        (r, Ghost(value))
    }
}

/// The unvisited neighbor of `current_cell` that the draw `value` picks:
/// the neighbors listed in the order up, right, down, left are indexed by
/// `value` modulo their number.
pub fn pick_unvisited_neighbor(value: u64, visit_map: &VisitMap2D, current_cell: GridCoord2D) -> (r:
    Option<GridCoord2D>)
    requires
        visit_map.wf(),
    ensures
        r == picked_neighbor(visit_map, current_cell, value),
{
    let value = value as usize;
    let list = visit_map.unvisited_neighbors(current_cell);
    if list.len() == 0 {
        return None;
    }
    let selected = list[value % list.len()];
    Some(selected)
}

impl MazeGenerator2D for RecursiveBacktracker4 {
    fn new_random() -> Self {
        RecursiveBacktracker4::new_random()
    }

    fn new_from_seed(rng_seed: u64) -> Self {
        RecursiveBacktracker4::new_from_seed(rng_seed)
    }

    fn generate(&self, width: usize, height: usize) -> (r: Wall4Grid) {
        RecursiveBacktracker4::generate(self, width, height)
    }
}

proof fn lemma_count_true_update(s: Seq<bool>, i: int)
    requires
        0 <= i < s.len(),
        !s[i],
    ensures
        count_true(s.update(i, true)) == count_true(s) + 1,
    decreases s.len(),
{
    let u = s.update(i, true);
    if i == s.len() - 1 {
        assert(u.drop_last() =~= s.drop_last());
    } else {
        assert(u.drop_last() =~= s.drop_last().update(i, true));
        lemma_count_true_update(s.drop_last(), i);
    }
}

proof fn lemma_count_true_all_false(s: Seq<bool>)
    requires
        forall|i: int| 0 <= i < s.len() ==> !#[trigger] s[i],
    ensures
        count_true(s) == 0,
    decreases s.len(),
{
    if s.len() > 0 {
        lemma_count_true_all_false(s.drop_last());
    }
}

proof fn lemma_count_true_all_true(s: Seq<bool>)
    requires
        forall|i: int| 0 <= i < s.len() ==> #[trigger] s[i],
    ensures
        count_true(s) == s.len(),
    decreases s.len(),
{
    if s.len() > 0 {
        lemma_count_true_all_true(s.drop_last());
    }
}

proof fn lemma_count_true_bound(s: Seq<bool>)
    ensures
        count_true(s) <= s.len(),
    decreases s.len(),
{
    if s.len() > 0 {
        lemma_count_true_bound(s.drop_last());
    }
}

proof fn lemma_passage_count_all_walls(cells: Seq<u8>)
    requires
        forall|i: int| 0 <= i < cells.len() ==> #[trigger] cells[i] == ALL_BITS,
    ensures
        passage_count(cells) == 0,
    decreases cells.len(),
{
    if cells.len() > 0 {
        lemma_all_and_none(EAST_BIT);
        lemma_all_and_none(SOUTH_BIT);
        assert(openings(cells.last()) == 0);
        lemma_passage_count_all_walls(cells.drop_last());
    }
}

/// After marking `c`, exactly `c` and the cells visited before are visited.
proof fn lemma_mark(m0: &VisitMap2D, m: &VisitMap2D, c: GridCoord2D)
    requires
        m0.wf(),
        in_bounds(c, m0.spec_width(), m0.spec_height()),
        m.spec_width() == m0.spec_width(),
        m.spec_height() == m0.spec_height(),
        m.visited() == m0.visited().update(linear_index(c, m0.spec_width()), true),
    ensures
        forall|d: GridCoord2D|
            in_bounds(d, m.spec_width(), m.spec_height()) ==> (#[trigger] m.is_visited(d) == (d
                == c || m0.is_visited(d))),
{
    let w = m0.spec_width();
    let h = m0.spec_height();
    assert forall|d: GridCoord2D| in_bounds(d, w, h) implies (#[trigger] m.is_visited(d) == (d == c
        || m0.is_visited(d))) by {
        lemma_linear_index_in_bounds(d, w, h);
        lemma_linear_index_in_bounds(c, w, h);
        if linear_index(d, w) == linear_index(c, w) {
            lemma_linear_index_injective(d, c, w);
        }
    }
}

/// Every listed unvisited neighbor lies inside the map, is unvisited and
/// is adjacent; when none is listed, every neighbor inside the map is
/// visited.
proof fn lemma_unvisited_neighbors(m: &VisitMap2D, c: GridCoord2D)
    requires
        m.wf(),
        in_bounds(c, m.spec_width(), m.spec_height()),
    ensures
        forall|k: int|
            0 <= k < m.spec_unvisited_neighbors(c).len() ==> {
                let n = #[trigger] m.spec_unvisited_neighbors(c)[k];
                &&& in_bounds(n, m.spec_width(), m.spec_height())
                &&& !m.is_visited(n)
                &&& adjacent(c, n)
            },
        m.spec_unvisited_neighbors(c).len() == 0 ==> forall|n: GridCoord2D|
            in_bounds(n, m.spec_width(), m.spec_height()) && #[trigger] adjacent(c, n)
                ==> m.is_visited(n),
{
    let list = m.spec_unvisited_neighbors(c);
    let (u, r, d, l) = (
        m.unvisited_at(c.spec_up()),
        m.unvisited_at(c.spec_right()),
        m.unvisited_at(c.spec_down()),
        m.unvisited_at(c.spec_left()),
    );
    assert(list == u + r + d + l);
    assert forall|k: int| 0 <= k < list.len() implies {
        let n = #[trigger] list[k];
        &&& in_bounds(n, m.spec_width(), m.spec_height())
        &&& !m.is_visited(n)
        &&& adjacent(c, n)
    } by {
        if k < u.len() {
            assert(list[k] == u[k]);
        } else if k < u.len() + r.len() {
            assert(list[k] == r[k - u.len()]);
        } else if k < u.len() + r.len() + d.len() {
            assert(list[k] == d[k - u.len() - r.len()]);
        } else {
            assert(list[k] == l[k - u.len() - r.len() - d.len()]);
        }
    }
    if list.len() == 0 {
        assert forall|n: GridCoord2D|
            in_bounds(n, m.spec_width(), m.spec_height()) && #[trigger] adjacent(
                c,
                n,
            ) implies m.is_visited(n) by {
            if n.y + 1 == c.y && n.x == c.x {
                assert(c.spec_up() == Some(n));
            } else if n.x == c.x + 1 && n.y == c.y {
                assert(c.spec_right() == Some(n));
            } else if n.y == c.y + 1 && n.x == c.x {
                assert(c.spec_down() == Some(n));
            } else {
                assert(c.spec_left() == Some(n));
            }
        }
    }
}

/// Carving towards an unvisited neighbor, pushing the current cell and
/// moving on keeps the search state sound, and visits one more cell.
proof fn lemma_advance(
    g0: &Wall4Grid,
    m0: &VisitMap2D,
    cur: GridCoord2D,
    stack: Seq<GridCoord2D>,
    parent: Map<GridCoord2D, GridCoord2D>,
    depth: Map<GridCoord2D, nat>,
    sel: GridCoord2D,
    g: &Wall4Grid,
    m: &VisitMap2D,
)
    requires
        search_inv(g0, m0, cur, stack, parent, depth),
        in_bounds(sel, g0.spec_width(), g0.spec_height()),
        !m0.is_visited(sel),
        adjacent(cur, sel),
        g.wf(),
        g.spec_width() == g0.spec_width(),
        g.spec_height() == g0.spec_height(),
        g.cells() == carved(g0.cells(), g0.spec_width(), cur, sel),
        m.wf(),
        m.spec_width() == m0.spec_width(),
        m.spec_height() == m0.spec_height(),
        m.visited() == m0.visited().update(linear_index(sel, m0.spec_width()), true),
    ensures
        search_inv(
            g,
            m,
            sel,
            stack.push(cur),
            parent.insert(sel, cur),
            depth.insert(sel, depth[cur] + 1),
        ),
        count_true(m.visited()) == count_true(m0.visited()) + 1,
{
    let w = g0.spec_width();
    let h = g0.spec_height();
    lemma_mark(m0, m, sel);
    lemma_linear_index_in_bounds(sel, w, h);
    lemma_count_true_update(m0.visited(), linear_index(sel, w));
    lemma_advance_walls(g0, m0, cur, stack, parent, depth, sel, g, m);
    lemma_advance_tree(g0, m0, cur, stack, parent, depth, sel, g, m);
    lemma_advance_search(g0, m0, cur, stack, parent, depth, sel, g, m);
}

/// The walls part of a forward step: unvisited cells stay fully walled,
/// the walls stay consistent, and one passage is added.
proof fn lemma_advance_walls(
    g0: &Wall4Grid,
    m0: &VisitMap2D,
    cur: GridCoord2D,
    stack: Seq<GridCoord2D>,
    parent: Map<GridCoord2D, GridCoord2D>,
    depth: Map<GridCoord2D, nat>,
    sel: GridCoord2D,
    g: &Wall4Grid,
    m: &VisitMap2D,
)
    requires
        search_inv(g0, m0, cur, stack, parent, depth),
        in_bounds(sel, g0.spec_width(), g0.spec_height()),
        !m0.is_visited(sel),
        adjacent(cur, sel),
        g.wf(),
        g.spec_width() == g0.spec_width(),
        g.spec_height() == g0.spec_height(),
        g.cells() == carved(g0.cells(), g0.spec_width(), cur, sel),
        m.wf(),
        m.spec_width() == m0.spec_width(),
        m.spec_height() == m0.spec_height(),
        m.visited() == m0.visited().update(linear_index(sel, m0.spec_width()), true),
    ensures
        forall|c: GridCoord2D|
            in_bounds(c, g.spec_width(), g.spec_height()) && !#[trigger] m.is_visited(c)
                ==> g.cell(c) == ALL_BITS,
        walls_consistent(g.cells(), g.spec_width(), g.spec_height()),
        passage_count(g.cells()) == passage_count(g0.cells()) + 1,
{
    let w = g0.spec_width();
    let h = g0.spec_height();
    lemma_mark(m0, m, sel);
    lemma_carved(g0.cells(), w, h, cur, sel);
    lemma_linear_index_in_bounds(sel, w, h);
    assert(g0.cell(sel) == ALL_BITS);
    lemma_all_and_none(facing(sel, cur));
    lemma_all_and_none(facing(cur, sel));
    assert(consistent_at(g0.cells(), w, h, cur));
    assert(consistent_at(g0.cells(), w, h, sel));
    if sel.x == cur.x + 1 {
        assert(right_of(cur) == sel);
    } else if cur.x == sel.x + 1 {
        assert(right_of(sel) == cur);
    } else if sel.y == cur.y + 1 {
        assert(below(cur) == sel);
    } else {
        assert(below(sel) == cur);
    }
    assert(has_wall(g0.cells(), w, cur, facing(cur, sel)));
    assert forall|c: GridCoord2D|
        in_bounds(c, w, h) && !#[trigger] m.is_visited(c) implies g.cell(c) == ALL_BITS by {
        assert(g.cells()[linear_index(c, w)] == g0.cells()[linear_index(c, w)]);
    }
}

/// The tree part of a forward step: the new cell hangs below the current
/// cell, one level deeper, and old links stay open.
proof fn lemma_advance_tree(
    g0: &Wall4Grid,
    m0: &VisitMap2D,
    cur: GridCoord2D,
    stack: Seq<GridCoord2D>,
    parent: Map<GridCoord2D, GridCoord2D>,
    depth: Map<GridCoord2D, nat>,
    sel: GridCoord2D,
    g: &Wall4Grid,
    m: &VisitMap2D,
)
    requires
        search_inv(g0, m0, cur, stack, parent, depth),
        in_bounds(sel, g0.spec_width(), g0.spec_height()),
        !m0.is_visited(sel),
        adjacent(cur, sel),
        g.wf(),
        g.spec_width() == g0.spec_width(),
        g.spec_height() == g0.spec_height(),
        g.cells() == carved(g0.cells(), g0.spec_width(), cur, sel),
        m.wf(),
        m.spec_width() == m0.spec_width(),
        m.spec_height() == m0.spec_height(),
        m.visited() == m0.visited().update(linear_index(sel, m0.spec_width()), true),
    ensures
        ({
            let parent2 = parent.insert(sel, cur);
            let depth2 = depth.insert(sel, depth[cur] + 1);
            let (w, h) = (g.spec_width(), g.spec_height());
            &&& forall|c: GridCoord2D|
                in_bounds(c, w, h) && #[trigger] m.is_visited(c) ==> depth2.dom().contains(c)
            &&& forall|c: GridCoord2D|
                in_bounds(c, w, h) && #[trigger] m.is_visited(c) && c != origin() ==> {
                    &&& parent2.dom().contains(c)
                    &&& in_bounds(parent2[c], w, h)
                    &&& m.is_visited(parent2[c])
                    &&& open_between(g.cells(), w, h, c, parent2[c])
                    &&& depth2[parent2[c]] < depth2[c]
                }
        }),
{
    let w = g0.spec_width();
    let h = g0.spec_height();
    let parent2 = parent.insert(sel, cur);
    let depth2 = depth.insert(sel, depth[cur] + 1);
    lemma_mark(m0, m, sel);
    lemma_carved(g0.cells(), w, h, cur, sel);
    assert forall|c: GridCoord2D|
        in_bounds(c, w, h) && #[trigger] m.is_visited(c) && c != origin() implies {
        &&& parent2.dom().contains(c)
        &&& in_bounds(parent2[c], w, h)
        &&& m.is_visited(parent2[c])
        &&& open_between(g.cells(), w, h, c, parent2[c])
        &&& depth2[parent2[c]] < depth2[c]
    } by {
        if c == sel {
            assert(m0.is_visited(cur));
        } else {
            assert(m0.is_visited(c));
            let p = parent[c];
            assert(open_between(g0.cells(), w, h, c, p));
            assert(m0.is_visited(p));
            assert(p != sel);
            assert(has_wall(g.cells(), w, c, facing(c, p)) ==> has_wall(
                g0.cells(),
                w,
                c,
                facing(c, p),
            ));
            assert(has_wall(g.cells(), w, p, facing(p, c)) ==> has_wall(
                g0.cells(),
                w,
                p,
                facing(p, c),
            ));
        }
    }
}

/// The search part of a forward step: the stack holds visited cells, and
/// every visited cell off the stack, other than the current one, has only
/// visited neighbors.
proof fn lemma_advance_search(
    g0: &Wall4Grid,
    m0: &VisitMap2D,
    cur: GridCoord2D,
    stack: Seq<GridCoord2D>,
    parent: Map<GridCoord2D, GridCoord2D>,
    depth: Map<GridCoord2D, nat>,
    sel: GridCoord2D,
    g: &Wall4Grid,
    m: &VisitMap2D,
)
    requires
        search_inv(g0, m0, cur, stack, parent, depth),
        in_bounds(sel, g0.spec_width(), g0.spec_height()),
        !m0.is_visited(sel),
        adjacent(cur, sel),
        g.wf(),
        g.spec_width() == g0.spec_width(),
        g.spec_height() == g0.spec_height(),
        g.cells() == carved(g0.cells(), g0.spec_width(), cur, sel),
        m.wf(),
        m.spec_width() == m0.spec_width(),
        m.spec_height() == m0.spec_height(),
        m.visited() == m0.visited().update(linear_index(sel, m0.spec_width()), true),
    ensures
        ({
            let stack2 = stack.push(cur);
            let (w, h) = (g.spec_width(), g.spec_height());
            &&& forall|k: int|
                0 <= k < stack2.len() ==> in_bounds(#[trigger] stack2[k], w, h) && m.is_visited(
                    stack2[k],
                )
            &&& forall|c: GridCoord2D, n: GridCoord2D|
                #![trigger adjacent(c, n), m.is_visited(c)]
                in_bounds(c, w, h) && in_bounds(n, w, h) && adjacent(c, n) && m.is_visited(c) && c
                    != sel && !stack2.contains(c) ==> m.is_visited(n)
        }),
{
    let w = g0.spec_width();
    let h = g0.spec_height();
    let stack2 = stack.push(cur);
    lemma_mark(m0, m, sel);
    assert forall|k: int| 0 <= k < stack2.len() implies in_bounds(#[trigger] stack2[k], w, h)
        && m.is_visited(stack2[k]) by {
        if k < stack.len() {
            assert(stack2[k] == stack[k]);
        }
    }
    assert forall|c: GridCoord2D, n: GridCoord2D|
        #![trigger adjacent(c, n), m.is_visited(c)]
        in_bounds(c, w, h) && in_bounds(n, w, h) && adjacent(c, n) && m.is_visited(c) && c != sel
            && !stack2.contains(c) implies m.is_visited(n) by {
        assert(stack2[stack.len() as int] == cur);
        assert(c != cur);
        assert(!stack.contains(c)) by {
            if stack.contains(c) {
                let k = choose|k: int| 0 <= k < stack.len() && stack[k] == c;
                assert(stack2[k] == c);
            }
        }
        assert(m0.is_visited(c));
        assert(m0.is_visited(n));
    }
}

/// Going back to the cell on top of the stack keeps the search state sound
/// once the current cell has no unvisited neighbor.
proof fn lemma_backtrack(
    g: &Wall4Grid,
    m: &VisitMap2D,
    cur: GridCoord2D,
    stack: Seq<GridCoord2D>,
    parent: Map<GridCoord2D, GridCoord2D>,
    depth: Map<GridCoord2D, nat>,
)
    requires
        search_inv(g, m, cur, stack, parent, depth),
        m.spec_unvisited_neighbors(cur).len() == 0,
        stack.len() > 0,
    ensures
        search_inv(g, m, stack.last(), stack.drop_last(), parent, depth),
{
    lemma_unvisited_neighbors(m, cur);
    let s2 = stack.drop_last();
    assert(stack =~= s2.push(stack.last()));
    assert forall|c: GridCoord2D, n: GridCoord2D|
        #![trigger adjacent(c, n), m.is_visited(c)]
        in_bounds(c, g.spec_width(), g.spec_height()) && in_bounds(
            n,
            g.spec_width(),
            g.spec_height(),
        ) && adjacent(c, n) && m.is_visited(c) && c != stack.last() && !s2.contains(
            c,
        ) implies m.is_visited(n) by {
        if c != cur {
            assert(!stack.contains(c)) by {
                if stack.contains(c) {
                    let k = choose|k: int| 0 <= k < stack.len() && stack[k] == c;
                    if k < s2.len() {
                        assert(s2[k] == c);
                    }
                }
            }
        }
    }
    assert forall|k: int| 0 <= k < s2.len() implies in_bounds(
        #[trigger] s2[k],
        g.spec_width(),
        g.spec_height(),
    ) && m.is_visited(s2[k]) by {
        assert(s2[k] == stack[k]);
    }
}

/// The search starts sound: the origin is the one visited cell, every
/// cell is fully walled, and the stack is empty.
proof fn lemma_start(g: &Wall4Grid, m0: &VisitMap2D, m: &VisitMap2D)
    requires
        g.wf(),
        m0.wf(),
        g.spec_width() >= 1,
        g.spec_height() >= 1,
        m0.spec_width() == g.spec_width(),
        m0.spec_height() == g.spec_height(),
        forall|i: int| 0 <= i < g.cells().len() ==> #[trigger] g.cells()[i] == ALL_BITS,
        forall|i: int| 0 <= i < m0.visited().len() ==> !#[trigger] m0.visited()[i],
        m.wf(),
        m.spec_width() == m0.spec_width(),
        m.spec_height() == m0.spec_height(),
        m.visited() == m0.visited().update(linear_index(origin(), m0.spec_width()), true),
    ensures
        search_inv(
            g,
            m,
            origin(),
            Seq::empty(),
            Map::empty(),
            Map::empty().insert(origin(), 0nat),
        ),
{
    let w = g.spec_width();
    let h = g.spec_height();
    lemma_linear_index_in_bounds(origin(), w, h);
    lemma_count_true_update(m0.visited(), linear_index(origin(), w));
    lemma_count_true_all_false(m0.visited());
    lemma_passage_count_all_walls(g.cells());
    lemma_mark(m0, m, origin());
    assert forall|c: GridCoord2D| in_bounds(c, w, h) implies #[trigger] m.is_visited(c) == (c
        == origin()) by {
        lemma_linear_index_in_bounds(c, w, h);
        assert(!m0.visited()[linear_index(c, w)]);
    }
    assert forall|c: GridCoord2D|
        in_bounds(c, w, h) && !#[trigger] m.is_visited(c) implies g.cell(c) == ALL_BITS by {
        lemma_linear_index_in_bounds(c, w, h);
    }
    assert forall|c: GridCoord2D| in_bounds(c, w, h) implies #[trigger] consistent_at(
        g.cells(),
        w,
        h,
        c,
    ) by {
        lemma_linear_index_in_bounds(c, w, h);
        lemma_all_and_none(EAST_BIT);
        lemma_all_and_none(SOUTH_BIT);
        lemma_all_and_none(crate::direction4::WEST_BIT);
        lemma_all_and_none(crate::direction4::NORTH_BIT);
        if c.x + 1 < w {
            lemma_linear_index_in_bounds(right_of(c), w, h);
        }
        if c.y + 1 < h {
            lemma_linear_index_in_bounds(below(c), w, h);
        }
    }
}

/// Every cell that a chain of visited neighbors links to the origin is
/// visited, when every visited cell has only visited neighbors.
proof fn lemma_reached(m: &VisitMap2D, c: GridCoord2D)
    requires
        m.is_visited(origin()),
        in_bounds(c, m.spec_width(), m.spec_height()),
        forall|a: GridCoord2D, n: GridCoord2D|
            #![trigger adjacent(a, n), m.is_visited(a)]
            in_bounds(a, m.spec_width(), m.spec_height()) && in_bounds(
                n,
                m.spec_width(),
                m.spec_height(),
            ) && adjacent(a, n) && m.is_visited(a) ==> m.is_visited(n),
    ensures
        m.is_visited(c),
    decreases c.x + c.y,
{
    if c.x > 0 {
        let l = GridCoord2D { x: (c.x - 1) as usize, y: c.y };
        lemma_reached(m, l);
        assert(adjacent(l, c));
    } else if c.y > 0 {
        let u = GridCoord2D { x: c.x, y: (c.y - 1) as usize };
        lemma_reached(m, u);
        assert(adjacent(u, c));
    } else {
        assert(c == origin());
    }
}

/// A walk through open passages from a visited cell to the origin, along
/// the recorded parents.
proof fn lemma_path_to_origin(
    g: &Wall4Grid,
    m: &VisitMap2D,
    cur: GridCoord2D,
    stack: Seq<GridCoord2D>,
    parent: Map<GridCoord2D, GridCoord2D>,
    depth: Map<GridCoord2D, nat>,
    c: GridCoord2D,
) -> (p: Seq<GridCoord2D>)
    requires
        search_inv(g, m, cur, stack, parent, depth),
        in_bounds(c, g.spec_width(), g.spec_height()),
        m.is_visited(c),
    ensures
        is_path(g.cells(), g.spec_width(), g.spec_height(), p),
        p[0] == c,
        p.last() == origin(),
    decreases depth[c],
{
    if c == origin() {
        seq![c]
    } else {
        let q = lemma_path_to_origin(g, m, cur, stack, parent, depth, parent[c]);
        let p = seq![c] + q;
        assert forall|i: int| 0 <= i < p.len() - 1 implies #[trigger] open_between(
            g.cells(),
            g.spec_width(),
            g.spec_height(),
            p[i],
            p[i + 1],
        ) by {
            if i == 0 {
                assert(p[1] == q[0]);
                assert(p[0] == c);
                assert(open_between(g.cells(), g.spec_width(), g.spec_height(), c, parent[c]));
            } else {
                assert(p[i] == q[i - 1]);
                assert(p[i + 1] == q[i]);
                let j = i - 1;
                assert(open_between(g.cells(), g.spec_width(), g.spec_height(), q[j], q[j + 1]));
            }
        }
        assert(p.last() == q.last());
        p
    }
}

/// When the stack is empty and the current cell has no unvisited neighbor,
/// the grid is a perfect maze.
proof fn lemma_finish(
    g: &Wall4Grid,
    m: &VisitMap2D,
    cur: GridCoord2D,
    parent: Map<GridCoord2D, GridCoord2D>,
    depth: Map<GridCoord2D, nat>,
)
    requires
        search_inv(g, m, cur, Seq::empty(), parent, depth),
        m.spec_unvisited_neighbors(cur).len() == 0,
    ensures
        is_perfect_maze(g),
        forall|c: GridCoord2D|
            in_bounds(c, g.spec_width(), g.spec_height()) ==> #[trigger] m.is_visited(c),
{
    let w = g.spec_width();
    let h = g.spec_height();
    lemma_unvisited_neighbors(m, cur);
    assert forall|a: GridCoord2D, n: GridCoord2D|
        #![trigger adjacent(a, n), m.is_visited(a)]
        in_bounds(a, w, h) && in_bounds(n, w, h) && adjacent(a, n) && m.is_visited(
            a,
        ) implies m.is_visited(n) by {
        if a != cur {
            assert(!Seq::<GridCoord2D>::empty().contains(a));
        }
    }
    assert forall|i: int| 0 <= i < m.visited().len() implies #[trigger] m.visited()[i] by {
        let wi = w as int;
        let x = i % wi;
        let y = i / wi;
        vstd::arithmetic::div_mod::lemma_fundamental_div_mod(i, wi);
        vstd::arithmetic::div_mod::lemma_mod_pos_bound(i, wi);
        vstd::arithmetic::div_mod::lemma_div_pos_is_pos(i, wi);
        assert(y < h) by (nonlinear_arith)
            requires
                i == wi * y + x,
                0 <= x,
                i < w * h,
                wi == w,
                w > 0,
        ;
        let c = GridCoord2D { x: x as usize, y: y as usize };
        assert(linear_index(c, w) == i) by (nonlinear_arith)
            requires
                i == wi * y + x,
                c.x == x,
                c.y == y,
                wi == w,
        ;
        lemma_reached(m, c);
    }
    lemma_count_true_all_true(m.visited());
    assert forall|c: GridCoord2D| in_bounds(c, w, h) implies #[trigger] m.is_visited(c) by {
        lemma_reached(m, c);
    }
    assert forall|c: GridCoord2D| #[trigger]
        in_bounds(c, w, h) implies reaches_origin(g.cells(), w, h, c) by {
        lemma_reached(m, c);
        let p = lemma_path_to_origin(g, m, cur, Seq::empty(), parent, depth, c);
    }
}

} // verus!
