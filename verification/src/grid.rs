//! The square, centre-anchored grid that labels are placed into.
//!
//! The grid is built once, by pulling one spiral coordinate per label, and
//! is only queried afterwards.

use vstd::prelude::*;

use crate::spiral;
use crate::spiral::{spec_is_sufficient_diameter, spec_spiral_at, spec_total_through};

verus! {

/// The largest grid dimension that is accepted: a 7x7 grid fits 25 items.
pub const MAX_DIMENSION: usize = 7;

/// The errors of the core.
#[derive(Clone, Copy, PartialEq, Eq, Structural, Debug)]
pub enum CoreError {
    /// The label list needs a grid larger than `MAX_DIMENSION`.
    GridTooLarge,
    /// The cursor-occupancy invariant was found broken; unreachable as long
    /// as the state is only changed through its own operations.
    InternalInvariantViolation,
}

/// An x/y coordinate, relative to the centre position of the grid.
#[derive(Clone, Copy, PartialEq, Eq, Structural, Debug)]
pub struct GridPosition {
    pub x: i8,
    pub y: i8,
}

impl View for GridPosition {
    type V = (int, int);

    open spec fn view(&self) -> (int, int) {
        (self.x as int, self.y as int)
    }
}

impl GridPosition {
    pub fn new(x: i8, y: i8) -> (p: GridPosition)
        ensures
            p.x == x,
            p.y == y,
    {
        GridPosition { x, y }
    }
}

/// A label placed on the grid: the value to emit on selection, and the
/// coordinate the label occupies.
pub struct GridItem {
    pub value: String,
    pub position: GridPosition,
}

/// A square table of cells, each holding at most one item, addressed by
/// coordinates relative to the centre cell.
pub struct Grid {
    pub width: usize,
    pub height: usize,
    pub grid: Vec<Vec<Option<GridItem>>>,
}

impl Grid {
    /// The storage column of relative coordinate `x`.
    pub open spec fn spec_abs_x(self, x: int) -> int {
        self.width as int / 2 + x
    }

    /// The storage row of relative coordinate `y`.
    pub open spec fn spec_abs_y(self, y: int) -> int {
        self.height as int / 2 + y
    }

    /// Whether the relative coordinate `(x, y)` addresses a cell at all.
    pub open spec fn spec_in_range(self, x: int, y: int) -> bool {
        &&& 0 <= self.spec_abs_x(x) < self.width as int
        &&& 0 <= self.spec_abs_y(y) < self.height as int
    }

    /// The cell addressed by the relative coordinate `(x, y)`: `None` both
    /// for an empty cell and for a coordinate outside the grid.
    pub open spec fn spec_cell(self, x: int, y: int) -> Option<GridItem> {
        if self.spec_in_range(x, y) {
            self.grid@[self.spec_abs_x(x)]@[self.spec_abs_y(y)]
        } else {
            None
        }
    }

    /// `spec_cell` applied to a coordinate pair.
    pub open spec fn spec_cell_pair(self, p: (int, int)) -> Option<GridItem> {
        self.spec_cell(p.0, p.1)
    }

    /// The table is square, within bounds, and every stored item carries
    /// the coordinate its storage indices convert back to.
    pub open spec fn wf(self) -> bool {
        &&& self.height == self.width
        &&& self.width <= MAX_DIMENSION
        &&& self.grid@.len() == self.width
        &&& forall|i: int|
            0 <= i < self.grid@.len() ==> (#[trigger] self.grid@[i])@.len() == self.height
        &&& forall|i: int, j: int|
            0 <= i < self.width && 0 <= j < self.height ==> ((#[trigger] self.grid@[i]@[j])
                matches Some(it) ==> it.position@ == (
                i - self.width as int / 2,
                j - self.height as int / 2,
            ))
    }

    /// The grid holds items exactly at the first `n` spiral coordinates.
    pub open spec fn spec_is_item_count(self, n: int) -> bool {
        &&& 0 <= n
        &&& forall|k: int| 0 <= k < n ==> (#[trigger] self.spec_cell_pair(spec_spiral_at(k))) is Some
        &&& self.spec_cell_pair(spec_spiral_at(n)) is None
    }

    /// The grid holds exactly the given label texts, one per spiral
    /// coordinate, in spiral emission order.
    pub open spec fn spec_holds_labels(self, labels: Seq<Seq<char>>) -> bool {
        &&& forall|k: int|
            0 <= k < labels.len() ==> {
                let c = #[trigger] self.spec_cell_pair(spec_spiral_at(k));
                &&& c matches Some(it)
                &&& it.value@ == labels[k]
                &&& it.position@ == spec_spiral_at(k)
            }
        &&& forall|x: int, y: int|
            #[trigger] self.spec_cell(x, y) is Some ==> exists|k: int|
                0 <= k < labels.len() && spec_spiral_at(k) == (x, y)
    }

    /// Convert a coordinate relative to the centre of the grid to a pair of
    /// indices into the table.
    fn rel_to_abs(&self, x: i8, y: i8) -> (r: Option<(usize, usize)>)
        requires
            self.wf(),
        ensures
            r == if self.spec_in_range(x as int, y as int) {
                Some(
                    (
                        self.spec_abs_x(x as int) as usize,
                        self.spec_abs_y(y as int) as usize,
                    ),
                )
            } else {
                None::<(usize, usize)>
            },
    {
        let idx_x = self.width as i32 / 2 + x as i32;
        let idx_y = self.height as i32 / 2 + y as i32;
        if 0 <= idx_x && idx_x < self.width as i32 && 0 <= idx_y && idx_y < self.height as i32 {
            Some((idx_x as usize, idx_y as usize))
        } else {
            None
        }
    }

    /// The item at the relative coordinate `(x, y)`, if that coordinate is
    /// inside the grid and its cell is occupied.
    pub fn item_at(&self, x: i8, y: i8) -> (r: Option<&GridItem>)
        requires
            self.wf(),
        ensures
            match r {
                Some(it) => self.spec_cell(x as int, y as int) == Some(*it),
                None => self.spec_cell(x as int, y as int) is None,
            },
    {
        match self.rel_to_abs(x, y) {
            None => None,
            Some((idx_x, idx_y)) => self.grid[idx_x][idx_y].as_ref(),
        }
    }

    /// Place the given labels onto a fresh grid, one spiral coordinate per
    /// label in emission order.  Fails when more than 25 labels would force
    /// a dimension beyond `MAX_DIMENSION`.
    #[verifier::rlimit(80)]
    pub fn new(item_names: &Vec<String>) -> (r: Result<Grid, CoreError>)
        ensures
            item_names@.len() <= 25 <==> r is Ok,
            r matches Err(e) ==> e == CoreError::GridTooLarge,
            r matches Ok(g) ==> {
                &&& g.wf()
                &&& g.height == g.width
                &&& spec_is_sufficient_diameter(item_names@.len() as int, g.width as int)
                &&& g.spec_holds_labels(item_names@.map_values(|s: String| s@))
                &&& g.spec_is_item_count(item_names@.len() as int)
            },
    {
        let n = item_names.len();
        let dimension = spiral::sufficient_diameter(n);
        proof {
            lemma_dimension_capacity(n as int, dimension as int);
        }
        if dimension > MAX_DIMENSION {
            return Err(CoreError::GridTooLarge);
        }

        let mut table: Vec<Vec<Option<GridItem>>> = Vec::new();
        let mut i: usize = 0;
        while i < dimension
            invariant
                i <= dimension,
                table@.len() == i,
                forall|p: int| 0 <= p < i ==> (#[trigger] table@[p])@.len() == dimension,
                forall|p: int, q: int|
                    0 <= p < i && 0 <= q < dimension ==> (#[trigger] table@[p]@[q]) is None,
            decreases dimension - i,
        {
            let mut row: Vec<Option<GridItem>> = Vec::new();
            let mut j: usize = 0;
            while j < dimension
                invariant
                    j <= dimension,
                    row@.len() == j,
                    forall|q: int| 0 <= q < j ==> (#[trigger] row@[q]) is None,
                decreases dimension - j,
            {
                row.push(None);
                j = j + 1;
            }
            table.push(row);
            i = i + 1;
        }

        let mut result = Grid { width: dimension, height: dimension, grid: table };

        let ghost labels = item_names@.map_values(|s: String| s@);
        let mut positions = spiral::SpiralGenerator::new();
        let mut k: usize = 0;
        while k < n
            invariant
                k <= n,
                n == item_names@.len(),
                n <= 25,
                labels == item_names@.map_values(|s: String| s@),
                positions.wf(),
                positions.index() == k,
                result.wf(),
                result.width == dimension,
                result.height == dimension,
                spec_is_sufficient_diameter(n as int, dimension as int),
                forall|q: int|
                    0 <= q < k ==> {
                        let c = #[trigger] result.spec_cell_pair(spec_spiral_at(q));
                        &&& c matches Some(it)
                        &&& it.value@ == labels[q]
                        &&& it.position@ == spec_spiral_at(q)
                    },
                forall|x: int, y: int|
                    #[trigger] result.spec_cell(x, y) is Some ==> exists|q: int|
                        0 <= q < k && spec_spiral_at(q) == (x, y),
            decreases n - k,
        {
            let ghost old_grid = result;
            proof {
                lemma_spiral_fits(k as int, n as int, dimension as int);
            }
            let pos = positions.next().unwrap();
            let idx = result.rel_to_abs(pos.x, pos.y);
            let (idx_x, idx_y) = idx.unwrap();
            let item = GridItem { value: item_names[k].clone(), position: pos };
            result.grid[idx_x][idx_y] = Some(item);
            proof {
                let d = dimension as int;
                let pk = spec_spiral_at(k as int);
                assert(result.spec_cell_pair(pk) == Some(item));
                assert forall|q: int| 0 <= q < k + 1 implies {
                    let c = #[trigger] result.spec_cell_pair(spec_spiral_at(q));
                    &&& c matches Some(it)
                    &&& it.value@ == labels[q]
                    &&& it.position@ == spec_spiral_at(q)
                } by {
                    if q < k {
                        if spec_spiral_at(q) == pk {
                            spiral::lemma_spiral_injective(q, k as int);
                        }
                        let pq = spec_spiral_at(q);
                        assert(old_grid.spec_cell_pair(pq) is Some);
                        // a distinct coordinate lands on distinct storage
                        // indices, so the new placement leaves it alone
                        assert(result.spec_cell_pair(pq) == old_grid.spec_cell_pair(pq));
                    }
                }
                assert forall|x: int, y: int| #[trigger] result.spec_cell(x, y) is Some
                    implies exists|q: int| 0 <= q < k + 1 && spec_spiral_at(q) == (x, y) by {
                    if result.spec_in_range(x, y) && d / 2 + x == idx_x as int && d / 2 + y
                        == idx_y as int {
                        assert(pk == (x, y));
                        assert(0 <= k < k + 1 && spec_spiral_at(k as int) == (x, y));
                    } else {
                        assert(old_grid.spec_cell(x, y) is Some);
                        let q = choose|q: int| 0 <= q < k && spec_spiral_at(q) == (x, y);
                        assert(0 <= q < k + 1 && spec_spiral_at(q) == (x, y));
                    }
                }
            }
            k = k + 1;
        }
        proof {
            if result.spec_cell_pair(spec_spiral_at(n as int)) is Some {
                let q = choose|q: int|
                    0 <= q < n && spec_spiral_at(q) == spec_spiral_at(n as int);
                spiral::lemma_spiral_injective(q, n as int);
            }
        }
        Ok(result)
    }

    /// Walk the grid's items in spiral emission order.
    pub fn items_iter(&self) -> (it: GridSpiralIterator<'_>)
        requires
            self.wf(),
        ensures
            it.wf(),
            it.index() == 0,
            it.spec_grid() == *self,
    {
        GridSpiralIterator::new(self)
    }
}

/// Replays a fresh spiral over a grid, yielding the item of each occupied
/// coordinate; the first unoccupied coordinate yields `None`.
pub struct GridSpiralIterator<'a> {
    grid: &'a Grid,
    positions: spiral::SpiralGenerator,
}

impl<'a> GridSpiralIterator<'a> {
    /// The grid being walked.
    pub closed spec fn spec_grid(self) -> Grid {
        *self.grid
    }

    /// How many coordinates have been visited so far.
    pub closed spec fn index(self) -> int {
        self.positions.index()
    }

    pub closed spec fn wf(self) -> bool {
        &&& self.grid.wf()
        &&& self.positions.wf()
    }

    pub fn new(grid: &'a Grid) -> (it: GridSpiralIterator<'a>)
        requires
            grid.wf(),
        ensures
            it.wf(),
            it.index() == 0,
            it.spec_grid() == *grid,
    {
        GridSpiralIterator { grid, positions: spiral::SpiralGenerator::new() }
    }

    /// The item at the next spiral coordinate, or `None` for an empty cell.
    pub fn next(&mut self) -> (r: Option<&'a GridItem>)
        requires
            old(self).wf(),
            old(self).index() < spiral::MAX_SPIRAL_INDEX,
        ensures
            final(self).wf(),
            final(self).spec_grid() == old(self).spec_grid(),
            final(self).index() == old(self).index() + 1,
            match r {
                Some(it) => old(self).spec_grid().spec_cell_pair(
                    spec_spiral_at(old(self).index()),
                ) == Some(*it),
                None => old(self).spec_grid().spec_cell_pair(
                    spec_spiral_at(old(self).index()),
                ) is None,
            },
    {
        let pos = self.positions.next().unwrap();
        self.grid.item_at(pos.x, pos.y)
    }
}

/// A well-formed grid's spiral prefix of items ends within ring 6: there
/// are at most 85 spiral coordinates inside any accepted grid.
pub proof fn lemma_item_count_bound(g: Grid, n: int)
    requires
        g.wf(),
        g.spec_is_item_count(n),
    ensures
        n <= 85,
{
    if n > 85 {
        assert(g.spec_cell_pair(spec_spiral_at(85)) is Some);
        spiral::lemma_ring_of_unique(85, 7);
        spiral::lemma_spiral_within(85);
        assert(false);
    }
}

/// A diameter is at most `MAX_DIMENSION` exactly when the position count is
/// at most 25.
pub proof fn lemma_dimension_capacity(n: int, d: int)
    requires
        0 <= n,
        spec_is_sufficient_diameter(n, d),
    ensures
        d <= 7 <==> n <= 25,
{
    if n > 0 {
        let r = (d - 1) / 2;
        if d <= 7 {
            // n fits within ring 3, which holds 25 positions
            if r < 3 {
                spiral::lemma_total_strict_monotone(r, 3);
            }
            assert(spec_total_through(3) == 25);
        } else {
            // minimality: the ring below r already fails to hold n
            if r - 1 > 3 {
                spiral::lemma_total_strict_monotone(3, r - 1);
            }
            assert(spec_total_through(3) == 25);
        }
    }
}

/// Every one of the first `n` spiral coordinates lies inside a grid of a
/// sufficient dimension `d`.
proof fn lemma_spiral_fits(k: int, n: int, d: int)
    requires
        0 <= k < n,
        spec_is_sufficient_diameter(n, d),
    ensures
        spiral::spec_abs(spec_spiral_at(k).0) <= d / 2,
        spiral::spec_abs(spec_spiral_at(k).1) <= d / 2,
        d % 2 == 1,
{
    let r = (d - 1) / 2;
    spiral::lemma_spiral_ring_le(k, r);
    spiral::lemma_spiral_within(k);
}

} // verus!
