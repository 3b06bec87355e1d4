//! The spiral ordering of grid coordinates.
//!
//! Coordinates are emitted in concentric diamond-shaped rings around the
//! centre `(0, 0)`.  Ring `r` (for `r >= 1`) holds the `4r` coordinates with
//! `|x| + |y| == r`, walked from the bottom position `(0, r)` up and to the
//! right, bouncing off the two axes.

use vstd::prelude::*;

use crate::grid::GridPosition;

verus! {

/// Number of positions in rings `0..=r` of the spiral: `2r(r+1) + 1`.
pub open spec fn spec_total_through(r: int) -> int {
    2 * r * (r + 1) + 1
}

/// Index of the first position of ring `r` in the spiral ordering.
pub open spec fn spec_ring_first(r: int) -> int {
    if r <= 0 {
        0
    } else {
        2 * (r - 1) * r + 1
    }
}

/// The ring that the `k`-th emitted coordinate lies on.
pub open spec fn spec_ring_of(k: int) -> int
    decreases k,
{
    if k <= 0 {
        0
    } else if k < spec_total_through(spec_ring_of(k - 1)) {
        spec_ring_of(k - 1)
    } else {
        spec_ring_of(k - 1) + 1
    }
}

/// The `j`-th coordinate of ring `r`, for `r >= 1` and `0 <= j < 4r`.
pub open spec fn spec_ring_pos(r: int, j: int) -> (int, int) {
    if j <= r {
        (j, r - j)
    } else if j <= 2 * r {
        (2 * r - j, r - j)
    } else if j <= 3 * r {
        (2 * r - j, j - 3 * r)
    } else {
        (j - 4 * r, j - 3 * r)
    }
}

/// The horizontal step taken just after the `j`-th coordinate of ring `r`.
pub open spec fn spec_dir_x(r: int, j: int) -> int {
    if j < r {
        1
    } else if j < 3 * r {
        -1
    } else {
        1
    }
}

/// The vertical step taken just after the `j`-th coordinate of ring `r`.
pub open spec fn spec_dir_y(r: int, j: int) -> int {
    if j < 2 * r {
        -1
    } else {
        1
    }
}

/// The `k`-th coordinate emitted by the spiral, as a pair `(x, y)`.
pub open spec fn spec_spiral_at(k: int) -> (int, int) {
    let r = spec_ring_of(k);
    if r == 0 {
        (0, 0)
    } else {
        spec_ring_pos(r, k - spec_ring_first(r))
    }
}

pub open spec fn spec_abs(x: int) -> int {
    if x < 0 {
        -x
    } else {
        x
    }
}

pub proof fn lemma_total_strict_monotone(r1: int, r2: int)
    requires
        0 <= r1 < r2,
    ensures
        spec_total_through(r1) < spec_total_through(r2),
{
    assert((2 * r2 * (r2 + 1) + 1) - (2 * r1 * (r1 + 1) + 1) == 2 * (r2 - r1) * (r2 + r1 + 1))
        by (nonlinear_arith);
    assert(2 * (r2 - r1) * (r2 + r1 + 1) > 0) by (nonlinear_arith)
        requires
            0 <= r1 < r2,
    ;
}

proof fn lemma_ring_span(r: int)
    requires
        1 <= r,
    ensures
        spec_ring_first(r) + 4 * r == spec_total_through(r),
{
    assert(2 * (r - 1) * r + 1 + 4 * r == 2 * r * (r + 1) + 1) by (nonlinear_arith);
}

proof fn lemma_ring_of_bounds(k: int)
    requires
        0 <= k,
    ensures
        0 <= spec_ring_of(k),
        spec_ring_first(spec_ring_of(k)) <= k < spec_total_through(spec_ring_of(k)),
        spec_ring_of(k) == 0 ==> k == 0,
    decreases k,
{
    if k == 0 {
    } else {
        lemma_ring_of_bounds(k - 1);
        let rp = spec_ring_of(k - 1);
        if k < spec_total_through(rp) {
        } else {
            assert(spec_total_through(rp + 1) - spec_total_through(rp) == 4 * (rp + 1))
                by (nonlinear_arith);
        }
    }
}

pub proof fn lemma_ring_of_unique(k: int, r: int)
    requires
        0 <= k,
        0 <= r,
        spec_ring_first(r) <= k < spec_total_through(r),
    ensures
        spec_ring_of(k) == r,
{
    lemma_ring_of_bounds(k);
    let r0 = spec_ring_of(k);
    if r0 < r {
        if r0 < r - 1 {
            lemma_total_strict_monotone(r0, r - 1);
        }
        assert(false);
    } else if r0 > r {
        if r < r0 - 1 {
            lemma_total_strict_monotone(r, r0 - 1);
        }
        assert(false);
    }
}

proof fn lemma_ring_pos_on_ring(r: int, j: int)
    requires
        1 <= r,
        0 <= j < 4 * r,
    ensures
        ({
            let (x, y) = spec_ring_pos(r, j);
            spec_abs(x) + spec_abs(y) == r
        }),
{
}

proof fn lemma_ring_pos_injective(r: int, j1: int, j2: int)
    requires
        1 <= r,
        0 <= j1 < 4 * r,
        0 <= j2 < 4 * r,
        spec_ring_pos(r, j1) == spec_ring_pos(r, j2),
    ensures
        j1 == j2,
{
}

/// No coordinate is emitted twice: the spiral visits each cell at most once.
pub proof fn lemma_spiral_injective(k1: int, k2: int)
    requires
        0 <= k1,
        0 <= k2,
        spec_spiral_at(k1) == spec_spiral_at(k2),
    ensures
        k1 == k2,
{
    lemma_ring_of_bounds(k1);
    lemma_ring_of_bounds(k2);
    let r1 = spec_ring_of(k1);
    let r2 = spec_ring_of(k2);
    if r1 >= 1 {
        lemma_ring_span(r1);
        lemma_ring_pos_on_ring(r1, k1 - spec_ring_first(r1));
    }
    if r2 >= 1 {
        lemma_ring_span(r2);
        lemma_ring_pos_on_ring(r2, k2 - spec_ring_first(r2));
    }
    if r1 == r2 {
        if r1 >= 1 {
            lemma_ring_pos_injective(r1, k1 - spec_ring_first(r1), k2 - spec_ring_first(r2));
        }
    } else {
        assert(false);
    }
}

/// Every coordinate of ring `r` lies within the square of radius `r`.
pub proof fn lemma_spiral_within(k: int)
    requires
        0 <= k,
    ensures
        spec_abs(spec_spiral_at(k).0) <= spec_ring_of(k),
        spec_abs(spec_spiral_at(k).1) <= spec_ring_of(k),
        spec_abs(spec_spiral_at(k).0) + spec_abs(spec_spiral_at(k).1) == spec_ring_of(k),
        0 <= spec_ring_of(k),
{
    lemma_ring_of_bounds(k);
    let r = spec_ring_of(k);
    if r >= 1 {
        lemma_ring_span(r);
        lemma_ring_pos_on_ring(r, k - spec_ring_first(r));
    }
}

/// An index below the total of ring `R` lies on ring `R` or an inner one.
pub proof fn lemma_spiral_ring_le(k: int, big: int)
    requires
        0 <= k,
        0 <= big,
        k < spec_total_through(big),
    ensures
        spec_ring_of(k) <= big,
{
    lemma_ring_of_bounds(k);
    let r = spec_ring_of(k);
    if r > big {
        if big < r - 1 {
            lemma_total_strict_monotone(big, r - 1);
        }
        assert(false);
    }
}

/// The width and height of the ring `r` together with all the rings inside
/// it: `2r + 1`.
pub fn ring_diameter(ring: usize) -> (d: usize)
    requires
        ring <= (usize::MAX - 1) / 2,
    ensures
        d == 2 * ring + 1,
{
    ring * 2 + 1
}

/// The number of positions on ring `r` alone: one for the centre ring, `4r`
/// for every outer ring.
pub fn positions_in_ring(ring: usize) -> (n: usize)
    requires
        4 * ring <= usize::MAX,
    ensures
        n == if ring == 0 {
            1int
        } else {
            4 * ring as int
        },
{
    if ring == 0 {
        1
    } else {
        ring * 4
    }
}

/// The number of positions on ring `r` and on all the rings it contains.
pub fn total_positions_within(ring: usize) -> (n: usize)
    requires
        spec_total_through(ring as int) <= usize::MAX,
    ensures
        n == spec_total_through(ring as int),
{
    proof {
        let r = ring as int;
        assert(r + 1 <= 2 * r * (r + 1) + 1) by (nonlinear_arith)
            requires
                r >= 0,
        ;
        assert(r * (r + 1) * 2 == 2 * r * (r + 1)) by (nonlinear_arith);
        assert(r * (r + 1) >= 0) by (nonlinear_arith)
            requires
                r >= 0,
        ;
    }
    ring * (ring + 1) * 2 + 1
}

/// Exactly when `d` is the smallest odd diameter whose rings hold at least
/// `n` positions (and `0` when there is nothing to place).
pub open spec fn spec_is_sufficient_diameter(n: int, d: int) -> bool {
    if n <= 0 {
        d == 0
    } else {
        &&& d % 2 == 1
        &&& 1 <= d
        &&& spec_total_through((d - 1) / 2) >= n
        &&& ((d - 1) / 2 >= 1 ==> spec_total_through((d - 1) / 2 - 1) < n)
    }
}

/// `spec_is_sufficient_diameter` pins the diameter down: no position count
/// has two sufficient diameters.
pub proof fn lemma_sufficient_diameter_unique(n: int, d1: int, d2: int)
    requires
        spec_is_sufficient_diameter(n, d1),
        spec_is_sufficient_diameter(n, d2),
    ensures
        d1 == d2,
{
    if n > 0 {
        let r1 = (d1 - 1) / 2;
        let r2 = (d2 - 1) / 2;
        if r1 < r2 {
            if r1 < r2 - 1 {
                lemma_total_strict_monotone(r1, r2 - 1);
            }
            assert(false);
        } else if r2 < r1 {
            if r2 < r1 - 1 {
                lemma_total_strict_monotone(r2, r1 - 1);
            }
            assert(false);
        }
    }
}

/// The width and height of a grid that can hold `desired_position_count`
/// items: whole rings are counted even when the outermost one is only
/// partly used.
pub fn sufficient_diameter(desired_position_count: usize) -> (d: usize)
    ensures
        spec_is_sufficient_diameter(desired_position_count as int, d as int),
{
    if desired_position_count == 0 {
        return 0;
    }
    let mut ring: usize = 0;
    let mut total: usize = 1;
    while total < desired_position_count
        invariant
            desired_position_count >= 1,
            total as int == if spec_total_through(ring as int) <= usize::MAX as int {
                spec_total_through(ring as int)
            } else {
                usize::MAX as int
            },
            ring >= 1 ==> spec_total_through(ring as int - 1) < desired_position_count,
            ring as int + 1 <= total as int,
        decreases desired_position_count - ring,
    {
        proof {
            let r = ring as int;
            // the running total has not saturated, so the next ring index
            // and its position count both still fit
            assert(r <= 2 * r * (r + 1) + 1) by (nonlinear_arith)
                requires
                    r >= 0,
            ;
            if r >= 2 {
                assert(4 * (r + 1) <= 2 * r * (r + 1) + 1) by (nonlinear_arith)
                    requires
                        r >= 2,
                ;
            }
            assert(2 * (r + 1) * (r + 1 + 1) + 1 == 2 * r * (r + 1) + 1 + 4 * (r + 1))
                by (nonlinear_arith);
            assert(r + 2 <= 2 * (r + 1) * (r + 1 + 1) + 1) by (nonlinear_arith)
                requires
                    r >= 0,
            ;
            if r >= 1 {
                assert(r + 2 <= 2 * r * (r + 1) + 1) by (nonlinear_arith)
                    requires
                        r >= 1,
                ;
            }
        }
        ring = ring + 1;
        let inc = ring * 4;
        if total <= usize::MAX - inc {
            total = total + inc;
        } else {
            total = usize::MAX;
        }
    }
    proof {
        let r = ring as int;
        if r >= 2 {
            assert(2 * r + 1 <= 2 * (r - 1) * r + 1) by (nonlinear_arith)
                requires
                    r >= 2,
            ;
        }
    }
    ring * 2 + 1
}

/// The largest spiral index from which the generator can still advance
/// while keeping every coordinate within `i8`: the last index of ring 127.
pub const MAX_SPIRAL_INDEX: usize = 32512;

/// A restartable generator for the spiral ordering: `next` emits the
/// coordinates `spec_spiral_at(0)`, `spec_spiral_at(1)`, ... in turn.
pub struct SpiralGenerator {
    // the next position we are going to return
    next_result: GridPosition,
    // the ring we are currently generating
    ring: usize,
    // the number of positions remaining to be placed in the current ring
    ring_positions_remaining: usize,
    // the direction to move when we place the next position
    dx: i8,
    dy: i8,
}

impl SpiralGenerator {
    /// How many coordinates have been emitted so far.
    pub closed spec fn index(self) -> int {
        if self.ring == 0 {
            0
        } else {
            spec_ring_first(self.ring as int) + 4 * self.ring as int - 1
                - self.ring_positions_remaining as int
        }
    }

    /// The generator state is consistent with its index.
    pub closed spec fn wf(self) -> bool {
        if self.ring == 0 {
            &&& self.next_result.x == 0
            &&& self.next_result.y == 0
            &&& self.ring_positions_remaining == 0
        } else {
            let r = self.ring as int;
            let j = 4 * r - 1 - self.ring_positions_remaining as int;
            &&& r <= 127
            &&& 0 <= j < 4 * r
            &&& (self.next_result.x as int, self.next_result.y as int) == spec_ring_pos(r, j)
            &&& self.dx as int == spec_dir_x(r, j)
            &&& self.dy as int == spec_dir_y(r, j)
        }
    }

    pub fn new() -> (g: SpiralGenerator)
        ensures
            g.wf(),
            g.index() == 0,
    {
        SpiralGenerator {
            next_result: GridPosition::new(0, 0),
            ring: 0,
            ring_positions_remaining: 0,
            dx: 0,
            dy: 0,
        }
    }

    /// Emit the next coordinate of the spiral and advance.
    pub fn next(&mut self) -> (r: Option<GridPosition>)
        requires
            old(self).wf(),
            old(self).index() < MAX_SPIRAL_INDEX,
        ensures
            final(self).wf(),
            final(self).index() == old(self).index() + 1,
            r matches Some(p) && p@ == spec_spiral_at(old(self).index()),
    {
        proof {
            lemma_spiral_index_facts(*self);
        }
        let current = GridPosition { x: self.next_result.x, y: self.next_result.y };
        if self.ring_positions_remaining == 0 {
            // the ring is full, begin a new ring
            proof {
                lemma_new_ring_facts(*self);
            }
            self.ring = self.ring + 1;
            self.ring_positions_remaining = 4 * self.ring;
            // the first entry of the new ring is in the bottommost position,
            // and initially we move up and to the right
            self.next_result.x = 0;
            self.next_result.y = self.ring as i8;
            self.dx = 1;
            self.dy = -1;
        } else {
            proof {
                lemma_step_facts(*self);
            }
            self.next_result.x = self.next_result.x + self.dx;
            self.next_result.y = self.next_result.y + self.dy;
            // crossing the vertical axis: "bounce" off a horizontal wall
            if self.next_result.x == 0 {
                self.dy = -self.dy;
            }
            // crossing the horizontal axis: "bounce" off a vertical wall
            if self.next_result.y == 0 {
                self.dx = -self.dx;
            }
        }
        self.ring_positions_remaining = self.ring_positions_remaining - 1;
        Some(current)
    }
}

/// A well-formed generator holds the coordinate that its index names.
proof fn lemma_spiral_index_facts(g: SpiralGenerator)
    requires
        g.wf(),
    ensures
        0 <= g.index(),
        (g.next_result.x as int, g.next_result.y as int) == spec_spiral_at(g.index()),
        g.ring as int == spec_ring_of(g.index()),
{
    if g.ring == 0 {
        assert(spec_ring_of(0) == 0);
    } else {
        let r = g.ring as int;
        let j = 4 * r - 1 - g.ring_positions_remaining as int;
        lemma_ring_span(r);
        lemma_ring_of_unique(g.index(), r);
    }
}

/// Closing a ring: the index moves to the first position of the next ring.
proof fn lemma_new_ring_facts(g: SpiralGenerator)
    requires
        g.wf(),
        g.ring_positions_remaining == 0,
        g.index() < MAX_SPIRAL_INDEX,
    ensures
        g.ring as int + 1 <= 127,
        spec_ring_first(g.ring as int + 1) == g.index() + 1,
        spec_ring_pos(g.ring as int + 1, 0) == (0int, g.ring as int + 1),
        spec_dir_x(g.ring as int + 1, 0) == 1,
        spec_dir_y(g.ring as int + 1, 0) == -1,
{
    let r = g.ring as int;
    let k = g.index();
    if g.ring == 0 {
        assert(spec_ring_first(1) == 1);
    } else {
        lemma_ring_span(r);
        assert(k + 1 == spec_total_through(r));
        assert(spec_ring_first(r + 1) == spec_total_through(r));
    }
    // the new ring still fits: ring 127 starts below MAX_SPIRAL_INDEX
    if r + 1 > 127 {
        assert(r >= 127);
        lemma_ring_span(r);
        assert(k == spec_total_through(r) - 1);
        assert(spec_total_through(127) == 32513);
        if r > 127 {
            lemma_total_strict_monotone(127, r);
        }
        assert(false);
    }
}

/// Advancing within a ring: one step in the current direction lands on the
/// next ring position, and the bounce rule yields the next direction.
proof fn lemma_step_facts(g: SpiralGenerator)
    requires
        g.wf(),
        g.ring_positions_remaining >= 1,
    ensures
        g.ring as int >= 1,
        ({
            let r = g.ring as int;
            let j = 4 * r - 1 - g.ring_positions_remaining as int;
            let (x, y) = spec_ring_pos(r, j);
            let x2 = x + spec_dir_x(r, j);
            let y2 = y + spec_dir_y(r, j);
            &&& 0 <= j + 1 < 4 * r
            &&& (x2, y2) == spec_ring_pos(r, j + 1)
            &&& spec_abs(x2) <= r
            &&& spec_abs(y2) <= r
            &&& spec_dir_y(r, j + 1) == (if x2 == 0 { -spec_dir_y(r, j) } else { spec_dir_y(r, j) })
            &&& spec_dir_x(r, j + 1) == (if y2 == 0 { -spec_dir_x(r, j) } else { spec_dir_x(r, j) })
        }),
{
    let r = g.ring as int;
    let j = 4 * r - 1 - g.ring_positions_remaining as int;
    lemma_ring_pos_on_ring(r, j + 1);
}

} // verus!
