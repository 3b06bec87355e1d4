//! The drawable view of a built grid: each item paired with the text to
//! draw and its cycled background colour.

use vstd::prelude::*;
use vstd::seq_lib::*;

use crate::colour::{Colour, Colours};
use crate::grid;
use crate::grid::{Grid, GridPosition};
use crate::spiral::spec_spiral_at;

verus! {

/// One cell's drawing inputs: the text shown in the cell, the coordinate
/// it occupies, and its background colour when not highlighted.
pub struct DrawableItem {
    pub text: String,
    pub grid_position: GridPosition,
    pub normal_bg_colour: Colour,
}

/// Every cell's drawing inputs, in spiral emission order.
pub struct DrawableItems {
    pub items: Vec<DrawableItem>,
}

impl DrawableItems {
    /// Pair each grid item, in spiral emission order, with its text and
    /// its cycled background colour.
    pub fn from_grid(bg_colours: &Colours, grid: &Grid) -> (r: DrawableItems)
        requires
            bg_colours.wf(),
            grid.wf(),
            exists|n: int| grid.spec_is_item_count(n),
        ensures
            forall|n: int| #[trigger]
                grid.spec_is_item_count(n) ==> {
                    &&& r.items@.len() == n
                    &&& forall|i: int|
                        0 <= i < n ==> {
                            let c = grid.spec_cell_pair(spec_spiral_at(i));
                            &&& c matches Some(it)
                            &&& (#[trigger] r.items@[i]).text@ == it.value@
                            &&& r.items@[i].grid_position == it.position
                            &&& r.items@[i].normal_bg_colour == bg_colours.spec_cycle(i)
                        }
                },
    {
        let ghost n = choose|n: int| grid.spec_is_item_count(n);
        proof {
            grid::lemma_item_count_bound(*grid, n);
        }
        let mut items: Vec<DrawableItem> = Vec::new();
        let mut iter = grid.items_iter();
        loop
            invariant_except_break
                0 <= iter.index() <= n,
                items@.len() == iter.index(),
            invariant
                bg_colours.wf(),
                grid.wf(),
                iter.wf(),
                iter.spec_grid() == *grid,
                grid.spec_is_item_count(n),
                n <= 85,
                forall|i: int|
                    0 <= i < items@.len() ==> {
                        let c = grid.spec_cell_pair(spec_spiral_at(i));
                        &&& c matches Some(it)
                        &&& (#[trigger] items@[i]).text@ == it.value@
                        &&& items@[i].grid_position == it.position
                        &&& items@[i].normal_bg_colour == bg_colours.spec_cycle(i)
                    },
            ensures
                items@.len() == n,
                forall|i: int|
                    0 <= i < items@.len() ==> {
                        let c = grid.spec_cell_pair(spec_spiral_at(i));
                        &&& c matches Some(it)
                        &&& (#[trigger] items@[i]).text@ == it.value@
                        &&& items@[i].grid_position == it.position
                        &&& items@[i].normal_bg_colour == bg_colours.spec_cycle(i)
                    },
            decreases n - iter.index(),
        {
            let ghost visited = iter.index();
            let item = match iter.next() {
                Some(item) => item,
                None => {
                    proof {
                        if visited < n {
                            assert(grid.spec_cell_pair(spec_spiral_at(visited)) is Some);
                        }
                    }
                    break
                },
            };
            let colour = bg_colours.cycle(items.len());
            items.push(
                DrawableItem {
                    text: item.value.clone(),
                    grid_position: item.position,
                    normal_bg_colour: colour,
                },
            );
        }
        DrawableItems { items }
    }

    /// The items that sit at one of the given coordinates, in the stored
    /// (spiral) order.
    pub fn at_positions(&self, positions: &[GridPosition]) -> (r: Vec<DrawableItem>)
        ensures
            r@ == self.items@.filter(
                |di: DrawableItem| positions@.contains(di.grid_position),
            ),
    {
        let ghost pred = |di: DrawableItem| positions@.contains(di.grid_position);
        let mut result: Vec<DrawableItem> = Vec::new();
        let mut i: usize = 0;
        proof {
            assert(self.items@.subrange(0, 0) =~= Seq::<DrawableItem>::empty());
            assert(Seq::<DrawableItem>::empty().filter(pred) =~= Seq::<DrawableItem>::empty()) by {
                reveal(Seq::filter);
            }
        }
        while i < self.items.len()
            invariant
                i <= self.items@.len(),
                result@ == self.items@.subrange(0, i as int).filter(pred),
                pred == (|di: DrawableItem| positions@.contains(di.grid_position)),
            decreases self.items@.len() - i,
        {
            let di = &self.items[i];
            proof {
                assert(self.items@.subrange(0, i + 1)
                    == self.items@.subrange(0, i as int).push(self.items@[i as int])) by {
                    assert(self.items@.subrange(0, i + 1)
                        =~= self.items@.subrange(0, i as int).push(self.items@[i as int]));
                }
                self.items@.subrange(0, i as int).lemma_filter_push(self.items@[i as int], pred);
            }
            if contains_position(positions, di.grid_position) {
                result.push(
                    DrawableItem {
                        text: di.text.clone(),
                        grid_position: di.grid_position,
                        normal_bg_colour: di.normal_bg_colour,
                    },
                );
                proof {
                    assert(result@.last() == self.items@[i as int]);
                }
            }
            i = i + 1;
        }
        proof {
            assert(self.items@.subrange(0, self.items@.len() as int) =~= self.items@);
        }
        result
    }
}

/// Whether the coordinate `p` occurs in the given list.
fn contains_position(positions: &[GridPosition], p: GridPosition) -> (b: bool)
    ensures
        b == positions@.contains(p),
{
    let mut i: usize = 0;
    while i < positions.len()
        invariant
            i <= positions@.len(),
            forall|j: int| 0 <= j < i ==> positions@[j] != p,
        decreases positions@.len() - i,
    {
        if positions[i] == p {
            return true;
        }
        i = i + 1;
    }
    false
}

} // verus!
