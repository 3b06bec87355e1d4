//! The incremental-redraw decision.
//!
//! Once per dispatch cycle the planner looks at the session state and says
//! whether everything, exactly two cells, or nothing must be repainted.

use vstd::prelude::*;

use crate::grid::GridPosition;
use crate::state::State;

verus! {

/// What must be repainted after a dispatch cycle.
#[derive(Clone, Copy, PartialEq, Eq, Structural, Debug)]
pub enum RedrawPlan {
    /// Repaint every cell: the first draw, or a host-driven resize or
    /// rescale.
    Everything,
    /// Repaint exactly two cells: the previously highlighted one (to
    /// remove the old highlight) and the one under the cursor (to draw the
    /// new highlight), in that order.
    Cells(GridPosition, GridPosition),
    /// Nothing on screen changed.
    Nothing,
}

/// Decide how much must be repainted, clear the full-redraw flag, and
/// record the cursor position that is now going to be on screen.
pub fn plan_redraw(state: &mut State) -> (p: RedrawPlan)
    ensures
        final(state).grid == old(state).grid,
        final(state).cursor_position == old(state).cursor_position,
        final(state).should_exit == old(state).should_exit,
        final(state).needs_redraw == false,
        final(state).rendered_cursor_position == old(state).cursor_position,
        p == if old(state).needs_redraw {
            RedrawPlan::Everything
        } else if old(state).cursor_position@ != old(state).rendered_cursor_position@ {
            RedrawPlan::Cells(old(state).rendered_cursor_position, old(state).cursor_position)
        } else {
            RedrawPlan::Nothing
        },
{
    let p = if state.needs_redraw {
        RedrawPlan::Everything
    } else if state.cursor_needs_rerender() {
        RedrawPlan::Cells(state.rendered_cursor_position, state.cursor_position)
    } else {
        RedrawPlan::Nothing
    };
    state.needs_redraw = false;
    state.rendered_cursor_position = state.cursor_position;
    p
}

} // verus!
