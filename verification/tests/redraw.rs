use grid_select::grid::Grid;
use grid_select::redraw::{plan_redraw, RedrawPlan};
use grid_select::state::State;

fn five_item_state() -> State {
    let names: Vec<String> = ["a", "b", "c", "d", "e"].iter().map(|s| s.to_string()).collect();
    State::new(Grid::new(&names).unwrap())
}

#[test]
fn first_cycle_repaints_everything() {
    let mut state = five_item_state();
    assert!(state.needs_redraw);
    assert_eq!(plan_redraw(&mut state), RedrawPlan::Everything);
    assert!(!state.needs_redraw);
}

#[test]
fn unchanged_cursor_plans_nothing() {
    let mut state = five_item_state();
    plan_redraw(&mut state);
    assert_eq!(plan_redraw(&mut state), RedrawPlan::Nothing);
}

#[test]
fn resize_forces_a_full_repaint() {
    let mut state = five_item_state();
    plan_redraw(&mut state);
    state.notify_resized();
    assert_eq!(plan_redraw(&mut state), RedrawPlan::Everything);
    assert!(!state.needs_redraw);
    assert_eq!(plan_redraw(&mut state), RedrawPlan::Nothing);
}

#[test]
fn cursor_move_plans_exactly_two_cells() {
    let mut state = five_item_state();
    plan_redraw(&mut state);
    let old_position = state.cursor_position;
    state.cursor_move_right();
    let new_position = state.cursor_position;
    assert_ne!((old_position.x, old_position.y), (new_position.x, new_position.y));
    assert_eq!(plan_redraw(&mut state), RedrawPlan::Cells(old_position, new_position));
    // planning recorded the rendered cursor: the next cycle is quiet
    assert_eq!(plan_redraw(&mut state), RedrawPlan::Nothing);
}

#[test]
fn blocked_move_plans_nothing() {
    let mut state = five_item_state();
    plan_redraw(&mut state);
    // (1, 1) holds no item, so the cursor stays and nothing is repainted
    state.cursor_move_right();
    plan_redraw(&mut state);
    state.cursor_move_right();
    assert_eq!(plan_redraw(&mut state), RedrawPlan::Nothing);
}
