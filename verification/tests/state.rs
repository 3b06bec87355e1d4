use grid_select::grid::{CoreError, Grid, GridPosition};
use grid_select::state::{Command, State};

fn six_item_state() -> State {
    // occupied coordinates, in order: (0,0) (0,1) (1,0) (0,-1) (-1,0) (0,2)
    let names: Vec<String> =
        ["a", "b", "c", "d", "e", "f"].iter().map(|s| s.to_string()).collect();
    State::new(Grid::new(&names).unwrap())
}

fn cursor(state: &State) -> (i8, i8) {
    (state.cursor_position.x, state.cursor_position.y)
}

#[test]
fn new_state_starts_centred() {
    let state = six_item_state();
    assert_eq!(cursor(&state), (0, 0));
    assert!(!state.should_exit);
    assert!(state.needs_redraw);
    assert_eq!(state.get_selected_value(), "a");
}

#[test]
fn moves_follow_occupied_cells() {
    let mut state = six_item_state();
    state.cursor_move_right();
    assert_eq!(cursor(&state), (1, 0));
    assert_eq!(state.get_selected_value(), "c");
    state.cursor_move_left();
    assert_eq!(cursor(&state), (0, 0));
    state.cursor_move_down();
    assert_eq!(cursor(&state), (0, 1));
    assert_eq!(state.get_selected_value(), "b");
    state.cursor_move_down();
    assert_eq!(cursor(&state), (0, 2));
    assert_eq!(state.get_selected_value(), "f");
    state.cursor_move_up();
    state.cursor_move_up();
    state.cursor_move_up();
    assert_eq!(cursor(&state), (0, -1));
    assert_eq!(state.get_selected_value(), "d");
}

#[test]
fn blocked_moves_are_no_ops() {
    let mut state = six_item_state();
    state.cursor_move_right();
    assert_eq!(cursor(&state), (1, 0));
    // (2, 0) is inside the grid but holds no item
    state.cursor_move_right();
    assert_eq!(cursor(&state), (1, 0));
    // (1, -1) and (1, 1) hold no items either
    state.cursor_move_up();
    assert_eq!(cursor(&state), (1, 0));
    state.cursor_move_down();
    assert_eq!(cursor(&state), (1, 0));
    // an arbitrary walk always ends on an occupied cell
    state.cursor_move_left();
    state.cursor_move_up();
    state.cursor_move_up();
    state.cursor_move_up();
    assert_eq!(cursor(&state), (0, -1));
    assert!(state.grid.item_at(state.cursor_position.x, state.cursor_position.y).is_some());
}

#[test]
fn single_item_grid_cannot_move() {
    let names: Vec<String> = vec!["only".to_string()];
    let mut state = State::new(Grid::new(&names).unwrap());
    state.cursor_move_left();
    state.cursor_move_right();
    state.cursor_move_up();
    state.cursor_move_down();
    assert_eq!(cursor(&state), (0, 0));
    assert_eq!(state.get_selected_value(), "only");
}

#[test]
fn commit_emits_the_selected_value_and_exits() {
    let mut state = six_item_state();
    state.cursor_move_down();
    let value = state.commit().unwrap();
    assert_eq!(value, "b");
    assert!(state.should_exit);
}

#[test]
fn cancel_exits_without_a_value() {
    let mut state = six_item_state();
    state.cancel();
    assert!(state.should_exit);
}

#[test]
fn notify_resized_requests_a_full_redraw() {
    let mut state = six_item_state();
    state.needs_redraw = false;
    state.notify_resized();
    assert!(state.needs_redraw);
}

#[test]
fn cursor_needs_rerender_after_a_move() {
    let mut state = six_item_state();
    assert!(!state.cursor_needs_rerender());
    state.cursor_move_right();
    assert!(state.cursor_needs_rerender());
    state.rendered_cursor_position = state.cursor_position;
    assert!(!state.cursor_needs_rerender());
}

#[test]
fn commands_drive_the_state_machine() {
    let mut state = six_item_state();
    assert_eq!(state.handle_command(Command::MoveRight).unwrap(), None);
    assert_eq!(cursor(&state), (1, 0));
    assert_eq!(state.handle_command(Command::MoveLeft).unwrap(), None);
    assert_eq!(state.handle_command(Command::MoveDown).unwrap(), None);
    assert_eq!(cursor(&state), (0, 1));
    assert_eq!(state.handle_command(Command::MoveUp).unwrap(), None);
    assert_eq!(cursor(&state), (0, 0));
    assert!(!state.should_exit);
    let committed = state.handle_command(Command::Commit).unwrap();
    assert_eq!(committed.as_deref(), Some("a"));
    assert!(state.should_exit);
}

#[test]
fn cancel_command_exits() {
    let mut state = six_item_state();
    assert_eq!(state.handle_command(Command::Cancel).unwrap(), None);
    assert!(state.should_exit);
}

#[test]
fn commit_reports_a_broken_invariant() {
    let mut state = six_item_state();
    // break the occupancy invariant from outside: (2, 0) holds no item
    state.cursor_position = GridPosition::new(2, 0);
    match state.commit() {
        Err(CoreError::InternalInvariantViolation) => {}
        _ => panic!("committing on an empty cell must report the broken invariant"),
    }
    assert!(!state.should_exit);
}
