//! The cursor/selection state machine.
//!
//! The cursor always rests on an occupied grid cell: every move is
//! validated against the grid and silently absorbed when the candidate
//! cell is empty or outside the grid.

use vstd::prelude::*;

use crate::grid::{CoreError, Grid, GridPosition};

verus! {

/// The abstract navigation commands the core consumes from the host's
/// input layer; any other input is ignored before it reaches the core.
#[derive(Clone, Copy, PartialEq, Eq, Structural, Debug)]
pub enum Command {
    MoveLeft,
    MoveRight,
    MoveUp,
    MoveDown,
    Commit,
    Cancel,
}

/// The session state: the grid, the cursor, and the redraw-intent flags.
pub struct State {
    pub grid: Grid,
    /// The current cursor position.
    pub cursor_position: GridPosition,
    /// Should the session shut down?
    pub should_exit: bool,
    /// Does the entire window need to be redrawn?
    pub needs_redraw: bool,
    /// The last cursor position that was rendered.
    pub rendered_cursor_position: GridPosition,
}

/// One cursor step by `(dx, dy)`: the cursor lands on the candidate cell
/// when that cell is occupied, and stays where it was otherwise.  Nothing
/// else changes.
pub open spec fn spec_moved(pre: State, post: State, dx: int, dy: int) -> bool {
    let cx = pre.cursor_position.x as int + dx;
    let cy = pre.cursor_position.y as int + dy;
    &&& post.grid == pre.grid
    &&& post.should_exit == pre.should_exit
    &&& post.needs_redraw == pre.needs_redraw
    &&& post.rendered_cursor_position == pre.rendered_cursor_position
    &&& post.cursor_position@ == if pre.grid.spec_cell(cx, cy) is Some {
        (cx, cy)
    } else {
        pre.cursor_position@
    }
}

/// Every cursor step preserves the occupancy invariant: starting from any
/// occupied coordinate, any finite sequence of moves leaves the cursor on
/// an occupied coordinate.
pub proof fn lemma_move_preserves_occupancy(pre: State, post: State, dx: int, dy: int)
    requires
        pre.inv(),
        spec_moved(pre, post, dx, dy),
    ensures
        post.inv(),
{
}

impl State {
    /// The cursor addresses an occupied cell of a well-formed grid.
    pub open spec fn inv(self) -> bool {
        &&& self.grid.wf()
        &&& self.grid.spec_cell(
            self.cursor_position.x as int,
            self.cursor_position.y as int,
        ) is Some
    }

    /// Start a session over a freshly built grid, with the cursor on the
    /// centre cell.
    pub fn new(grid: Grid) -> (s: State)
        requires
            grid.wf(),
            grid.spec_cell(0, 0) is Some,
        ensures
            s.inv(),
            s.grid == grid,
            s.cursor_position@ == (0int, 0int),
            s.rendered_cursor_position@ == (0int, 0int),
            s.should_exit == false,
            s.needs_redraw == true,
    {
        State {
            grid,
            cursor_position: GridPosition::new(0, 0),
            should_exit: false,
            needs_redraw: true,
            rendered_cursor_position: GridPosition::new(0, 0),
        }
    }

    pub fn cursor_move_left(&mut self)
        requires
            old(self).inv(),
        ensures
            final(self).inv(),
            spec_moved(*old(self), *final(self), -1, 0),
    {
        let new_x = self.cursor_position.x - 1;
        if self.grid.item_at(new_x, self.cursor_position.y).is_some() {
            self.cursor_position.x = new_x;
        }
    }

    pub fn cursor_move_down(&mut self)
        requires
            old(self).inv(),
        ensures
            final(self).inv(),
            spec_moved(*old(self), *final(self), 0, 1),
    {
        let new_y = self.cursor_position.y + 1;
        if self.grid.item_at(self.cursor_position.x, new_y).is_some() {
            self.cursor_position.y = new_y;
        }
    }

    pub fn cursor_move_up(&mut self)
        requires
            old(self).inv(),
        ensures
            final(self).inv(),
            spec_moved(*old(self), *final(self), 0, -1),
    {
        let new_y = self.cursor_position.y - 1;
        if self.grid.item_at(self.cursor_position.x, new_y).is_some() {
            self.cursor_position.y = new_y;
        }
    }

    pub fn cursor_move_right(&mut self)
        requires
            old(self).inv(),
        ensures
            final(self).inv(),
            spec_moved(*old(self), *final(self), 1, 0),
    {
        let new_x = self.cursor_position.x + 1;
        if self.grid.item_at(new_x, self.cursor_position.y).is_some() {
            self.cursor_position.x = new_x;
        }
    }

    /// The value of the item under the cursor, which the occupancy
    /// invariant guarantees to exist.
    pub fn get_selected_value(&self) -> (v: &str)
        requires
            self.inv(),
        ensures
            ({
                let c = self.grid.spec_cell(
                    self.cursor_position.x as int,
                    self.cursor_position.y as int,
                );
                c matches Some(it) && v@ == it.value@
            }),
    {
        let maybe_grid_item = self.grid.item_at(self.cursor_position.x, self.cursor_position.y);
        let grid_item = maybe_grid_item.unwrap();
        grid_item.value.as_str()
    }

    /// Whether the cursor has moved since the screen was last rendered.
    pub fn cursor_needs_rerender(&self) -> (b: bool)
        ensures
            b == (self.rendered_cursor_position@ != self.cursor_position@),
    {
        self.rendered_cursor_position != self.cursor_position
    }

    /// Read the item under the cursor, hand its value back, and ask the
    /// session to end.  `InternalInvariantViolation` is returned only when
    /// the cursor-occupancy invariant was broken from outside; it is
    /// unreachable through the state's own operations.
    pub fn commit(&mut self) -> (r: Result<String, CoreError>)
        requires
            old(self).grid.wf(),
        ensures
            final(self).grid == old(self).grid,
            final(self).cursor_position == old(self).cursor_position,
            final(self).rendered_cursor_position == old(self).rendered_cursor_position,
            final(self).needs_redraw == old(self).needs_redraw,
            ({
                let c = old(self).grid.spec_cell(
                    old(self).cursor_position.x as int,
                    old(self).cursor_position.y as int,
                );
                match c {
                    Some(it) => {
                        &&& r matches Ok(v) && v@ == it.value@
                        &&& final(self).should_exit == true
                    },
                    None => {
                        &&& r matches Err(e) && e == CoreError::InternalInvariantViolation
                        &&& final(self).should_exit == old(self).should_exit
                    },
                }
            }),
    {
        let maybe_grid_item = self.grid.item_at(self.cursor_position.x, self.cursor_position.y);
        match maybe_grid_item {
            Some(grid_item) => {
                let value = grid_item.value.clone();
                self.should_exit = true;
                Ok(value)
            },
            None => Err(CoreError::InternalInvariantViolation),
        }
    }

    /// End the session without selecting anything.
    pub fn cancel(&mut self)
        ensures
            final(self).grid == old(self).grid,
            final(self).cursor_position == old(self).cursor_position,
            final(self).rendered_cursor_position == old(self).rendered_cursor_position,
            final(self).needs_redraw == old(self).needs_redraw,
            final(self).should_exit == true,
    {
        self.should_exit = true;
    }

    /// The host resized or rescaled the surface: everything must be
    /// repainted on the next cycle.
    pub fn notify_resized(&mut self)
        ensures
            final(self).grid == old(self).grid,
            final(self).cursor_position == old(self).cursor_position,
            final(self).rendered_cursor_position == old(self).rendered_cursor_position,
            final(self).should_exit == old(self).should_exit,
            final(self).needs_redraw == true,
    {
        self.needs_redraw = true;
    }

    /// Apply one abstract navigation command; `Commit` hands the selected
    /// value back.
    pub fn handle_command(&mut self, command: Command) -> (r: Result<
        Option<String>,
        CoreError,
    >)
        requires
            old(self).inv(),
        ensures
            final(self).inv(),
            final(self).grid == old(self).grid,
            match command {
                Command::MoveLeft => {
                    &&& spec_moved(*old(self), *final(self), -1, 0)
                    &&& r matches Ok(v) && v is None
                },
                Command::MoveRight => {
                    &&& spec_moved(*old(self), *final(self), 1, 0)
                    &&& r matches Ok(v) && v is None
                },
                Command::MoveDown => {
                    &&& spec_moved(*old(self), *final(self), 0, 1)
                    &&& r matches Ok(v) && v is None
                },
                Command::MoveUp => {
                    &&& spec_moved(*old(self), *final(self), 0, -1)
                    &&& r matches Ok(v) && v is None
                },
                Command::Commit => {
                    &&& final(self).cursor_position == old(self).cursor_position
                    &&& final(self).rendered_cursor_position == old(
                        self,
                    ).rendered_cursor_position
                    &&& final(self).needs_redraw == old(self).needs_redraw
                    &&& final(self).should_exit == true
                    &&& ({
                        let c = old(self).grid.spec_cell(
                            old(self).cursor_position.x as int,
                            old(self).cursor_position.y as int,
                        );
                        c matches Some(it) && r matches Ok(v) && v matches Some(s) && s@
                            == it.value@
                    })
                },
                Command::Cancel => {
                    &&& final(self).cursor_position == old(self).cursor_position
                    &&& final(self).rendered_cursor_position == old(
                        self,
                    ).rendered_cursor_position
                    &&& final(self).needs_redraw == old(self).needs_redraw
                    &&& final(self).should_exit == true
                    &&& r matches Ok(v) && v is None
                },
            },
    {
        match command {
            Command::MoveLeft => {
                self.cursor_move_left();
                Ok(None)
            },
            Command::MoveRight => {
                self.cursor_move_right();
                Ok(None)
            },
            Command::MoveDown => {
                self.cursor_move_down();
                Ok(None)
            },
            Command::MoveUp => {
                self.cursor_move_up();
                Ok(None)
            },
            Command::Commit => {
                match self.commit() {
                    Ok(value) => Ok(Some(value)),
                    Err(e) => Err(e),
                }
            },
            Command::Cancel => {
                self.cancel();
                Ok(None)
            },
        }
    }
}

} // verus!
