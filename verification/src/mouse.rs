//! The state of one pointer gesture in progress.

use crate::connection::InstanceId;
use crate::connection::Terminal;
use crate::coord::Coord;
use vstd::prelude::*;

verus! {

/// Where the pointer is, in the whole pixels that pointer events report.
#[derive(Debug, Clone, Copy, PartialEq, Eq, Structural)]
pub struct Cursor {
    pub x: i32,
    pub y: i32,
}

/// How far the pointer went from one place to another, in pixels.
#[derive(Debug, Clone, Copy, PartialEq, Eq, Structural)]
pub struct Delta {
    pub dx: i64,
    pub dy: i64,
}

/// What a session does on every move of the pointer.
#[derive(Debug, Clone, Copy, PartialEq, Eq, Structural)]
pub enum MoveRoutine {
    /// The instance follows the pointer.
    DragInstance { instance: InstanceId },
    /// The loose end of the wire that started at this terminal follows the pointer.
    TrackWire { from: InstanceId, start_terminal: Terminal },
    /// The canvas scrolls with the pointer.
    Pan,
}

/// What a session does when it ends.
#[derive(Debug, Clone, Copy, PartialEq, Eq, Structural)]
pub enum ReleaseRoutine {
    /// The wire in progress is dropped.
    DropWire,
}

/// One pointer gesture: where it started, where the pointer is and was one
/// move ago, the button that started it, the position that the dragged
/// instance had at the start, and what to do on a move and on the release.
#[derive(Debug, Clone, Copy)]
pub struct MouseState {
    pub start_pos: Cursor,
    pub current_pos: Cursor,
    pub prev_pos: Cursor,
    pub button: i16,
    pub start_coord: Option<Coord>,
    pub on_move: Option<MoveRoutine>,
    pub on_release: Option<ReleaseRoutine>,
}

/// The way from `from` to `to`.
pub open spec fn delta_between(from: Cursor, to: Cursor) -> Delta {
    Delta { dx: (to.x - from.x) as i64, dy: (to.y - from.y) as i64 }
}

/// The session that a press of `button` at (`x`, `y`) starts.
pub open spec fn begin_spec(x: i32, y: i32, button: i16) -> MouseState {
    MouseState {
        start_pos: Cursor { x, y },
        current_pos: Cursor { x, y },
        prev_pos: Cursor { x, y },
        button,
        start_coord: None,
        on_move: None,
        on_release: None,
    }
}

/// The session after the pointer has moved to (`x`, `y`): the place where it
/// was becomes the previous one.
pub open spec fn track_spec(m: MouseState, x: i32, y: i32) -> MouseState {
    MouseState {
        start_pos: m.start_pos,
        current_pos: Cursor { x, y },
        prev_pos: m.current_pos,
        button: m.button,
        start_coord: m.start_coord,
        on_move: m.on_move,
        on_release: m.on_release,
    }
}

/// The difference of two pixel coordinates.
fn span(from: i32, to: i32) -> (r: i64)
    ensures
        r == to - from,
{
    to as i64 - from as i64
}

impl MouseState {
    /// Starts a session with a press of `button` at (`x`, `y`): the three
    /// positions are the place of the press, and nothing else is set.
    pub fn begin(x: i32, y: i32, button: i16) -> (r: Self)
        ensures
            r == begin_spec(x, y, button),
    {
        MouseState {
            start_pos: Cursor { x, y },
            current_pos: Cursor { x, y },
            prev_pos: Cursor { x, y },
            button,
            start_coord: None,
            on_move: None,
            on_release: None,
        }
    }

    /// This session, with the position that the dragged instance has.
    pub fn start_coord(self, start: Coord) -> (r: Self)
        ensures
            r == (MouseState { start_coord: Some(start), ..self }),
    {
        MouseState { start_coord: Some(start), ..self }
    }

    /// This session, with what it does on a move.
    pub fn on_move(self, routine: MoveRoutine) -> (r: Self)
        ensures
            r == (MouseState { on_move: Some(routine), ..self }),
    {
        MouseState { on_move: Some(routine), ..self }
    }

    /// This session, with what it does when it ends.
    pub fn on_release(self, routine: ReleaseRoutine) -> (r: Self)
        ensures
            r == (MouseState { on_release: Some(routine), ..self }),
    {
        MouseState { on_release: Some(routine), ..self }
    }

    /// Records that the pointer has moved to (`x`, `y`).
    pub fn track(&mut self, x: i32, y: i32)
        ensures
            *final(self) == track_spec(*old(self), x, y),
    {
        self.prev_pos = self.current_pos;
        self.current_pos = Cursor { x, y };
    }

    /// The way from the start of the gesture to where the pointer is.
    pub fn delta(&self) -> (r: Delta)
        ensures
            r == delta_between(self.start_pos, self.current_pos),
    {
        Delta {
            dx: span(self.start_pos.x, self.current_pos.x),
            dy: span(self.start_pos.y, self.current_pos.y),
        }
    }

    /// The way from where the pointer is back to the start of the gesture.
    pub fn delta_inv(&self) -> (r: Delta)
        ensures
            r == delta_between(self.current_pos, self.start_pos),
    {
        Delta {
            dx: span(self.current_pos.x, self.start_pos.x),
            dy: span(self.current_pos.y, self.start_pos.y),
        }
    }

    /// The way that the pointer went in its last move.
    pub fn delta_tick(&self) -> (r: Delta)
        ensures
            r == delta_between(self.prev_pos, self.current_pos),
    {
        Delta {
            dx: span(self.prev_pos.x, self.current_pos.x),
            dy: span(self.prev_pos.y, self.current_pos.y),
        }
    }

    /// The way back over the last move of the pointer.
    pub fn delta_tick_inv(&self) -> (r: Delta)
        ensures
            r == delta_between(self.current_pos, self.prev_pos),
    {
        Delta {
            dx: span(self.current_pos.x, self.prev_pos.x),
            dy: span(self.current_pos.y, self.prev_pos.y),
        }
    }
}

} // verus!
