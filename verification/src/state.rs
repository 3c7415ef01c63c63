//! The settings of the editor and the wire that is being drawn.

use crate::connection::InstanceId;
use crate::connection::Terminal;
use crate::coord::Coord;
use crate::coord::Scalar;
use crate::coord::THIRTY_FIVE_BITS;
use vstd::prelude::*;

verus! {

/// A wire in progress: the terminal where it started, and the point of the
/// canvas where its loose end is.
#[derive(Debug, Clone, Copy)]
pub struct WireConnectStart {
    pub from: InstanceId,
    pub start_terminal: Terminal,
    pub to: Coord,
}

/// The settings of the editor: how far the canvas is scrolled, how many
/// pixels a grid cell takes, whether dragged instances snap to the grid,
/// whether the circuit can be edited, and the wire in progress, if any.
#[derive(Debug, Clone, Copy)]
pub struct State {
    pub scroll: Coord,
    pub grid_scale: Scalar,
    pub snap: bool,
    pub start_connect_wire: Option<WireConnectStart>,
    pub edit: bool,
}

/// The settings that an editor starts with: not scrolled, cells of 35
/// pixels, snapping and editing on, no wire in progress.
pub open spec fn initial_state() -> State {
    State {
        scroll: Coord(Scalar { bits: 0 }, Scalar { bits: 0 }),
        grid_scale: Scalar { bits: THIRTY_FIVE_BITS },
        snap: true,
        start_connect_wire: None,
        edit: true,
    }
}

impl State {
    /// The settings that an editor starts with.
    pub fn new() -> (r: Self)
        ensures
            r == initial_state(),
    {
        State {
            scroll: Coord::from_bits(0, 0),
            grid_scale: Scalar::from_bits(THIRTY_FIVE_BITS),
            snap: true,
            start_connect_wire: None,
            edit: true,
        }
    }

    /// How many pixels a grid cell takes.
    pub fn grid_scale(&self) -> (r: Scalar)
        ensures
            r == self.grid_scale,
    {
        self.grid_scale
    }

    /// How far the canvas is scrolled.
    pub fn scroll(&self) -> (r: Coord)
        ensures
            r == self.scroll,
    {
        self.scroll
    }

    /// Whether the circuit can be edited.
    pub fn edit(&self) -> (r: bool)
        ensures
            r == self.edit,
    {
        self.edit
    }

    /// Whether dragged instances snap to the grid.
    pub fn snap(&self) -> (r: bool)
        ensures
            r == self.snap,
    {
        self.snap
    }

    /// Sets how many pixels a grid cell takes.
    pub fn set_grid_scale(&mut self, value: Scalar)
        ensures
            *final(self) == (State { grid_scale: value, ..*old(self) }),
    {
        self.grid_scale = value;
    }

    /// Sets how far the canvas is scrolled.
    pub fn set_scroll(&mut self, value: Coord)
        ensures
            *final(self) == (State { scroll: value, ..*old(self) }),
    {
        self.scroll = value;
    }

    /// Sets whether the circuit can be edited.
    pub fn set_edit(&mut self, value: bool)
        ensures
            *final(self) == (State { edit: value, ..*old(self) }),
    {
        self.edit = value;
    }

    /// Sets whether dragged instances snap to the grid.
    pub fn set_snap(&mut self, value: bool)
        ensures
            *final(self) == (State { snap: value, ..*old(self) }),
    {
        self.snap = value;
    }

    /// These settings, with grid cells of `value` pixels.
    pub fn with_grid_scale(self, value: Scalar) -> (r: Self)
        ensures
            r == (State { grid_scale: value, ..self }),
    {
        State { grid_scale: value, ..self }
    }

    /// These settings, with the canvas scrolled by `value`.
    pub fn with_scroll(self, value: Coord) -> (r: Self)
        ensures
            r == (State { scroll: value, ..self }),
    {
        State { scroll: value, ..self }
    }

    /// These settings, with editing switched on or off.
    pub fn with_edit(self, value: bool) -> (r: Self)
        ensures
            r == (State { edit: value, ..self }),
    {
        State { edit: value, ..self }
    }

    /// These settings, with snapping switched on or off.
    pub fn with_snap(self, value: bool) -> (r: Self)
        ensures
            r == (State { snap: value, ..self }),
    {
        State { snap: value, ..self }
    }
}

} // verus!
