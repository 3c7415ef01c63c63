//! The editor: a project, its settings and the one pointer session, driven
//! by pointer events.
//!
//! At most one session is active at a time. A press starts one only while
//! none is active; every move updates the active one and says what its
//! routine asks for; the release of the button that started it ends it.
//! Numbers on the grid are not computed here: a move hands out a request, and
//! the host answers it with `drag_to`, `track_wire` or `pan_to`. An answer
//! takes effect only while the session that asked for it is active.

use crate::connection::Connection;
use crate::connection::InstanceId;
use crate::connection::Terminal;
use crate::coord::Coord;
use crate::coord::Scalar;
use crate::error::GraphError;
use crate::mouse::begin_spec;
use crate::mouse::delta_between;
use crate::mouse::track_spec;
use crate::mouse::Cursor;
use crate::mouse::Delta;
use crate::mouse::MouseState;
use crate::mouse::MoveRoutine;
use crate::mouse::ReleaseRoutine;
use crate::component::Component;
use crate::graph::connect_spec;
use crate::graph::connectable;
use crate::graph::default_view;
use crate::graph::has_instance;
use crate::graph::instance_index;
use crate::graph::move_spec;
use crate::graph::parts_check;
use crate::graph::parts_view;
use crate::graph::place_check;
use crate::graph::place_spec;
use crate::graph::remove_spec;
use crate::graph::ProjectView;
use crate::project::fanouts_view;
use crate::project::placements_view;
use crate::project::templates_view;
use crate::project::wires_view;
use crate::project::Fanout;
use crate::project::Placement;
use crate::project::Project;
use crate::project::Wire;
use crate::state::initial_state;
use crate::state::State;
use crate::state::WireConnectStart;
use vstd::prelude::*;

verus! {

/// The button that drags instances and draws wires.
pub const PRIMARY_BUTTON: i16 = 0;

/// The button that scrolls the canvas.
pub const MIDDLE_BUTTON: i16 = 1;

/// The editor.
pub struct LogicX {
    project: Project,
    state: State,
    mouse: Option<MouseState>,
}

/// What an editor holds.
pub struct LogicXView {
    pub project: ProjectView,
    pub state: State,
    pub mouse: Option<MouseState>,
}

/// What the routine of a session asks of the host after a move.
#[derive(Debug, Clone, Copy)]
pub enum MoveRequest {
    /// Nothing.
    Nothing,
    /// Put the instance where it was at the start of the gesture, plus the
    /// way of the pointer in grid cells of `grid_scale` pixels; where `snap`
    /// is set, on the grid.
    DragInstance { instance: InstanceId, start_coord: Coord, delta: Delta, grid_scale: Scalar, snap: bool },
    /// Put the loose end of the wire in progress where the pointer is.
    TrackWire { from: InstanceId, start_terminal: Terminal, cursor: Cursor },
    /// Scroll the canvas by the last move of the pointer.
    Pan { delta: Delta },
}

impl View for LogicX {
    type V = LogicXView;

    closed spec fn view(&self) -> LogicXView {
        LogicXView { project: self.project@, state: self.state, mouse: self.mouse }
    }
}

/// A press of `button` starts a session: it is the button `wanted`, and no
/// session is active.
pub open spec fn accepts_press(v: LogicXView, button: i16, wanted: i16) -> bool {
    button == wanted && v.mouse is None
}

/// The session that a press on the instance `instance` starts: it drags the
/// instance, and remembers where the instance is, if it is placed at all.
pub open spec fn drag_session(v: LogicXView, x: i32, y: i32, instance: InstanceId) -> MouseState {
    MouseState {
        start_coord: if has_instance(v.project.body, instance) {
            Some(v.project.body[instance_index(v.project.body, instance)].pos)
        } else {
            None
        },
        on_move: Some(MoveRoutine::DragInstance { instance }),
        ..begin_spec(x, y, PRIMARY_BUTTON)
    }
}

/// The session that a press on a terminal starts: it tracks a wire from that
/// terminal, and drops the wire when it ends.
pub open spec fn wire_session(x: i32, y: i32, instance: InstanceId, terminal: Terminal) -> MouseState {
    MouseState {
        on_move: Some(MoveRoutine::TrackWire { from: instance, start_terminal: terminal }),
        on_release: Some(ReleaseRoutine::DropWire),
        ..begin_spec(x, y, PRIMARY_BUTTON)
    }
}

/// The session that a press of the middle button on the canvas starts.
pub open spec fn pan_session(x: i32, y: i32) -> MouseState {
    MouseState { on_move: Some(MoveRoutine::Pan), ..begin_spec(x, y, MIDDLE_BUTTON) }
}

/// The editor after a press of `button` at (`x`, `y`) on the instance
/// `instance`: a drag of the instance begins where the press is accepted, and
/// nothing changes otherwise.
pub open spec fn component_press_spec(
    v: LogicXView,
    x: i32,
    y: i32,
    button: i16,
    instance: InstanceId,
) -> LogicXView {
    if accepts_press(v, button, PRIMARY_BUTTON) {
        LogicXView {
            project: v.project,
            state: v.state,
            mouse: Some(drag_session(v, x, y, instance)),
        }
    } else {
        v
    }
}

/// The editor after a press of `button` at (`x`, `y`) on the terminal
/// `terminal` of `instance`, the pointer being at the point `to` of the
/// canvas: a wire from that terminal to `to` is begun where the press is
/// accepted, and nothing changes otherwise.
pub open spec fn terminal_press_spec(
    v: LogicXView,
    x: i32,
    y: i32,
    button: i16,
    instance: InstanceId,
    terminal: Terminal,
    to: Coord,
) -> LogicXView {
    if accepts_press(v, button, PRIMARY_BUTTON) {
        LogicXView {
            project: v.project,
            state: State {
                start_connect_wire: Some(
                    WireConnectStart { from: instance, start_terminal: terminal, to },
                ),
                ..v.state
            },
            mouse: Some(wire_session(x, y, instance, terminal)),
        }
    } else {
        v
    }
}

/// The editor after a press of `button` at (`x`, `y`) on the empty canvas:
/// scrolling begins where the press is accepted, and nothing changes
/// otherwise.
pub open spec fn surface_press_spec(v: LogicXView, x: i32, y: i32, button: i16) -> LogicXView {
    if accepts_press(v, button, MIDDLE_BUTTON) {
        LogicXView { project: v.project, state: v.state, mouse: Some(pan_session(x, y)) }
    } else {
        v
    }
}

/// The editor after the pointer has moved to (`x`, `y`).
pub open spec fn move_update(v: LogicXView, x: i32, y: i32) -> LogicXView {
    LogicXView {
        project: v.project,
        state: v.state,
        mouse: match v.mouse {
            Some(m) => Some(track_spec(m, x, y)),
            None => None,
        },
    }
}

/// What the active session, if any, asks of the host. A drag asks for
/// nothing where the instance was not placed when the gesture began, or is
/// not placed any more.
pub open spec fn move_request(v: LogicXView) -> MoveRequest {
    match v.mouse {
        Some(m) => match m.on_move {
            Some(MoveRoutine::DragInstance { instance }) => match m.start_coord {
                Some(start_coord) => if has_instance(v.project.body, instance) {
                    MoveRequest::DragInstance {
                        instance,
                        start_coord,
                        delta: delta_between(m.start_pos, m.current_pos),
                        grid_scale: v.state.grid_scale,
                        snap: v.state.snap,
                    }
                } else {
                    MoveRequest::Nothing
                },
                None => MoveRequest::Nothing,
            },
            Some(MoveRoutine::TrackWire { from, start_terminal }) => MoveRequest::TrackWire {
                from,
                start_terminal,
                cursor: m.current_pos,
            },
            Some(MoveRoutine::Pan) => MoveRequest::Pan {
                delta: delta_between(m.prev_pos, m.current_pos),
            },
            None => MoveRequest::Nothing,
        },
        None => MoveRequest::Nothing,
    }
}

/// The editor after the host has answered a request to drag with the new
/// position `pos`: the dragged instance is there. Nothing changes unless the
/// active session asks to drag.
pub open spec fn drag_answer_spec(v: LogicXView, pos: Coord) -> LogicXView {
    match move_request(v) {
        MoveRequest::DragInstance { instance, .. } => LogicXView {
            project: move_spec(v.project, instance, pos),
            state: v.state,
            mouse: v.mouse,
        },
        _ => v,
    }
}

/// The editor after the host has answered a request to track the wire with
/// the point `to` of the canvas: the wire in progress runs from the terminal
/// of the session to `to`. Nothing changes unless the active session asks to
/// track a wire.
pub open spec fn wire_answer_spec(v: LogicXView, to: Coord) -> LogicXView {
    match move_request(v) {
        MoveRequest::TrackWire { from, start_terminal, .. } => LogicXView {
            project: v.project,
            state: State {
                start_connect_wire: Some(WireConnectStart { from, start_terminal, to }),
                ..v.state
            },
            mouse: v.mouse,
        },
        _ => v,
    }
}

/// The editor after the host has answered a request to scroll with the new
/// scroll position `scroll`. Nothing changes unless the active session asks
/// to scroll.
pub open spec fn pan_answer_spec(v: LogicXView, scroll: Coord) -> LogicXView {
    match move_request(v) {
        MoveRequest::Pan { .. } => LogicXView {
            project: v.project,
            state: State { scroll, ..v.state },
            mouse: v.mouse,
        },
        _ => v,
    }
}

/// A release of `button` ends the active session.
pub open spec fn releases(v: LogicXView, button: i16) -> bool {
    v.mouse matches Some(m) && m.button == button
}

/// The editor after a release of `button`: where it ends the session, the
/// slot is vacated and the release routine of the session is run; otherwise
/// nothing changes.
pub open spec fn release_spec(v: LogicXView, button: i16) -> LogicXView {
    if releases(v, button) {
        LogicXView {
            project: v.project,
            state: match v.mouse.unwrap().on_release {
                Some(ReleaseRoutine::DropWire) => State { start_connect_wire: None, ..v.state },
                None => v.state,
            },
            mouse: None,
        }
    } else {
        v
    }
}

/// The editor after a release on the terminal `terminal` of `instance`: the
/// wire in progress, if any, is taken, and its start is connected to that
/// terminal where the two are connectable.
pub open spec fn terminal_release_spec(v: LogicXView, instance: InstanceId, terminal: Terminal) -> LogicXView {
    match v.state.start_connect_wire {
        Some(start) => LogicXView {
            project: connect_spec(
                v.project,
                Connection { instance: start.from, terminal: start.start_terminal },
                Connection { instance, terminal },
            ),
            state: State { start_connect_wire: None, ..v.state },
            mouse: v.mouse,
        },
        None => v,
    }
}

/// While a session is active, no press starts another: whatever is pressed,
/// and wherever, the editor stays as it is.
pub proof fn lemma_session_exclusive(
    v: LogicXView,
    x: i32,
    y: i32,
    button: i16,
    instance: InstanceId,
    terminal: Terminal,
    to: Coord,
)
    requires
        v.mouse is Some,
    ensures
        component_press_spec(v, x, y, button, instance) == v,
        terminal_press_spec(v, x, y, button, instance, terminal, to) == v,
        surface_press_spec(v, x, y, button) == v,
{
}

/// The release of a button other than the one that started the session
/// changes nothing: the session stays active and no release routine is run.
pub proof fn lemma_mismatched_release(v: LogicXView, button: i16)
    requires
        v.mouse matches Some(m) && m.button != button,
    ensures
        !releases(v, button),
        release_spec(v, button) == v,
{
}

/// The release of the button that started the session vacates the slot, and
/// the next press of the right button starts a session again.
pub proof fn lemma_release_vacates(v: LogicXView, button: i16)
    requires
        releases(v, button),
    ensures
        release_spec(v, button).mouse is None,
        release_spec(v, button).project == v.project,
        accepts_press(release_spec(v, button), PRIMARY_BUTTON, PRIMARY_BUTTON),
{
}

/// A move changes neither the project nor the settings, and of the session
/// only where the pointer is and was: the start, the button and the routines
/// stay. Without a session it changes nothing.
pub proof fn lemma_move_frame(v: LogicXView, x: i32, y: i32)
    ensures
        move_update(v, x, y).project == v.project,
        move_update(v, x, y).state == v.state,
        v.mouse is None ==> move_update(v, x, y) == v,
        v.mouse matches Some(m) ==> move_update(v, x, y).mouse == Some(
            MouseState { current_pos: Cursor { x, y }, prev_pos: m.current_pos, ..m },
        ),
{
}

/// A wire session never asks to move an instance: it asks to track the wire.
pub proof fn lemma_wire_moves_nothing(v: LogicXView, m: MouseState)
    requires
        v.mouse == Some(m),
        m.on_move matches Some(MoveRoutine::TrackWire { .. }),
    ensures
        move_request(v) is TrackWire,
{
}

/// A request to drag comes from a drag session only, and names the instance
/// that was pressed, which is placed, and where it was when the gesture began.
pub proof fn lemma_drag_request(v: LogicXView)
    requires
        move_request(v) is DragInstance,
    ensures
        v.mouse is Some,
        v.mouse.unwrap().on_move == Some(
            MoveRoutine::DragInstance { instance: move_request(v)->instance },
        ),
        v.mouse.unwrap().start_coord == Some(move_request(v)->start_coord),
        has_instance(v.project.body, move_request(v)->instance),
{
}

/// Only a drag moves an instance, and it moves nothing else: an answer to a
/// wire session or to scrolling leaves the project as it is, and an answer
/// to a drag leaves the settings and the session as they are.
pub proof fn lemma_answers_frame(v: LogicXView, p: Coord)
    ensures
        wire_answer_spec(v, p).project == v.project,
        pan_answer_spec(v, p).project == v.project,
        drag_answer_spec(v, p).state == v.state,
        drag_answer_spec(v, p).mouse == v.mouse,
        wire_answer_spec(v, p).mouse == v.mouse,
        pan_answer_spec(v, p).mouse == v.mouse,
        v.mouse is None ==> drag_answer_spec(v, p) == v && wire_answer_spec(v, p) == v
            && pan_answer_spec(v, p) == v,
{
}

impl LogicX {
    /// An editor with the default project and settings, and no session.
    pub fn new() -> (r: Self)
        ensures
            r@ == (LogicXView { project: default_view(), state: initial_state(), mouse: None }),
    {
        LogicX { project: Project::empty(), state: State::new(), mouse: None }
    }

    /// Replaces the project by the default one.
    pub fn clear(&mut self)
        ensures
            final(self)@ == (LogicXView { project: default_view(), ..old(self)@ }),
    {
        self.project = Project::empty();
    }

    /// Replaces the project by the one made of the given parts.
    ///
    /// Where the parts make no project, the error of `Project::from_parts` is
    /// returned and the editor is left as it was.
    pub fn set_data(
        &mut self,
        templates: Vec<Component>,
        body: Vec<Placement>,
        connections: Vec<Fanout>,
        wires: Vec<Wire>,
    ) -> (r: Result<(), GraphError>)
        ensures
            r == parts_check(
                templates_view(templates@),
                placements_view(body@),
                fanouts_view(connections@),
                wires_view(wires@),
            ),
            r is Ok ==> final(self)@ == (LogicXView {
                project: parts_view(
                    templates_view(templates@),
                    placements_view(body@),
                    fanouts_view(connections@),
                    wires_view(wires@),
                ),
                ..old(self)@
            }),
            r is Err ==> final(self)@ == old(self)@,
    {
        match Project::from_parts(templates, body, connections, wires) {
            Ok(project) => {
                self.project = project;
                Ok(())
            },
            Err(e) => Err(e),
        }
    }

    /// The project.
    pub fn project(&self) -> (r: &Project)
        ensures
            r@ == self@.project,
    {
        &self.project
    }

    /// The settings.
    pub fn get_state(&self) -> (r: State)
        ensures
            r == self@.state,
    {
        self.state
    }

    /// Replaces the settings.
    pub fn set_state(&mut self, new_state: &State)
        ensures
            final(self)@ == (LogicXView { state: *new_state, ..old(self)@ }),
    {
        self.state = *new_state;
    }

    /// The active session, if any.
    pub fn session(&self) -> (r: Option<MouseState>)
        ensures
            r == self@.mouse,
    {
        self.mouse
    }

    /// A press of `button` at (`x`, `y`) on the instance `instance`.
    ///
    /// With the primary button, and while no session is active, a drag of the
    /// instance begins; it begins even where the instance is not placed, and
    /// then moves nothing. Any other press is ignored.
    pub fn component_mouse_down(&mut self, x: i32, y: i32, button: i16, instance: InstanceId) -> (r:
        bool)
        ensures
            r == accepts_press(old(self)@, button, PRIMARY_BUTTON),
            final(self)@ == component_press_spec(old(self)@, x, y, button, instance),
    {
        if button != PRIMARY_BUTTON || self.mouse.is_some() {
            return false;
        }
        let session = MouseState::begin(x, y, button).on_move(
            MoveRoutine::DragInstance { instance },
        );
        let session = match self.project.placement(instance) {
            Some(placement) => session.start_coord(placement.pos),
            None => session,
        };
        self.mouse = Some(session);
        true
    }

    /// A press of `button` at (`x`, `y`) on the terminal `terminal` of
    /// `instance`, the pointer being at the point `to` of the canvas.
    ///
    /// With the primary button, and while no session is active, a wire from
    /// that terminal to `to` is begun. Any other press is ignored.
    pub fn terminal_mouse_down(
        &mut self,
        x: i32,
        y: i32,
        button: i16,
        instance: InstanceId,
        terminal: Terminal,
        to: Coord,
    ) -> (r: bool)
        ensures
            r == accepts_press(old(self)@, button, PRIMARY_BUTTON),
            final(self)@ == terminal_press_spec(old(self)@, x, y, button, instance, terminal, to),
    {
        if button != PRIMARY_BUTTON || self.mouse.is_some() {
            return false;
        }
        self.state.start_connect_wire = Some(
            WireConnectStart { from: instance, start_terminal: terminal, to },
        );
        self.mouse = Some(
            MouseState::begin(x, y, button).on_move(
                MoveRoutine::TrackWire { from: instance, start_terminal: terminal },
            ).on_release(ReleaseRoutine::DropWire),
        );
        true
    }

    /// A press of `button` at (`x`, `y`) on the empty canvas.
    ///
    /// With the middle button, and while no session is active, scrolling
    /// begins. Any other press is ignored.
    pub fn surface_mouse_down(&mut self, x: i32, y: i32, button: i16) -> (r: bool)
        ensures
            r == accepts_press(old(self)@, button, MIDDLE_BUTTON),
            final(self)@ == surface_press_spec(old(self)@, x, y, button),
    {
        if button != MIDDLE_BUTTON || self.mouse.is_some() {
            return false;
        }
        self.mouse = Some(MouseState::begin(x, y, button).on_move(MoveRoutine::Pan));
        true
    }

    /// What the active session, if any, asks of the host.
    fn request(&self) -> (r: MoveRequest)
        ensures
            r == move_request(self@),
    {
        let session = match self.mouse {
            Some(session) => session,
            None => {
                return MoveRequest::Nothing;
            },
        };
        match session.on_move {
            Some(MoveRoutine::DragInstance { instance }) => match session.start_coord {
                Some(start_coord) => {
                    if self.project.placement(instance).is_some() {
                        MoveRequest::DragInstance {
                            instance,
                            start_coord,
                            delta: session.delta(),
                            grid_scale: self.state.grid_scale,
                            snap: self.state.snap,
                        }
                    } else {
                        MoveRequest::Nothing
                    }
                },
                None => MoveRequest::Nothing,
            },
            Some(MoveRoutine::TrackWire { from, start_terminal }) => MoveRequest::TrackWire {
                from,
                start_terminal,
                cursor: session.current_pos,
            },
            Some(MoveRoutine::Pan) => MoveRequest::Pan { delta: session.delta_tick() },
            None => MoveRequest::Nothing,
        }
    }

    /// A move of the pointer to (`x`, `y`).
    ///
    /// The active session, if any, takes the new position, and the result
    /// says what its routine asks of the host.
    pub fn mouse_move(&mut self, x: i32, y: i32) -> (r: MoveRequest)
        ensures
            final(self)@ == move_update(old(self)@, x, y),
            r == move_request(final(self)@),
    {
        match self.mouse {
            Some(session) => {
                let mut session = session;
                session.track(x, y);
                self.mouse = Some(session);
            },
            None => {},
        }
        self.request()
    }

    /// A release of `button`.
    ///
    /// Where `button` is the one that started the active session, the session
    /// ends: the slot is vacated, and a wire session drops the wire in
    /// progress. A release of another button, or with no session active, is
    /// ignored.
    pub fn mouse_up(&mut self, button: i16) -> (r: bool)
        ensures
            r == releases(old(self)@, button),
            final(self)@ == release_spec(old(self)@, button),
    {
        let session = match self.mouse {
            Some(session) => session,
            None => {
                return false;
            },
        };
        if session.button != button {
            return false;
        }
        self.mouse = None;
        match session.on_release {
            Some(ReleaseRoutine::DropWire) => {
                self.state.start_connect_wire = None;
            },
            None => {},
        }
        true
    }

    /// A release of the pointer on the terminal `terminal` of `instance`.
    ///
    /// The wire in progress, if any, is taken, and its start is connected to
    /// that terminal; the result says whether a connection was made. The
    /// session is left to `mouse_up`.
    pub fn terminal_mouse_up(&mut self, instance: InstanceId, terminal: Terminal) -> (r: bool)
        ensures
            final(self)@ == terminal_release_spec(old(self)@, instance, terminal),
            r == (old(self)@.state.start_connect_wire matches Some(start) && connectable(
                old(self)@.project,
                Connection { instance: start.from, terminal: start.start_terminal },
                Connection { instance, terminal },
            )),
    {
        let start = match self.state.start_connect_wire {
            Some(start) => start,
            None => {
                return false;
            },
        };
        self.state.start_connect_wire = None;
        self.project.connect(
            Connection { instance: start.from, terminal: start.start_terminal },
            Connection { instance, terminal },
        )
    }

    /// The answer to a request to drag: the dragged instance goes to `pos`.
    /// Gives `false`, and changes nothing, unless the active session asks to
    /// drag.
    pub fn drag_to(&mut self, pos: Coord) -> (r: bool)
        ensures
            r == move_request(old(self)@) is DragInstance,
            final(self)@ == drag_answer_spec(old(self)@, pos),
    {
        match self.request() {
            MoveRequest::DragInstance { instance, .. } => {
                self.project.move_instance(instance, pos);
                true
            },
            _ => false,
        }
    }

    /// The answer to a request to track the wire: the loose end of the wire
    /// in progress goes to the point `to` of the canvas. Gives `false`, and
    /// changes nothing, unless the active session asks to track a wire.
    pub fn track_wire(&mut self, to: Coord) -> (r: bool)
        ensures
            r == move_request(old(self)@) is TrackWire,
            final(self)@ == wire_answer_spec(old(self)@, to),
    {
        match self.request() {
            MoveRequest::TrackWire { from, start_terminal, .. } => {
                self.state.start_connect_wire = Some(WireConnectStart { from, start_terminal, to });
                true
            },
            _ => false,
        }
    }

    /// The answer to a request to scroll: the canvas is scrolled to `scroll`.
    /// Gives `false`, and changes nothing, unless the active session asks to
    /// scroll.
    pub fn pan_to(&mut self, scroll: Coord) -> (r: bool)
        ensures
            r == move_request(old(self)@) is Pan,
            final(self)@ == pan_answer_spec(old(self)@, scroll),
    {
        match self.request() {
            MoveRequest::Pan { .. } => {
                self.state.scroll = scroll;
                true
            },
            _ => false,
        }
    }

    /// Adds a placement to the project, as `Project::place` does.
    pub fn place(&mut self, placement: Placement) -> (r: Result<(), GraphError>)
        ensures
            r == place_check(old(self)@.project, placement@),
            r is Ok ==> final(self)@ == (LogicXView {
                project: place_spec(old(self)@.project, placement@),
                ..old(self)@
            }),
            r is Err ==> final(self)@ == old(self)@,
    {
        self.project.place(placement)
    }

    /// Deletes an instance from the project, as `Project::remove_instance` does.
    pub fn remove_instance(&mut self, instance: InstanceId) -> (r: bool)
        ensures
            r == has_instance(old(self)@.project.body, instance),
            final(self)@ == (LogicXView {
                project: remove_spec(old(self)@.project, instance),
                ..old(self)@
            }),
    {
        self.project.remove_instance(instance)
    }
}

} // verus!
