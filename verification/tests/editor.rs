use logicx::component::Component;
use logicx::component::ComponentDriver;
use logicx::connection::Connection;
use logicx::connection::Terminal;
use logicx::coord::Coord;
use logicx::coord::Scalar;
use logicx::dud::Dud;
use logicx::editor::LogicX;
use logicx::editor::MoveRequest;
use logicx::error::GraphError;
use logicx::mouse::Cursor;
use logicx::mouse::Delta;
use logicx::mouse::MouseState;
use logicx::mouse::MoveRoutine;
use logicx::mouse::ReleaseRoutine;
use logicx::project::Placement;
use logicx::state::State;

fn point(x: f64, y: f64) -> Coord {
    Coord::from_bits(x.to_bits(), y.to_bits())
}

fn xy(c: Coord) -> (f64, f64) {
    (f64::from_bits(c.0.to_bits()), f64::from_bits(c.1.to_bits()))
}

fn same_session(a: &MouseState, b: &MouseState) -> bool {
    a.start_pos == b.start_pos
        && a.current_pos == b.current_pos
        && a.prev_pos == b.prev_pos
        && a.button == b.button
        && a.start_coord.map(xy) == b.start_coord.map(xy)
        && a.on_move == b.on_move
        && a.on_release == b.on_release
}

#[test]
fn begin_captures_the_cursor_three_times() {
    let m = MouseState::begin(12, -7, 2);
    let at = Cursor { x: 12, y: -7 };
    assert_eq!(m.start_pos, at);
    assert_eq!(m.current_pos, at);
    assert_eq!(m.prev_pos, at);
    assert_eq!(m.button, 2);
    assert!(m.start_coord.is_none());
    assert!(m.on_move.is_none());
    assert!(m.on_release.is_none());
}

#[test]
fn builders_set_one_field_each() {
    let m = MouseState::begin(1, 2, 0)
        .start_coord(point(2.0, 0.0))
        .on_move(MoveRoutine::DragInstance { instance: 5 })
        .on_release(ReleaseRoutine::DropWire);
    assert_eq!(m.start_coord.map(xy), Some((2.0, 0.0)));
    assert_eq!(m.on_move, Some(MoveRoutine::DragInstance { instance: 5 }));
    assert_eq!(m.on_release, Some(ReleaseRoutine::DropWire));
    assert_eq!(m.start_pos, Cursor { x: 1, y: 2 });
    assert_eq!(m.button, 0);
}

#[test]
fn deltas_follow_the_pointer() {
    let mut m = MouseState::begin(10, 20, 0);
    m.track(30, 5);
    m.track(80, 55);
    assert_eq!(m.start_pos, Cursor { x: 10, y: 20 });
    assert_eq!(m.prev_pos, Cursor { x: 30, y: 5 });
    assert_eq!(m.current_pos, Cursor { x: 80, y: 55 });
    assert_eq!(m.delta(), Delta { dx: 70, dy: 35 });
    assert_eq!(m.delta_inv(), Delta { dx: -70, dy: -35 });
    assert_eq!(m.delta_tick(), Delta { dx: 50, dy: 50 });
    assert_eq!(m.delta_tick_inv(), Delta { dx: -50, dy: -50 });
}

#[test]
fn deltas_do_not_overflow() {
    let mut m = MouseState::begin(i32::MIN, i32::MAX, 0);
    m.track(i32::MAX, i32::MIN);
    assert_eq!(m.delta(), Delta { dx: 4294967295, dy: -4294967295 });
    assert_eq!(m.delta_inv(), Delta { dx: -4294967295, dy: 4294967295 });
}

#[test]
fn new_state_has_the_default_settings() {
    let s = State::new();
    assert_eq!(f64::from_bits(s.grid_scale().to_bits()), 35.0);
    assert_eq!(xy(s.scroll()), (0.0, 0.0));
    assert!(s.snap());
    assert!(s.edit());
    assert!(s.start_connect_wire.is_none());
}

#[test]
fn setters_and_builders_change_one_setting() {
    let mut s = State::new();
    s.set_grid_scale(Scalar::from_bits(50f64.to_bits()));
    s.set_scroll(point(3.0, -4.0));
    s.set_edit(false);
    s.set_snap(false);
    assert_eq!(f64::from_bits(s.grid_scale().to_bits()), 50.0);
    assert_eq!(xy(s.scroll()), (3.0, -4.0));
    assert!(!s.edit());
    assert!(!s.snap());
    let t = State::new()
        .with_grid_scale(Scalar::from_bits(20f64.to_bits()))
        .with_scroll(point(1.0, 2.0))
        .with_edit(false)
        .with_snap(false);
    assert_eq!(f64::from_bits(t.grid_scale().to_bits()), 20.0);
    assert_eq!(xy(t.scroll()), (1.0, 2.0));
    assert!(!t.edit());
    assert!(!t.snap());
    let u = State::new().with_snap(false);
    assert!(u.edit());
    assert_eq!(f64::from_bits(u.grid_scale().to_bits()), 35.0);
}

#[test]
fn new_editor_is_idle_with_the_default_project() {
    let e = LogicX::new();
    assert!(e.session().is_none());
    assert_eq!(e.project().body().len(), 3);
    assert_eq!(e.project().components().len(), 5);
    assert!(e.get_state().snap());
}

#[test]
fn drag_begins_on_a_primary_press() {
    let mut e = LogicX::new();
    assert!(e.component_mouse_down(100, 200, 0, 2));
    let m = e.session().unwrap();
    assert_eq!(m.start_pos, Cursor { x: 100, y: 200 });
    assert_eq!(m.button, 0);
    assert_eq!(m.start_coord.map(xy), Some((2.0, 0.0)));
    assert_eq!(m.on_move, Some(MoveRoutine::DragInstance { instance: 2 }));
    assert!(m.on_release.is_none());
}

#[test]
fn drag_ignores_other_buttons() {
    let mut e = LogicX::new();
    assert!(!e.component_mouse_down(100, 200, 1, 2));
    assert!(!e.component_mouse_down(100, 200, 2, 2));
    assert!(e.session().is_none());
}

#[test]
fn second_begin_is_rejected_while_a_session_is_active() {
    let mut e = LogicX::new();
    assert!(e.component_mouse_down(100, 200, 0, 2));
    let before = e.session().unwrap();
    assert!(!e.component_mouse_down(5, 6, 0, 1));
    assert!(!e.terminal_mouse_down(5, 6, 0, 0, Terminal::Output(0), point(5.0, 6.0)));
    assert!(!e.surface_mouse_down(5, 6, 1));
    assert!(same_session(&e.session().unwrap(), &before));
    assert!(e.get_state().start_connect_wire.is_none());
}

#[test]
fn move_asks_to_drag_by_the_way_of_the_pointer() {
    let mut e = LogicX::new();
    assert!(e.component_mouse_down(10, 20, 0, 2));
    match e.mouse_move(80, 55) {
        MoveRequest::DragInstance { instance, start_coord, delta, grid_scale, snap } => {
            assert_eq!(instance, 2);
            assert_eq!(xy(start_coord), (2.0, 0.0));
            assert_eq!(delta, Delta { dx: 70, dy: 35 });
            assert_eq!(f64::from_bits(grid_scale.to_bits()), 35.0);
            assert!(snap);
        }
        _ => panic!("a drag asks to drag"),
    }
    let m = e.session().unwrap();
    assert_eq!(m.prev_pos, Cursor { x: 10, y: 20 });
    assert_eq!(m.current_pos, Cursor { x: 80, y: 55 });
    assert_eq!(xy(e.project().placement(2).unwrap().pos), (2.0, 0.0));
}

#[test]
fn move_reports_the_snap_setting() {
    let mut e = LogicX::new();
    e.set_state(&State::new().with_snap(false));
    assert!(e.component_mouse_down(0, 0, 0, 0));
    match e.mouse_move(1, 1) {
        MoveRequest::DragInstance { snap, .. } => assert!(!snap),
        _ => panic!("a drag asks to drag"),
    }
}

#[test]
fn drag_to_moves_the_dragged_instance() {
    let mut e = LogicX::new();
    assert!(e.component_mouse_down(10, 20, 0, 2));
    assert!(matches!(e.mouse_move(80, 55), MoveRequest::DragInstance { .. }));
    assert!(e.drag_to(point(4.0, 1.0)));
    assert_eq!(xy(e.project().placement(2).unwrap().pos), (4.0, 1.0));
    assert_eq!(xy(e.project().placement(0).unwrap().pos), (0.0, 0.0));
    assert_eq!(e.session().unwrap().start_coord.map(xy), Some((2.0, 0.0)));
    assert!(!e.track_wire(point(1.0, 1.0)));
    assert!(!e.pan_to(point(1.0, 1.0)));
    assert!(e.get_state().start_connect_wire.is_none());
    assert_eq!(xy(e.get_state().scroll()), (0.0, 0.0));
}

#[test]
fn answers_without_a_session_change_nothing() {
    let mut e = LogicX::new();
    assert!(!e.drag_to(point(4.0, 1.0)));
    assert!(!e.track_wire(point(4.0, 1.0)));
    assert!(!e.pan_to(point(4.0, 1.0)));
    assert_eq!(xy(e.project().placement(2).unwrap().pos), (2.0, 0.0));
    assert!(e.get_state().start_connect_wire.is_none());
    assert_eq!(xy(e.get_state().scroll()), (0.0, 0.0));
}

#[test]
fn drag_of_an_unplaced_instance_tracks_the_pointer_and_moves_nothing() {
    let mut e = LogicX::new();
    assert!(e.component_mouse_down(10, 20, 0, 9));
    let m = e.session().unwrap();
    assert!(m.start_coord.is_none());
    assert!(matches!(e.mouse_move(30, 40), MoveRequest::Nothing));
    let m = e.session().unwrap();
    assert_eq!(m.current_pos, Cursor { x: 30, y: 40 });
    assert_eq!(m.delta(), Delta { dx: 20, dy: 20 });
    assert!(!e.drag_to(point(5.0, 5.0)));
    assert_eq!(e.project().body().len(), 3);
    assert!(e.mouse_up(0));
}

#[test]
fn drag_of_a_deleted_instance_asks_for_nothing() {
    let mut e = LogicX::new();
    assert!(e.component_mouse_down(10, 20, 0, 2));
    assert!(e.remove_instance(2));
    assert!(matches!(e.mouse_move(30, 40), MoveRequest::Nothing));
    assert!(!e.drag_to(point(5.0, 5.0)));
}

#[test]
fn move_without_a_session_does_nothing() {
    let mut e = LogicX::new();
    assert!(matches!(e.mouse_move(30, 40), MoveRequest::Nothing));
    assert!(e.session().is_none());
}

#[test]
fn mismatched_release_leaves_the_session_active() {
    let mut e = LogicX::new();
    assert!(e.terminal_mouse_down(1, 2, 0, 0, Terminal::Output(0), point(1.0, 2.0)));
    let before = e.session().unwrap();
    assert!(!e.mouse_up(1));
    assert!(!e.mouse_up(2));
    assert!(same_session(&e.session().unwrap(), &before));
    assert!(e.get_state().start_connect_wire.is_some());
    assert!(e.mouse_up(0));
    assert!(e.session().is_none());
    assert!(e.get_state().start_connect_wire.is_none());
}

#[test]
fn release_without_a_session_is_ignored() {
    let mut e = LogicX::new();
    assert!(!e.mouse_up(0));
    assert!(e.session().is_none());
}

#[test]
fn release_of_a_drag_runs_no_release_routine() {
    let mut e = LogicX::new();
    let pending = logicx::state::WireConnectStart {
        from: 0,
        start_terminal: Terminal::Output(0),
        to: point(9.0, 9.0),
    };
    e.set_state(&State { start_connect_wire: Some(pending), ..State::new() });
    assert!(e.component_mouse_down(1, 2, 0, 2));
    assert!(e.mouse_up(0));
    assert!(e.get_state().start_connect_wire.is_some());
}

#[test]
fn wire_gesture_connects_on_a_terminal() {
    let mut e = LogicX::new();
    assert!(e.terminal_mouse_down(10, 10, 0, 0, Terminal::Output(0), point(10.0, 10.0)));
    let pending = e.get_state().start_connect_wire.unwrap();
    assert_eq!((pending.from, pending.start_terminal), (0, Terminal::Output(0)));
    assert_eq!(xy(pending.to), (10.0, 10.0));
    match e.mouse_move(50, 60) {
        MoveRequest::TrackWire { from, start_terminal, cursor } => {
            assert_eq!((from, start_terminal), (0, Terminal::Output(0)));
            assert_eq!(cursor, Cursor { x: 50, y: 60 });
            assert!(e.track_wire(point(45.0, 52.0)));
            assert!(!e.drag_to(point(45.0, 52.0)));
        }
        _ => panic!("a wire session asks to track the wire"),
    }
    assert_eq!(xy(e.get_state().start_connect_wire.unwrap().to), (45.0, 52.0));
    assert_eq!(xy(e.project().placement(0).unwrap().pos), (0.0, 0.0));
    assert!(e.terminal_mouse_up(2, Terminal::Input(1)));
    assert!(e.get_state().start_connect_wire.is_none());
    assert!(e.session().is_some());
    assert!(e.mouse_up(0));
    assert!(e.session().is_none());
    assert_eq!(e.project().connections().len(), 1);
    assert_eq!(e.project().connections()[0].output, Connection::output(0, 0));
    assert_eq!(e.project().connections()[0].inputs, vec![Connection::input(2, 1)]);
    assert_eq!(e.project().wires().len(), 1);
}

#[test]
fn wire_gesture_from_an_input_connects_the_same_way() {
    let mut e = LogicX::new();
    assert!(e.terminal_mouse_down(10, 10, 0, 2, Terminal::Input(1), point(10.0, 10.0)));
    assert!(e.terminal_mouse_up(0, Terminal::Output(0)));
    assert!(e.mouse_up(0));
    assert_eq!(e.project().connections()[0].output, Connection::output(0, 0));
    assert_eq!(e.project().connections()[0].inputs, vec![Connection::input(2, 1)]);
    let w = &e.project().wires()[0];
    assert_eq!((w.from, w.to), (0, 2));
}

#[test]
fn wire_gesture_between_two_inputs_is_dropped() {
    let mut e = LogicX::new();
    assert!(e.terminal_mouse_down(10, 10, 0, 2, Terminal::Input(0), point(10.0, 10.0)));
    assert!(!e.terminal_mouse_up(2, Terminal::Input(1)));
    assert!(e.get_state().start_connect_wire.is_none());
    assert!(e.project().connections().is_empty());
    assert!(e.project().wires().is_empty());
}

#[test]
fn terminal_release_without_a_wire_does_nothing() {
    let mut e = LogicX::new();
    assert!(!e.terminal_mouse_up(2, Terminal::Input(1)));
    assert!(e.project().connections().is_empty());
}

#[test]
fn wire_dropped_on_the_canvas_is_cleared() {
    let mut e = LogicX::new();
    assert!(e.terminal_mouse_down(10, 10, 0, 0, Terminal::Output(0), point(10.0, 10.0)));
    assert!(e.mouse_up(0));
    assert!(e.get_state().start_connect_wire.is_none());
    assert!(!e.terminal_mouse_up(2, Terminal::Input(1)));
    assert!(e.project().connections().is_empty());
}

#[test]
fn pan_begins_on_a_middle_press() {
    let mut e = LogicX::new();
    assert!(!e.surface_mouse_down(5, 5, 0));
    assert!(e.surface_mouse_down(5, 5, 1));
    assert!(matches!(e.mouse_move(8, 3), MoveRequest::Pan { delta: Delta { dx: 3, dy: -2 } }));
    assert!(e.pan_to(point(3.0, -2.0)));
    assert_eq!(xy(e.get_state().scroll()), (3.0, -2.0));
    assert!(matches!(e.mouse_move(9, 3), MoveRequest::Pan { delta: Delta { dx: 1, dy: 0 } }));
    assert!(!e.drag_to(point(1.0, 1.0)));
    assert!(!e.track_wire(point(1.0, 1.0)));
    assert!(!e.mouse_up(0));
    assert!(e.mouse_up(1));
    assert!(e.session().is_none());
}

#[test]
fn set_state_replaces_the_settings() {
    let mut e = LogicX::new();
    e.set_state(&State::new().with_edit(false).with_scroll(point(7.0, 8.0)));
    assert!(!e.get_state().edit());
    assert_eq!(xy(e.get_state().scroll()), (7.0, 8.0));
    assert_eq!(e.project().body().len(), 3);
}

#[test]
fn clear_resets_the_project_only() {
    let mut e = LogicX::new();
    assert!(e.remove_instance(0));
    e.set_state(&State::new().with_snap(false));
    assert!(e.surface_mouse_down(5, 5, 1));
    e.clear();
    assert_eq!(e.project().body().len(), 3);
    assert!(e.project().placement(0).is_some());
    assert!(!e.get_state().snap());
    assert!(e.session().is_some());
}

#[test]
fn place_goes_to_the_project() {
    let mut e = LogicX::new();
    let p = Placement {
        component: 0,
        instance: 3,
        label: Some("Not".to_string()),
        pos: point(1.0, 1.0),
        orientation: Scalar::from_bits(0),
    };
    assert_eq!(e.place(p.clone()), Ok(()));
    assert_eq!(e.place(p), Err(GraphError::DuplicateId));
    assert_eq!(e.project().body().len(), 4);
}

#[test]
fn set_data_replaces_the_project() {
    let mut e = LogicX::new();
    let t = Component {
        id: 8,
        name: "buffer".to_string(),
        inputs: vec!["a".to_string()],
        outputs: vec!["q".to_string()],
        driver: ComponentDriver::truth(vec![(0, 0), (1, 1)]),
    };
    let p = Placement {
        component: 8,
        instance: 40,
        label: None,
        pos: point(0.0, 0.0),
        orientation: Scalar::from_bits(0),
    };
    assert_eq!(e.set_data(vec![t], vec![p], vec![], vec![]), Ok(()));
    assert_eq!(e.project().components().len(), 1);
    assert_eq!(e.project().body().len(), 1);
    assert!(e.project().placement(40).is_some());
}

#[test]
fn set_data_leaves_the_project_untouched_on_failure() {
    let mut e = LogicX::new();
    assert!(e.terminal_mouse_down(1, 1, 0, 0, Terminal::Output(0), point(1.0, 1.0)));
    assert!(e.terminal_mouse_up(2, Terminal::Input(0)));
    let p = Placement {
        component: 8,
        instance: 40,
        label: None,
        pos: point(0.0, 0.0),
        orientation: Scalar::from_bits(0),
    };
    assert_eq!(e.set_data(vec![], vec![p], vec![], vec![]), Err(GraphError::DanglingReference));
    assert_eq!(e.project().components().len(), 5);
    assert_eq!(e.project().body().len(), 3);
    assert_eq!(e.project().connections().len(), 1);
    assert_eq!(e.project().wires().len(), 1);
    assert!(e.session().is_some());
}

#[test]
fn dud_drops_a_value() {
    let v = vec![1, 2, 3];
    let unit: () = v.get(0).dud();
    assert_eq!(unit, ());
    assert_eq!(v.len(), 3);
}
