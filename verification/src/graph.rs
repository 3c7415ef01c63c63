//! The mathematical model of a circuit: what a project holds, when it is
//! well formed, what each change makes of it, and what follows.

use crate::component::ComponentView;
use crate::component::DriverView;
use crate::component::table_of;
use crate::connection::ComponentId;
use crate::connection::Connection;
use crate::connection::InstanceId;
use crate::connection::Terminal;
use crate::coord::Coord;
use crate::coord::Scalar;
use crate::coord::ONE_BITS;
use crate::coord::TWO_BITS;
use crate::error::GraphError;
use crate::resolver::resolve_spec;
use vstd::prelude::*;

verus! {

/// What a placement holds.
pub struct PlacementView {
    pub component: ComponentId,
    pub instance: InstanceId,
    pub label: Option<Seq<char>>,
    pub pos: Coord,
    pub orientation: Scalar,
}

/// What a wire holds.
pub struct WireView {
    pub from: InstanceId,
    pub from_terminal: Terminal,
    pub points: Seq<Coord>,
    pub to: InstanceId,
    pub to_terminal: Terminal,
}

/// What a fan-out holds: an output, and the inputs that it drives in the
/// order in which they were connected.
pub struct FanoutView {
    pub output: Connection,
    pub inputs: Seq<Connection>,
}

/// What a project holds: the templates by id, the placements in the order in
/// which they were placed, the fan-outs in the order in which their outputs
/// were first connected, and the wires in the order in which they were drawn.
pub struct ProjectView {
    pub components: Map<ComponentId, ComponentView>,
    pub body: Seq<PlacementView>,
    pub connections: Seq<FanoutView>,
    pub wires: Seq<WireView>,
}

/// The placement at position `i` of `body` is the instance `id`.
pub open spec fn placed_at(body: Seq<PlacementView>, id: InstanceId, i: int) -> bool {
    0 <= i < body.len() && body[i].instance == id
}

/// The instance `id` is placed.
pub open spec fn has_instance(body: Seq<PlacementView>, id: InstanceId) -> bool {
    exists|i: int| placed_at(body, id, i)
}

/// The position in `body` of the instance `id`, where it is placed.
pub open spec fn instance_index(body: Seq<PlacementView>, id: InstanceId) -> int {
    choose|i: int| placed_at(body, id, i)
}

/// No two placements have the same instance id.
pub open spec fn unique_instances(body: Seq<PlacementView>) -> bool {
    forall|i: int, j: int|
        0 <= i < j < body.len() ==> (#[trigger] body[i]).instance != (#[trigger] body[j]).instance
}

/// The template `component` exists and has the terminal `terminal`.
pub open spec fn has_terminal(
    components: Map<ComponentId, ComponentView>,
    component: ComponentId,
    terminal: Terminal,
) -> bool {
    &&& components.dom().contains(component)
    &&& match terminal {
        Terminal::Input(k) => k < components[component].inputs.len(),
        Terminal::Output(k) => k < components[component].outputs.len(),
    }
}

/// The placement at position `i` is the instance of the endpoint `c`, and its
/// template has the terminal of `c`.
pub open spec fn endpoint_at(
    components: Map<ComponentId, ComponentView>,
    body: Seq<PlacementView>,
    c: Connection,
    i: int,
) -> bool {
    placed_at(body, c.instance, i) && has_terminal(components, body[i].component, c.terminal)
}

/// The endpoint `c` refers to a terminal of a placed instance.
pub open spec fn endpoint_exists(
    components: Map<ComponentId, ComponentView>,
    body: Seq<PlacementView>,
    c: Connection,
) -> bool {
    exists|i: int| endpoint_at(components, body, c, i)
}

/// The endpoint where a wire starts.
pub open spec fn wire_start(w: WireView) -> Connection {
    Connection { instance: w.from, terminal: w.from_terminal }
}

/// The endpoint where a wire ends.
pub open spec fn wire_end(w: WireView) -> Connection {
    Connection { instance: w.to, terminal: w.to_terminal }
}

/// An endpoint that may be driven: an existing input terminal.
pub open spec fn input_ok(
    components: Map<ComponentId, ComponentView>,
    body: Seq<PlacementView>,
    c: Connection,
) -> bool {
    c.terminal is Input && endpoint_exists(components, body, c)
}

/// A fan-out is keyed by an existing output terminal and lists existing
/// input terminals only.
pub open spec fn fanout_ok(
    components: Map<ComponentId, ComponentView>,
    body: Seq<PlacementView>,
    f: FanoutView,
) -> bool {
    &&& f.output.terminal is Output
    &&& endpoint_exists(components, body, f.output)
    &&& forall|j: int| 0 <= j < f.inputs.len() ==> input_ok(components, body, #[trigger] f.inputs[j])
}

/// Both ends of a wire are existing terminals.
pub open spec fn wire_ok(
    components: Map<ComponentId, ComponentView>,
    body: Seq<PlacementView>,
    w: WireView,
) -> bool {
    endpoint_exists(components, body, wire_start(w)) && endpoint_exists(
        components,
        body,
        wire_end(w),
    )
}

/// No two fan-outs have the same output.
pub open spec fn unique_outputs(connections: Seq<FanoutView>) -> bool {
    forall|i: int, j: int|
        0 <= i < j < connections.len() ==> (#[trigger] connections[i]).output != (
        #[trigger] connections[j]).output
}

/// Every placement refers to a template.
pub open spec fn templates_exist(
    components: Map<ComponentId, ComponentView>,
    body: Seq<PlacementView>,
) -> bool {
    forall|i: int| 0 <= i < body.len() ==> components.dom().contains((#[trigger] body[i]).component)
}

/// Every fan-out is from an existing output to existing inputs.
pub open spec fn fanouts_ok(
    components: Map<ComponentId, ComponentView>,
    body: Seq<PlacementView>,
    connections: Seq<FanoutView>,
) -> bool {
    forall|i: int|
        0 <= i < connections.len() ==> fanout_ok(components, body, #[trigger] connections[i])
}

/// Every wire runs between existing terminals.
pub open spec fn wires_ok(
    components: Map<ComponentId, ComponentView>,
    body: Seq<PlacementView>,
    wires: Seq<WireView>,
) -> bool {
    forall|i: int| 0 <= i < wires.len() ==> wire_ok(components, body, #[trigger] wires[i])
}

/// The invariant of a project: every template is filed under its own id;
/// instance ids are unique and every placement refers to a template; every
/// fan-out is keyed by an output, once, and drives inputs; and every endpoint
/// of a connection or of a wire is an existing terminal of a placed instance.
pub open spec fn project_wf(v: ProjectView) -> bool {
    &&& forall|id: ComponentId|
        v.components.dom().contains(id) ==> (#[trigger] v.components[id]).id == id
    &&& unique_instances(v.body)
    &&& templates_exist(v.components, v.body)
    &&& unique_outputs(v.connections)
    &&& fanouts_ok(v.components, v.body, v.connections)
    &&& wires_ok(v.components, v.body, v.wires)
}

/// The project that an editor starts with: five templates (`not`, `and`,
/// `or`, `input`, `output`), an input pin at (0, 0), an output pin at (0, 1)
/// and an `and` gate at (2, 0), with nothing connected.
pub open spec fn default_view() -> ProjectView {
    ProjectView {
        components: map![
            0usize => ComponentView {
                id: 0,
                name: "not"@,
                inputs: seq!["q"@],
                outputs: seq!["q!"@],
                driver: DriverView::TruthTable { truth: table_of(seq![(0u64, 1u64), (1u64, 0u64)]) },
            },
            1usize => ComponentView {
                id: 1,
                name: "and"@,
                inputs: seq!["a"@, "b"@],
                outputs: seq!["and"@],
                driver: DriverView::TruthTable {
                    truth: table_of(seq![(0u64, 0u64), (1u64, 0u64), (2u64, 0u64), (3u64, 1u64)]),
                },
            },
            2usize => ComponentView {
                id: 2,
                name: "or"@,
                inputs: seq!["a"@, "b"@],
                outputs: seq!["or"@],
                driver: DriverView::TruthTable {
                    truth: table_of(seq![(0u64, 0u64), (1u64, 1u64), (2u64, 1u64), (3u64, 1u64)]),
                },
            },
            3usize => ComponentView {
                id: 3,
                name: "input"@,
                inputs: Seq::empty(),
                outputs: seq!["q"@],
                driver: DriverView::Input,
            },
            4usize => ComponentView {
                id: 4,
                name: "output"@,
                inputs: seq!["q"@],
                outputs: Seq::empty(),
                driver: DriverView::Output,
            },
        ],
        body: seq![
            PlacementView {
                component: 3,
                instance: 0,
                label: Some("Input"@),
                pos: Coord(Scalar { bits: 0 }, Scalar { bits: 0 }),
                orientation: Scalar { bits: 0 },
            },
            PlacementView {
                component: 4,
                instance: 1,
                label: Some("Output"@),
                pos: Coord(Scalar { bits: 0 }, Scalar { bits: ONE_BITS }),
                orientation: Scalar { bits: 0 },
            },
            PlacementView {
                component: 1,
                instance: 2,
                label: Some("And"@),
                pos: Coord(Scalar { bits: TWO_BITS }, Scalar { bits: 0 }),
                orientation: Scalar { bits: 0 },
            },
        ],
        connections: Seq::empty(),
        wires: Seq::empty(),
    }
}

/// The fan-out at position `i` of `connections` is that of `output`.
pub open spec fn drives_at(connections: Seq<FanoutView>, output: Connection, i: int) -> bool {
    0 <= i < connections.len() && connections[i].output == output
}

/// `output` has a fan-out.
pub open spec fn has_fanout(connections: Seq<FanoutView>, output: Connection) -> bool {
    exists|i: int| drives_at(connections, output, i)
}

/// The position in `connections` of the fan-out of `output`, where it has one.
pub open spec fn fanout_index(connections: Seq<FanoutView>, output: Connection) -> int {
    choose|i: int| drives_at(connections, output, i)
}

/// The inputs that `output` drives, in the order in which they were
/// connected; none where it has no fan-out.
pub open spec fn driven_by(connections: Seq<FanoutView>, output: Connection) -> Seq<Connection> {
    if has_fanout(connections, output) {
        connections[fanout_index(connections, output)].inputs
    } else {
        Seq::empty()
    }
}

/// The connections after `output` has been made to drive `input` as well:
/// `input` is appended to the fan-out of `output`, which is created at the
/// end where `output` had none. Nothing is replaced or merged.
pub open spec fn link_spec(connections: Seq<FanoutView>, output: Connection, input: Connection) -> Seq<
    FanoutView,
> {
    if has_fanout(connections, output) {
        let i = fanout_index(connections, output);
        connections.update(i, FanoutView { output, inputs: connections[i].inputs.push(input) })
    } else {
        connections.push(FanoutView { output, inputs: seq![input] })
    }
}

/// The wire that is drawn for a new connection: from the output to the
/// input, with no points in between.
pub open spec fn wire_between(output: Connection, input: Connection) -> WireView {
    WireView {
        from: output.instance,
        from_terminal: output.terminal,
        points: Seq::empty(),
        to: input.instance,
        to_terminal: input.terminal,
    }
}

/// The two endpoints make a connection in this project: one is an input and
/// the other an output, and both are existing terminals of placed instances.
pub open spec fn connectable(v: ProjectView, first: Connection, second: Connection) -> bool {
    &&& resolve_spec(first, second) is Some
    &&& endpoint_exists(v.components, v.body, first)
    &&& endpoint_exists(v.components, v.body, second)
}

/// The project after a wire gesture from `first` to `second`: where the two
/// are connectable, the connection and its wire are added; otherwise nothing
/// changes.
pub open spec fn connect_spec(v: ProjectView, first: Connection, second: Connection) -> ProjectView {
    if connectable(v, first, second) {
        let (input, output) = resolve_spec(first, second).unwrap();
        ProjectView {
            components: v.components,
            body: v.body,
            connections: link_spec(v.connections, output, input),
            wires: v.wires.push(wire_between(output, input)),
        }
    } else {
        v
    }
}

/// The project after `placement` has been added at the end.
pub open spec fn place_spec(v: ProjectView, placement: PlacementView) -> ProjectView {
    ProjectView {
        components: v.components,
        body: v.body.push(placement),
        connections: v.connections,
        wires: v.wires,
    }
}

/// Whether `placement` may be added: its template has to exist, and its
/// instance id must not be taken.
pub open spec fn place_check(v: ProjectView, placement: PlacementView) -> Result<(), GraphError> {
    if !v.components.dom().contains(placement.component) {
        Err(GraphError::DanglingReference)
    } else if has_instance(v.body, placement.instance) {
        Err(GraphError::DuplicateId)
    } else {
        Ok(())
    }
}

/// The placement `p`, moved to `pos`.
pub open spec fn moved(p: PlacementView, pos: Coord) -> PlacementView {
    PlacementView {
        component: p.component,
        instance: p.instance,
        label: p.label,
        pos,
        orientation: p.orientation,
    }
}

/// The project after the instance `instance` has been moved to `pos`; the
/// same project where there is no such instance.
pub open spec fn move_spec(v: ProjectView, instance: InstanceId, pos: Coord) -> ProjectView {
    if has_instance(v.body, instance) {
        let i = instance_index(v.body, instance);
        ProjectView {
            components: v.components,
            body: v.body.update(i, moved(v.body[i], pos)),
            connections: v.connections,
            wires: v.wires,
        }
    } else {
        v
    }
}

/// The wires that do not touch the instance `id`.
pub open spec fn keeps_wire(id: InstanceId) -> spec_fn(WireView) -> bool {
    |w: WireView| w.from != id && w.to != id
}

/// The fan-outs whose output is not on the instance `id`.
pub open spec fn keeps_fanout(id: InstanceId) -> spec_fn(FanoutView) -> bool {
    |f: FanoutView| f.output.instance != id
}

/// The endpoints that are not on the instance `id`.
pub open spec fn keeps_endpoint(id: InstanceId) -> spec_fn(Connection) -> bool {
    |c: Connection| c.instance != id
}

/// A fan-out without the inputs on the instance `id`.
pub open spec fn pruned(id: InstanceId) -> spec_fn(FanoutView) -> FanoutView {
    |f: FanoutView| FanoutView { output: f.output, inputs: f.inputs.filter(keeps_endpoint(id)) }
}

/// The project after the instance `id` has been deleted: its placement is
/// gone, and so is every connection and every wire that refers to it. What
/// is left keeps its order. The same project where there is no such
/// instance.
pub open spec fn remove_spec(v: ProjectView, id: InstanceId) -> ProjectView {
    if has_instance(v.body, id) {
        ProjectView {
            components: v.components,
            body: v.body.remove(instance_index(v.body, id)),
            connections: v.connections.filter(keeps_fanout(id)).map_values(pruned(id)),
            wires: v.wires.filter(keeps_wire(id)),
        }
    } else {
        v
    }
}

/// No two templates of the list have the same id.
pub open spec fn unique_ids(templates: Seq<ComponentView>) -> bool {
    forall|i: int, j: int|
        0 <= i < j < templates.len() ==> (#[trigger] templates[i]).id != (
        #[trigger] templates[j]).id
}

/// The registry that files each template of the list under its id.
pub open spec fn registry_of(templates: Seq<ComponentView>) -> Map<ComponentId, ComponentView>
    decreases templates.len(),
{
    if templates.len() == 0 {
        Map::empty()
    } else {
        registry_of(templates.drop_last()).insert(templates.last().id, templates.last())
    }
}

/// The project that is made of the given parts.
pub open spec fn parts_view(
    templates: Seq<ComponentView>,
    body: Seq<PlacementView>,
    connections: Seq<FanoutView>,
    wires: Seq<WireView>,
) -> ProjectView {
    ProjectView { components: registry_of(templates), body, connections, wires }
}

/// Whether the given parts make a project: `DuplicateId` where two
/// templates, two placements or two fan-outs have the same key;
/// `DanglingReference` where the keys are unique and something refers to a
/// template, an instance or a terminal that does not exist, or a fan-out is
/// not from an output to inputs.
pub open spec fn parts_check(
    templates: Seq<ComponentView>,
    body: Seq<PlacementView>,
    connections: Seq<FanoutView>,
    wires: Seq<WireView>,
) -> Result<(), GraphError> {
    if !unique_ids(templates) || !unique_instances(body) || !unique_outputs(connections) {
        Err(GraphError::DuplicateId)
    } else if !project_wf(parts_view(templates, body, connections, wires)) {
        Err(GraphError::DanglingReference)
    } else {
        Ok(())
    }
}

/// Among unique instance ids, an instance is found where it stands.
pub proof fn lemma_instance_index(body: Seq<PlacementView>, id: InstanceId, i: int)
    requires
        unique_instances(body),
        placed_at(body, id, i),
    ensures
        has_instance(body, id),
        instance_index(body, id) == i,
{
    let j = instance_index(body, id);
    assert(placed_at(body, id, j));
    if i < j {
        assert(body[i].instance != body[j].instance);
    } else if j < i {
        assert(body[j].instance != body[i].instance);
    }
}

/// Among unique outputs, a fan-out is found where it stands.
pub proof fn lemma_fanout_index(connections: Seq<FanoutView>, output: Connection, i: int)
    requires
        unique_outputs(connections),
        drives_at(connections, output, i),
    ensures
        has_fanout(connections, output),
        fanout_index(connections, output) == i,
{
    let j = fanout_index(connections, output);
    assert(drives_at(connections, output, j));
    if i < j {
        assert(connections[i].output != connections[j].output);
    } else if j < i {
        assert(connections[j].output != connections[i].output);
    }
}

/// The default project is well formed.
pub proof fn lemma_default_wf()
    ensures
        project_wf(default_view()),
{
}

/// Where a change of the placements keeps every endpoint, the fan-outs and
/// the wires that referred to existing endpoints still do.
pub proof fn lemma_references_kept(
    components: Map<ComponentId, ComponentView>,
    before: Seq<PlacementView>,
    after: Seq<PlacementView>,
    connections: Seq<FanoutView>,
    wires: Seq<WireView>,
)
    requires
        forall|c: Connection| #[trigger]
            endpoint_exists(components, before, c) ==> endpoint_exists(components, after, c),
        fanouts_ok(components, before, connections),
        wires_ok(components, before, wires),
    ensures
        fanouts_ok(components, after, connections),
        wires_ok(components, after, wires),
{
    assert forall|i: int| 0 <= i < connections.len() implies fanout_ok(
        components,
        after,
        #[trigger] connections[i],
    ) by {
        let f = connections[i];
        assert(fanout_ok(components, before, f));
        assert forall|j: int| 0 <= j < f.inputs.len() implies input_ok(
            components,
            after,
            #[trigger] f.inputs[j],
        ) by {
            assert(input_ok(components, before, f.inputs[j]));
        }
    }
    assert forall|i: int| 0 <= i < wires.len() implies wire_ok(
        components,
        after,
        #[trigger] wires[i],
    ) by {
        assert(wire_ok(components, before, wires[i]));
    }
}

/// Adding a placement that passes the check keeps the invariant.
pub proof fn lemma_place_wf(v: ProjectView, placement: PlacementView)
    requires
        project_wf(v),
        place_check(v, placement) is Ok,
    ensures
        project_wf(place_spec(v, placement)),
{
    let after = place_spec(v, placement);
    assert forall|i: int, j: int| 0 <= i < j < after.body.len() implies (
    #[trigger] after.body[i]).instance != (#[trigger] after.body[j]).instance by {
        if j == v.body.len() {
            assert(!placed_at(v.body, placement.instance, i));
        } else {
            assert(v.body[i].instance != v.body[j].instance);
        }
    }
    assert forall|i: int| 0 <= i < after.body.len() implies after.components.dom().contains(
        (#[trigger] after.body[i]).component,
    ) by {
        if i < v.body.len() {
            assert(v.components.dom().contains(v.body[i].component));
        }
    }
    assert forall|c: Connection| #[trigger]
        endpoint_exists(v.components, v.body, c) implies endpoint_exists(
        v.components,
        after.body,
        c,
    ) by {
        let i = choose|i: int| endpoint_at(v.components, v.body, c, i);
        assert(endpoint_at(v.components, after.body, c, i));
    }
    lemma_references_kept(v.components, v.body, after.body, v.connections, v.wires);
}

/// Moving an instance keeps the invariant.
pub proof fn lemma_move_wf(v: ProjectView, instance: InstanceId, pos: Coord)
    requires
        project_wf(v),
    ensures
        project_wf(move_spec(v, instance, pos)),
{
    if has_instance(v.body, instance) {
        let after = move_spec(v, instance, pos);
        let at = instance_index(v.body, instance);
        assert(placed_at(v.body, instance, at));
        assert forall|i: int, j: int| 0 <= i < j < after.body.len() implies (
        #[trigger] after.body[i]).instance != (#[trigger] after.body[j]).instance by {
            assert(v.body[i].instance != v.body[j].instance);
        }
        assert forall|i: int| 0 <= i < after.body.len() implies after.components.dom().contains(
            (#[trigger] after.body[i]).component,
        ) by {
            assert(v.components.dom().contains(v.body[i].component));
        }
        assert forall|c: Connection| #[trigger]
            endpoint_exists(v.components, v.body, c) implies endpoint_exists(
            v.components,
            after.body,
            c,
        ) by {
            let i = choose|i: int| endpoint_at(v.components, v.body, c, i);
            assert(endpoint_at(v.components, after.body, c, i));
        }
        lemma_references_kept(v.components, v.body, after.body, v.connections, v.wires);
    }
}

/// Linking appends the input to what the output drives, leaves what every
/// other output drives as it was, and keeps the outputs unique.
pub proof fn lemma_link_driven(connections: Seq<FanoutView>, output: Connection, input: Connection)
    requires
        unique_outputs(connections),
    ensures
        unique_outputs(link_spec(connections, output, input)),
        driven_by(link_spec(connections, output, input), output) == driven_by(
            connections,
            output,
        ).push(input),
        forall|other: Connection|
            other != output ==> #[trigger] driven_by(link_spec(connections, output, input), other)
                == driven_by(connections, other),
{
    let linked = link_spec(connections, output, input);
    let at = if has_fanout(connections, output) {
        fanout_index(connections, output)
    } else {
        connections.len() as int
    };
    assert forall|i: int, j: int| 0 <= i < j < linked.len() implies (#[trigger] linked[i]).output != (
    #[trigger] linked[j]).output by {
        if j < connections.len() {
            assert(connections[i].output != connections[j].output);
        } else {
            assert(!drives_at(connections, output, i));
        }
    }
    assert(drives_at(linked, output, at));
    lemma_fanout_index(linked, output, at);
    assert(driven_by(linked, output) =~= driven_by(connections, output).push(input));
    assert forall|other: Connection| other != output implies #[trigger] driven_by(linked, other)
        == driven_by(connections, other) by {
        if has_fanout(connections, other) {
            let k = fanout_index(connections, other);
            assert(drives_at(connections, other, k));
            assert(drives_at(linked, other, k));
            lemma_fanout_index(linked, other, k);
        } else if has_fanout(linked, other) {
            let k = fanout_index(linked, other);
            assert(drives_at(linked, other, k));
            assert(drives_at(connections, other, k));
        }
    }
}

/// A wire gesture keeps the invariant.
pub proof fn lemma_connect_wf(v: ProjectView, first: Connection, second: Connection)
    requires
        project_wf(v),
    ensures
        project_wf(connect_spec(v, first, second)),
{
    if connectable(v, first, second) {
        let (input, output) = resolve_spec(first, second).unwrap();
        let after = connect_spec(v, first, second);
        lemma_link_driven(v.connections, output, input);
        assert(input_ok(v.components, v.body, input));
        assert forall|i: int| 0 <= i < after.connections.len() implies fanout_ok(
            v.components,
            v.body,
            #[trigger] after.connections[i],
        ) by {
            if i < v.connections.len() {
                assert(fanout_ok(v.components, v.body, v.connections[i]));
            }
        }
        assert forall|i: int| 0 <= i < after.wires.len() implies wire_ok(
            v.components,
            v.body,
            #[trigger] after.wires[i],
        ) by {
            if i < v.wires.len() {
                assert(wire_ok(v.components, v.body, v.wires[i]));
            }
        }
    }
}

/// Filtering fan-outs keeps their outputs unique.
proof fn lemma_filter_unique_outputs(s: Seq<FanoutView>, keep: spec_fn(FanoutView) -> bool)
    requires
        unique_outputs(s),
    ensures
        unique_outputs(s.filter(keep)),
    decreases s.len(),
{
    reveal(Seq::filter);
    if s.len() > 0 {
        let front = s.drop_last();
        assert(unique_outputs(front)) by {
            assert forall|i: int, j: int| 0 <= i < j < front.len() implies (
            #[trigger] front[i]).output != (#[trigger] front[j]).output by {
                assert(s[i].output != s[j].output);
            }
        }
        lemma_filter_unique_outputs(front, keep);
        front.filter_lemma(keep);
        let kept = front.filter(keep);
        if keep(s.last()) {
            let all = kept.push(s.last());
            assert forall|i: int, j: int| 0 <= i < j < all.len() implies (#[trigger] all[i]).output
                != (#[trigger] all[j]).output by {
                if j < kept.len() {
                    assert(kept[i].output != kept[j].output);
                } else {
                    assert(kept.contains(kept[i]));
                    front.lemma_filter_contains_rev(keep, kept[i]);
                    let m = choose|m: int| 0 <= m < front.len() && front[m] == kept[i];
                    assert(s[m].output != s[s.len() - 1].output);
                }
            }
        }
    }
}

/// An endpoint on another instance outlives the deletion of an instance.
proof fn lemma_endpoint_outlives(
    components: Map<ComponentId, ComponentView>,
    body: Seq<PlacementView>,
    at: int,
    c: Connection,
)
    requires
        0 <= at < body.len(),
        endpoint_exists(components, body, c),
        c.instance != body[at].instance,
    ensures
        endpoint_exists(components, body.remove(at), c),
{
    let i = choose|i: int| endpoint_at(components, body, c, i);
    if i < at {
        assert(endpoint_at(components, body.remove(at), c, i));
    } else {
        assert(endpoint_at(components, body.remove(at), c, i - 1));
    }
}

/// Deleting an instance keeps the invariant, and the instance is gone.
pub proof fn lemma_remove_wf(v: ProjectView, id: InstanceId)
    requires
        project_wf(v),
    ensures
        project_wf(remove_spec(v, id)),
        !has_instance(remove_spec(v, id).body, id),
{
    if has_instance(v.body, id) {
        let at = instance_index(v.body, id);
        let r = remove_spec(v, id);
        assert(placed_at(v.body, id, at));
        assert forall|i: int, j: int| 0 <= i < j < r.body.len() implies (
        #[trigger] r.body[i]).instance != (#[trigger] r.body[j]).instance by {
            let a = if i < at { i } else { i + 1 };
            let b = if j < at { j } else { j + 1 };
            assert(v.body[a].instance != v.body[b].instance);
        }
        assert forall|i: int| 0 <= i < r.body.len() implies r.components.dom().contains(
            (#[trigger] r.body[i]).component,
        ) by {
            let a = if i < at { i } else { i + 1 };
            assert(v.components.dom().contains(v.body[a].component));
        }
        assert forall|i: int| !placed_at(r.body, id, i) by {
            if 0 <= i < r.body.len() {
                let a = if i < at { i } else { i + 1 };
                if a < at {
                    assert(v.body[a].instance != v.body[at].instance);
                } else {
                    assert(v.body[at].instance != v.body[a].instance);
                }
            }
        }
        let kept = v.connections.filter(keeps_fanout(id));
        lemma_filter_unique_outputs(v.connections, keeps_fanout(id));
        v.connections.filter_lemma(keeps_fanout(id));
        assert forall|i: int, j: int| 0 <= i < j < r.connections.len() implies (
        #[trigger] r.connections[i]).output != (#[trigger] r.connections[j]).output by {
            assert(kept[i].output != kept[j].output);
        }
        assert forall|i: int| 0 <= i < r.connections.len() implies fanout_ok(
            r.components,
            r.body,
            #[trigger] r.connections[i],
        ) by {
            let f = kept[i];
            assert(kept.contains(f));
            v.connections.lemma_filter_contains_rev(keeps_fanout(id), f);
            let m = choose|m: int| 0 <= m < v.connections.len() && v.connections[m] == f;
            assert(fanout_ok(v.components, v.body, v.connections[m]));
            assert(keeps_fanout(id)(f));
            lemma_endpoint_outlives(v.components, v.body, at, f.output);
            let inputs = f.inputs.filter(keeps_endpoint(id));
            f.inputs.filter_lemma(keeps_endpoint(id));
            assert forall|j: int| 0 <= j < inputs.len() implies input_ok(
                r.components,
                r.body,
                #[trigger] inputs[j],
            ) by {
                let c = inputs[j];
                assert(inputs.contains(c));
                f.inputs.lemma_filter_contains_rev(keeps_endpoint(id), c);
                let n = choose|n: int| 0 <= n < f.inputs.len() && f.inputs[n] == c;
                assert(input_ok(v.components, v.body, f.inputs[n]));
                assert(keeps_endpoint(id)(c));
                lemma_endpoint_outlives(v.components, v.body, at, c);
            }
        }
        v.wires.filter_lemma(keeps_wire(id));
        assert forall|i: int| 0 <= i < r.wires.len() implies wire_ok(
            r.components,
            r.body,
            #[trigger] r.wires[i],
        ) by {
            let w = r.wires[i];
            assert(r.wires.contains(w));
            v.wires.lemma_filter_contains_rev(keeps_wire(id), w);
            let m = choose|m: int| 0 <= m < v.wires.len() && v.wires[m] == w;
            assert(wire_ok(v.components, v.body, v.wires[m]));
            assert(keeps_wire(id)(w));
            lemma_endpoint_outlives(v.components, v.body, at, wire_start(w));
            lemma_endpoint_outlives(v.components, v.body, at, wire_end(w));
        }
    } else {
        assert forall|i: int| !placed_at(v.body, id, i) by {}
    }
}

/// In a well-formed project nothing refers to an instance that is not
/// placed: no fan-out is on it or drives it, and no wire touches it.
pub proof fn lemma_unplaced_unreferenced(v: ProjectView, id: InstanceId)
    requires
        project_wf(v),
        !has_instance(v.body, id),
    ensures
        forall|i: int|
            0 <= i < v.connections.len() ==> (#[trigger] v.connections[i]).output.instance != id,
        forall|i: int, j: int|
            0 <= i < v.connections.len() && 0 <= j < v.connections[i].inputs.len() ==> (
            #[trigger] v.connections[i].inputs[j]).instance != id,
        forall|i: int| 0 <= i < v.wires.len() ==> (#[trigger] v.wires[i]).from != id && v.wires[i].to != id,
{
    assert forall|c: Connection| endpoint_exists(v.components, v.body, c) implies c.instance
        != id by {
        let k = choose|k: int| endpoint_at(v.components, v.body, c, k);
        assert(placed_at(v.body, c.instance, k));
    }
    assert forall|i: int| 0 <= i < v.connections.len() implies (
    #[trigger] v.connections[i]).output.instance != id by {
        assert(fanout_ok(v.components, v.body, v.connections[i]));
    }
    assert forall|i: int, j: int|
        0 <= i < v.connections.len() && 0 <= j < v.connections[i].inputs.len() implies (
    #[trigger] v.connections[i].inputs[j]).instance != id by {
        assert(fanout_ok(v.components, v.body, v.connections[i]));
        assert(input_ok(v.components, v.body, v.connections[i].inputs[j]));
    }
    assert forall|i: int| 0 <= i < v.wires.len() implies (#[trigger] v.wires[i]).from != id
        && v.wires[i].to != id by {
        assert(wire_ok(v.components, v.body, v.wires[i]));
        assert(wire_start(v.wires[i]).instance == v.wires[i].from);
        assert(wire_end(v.wires[i]).instance == v.wires[i].to);
    }
}

/// Deleting an instance is thorough: afterwards the instance is not placed,
/// and nothing refers to it any more.
pub proof fn lemma_remove_cascades(v: ProjectView, id: InstanceId)
    requires
        project_wf(v),
    ensures
        ({
            let after = remove_spec(v, id);
            &&& !has_instance(after.body, id)
            &&& forall|i: int|
                0 <= i < after.connections.len() ==> (#[trigger] after.connections[i]).output.instance
                    != id
            &&& forall|i: int, j: int|
                0 <= i < after.connections.len() && 0 <= j < after.connections[i].inputs.len() ==> (
                #[trigger] after.connections[i].inputs[j]).instance != id
            &&& forall|i: int|
                0 <= i < after.wires.len() ==> (#[trigger] after.wires[i]).from != id
                    && after.wires[i].to != id
        }),
{
    lemma_remove_wf(v, id);
    lemma_unplaced_unreferenced(remove_spec(v, id), id);
}

/// A registry made of a list of templates holds the ids of the list, each
/// template under its own id.
pub proof fn lemma_registry_ids(templates: Seq<ComponentView>)
    ensures
        forall|id: ComponentId| #[trigger]
            registry_of(templates).dom().contains(id) <==> exists|i: int|
                0 <= i < templates.len() && (#[trigger] templates[i]).id == id,
        forall|id: ComponentId|
            registry_of(templates).dom().contains(id) ==> (#[trigger] registry_of(
                templates,
            )[id]).id == id,
    decreases templates.len(),
{
    if templates.len() > 0 {
        let front = templates.drop_last();
        lemma_registry_ids(front);
        assert forall|id: ComponentId| #[trigger]
            registry_of(templates).dom().contains(id) <==> exists|i: int|
                0 <= i < templates.len() && (#[trigger] templates[i]).id == id by {
            if registry_of(templates).dom().contains(id) {
                if id == templates.last().id {
                    assert(templates[templates.len() - 1].id == id);
                } else {
                    assert(registry_of(front).dom().contains(id));
                    let i = choose|i: int| 0 <= i < front.len() && (#[trigger] front[i]).id == id;
                    assert(templates[i].id == id);
                }
            }
            if exists|i: int| 0 <= i < templates.len() && (#[trigger] templates[i]).id == id {
                let i = choose|i: int| 0 <= i < templates.len() && (#[trigger] templates[i]).id == id;
                if i < front.len() {
                    assert(front[i].id == id);
                }
            }
        }
    }
}

/// A wire gesture gives the same project whichever of its two endpoints was
/// pressed first.
pub proof fn lemma_connect_symmetric(v: ProjectView, a: Connection, b: Connection)
    ensures
        connectable(v, a, b) == connectable(v, b, a),
        connect_spec(v, a, b) == connect_spec(v, b, a),
{
}

/// Two inputs, or two outputs, make no connection and leave the project as
/// it was.
pub proof fn lemma_connect_rejects(v: ProjectView, a: Connection, b: Connection)
    requires
        (a.terminal is Input) == (b.terminal is Input),
    ensures
        !connectable(v, a, b),
        connect_spec(v, a, b) == v,
{
}

/// An endpoint on an instance that is not placed makes no connection.
pub proof fn lemma_connect_needs_instances(v: ProjectView, a: Connection, b: Connection)
    requires
        !has_instance(v.body, a.instance) || !has_instance(v.body, b.instance),
    ensures
        !connectable(v, a, b),
        connect_spec(v, a, b) == v,
{
    if endpoint_exists(v.components, v.body, a) {
        let i = choose|i: int| endpoint_at(v.components, v.body, a, i);
        assert(placed_at(v.body, a.instance, i));
    }
    if endpoint_exists(v.components, v.body, b) {
        let i = choose|i: int| endpoint_at(v.components, v.body, b, i);
        assert(placed_at(v.body, b.instance, i));
    }
}

/// A connection changes nothing but what its output drives and the wires:
/// the templates and the placements stay, and so does what every other
/// output drives.
pub proof fn lemma_connect_frame(v: ProjectView, a: Connection, b: Connection, other: Connection)
    requires
        project_wf(v),
        resolve_spec(a, b) matches Some((_, output)) ==> other != output,
    ensures
        connect_spec(v, a, b).components == v.components,
        connect_spec(v, a, b).body == v.body,
        driven_by(connect_spec(v, a, b).connections, other) == driven_by(v.connections, other),
{
    if connectable(v, a, b) {
        let (input, output) = resolve_spec(a, b).unwrap();
        lemma_link_driven(v.connections, output, input);
    }
}

/// Connecting one output to two inputs, one after the other, appends both to
/// what the output drives, in that order, and draws one wire for each.
/// Nothing is merged: this holds also where the two inputs are the same.
pub proof fn lemma_fan_out(v: ProjectView, output: Connection, first: Connection, second: Connection)
    requires
        project_wf(v),
        output.terminal is Output,
        first.terminal is Input,
        second.terminal is Input,
        endpoint_exists(v.components, v.body, output),
        endpoint_exists(v.components, v.body, first),
        endpoint_exists(v.components, v.body, second),
    ensures
        ({
            let after = connect_spec(connect_spec(v, output, first), output, second);
            &&& driven_by(after.connections, output) == driven_by(v.connections, output).push(
                first,
            ).push(second)
            &&& after.wires == v.wires.push(wire_between(output, first)).push(
                wire_between(output, second),
            )
            &&& after.body == v.body
            &&& after.components == v.components
        }),
{
    let middle = connect_spec(v, output, first);
    assert(connectable(v, output, first));
    lemma_link_driven(v.connections, output, first);
    assert(connectable(middle, output, second));
    lemma_link_driven(middle.connections, output, second);
}

} // verus!
