//! The circuit graph: templates, placed instances, signal connections and wires.
//!
//! A `Project` is always well formed: whatever is built or changed through
//! this module keeps the invariant of the model.

use crate::component::labels_view;
use crate::component::Component;
use crate::component::ComponentDriver;
use crate::component::ComponentView;
use crate::connection::ComponentId;
use crate::connection::Connection;
use crate::connection::InstanceId;
use crate::connection::Terminal;
use crate::coord::Coord;
use crate::coord::Scalar;
use crate::coord::ONE_BITS;
use crate::coord::TWO_BITS;
use crate::error::GraphError;
use crate::graph::connect_spec;
use crate::graph::connectable;
use crate::graph::default_view;
use crate::graph::driven_by;
use crate::graph::drives_at;
use crate::graph::endpoint_at;
use crate::graph::endpoint_exists;
use crate::graph::fanout_ok;
use crate::graph::fanouts_ok;
use crate::graph::has_fanout;
use crate::graph::has_instance;
use crate::graph::input_ok;
use crate::graph::instance_index;
use crate::graph::keeps_endpoint;
use crate::graph::keeps_fanout;
use crate::graph::keeps_wire;
use crate::graph::lemma_connect_wf;
use crate::graph::lemma_default_wf;
use crate::graph::lemma_fanout_index;
use crate::graph::lemma_instance_index;
use crate::graph::lemma_move_wf;
use crate::graph::lemma_place_wf;
use crate::graph::lemma_registry_ids;
use crate::graph::lemma_remove_wf;
use crate::graph::move_spec;
use crate::graph::parts_check;
use crate::graph::parts_view;
use crate::graph::place_check;
use crate::graph::place_spec;
use crate::graph::placed_at;
use crate::graph::project_wf;
use crate::graph::pruned;
use crate::graph::registry_of;
use crate::graph::remove_spec;
use crate::graph::templates_exist;
use crate::graph::unique_ids;
use crate::graph::unique_instances;
use crate::graph::unique_outputs;
use crate::graph::wire_end;
use crate::graph::wire_ok;
use crate::graph::wire_start;
use crate::graph::wires_ok;
use crate::graph::FanoutView;
use crate::graph::PlacementView;
use crate::graph::ProjectView;
use crate::graph::WireView;
use crate::resolver::resolve;
use std::collections::HashMap;
use vstd::prelude::*;
use vstd::string::StringExecFns;

verus! {

/// One instance of a template on the canvas.
#[derive(Debug, Clone)]
pub struct Placement {
    pub component: ComponentId,
    pub instance: InstanceId,
    pub label: Option<String>,
    pub pos: Coord,
    pub orientation: Scalar,
}

/// A drawn edge from a terminal of one instance to a terminal of another,
/// by way of the points in between.
#[derive(Debug, Clone)]
pub struct Wire {
    pub from: InstanceId,
    pub from_terminal: Terminal,
    pub points: Vec<Coord>,
    pub to: InstanceId,
    pub to_terminal: Terminal,
}

/// An output endpoint with the input endpoints that it drives, in the order
/// in which they were connected.
#[derive(Debug, Clone)]
pub struct Fanout {
    pub output: Connection,
    pub inputs: Vec<Connection>,
}

/// The whole circuit.
pub struct Project {
    components: HashMap<ComponentId, Component>,
    body: Vec<Placement>,
    connections: Vec<Fanout>,
    wires: Vec<Wire>,
}

impl View for Placement {
    type V = PlacementView;

    open spec fn view(&self) -> PlacementView {
        PlacementView {
            component: self.component,
            instance: self.instance,
            label: match self.label {
                Some(l) => Some(l@),
                None => None,
            },
            pos: self.pos,
            orientation: self.orientation,
        }
    }
}

impl View for Wire {
    type V = WireView;

    open spec fn view(&self) -> WireView {
        WireView {
            from: self.from,
            from_terminal: self.from_terminal,
            points: self.points@,
            to: self.to,
            to_terminal: self.to_terminal,
        }
    }
}

impl View for Fanout {
    type V = FanoutView;

    open spec fn view(&self) -> FanoutView {
        FanoutView { output: self.output, inputs: self.inputs@ }
    }
}

/// What a list of placements holds.
pub open spec fn placements_view(s: Seq<Placement>) -> Seq<PlacementView> {
    s.map_values(|p: Placement| p@)
}

/// What a list of wires holds.
pub open spec fn wires_view(s: Seq<Wire>) -> Seq<WireView> {
    s.map_values(|w: Wire| w@)
}

/// What a list of fan-outs holds.
pub open spec fn fanouts_view(s: Seq<Fanout>) -> Seq<FanoutView> {
    s.map_values(|f: Fanout| f@)
}

/// What a list of templates holds.
pub open spec fn templates_view(s: Seq<Component>) -> Seq<ComponentView> {
    s.map_values(|c: Component| c@)
}

/// What a registry of templates holds.
pub open spec fn components_view(m: Map<ComponentId, Component>) -> Map<
    ComponentId,
    ComponentView,
> {
    m.map_values(|c: Component| c@)
}

impl View for Project {
    type V = ProjectView;

    closed spec fn view(&self) -> ProjectView {
        ProjectView {
            components: components_view(self.components@),
            body: placements_view(self.body@),
            connections: fanouts_view(self.connections@),
            wires: wires_view(self.wires@),
        }
    }
}

/// Filtering one element more either appends it or changes nothing.
proof fn lemma_filter_step<A>(s: Seq<A>, keep: spec_fn(A) -> bool, k: int)
    requires
        0 <= k < s.len(),
    ensures
        s.subrange(0, k + 1).filter(keep) == if keep(s[k]) {
            s.subrange(0, k).filter(keep).push(s[k])
        } else {
            s.subrange(0, k).filter(keep)
        },
{
    reveal(Seq::filter);
    assert(s.subrange(0, k + 1).drop_last() =~= s.subrange(0, k));
}

/// A list of one label.
fn one_label(a: &str) -> (r: Vec<String>)
    ensures
        labels_view(r@) == seq![a@],
{
    let mut r: Vec<String> = Vec::new();
    r.push(String::from_str(a));
    assert(labels_view(r@) =~= seq![a@]);
    r
}

/// A list of two labels.
fn two_labels(a: &str, b: &str) -> (r: Vec<String>)
    ensures
        labels_view(r@) == seq![a@, b@],
{
    let mut r: Vec<String> = Vec::new();
    r.push(String::from_str(a));
    r.push(String::from_str(b));
    assert(labels_view(r@) =~= seq![a@, b@]);
    r
}

/// A list of no label.
fn no_label() -> (r: Vec<String>)
    ensures
        labels_view(r@) == Seq::<Seq<char>>::empty(),
{
    let r: Vec<String> = Vec::new();
    assert(labels_view(r@) =~= Seq::<Seq<char>>::empty());
    r
}

/// A placement of `component` as `instance`, labelled and not rotated, at
/// the point whose axes have the given bits.
fn placed(component: ComponentId, instance: InstanceId, label: &str, x: u64, y: u64) -> (r:
    Placement)
    ensures
        r@ == (PlacementView {
            component,
            instance,
            label: Some(label@),
            pos: Coord(Scalar { bits: x }, Scalar { bits: y }),
            orientation: Scalar { bits: 0 },
        }),
{
    Placement {
        component,
        instance,
        label: Some(String::from_str(label)),
        pos: Coord::from_bits(x, y),
        orientation: Scalar::from_bits(0),
    }
}

/// The position in `body` of the instance `instance`.
fn find_placement(body: &Vec<Placement>, instance: InstanceId) -> (r: Option<usize>)
    ensures
        match r {
            Some(i) => placed_at(placements_view(body@), instance, i as int),
            None => !has_instance(placements_view(body@), instance),
        },
{
    let mut i: usize = 0;
    while i < body.len()
        invariant
            i <= body.len(),
            forall|j: int| 0 <= j < i ==> !placed_at(placements_view(body@), instance, j),
        decreases body.len() - i,
    {
        if body[i].instance == instance {
            return Some(i);
        }
        i = i + 1;
    }
    None
}

/// The position in `connections` of the fan-out of `output`.
fn find_fanout(connections: &Vec<Fanout>, output: Connection) -> (r: Option<usize>)
    ensures
        match r {
            Some(i) => drives_at(fanouts_view(connections@), output, i as int),
            None => !has_fanout(fanouts_view(connections@), output),
        },
{
    let mut i: usize = 0;
    while i < connections.len()
        invariant
            i <= connections.len(),
            forall|j: int| 0 <= j < i ==> !drives_at(fanouts_view(connections@), output, j),
        decreases connections.len() - i,
    {
        if connections[i].output == output {
            return Some(i);
        }
        i = i + 1;
    }
    None
}

/// Whether `c` refers to an existing terminal of a placed instance, among
/// placements of unique instances.
fn endpoint_check(
    components: &HashMap<ComponentId, Component>,
    body: &Vec<Placement>,
    c: Connection,
) -> (r: bool)
    requires
        unique_instances(placements_view(body@)),
    ensures
        r == endpoint_exists(components_view(components@), placements_view(body@), c),
{
    let ghost templates = components_view(components@);
    let ghost placements = placements_view(body@);
    let i = match find_placement(body, c.instance) {
        Some(i) => i,
        None => {
            assert forall|j: int| !endpoint_at(templates, placements, c, j) by {
                assert(!placed_at(placements, c.instance, j));
            }
            return false;
        },
    };
    proof {
        assert forall|j: int| endpoint_at(templates, placements, c, j) implies j == i by {
            lemma_instance_index(placements, c.instance, j);
            lemma_instance_index(placements, c.instance, i as int);
        }
    }
    let found = match components.get(&body[i].component) {
        Some(template) => match c.terminal {
            Terminal::Input(k) => k < template.inputs.len() as u64,
            Terminal::Output(k) => k < template.outputs.len() as u64,
        },
        None => false,
    };
    assert(found == endpoint_at(templates, placements, c, i as int));
    found
}

/// Whether no two placements have the same instance id.
fn instances_unique(body: &Vec<Placement>) -> (r: bool)
    ensures
        r == unique_instances(placements_view(body@)),
{
    let ghost all = placements_view(body@);
    let mut j: usize = 0;
    while j < body.len()
        invariant
            j <= body.len(),
            all == placements_view(body@),
            unique_instances(all.subrange(0, j as int)),
        decreases body.len() - j,
    {
        let mut i: usize = 0;
        while i < j
            invariant
                i <= j < body.len(),
                all == placements_view(body@),
                forall|k: int| 0 <= k < i ==> (#[trigger] all[k]).instance != all[j as int].instance,
            decreases j - i,
        {
            if body[i].instance == body[j].instance {
                assert(all[i as int].instance == all[j as int].instance);
                return false;
            }
            i = i + 1;
        }
        proof {
            let next = all.subrange(0, j + 1);
            let front = all.subrange(0, j as int);
            assert forall|a: int, b: int| 0 <= a < b < next.len() implies (
            #[trigger] next[a]).instance != (#[trigger] next[b]).instance by {
                if b < j {
                    assert(front[a].instance != front[b].instance);
                } else {
                    assert(all[a].instance != all[j as int].instance);
                }
            }
        }
        j = j + 1;
    }
    assert(all.subrange(0, j as int) =~= all);
    true
}

/// Whether no two fan-outs have the same output.
fn outputs_unique(connections: &Vec<Fanout>) -> (r: bool)
    ensures
        r == unique_outputs(fanouts_view(connections@)),
{
    let ghost all = fanouts_view(connections@);
    let mut j: usize = 0;
    while j < connections.len()
        invariant
            j <= connections.len(),
            all == fanouts_view(connections@),
            unique_outputs(all.subrange(0, j as int)),
        decreases connections.len() - j,
    {
        let mut i: usize = 0;
        while i < j
            invariant
                i <= j < connections.len(),
                all == fanouts_view(connections@),
                forall|k: int| 0 <= k < i ==> (#[trigger] all[k]).output != all[j as int].output,
            decreases j - i,
        {
            if connections[i].output == connections[j].output {
                assert(all[i as int].output == all[j as int].output);
                return false;
            }
            i = i + 1;
        }
        proof {
            let next = all.subrange(0, j + 1);
            let front = all.subrange(0, j as int);
            assert forall|a: int, b: int| 0 <= a < b < next.len() implies (
            #[trigger] next[a]).output != (#[trigger] next[b]).output by {
                if b < j {
                    assert(front[a].output != front[b].output);
                } else {
                    assert(all[a].output != all[j as int].output);
                }
            }
        }
        j = j + 1;
    }
    assert(all.subrange(0, j as int) =~= all);
    true
}

/// Whether every placement refers to a template.
fn templates_resolve(components: &HashMap<ComponentId, Component>, body: &Vec<Placement>) -> (r:
    bool)
    ensures
        r == templates_exist(components_view(components@), placements_view(body@)),
{
    let ghost templates = components_view(components@);
    let ghost all = placements_view(body@);
    let mut i: usize = 0;
    while i < body.len()
        invariant
            i <= body.len(),
            templates == components_view(components@),
            all == placements_view(body@),
            forall|k: int| 0 <= k < i ==> templates.dom().contains((#[trigger] all[k]).component),
        decreases body.len() - i,
    {
        if !components.contains_key(&body[i].component) {
            assert(!templates.dom().contains(all[i as int].component));
            return false;
        }
        i = i + 1;
    }
    true
}

/// Whether `fanout` is from an existing output to existing inputs.
fn fanout_check(
    components: &HashMap<ComponentId, Component>,
    body: &Vec<Placement>,
    fanout: &Fanout,
) -> (r: bool)
    requires
        unique_instances(placements_view(body@)),
    ensures
        r == fanout_ok(components_view(components@), placements_view(body@), fanout@),
{
    let ghost templates = components_view(components@);
    let ghost placements = placements_view(body@);
    let is_output = match fanout.output.terminal {
        Terminal::Output(_) => true,
        Terminal::Input(_) => false,
    };
    if !is_output || !endpoint_check(components, body, fanout.output) {
        return false;
    }
    let mut j: usize = 0;
    while j < fanout.inputs.len()
        invariant
            j <= fanout.inputs.len(),
            unique_instances(placements_view(body@)),
            templates == components_view(components@),
            placements == placements_view(body@),
            forall|k: int| 0 <= k < j ==> input_ok(templates, placements, #[trigger] fanout@.inputs[k]),
        decreases fanout.inputs.len() - j,
    {
        let c = fanout.inputs[j];
        let is_input = match c.terminal {
            Terminal::Input(_) => true,
            Terminal::Output(_) => false,
        };
        if !is_input || !endpoint_check(components, body, c) {
            assert(!input_ok(templates, placements, fanout@.inputs[j as int]));
            return false;
        }
        j = j + 1;
    }
    true
}

/// Whether every fan-out is from an existing output to existing inputs.
fn fanouts_resolve(
    components: &HashMap<ComponentId, Component>,
    body: &Vec<Placement>,
    connections: &Vec<Fanout>,
) -> (r: bool)
    requires
        unique_instances(placements_view(body@)),
    ensures
        r == fanouts_ok(
            components_view(components@),
            placements_view(body@),
            fanouts_view(connections@),
        ),
{
    let ghost templates = components_view(components@);
    let ghost placements = placements_view(body@);
    let ghost all = fanouts_view(connections@);
    let mut i: usize = 0;
    while i < connections.len()
        invariant
            i <= connections.len(),
            unique_instances(placements_view(body@)),
            templates == components_view(components@),
            placements == placements_view(body@),
            all == fanouts_view(connections@),
            forall|k: int| 0 <= k < i ==> fanout_ok(templates, placements, #[trigger] all[k]),
        decreases connections.len() - i,
    {
        if !fanout_check(components, body, &connections[i]) {
            assert(!fanout_ok(templates, placements, all[i as int]));
            return false;
        }
        i = i + 1;
    }
    true
}

/// Whether every wire runs between existing terminals.
fn wires_resolve(
    components: &HashMap<ComponentId, Component>,
    body: &Vec<Placement>,
    wires: &Vec<Wire>,
) -> (r: bool)
    requires
        unique_instances(placements_view(body@)),
    ensures
        r == wires_ok(components_view(components@), placements_view(body@), wires_view(wires@)),
{
    let ghost templates = components_view(components@);
    let ghost placements = placements_view(body@);
    let ghost all = wires_view(wires@);
    let mut i: usize = 0;
    while i < wires.len()
        invariant
            i <= wires.len(),
            unique_instances(placements_view(body@)),
            templates == components_view(components@),
            placements == placements_view(body@),
            all == wires_view(wires@),
            forall|k: int| 0 <= k < i ==> wire_ok(templates, placements, #[trigger] all[k]),
        decreases wires.len() - i,
    {
        let wire = &wires[i];
        let start = Connection { instance: wire.from, terminal: wire.from_terminal };
        let end = Connection { instance: wire.to, terminal: wire.to_terminal };
        assert(start == wire_start(all[i as int]));
        assert(end == wire_end(all[i as int]));
        if !endpoint_check(components, body, start) || !endpoint_check(components, body, end) {
            assert(!wire_ok(templates, placements, all[i as int]));
            return false;
        }
        i = i + 1;
    }
    true
}

/// The wires of `wires` that do not touch the instance `id`, in their order.
fn retain_wires(wires: Vec<Wire>, id: InstanceId) -> (r: Vec<Wire>)
    ensures
        wires_view(r@) == wires_view(wires@).filter(keeps_wire(id)),
{
    let ghost all = wires_view(wires@);
    let mut out: Vec<Wire> = Vec::new();
    let ghost mut k: int = 0;
    assert(all.subrange(0, 0).filter(keeps_wire(id)) =~= Seq::<WireView>::empty()) by {
        reveal(Seq::filter);
    }
    for w in it: wires.into_iter()
        invariant
            it.seq() == wires@,
            all == wires_view(wires@),
            k == it.index(),
            wires_view(out@) == all.subrange(0, k).filter(keeps_wire(id)),
    {
        proof {
            lemma_filter_step(all, keeps_wire(id), k);
            assert(all[k] == w@);
        }
        let ghost before = wires_view(out@);
        if w.from != id && w.to != id {
            out.push(w);
            assert(wires_view(out@) =~= before.push(w@));
        }
        proof {
            k = k + 1;
        }
    }
    assert(all.subrange(0, k) =~= all);
    out
}

/// The endpoints of `inputs` that are not on the instance `id`, in their order.
fn retain_endpoints(inputs: &Vec<Connection>, id: InstanceId) -> (r: Vec<Connection>)
    ensures
        r@ == inputs@.filter(keeps_endpoint(id)),
{
    let mut out: Vec<Connection> = Vec::new();
    let mut k: usize = 0;
    assert(inputs@.subrange(0, 0).filter(keeps_endpoint(id)) =~= Seq::<Connection>::empty()) by {
        reveal(Seq::filter);
    }
    while k < inputs.len()
        invariant
            k <= inputs.len(),
            out@ == inputs@.subrange(0, k as int).filter(keeps_endpoint(id)),
        decreases inputs.len() - k,
    {
        proof {
            lemma_filter_step(inputs@, keeps_endpoint(id), k as int);
        }
        let c = inputs[k];
        if c.instance != id {
            out.push(c);
        }
        k = k + 1;
    }
    assert(inputs@.subrange(0, k as int) =~= inputs@);
    out
}

/// The fan-outs of `connections` whose output is not on the instance `id`,
/// each without its inputs on that instance, in their order.
fn prune_fanouts(connections: Vec<Fanout>, id: InstanceId) -> (r: Vec<Fanout>)
    ensures
        fanouts_view(r@) == fanouts_view(connections@).filter(keeps_fanout(id)).map_values(
            pruned(id),
        ),
{
    let ghost all = fanouts_view(connections@);
    let mut out: Vec<Fanout> = Vec::new();
    let ghost mut k: int = 0;
    assert(all.subrange(0, 0).filter(keeps_fanout(id)) =~= Seq::<FanoutView>::empty()) by {
        reveal(Seq::filter);
    }
    assert(fanouts_view(out@) =~= all.subrange(0, 0).filter(keeps_fanout(id)).map_values(
        pruned(id),
    ));
    for f in it: connections.into_iter()
        invariant
            it.seq() == connections@,
            all == fanouts_view(connections@),
            k == it.index(),
            fanouts_view(out@) == all.subrange(0, k).filter(keeps_fanout(id)).map_values(
                pruned(id),
            ),
    {
        proof {
            lemma_filter_step(all, keeps_fanout(id), k);
            assert(all[k] == f@);
        }
        let ghost before = fanouts_view(out@);
        let ghost kept = all.subrange(0, k).filter(keeps_fanout(id));
        if f.output.instance != id {
            let inputs = retain_endpoints(&f.inputs, id);
            out.push(Fanout { output: f.output, inputs });
            assert(fanouts_view(out@) =~= before.push(pruned(id)(f@)));
            assert(kept.push(f@).map_values(pruned(id)) =~= before.push(pruned(id)(f@)));
        }
        proof {
            k = k + 1;
        }
    }
    assert(all.subrange(0, k) =~= all);
    out
}

impl Project {
    /// The invariant of the model holds of every project.
    #[verifier::type_invariant]
    pub open spec fn wf(&self) -> bool {
        project_wf(self@)
    }

    /// A project that holds nothing at all.
    fn blank() -> (r: Self)
        ensures
            r@.body.len() == 0,
    {
        let r = Project {
            components: HashMap::new(),
            body: Vec::new(),
            connections: Vec::new(),
            wires: Vec::new(),
        };
        r
    }

    /// The project that an editor starts with.
    pub fn empty() -> (r: Self)
        ensures
            r@ == default_view(),
    {
        let mut components: HashMap<ComponentId, Component> = HashMap::new();
        components.insert(
            0,
            Component {
                id: 0,
                name: String::from_str("not"),
                inputs: one_label("q"),
                outputs: one_label("q!"),
                driver: ComponentDriver::truth(vec![(0, 1), (1, 0)]),
            },
        );
        components.insert(
            1,
            Component {
                id: 1,
                name: String::from_str("and"),
                inputs: two_labels("a", "b"),
                outputs: one_label("and"),
                driver: ComponentDriver::truth(vec![(0, 0), (1, 0), (2, 0), (3, 1)]),
            },
        );
        components.insert(
            2,
            Component {
                id: 2,
                name: String::from_str("or"),
                inputs: two_labels("a", "b"),
                outputs: one_label("or"),
                driver: ComponentDriver::truth(vec![(0, 0), (1, 1), (2, 1), (3, 1)]),
            },
        );
        components.insert(
            3,
            Component {
                id: 3,
                name: String::from_str("input"),
                inputs: no_label(),
                outputs: one_label("q"),
                driver: ComponentDriver::Input,
            },
        );
        components.insert(
            4,
            Component {
                id: 4,
                name: String::from_str("output"),
                inputs: one_label("q"),
                outputs: no_label(),
                driver: ComponentDriver::Output,
            },
        );
        let mut body: Vec<Placement> = Vec::new();
        body.push(placed(3, 0, "Input", 0, 0));
        body.push(placed(4, 1, "Output", 0, ONE_BITS));
        body.push(placed(1, 2, "And", TWO_BITS, 0));
        let connections: Vec<Fanout> = Vec::new();
        let wires: Vec<Wire> = Vec::new();
        proof {
            assert(components_view(components@) =~= default_view().components);
            assert(placements_view(body@) =~= default_view().body);
            assert(fanouts_view(connections@) =~= default_view().connections);
            assert(wires_view(wires@) =~= default_view().wires);
            lemma_default_wf();
        }
        Project { components, body, connections, wires }
    }

    /// The project made of the given templates, placements, fan-outs and
    /// wires, each list in its order.
    ///
    /// Refused with `DuplicateId` where two templates, two placements or two
    /// fan-outs have the same key, and otherwise with `DanglingReference`
    /// where the parts do not keep the invariant of a project.
    pub fn from_parts(
        templates: Vec<Component>,
        body: Vec<Placement>,
        connections: Vec<Fanout>,
        wires: Vec<Wire>,
    ) -> (r: Result<Self, GraphError>)
        ensures
            r is Ok == parts_check(
                templates_view(templates@),
                placements_view(body@),
                fanouts_view(connections@),
                wires_view(wires@),
            ) is Ok,
            r matches Ok(p) ==> p@ == parts_view(
                templates_view(templates@),
                placements_view(body@),
                fanouts_view(connections@),
                wires_view(wires@),
            ),
            r matches Err(e) ==> parts_check(
                templates_view(templates@),
                placements_view(body@),
                fanouts_view(connections@),
                wires_view(wires@),
            ) == Err::<(), GraphError>(e),
    {
        let ghost all = templates_view(templates@);
        let mut components: HashMap<ComponentId, Component> = HashMap::new();
        let ghost mut k: int = 0;
        assert(components_view(components@) =~= registry_of(all.subrange(0, 0)));
        for template in it: templates.into_iter()
            invariant
                it.seq() == templates@,
                all == templates_view(templates@),
                k == it.index(),
                components_view(components@) == registry_of(all.subrange(0, k)),
                unique_ids(all.subrange(0, k)),
        {
            let ghost front = all.subrange(0, k);
            let ghost next = all.subrange(0, k + 1);
            proof {
                lemma_registry_ids(front);
                assert(next.drop_last() =~= front);
                assert(next.last() == template@);
            }
            if components.contains_key(&template.id) {
                proof {
                    assert(registry_of(front).dom().contains(template.id));
                    let i = choose|i: int| 0 <= i < front.len() && (#[trigger] front[i]).id
                        == template.id;
                    assert(all[i].id == all[k].id);
                }
                return Err(GraphError::DuplicateId);
            }
            proof {
                assert forall|a: int, b: int| 0 <= a < b < next.len() implies (
                #[trigger] next[a]).id != (#[trigger] next[b]).id by {
                    if b < k {
                        assert(front[a].id != front[b].id);
                    } else if front[a].id == template.id {
                        assert(registry_of(front).dom().contains(template.id));
                    }
                }
            }
            let ghost before = components@;
            components.insert(template.id, template);
            proof {
                assert(components_view(components@) =~= components_view(before).insert(
                    template.id,
                    template@,
                ));
                k = k + 1;
            }
        }
        assert(all.subrange(0, k) =~= all);
        proof {
            lemma_registry_ids(all);
        }
        if !instances_unique(&body) || !outputs_unique(&connections) {
            return Err(GraphError::DuplicateId);
        }
        if !templates_resolve(&components, &body) || !fanouts_resolve(
            &components,
            &body,
            &connections,
        ) || !wires_resolve(&components, &body, &wires) {
            return Err(GraphError::DanglingReference);
        }
        Ok(Project { components, body, connections, wires })
    }

    /// The registry of templates.
    pub fn components(&self) -> (r: &HashMap<ComponentId, Component>)
        ensures
            components_view(r@) == self@.components,
    {
        &self.components
    }

    /// The placements, in the order in which they were placed.
    pub fn body(&self) -> (r: &Vec<Placement>)
        ensures
            placements_view(r@) == self@.body,
    {
        &self.body
    }

    /// The fan-outs, in the order in which their outputs were first connected.
    pub fn connections(&self) -> (r: &Vec<Fanout>)
        ensures
            fanouts_view(r@) == self@.connections,
    {
        &self.connections
    }

    /// The wires, in the order in which they were drawn.
    pub fn wires(&self) -> (r: &Vec<Wire>)
        ensures
            wires_view(r@) == self@.wires,
    {
        &self.wires
    }

    /// The placement of the instance `instance`, where it is placed.
    pub fn placement(&self, instance: InstanceId) -> (r: Option<&Placement>)
        ensures
            r is Some == has_instance(self@.body, instance),
            r matches Some(p) ==> p@ == self@.body[instance_index(self@.body, instance)],
    {
        proof {
            use_type_invariant(self);
        }
        match find_placement(&self.body, instance) {
            Some(i) => {
                proof {
                    lemma_instance_index(self@.body, instance, i as int);
                }
                Some(&self.body[i])
            },
            None => None,
        }
    }

    /// The template `component`, where it exists.
    pub fn component(&self, component: ComponentId) -> (r: Option<&Component>)
        ensures
            r is Some == self@.components.dom().contains(component),
            r matches Some(c) ==> c@ == self@.components[component],
    {
        self.components.get(&component)
    }

    /// The inputs that `output` drives, in the order in which they were
    /// connected, where it has a fan-out.
    pub fn driven_by(&self, output: Connection) -> (r: Option<&Vec<Connection>>)
        ensures
            r is Some == has_fanout(self@.connections, output),
            r matches Some(inputs) ==> inputs@ == driven_by(self@.connections, output),
    {
        proof {
            use_type_invariant(self);
        }
        match find_fanout(&self.connections, output) {
            Some(i) => {
                proof {
                    lemma_fanout_index(self@.connections, output, i as int);
                }
                Some(&self.connections[i].inputs)
            },
            None => None,
        }
    }

    /// Whether `c` refers to an existing terminal of a placed instance.
    pub fn has_endpoint(&self, c: Connection) -> (r: bool)
        ensures
            r == endpoint_exists(self@.components, self@.body, c),
    {
        proof {
            use_type_invariant(self);
        }
        endpoint_check(&self.components, &self.body, c)
    }

    /// Adds a placement at the end of the body.
    ///
    /// Refused with `DanglingReference` where the template of the placement
    /// does not exist, and with `DuplicateId` where its instance id is taken;
    /// the project is then left as it was.
    pub fn place(&mut self, placement: Placement) -> (r: Result<(), GraphError>)
        ensures
            r == place_check(old(self)@, placement@),
            r is Ok ==> final(self)@ == place_spec(old(self)@, placement@),
            r is Err ==> final(self)@ == old(self)@,
    {
        proof {
            use_type_invariant(&*self);
        }
        if !self.components.contains_key(&placement.component) {
            return Err(GraphError::DanglingReference);
        }
        if find_placement(&self.body, placement.instance).is_some() {
            return Err(GraphError::DuplicateId);
        }
        let ghost before = self@;
        let mut taken = Project::blank();
        core::mem::swap(self, &mut taken);
        let Project { components, mut body, connections, wires } = taken;
        body.push(placement);
        proof {
            assert(placements_view(body@) =~= before.body.push(placement@));
            lemma_place_wf(before, placement@);
        }
        *self = Project { components, body, connections, wires };
        Ok(())
    }

    /// Moves the instance `instance` to `pos`. Gives `false`, and changes
    /// nothing, where there is no such instance.
    pub fn move_instance(&mut self, instance: InstanceId, pos: Coord) -> (r: bool)
        ensures
            r == has_instance(old(self)@.body, instance),
            final(self)@ == move_spec(old(self)@, instance, pos),
    {
        proof {
            use_type_invariant(&*self);
        }
        let at = match find_placement(&self.body, instance) {
            Some(at) => at,
            None => {
                return false;
            },
        };
        let ghost before = self@;
        let mut taken = Project::blank();
        core::mem::swap(self, &mut taken);
        let Project { components, mut body, connections, wires } = taken;
        body[at].pos = pos;
        proof {
            lemma_instance_index(before.body, instance, at as int);
            assert(placements_view(body@) =~= move_spec(before, instance, pos).body);
            lemma_move_wf(before, instance, pos);
        }
        *self = Project { components, body, connections, wires };
        true
    }

    /// Folds a wire gesture from `first` to `second` into the graph.
    ///
    /// Where one endpoint is an input and the other an output, in either
    /// order, and both are existing terminals of placed instances, the input
    /// is appended to what the output drives and a wire is drawn from the
    /// output to the input. Otherwise nothing changes and the result is
    /// `false`; no error is raised.
    pub fn connect(&mut self, first: Connection, second: Connection) -> (r: bool)
        ensures
            r == connectable(old(self)@, first, second),
            final(self)@ == connect_spec(old(self)@, first, second),
    {
        proof {
            use_type_invariant(&*self);
        }
        let (input, output) = match resolve(first, second) {
            Some(pair) => pair,
            None => {
                return false;
            },
        };
        if !endpoint_check(&self.components, &self.body, first) || !endpoint_check(
            &self.components,
            &self.body,
            second,
        ) {
            return false;
        }
        let ghost before = self@;
        let mut taken = Project::blank();
        core::mem::swap(self, &mut taken);
        let Project { components, body, mut connections, mut wires } = taken;
        match find_fanout(&connections, output) {
            Some(i) => {
                proof {
                    lemma_fanout_index(before.connections, output, i as int);
                }
                connections[i].inputs.push(input);
            },
            None => {
                let mut inputs: Vec<Connection> = Vec::new();
                inputs.push(input);
                connections.push(Fanout { output, inputs });
            },
        }
        wires.push(
            Wire {
                from: output.instance,
                from_terminal: output.terminal,
                points: Vec::new(),
                to: input.instance,
                to_terminal: input.terminal,
            },
        );
        proof {
            let goal = connect_spec(before, first, second);
            assert(fanouts_view(connections@) =~= goal.connections);
            assert(wires_view(wires@) =~= goal.wires);
            lemma_connect_wf(before, first, second);
        }
        *self = Project { components, body, connections, wires };
        true
    }

    /// Deletes the placed instance `instance`, with every connection and
    /// every wire that refers to it. Gives `false`, and changes nothing,
    /// where there is no such instance.
    pub fn remove_instance(&mut self, instance: InstanceId) -> (r: bool)
        ensures
            r == has_instance(old(self)@.body, instance),
            final(self)@ == remove_spec(old(self)@, instance),
            !has_instance(final(self)@.body, instance),
    {
        proof {
            use_type_invariant(&*self);
            lemma_remove_wf(self@, instance);
        }
        let at = match find_placement(&self.body, instance) {
            Some(at) => at,
            None => {
                return false;
            },
        };
        let ghost before = self@;
        let mut taken = Project::blank();
        core::mem::swap(self, &mut taken);
        let Project { components, mut body, connections, wires } = taken;
        body.remove(at);
        let connections = prune_fanouts(connections, instance);
        let wires = retain_wires(wires, instance);
        proof {
            lemma_instance_index(before.body, instance, at as int);
            assert(placements_view(body@) =~= remove_spec(before, instance).body);
        }
        *self = Project { components, body, connections, wires };
        true
    }
}

} // verus!
