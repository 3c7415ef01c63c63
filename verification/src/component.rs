//! Component templates: the reusable definitions that instances are placed from.

use crate::connection::ComponentId;
use std::collections::HashMap;
use vstd::prelude::*;

verus! {

/// A reference to an external script that drives a component.
#[derive(Debug)]
pub struct Script {
    pub script: String,
}

/// One link inside a nested subcircuit: from a named terminal of one
/// template to a named terminal of another.
#[derive(Debug)]
pub struct SubLink {
    pub from: ComponentId,
    pub from_terminal: String,
    pub to: ComponentId,
    pub to_terminal: String,
}

/// What determines the outputs of a component.
#[derive(Debug)]
pub enum ComponentDriver {
    /// A table from the bit pattern of the inputs to that of the outputs.
    TruthTable { truth: HashMap<u64, u64> },
    /// A nested subcircuit, given by its links.
    Subcomponent { connections: Vec<SubLink> },
    /// An external script.
    Script { script: Script },
    /// A primary input pin.
    Input,
    /// A primary output pin.
    Output,
}

/// A component template.
#[derive(Debug)]
pub struct Component {
    pub id: ComponentId,
    pub name: String,
    pub inputs: Vec<String>,
    pub outputs: Vec<String>,
    pub driver: ComponentDriver,
}

/// What a link of a subcircuit holds.
pub struct SubLinkView {
    pub from: ComponentId,
    pub from_terminal: Seq<char>,
    pub to: ComponentId,
    pub to_terminal: Seq<char>,
}

/// What a driver holds.
pub enum DriverView {
    TruthTable { truth: Map<u64, u64> },
    Subcomponent { connections: Seq<SubLinkView> },
    Script { script: Seq<char> },
    Input,
    Output,
}

/// What a template holds.
pub struct ComponentView {
    pub id: ComponentId,
    pub name: Seq<char>,
    pub inputs: Seq<Seq<char>>,
    pub outputs: Seq<Seq<char>>,
    pub driver: DriverView,
}

impl View for SubLink {
    type V = SubLinkView;

    open spec fn view(&self) -> SubLinkView {
        SubLinkView {
            from: self.from,
            from_terminal: self.from_terminal@,
            to: self.to,
            to_terminal: self.to_terminal@,
        }
    }
}

impl View for ComponentDriver {
    type V = DriverView;

    open spec fn view(&self) -> DriverView {
        match *self {
            ComponentDriver::TruthTable { truth } => DriverView::TruthTable { truth: truth@ },
            ComponentDriver::Subcomponent { connections } => DriverView::Subcomponent {
                connections: connections@.map_values(|l: SubLink| l@),
            },
            ComponentDriver::Script { script } => DriverView::Script { script: script.script@ },
            ComponentDriver::Input => DriverView::Input,
            ComponentDriver::Output => DriverView::Output,
        }
    }
}

impl View for Component {
    type V = ComponentView;

    open spec fn view(&self) -> ComponentView {
        ComponentView {
            id: self.id,
            name: self.name@,
            inputs: labels_view(self.inputs@),
            outputs: labels_view(self.outputs@),
            driver: self.driver@,
        }
    }
}

/// The texts of a list of labels.
pub open spec fn labels_view(labels: Seq<String>) -> Seq<Seq<char>> {
    labels.map_values(|l: String| l@)
}

/// The table that a list of rows builds: each row maps its first number to
/// its second, and a later row replaces an earlier one with the same first
/// number.
pub open spec fn table_of(rows: Seq<(u64, u64)>) -> Map<u64, u64>
    decreases rows.len(),
{
    if rows.len() == 0 {
        Map::empty()
    } else {
        table_of(rows.drop_last()).insert(rows.last().0, rows.last().1)
    }
}

/// The width and the height, in grid cells, of the box that a template with
/// so many inputs and outputs is drawn as: as wide as the smaller number and
/// as high as the larger one, and one cell at the least each way.
pub open spec fn footprint_spec(inputs: nat, outputs: nat) -> (nat, nat) {
    let smaller = if inputs <= outputs { inputs } else { outputs };
    let larger = if inputs <= outputs { outputs } else { inputs };
    (if smaller < 1 { 1 } else { smaller }, if larger < 1 { 1 } else { larger })
}

impl Component {
    /// The width and the height of the box of this template, in grid cells.
    pub fn footprint(&self) -> (r: (usize, usize))
        ensures
            (r.0 as nat, r.1 as nat) == footprint_spec(self@.inputs.len(), self@.outputs.len()),
    {
        let inputs = self.inputs.len();
        let outputs = self.outputs.len();
        let smaller = if inputs <= outputs { inputs } else { outputs };
        let larger = if inputs <= outputs { outputs } else { inputs };
        (if smaller < 1 { 1 } else { smaller }, if larger < 1 { 1 } else { larger })
    }
}

impl ComponentDriver {
    /// The truth-table driver with the given rows.
    pub fn truth(rows: Vec<(u64, u64)>) -> (r: Self)
        ensures
            r@ == (DriverView::TruthTable { truth: table_of(rows@) }),
    {
        let mut truth: HashMap<u64, u64> = HashMap::new();
        let mut i: usize = 0;
        while i < rows.len()
            invariant
                i <= rows.len(),
                truth@ == table_of(rows@.subrange(0, i as int)),
            decreases rows.len() - i,
        {
            let (key, value) = rows[i];
            truth.insert(key, value);
            proof {
                let next = rows@.subrange(0, i + 1);
                assert(next.drop_last() =~= rows@.subrange(0, i as int));
            }
            i = i + 1;
        }
        assert(rows@.subrange(0, i as int) =~= rows@);
        ComponentDriver::TruthTable { truth }
    }
}

} // verus!
