//! The kinds of node, and the ports that each kind puts on a fresh node.

use vstd::prelude::*;
use crate::data_type::MyDataType;
use crate::errors::{EguiGraphError, GraphErrorView};
use crate::graph::{Graph, GraphView, InputParamKind, InputView, NodeView, OutputParam};
use crate::id_type::{InputId, NodeId, OutputId};
use crate::state::{MyGraphState, MyResponse};
use crate::value::{MyValueType, Scalar, ValueView, Vec2};

verus! {

/// A kind of node: which ports a node of this kind has and what it computes.
#[derive(Clone, Copy, Debug, PartialEq, Eq, Structural, Hash)]
pub enum MyNodeTemplate {
    MakeScalar,
    AddScalar,
    SubtractScalar,
    MakeVector,
    AddVector,
    SubtractVector,
    VectorTimesScalar,
    Scaffold,
    Text,
}

/// What every node carries besides its ports: the kind it was built from.
#[derive(Clone, Copy, Debug, PartialEq, Eq, Structural, Hash)]
pub struct MyNodeData {
    pub template: MyNodeTemplate,
}

/// The list of all kinds of node, for a menu to offer.
#[derive(Clone, Copy, Debug)]
pub struct AllMyNodeTemplates;

/// A port as a template declares it: a name and a class.
pub struct Port {
    pub name: Seq<char>,
    pub typ: MyDataType,
}

/// The constant that a new input of a class starts with: zero, the zero
/// vector, the empty text. An input for a document starts without one: it
/// holds the neutral value, the scalar zero, until a document is stored in
/// it or connected to it.
pub open spec fn initial_value(typ: MyDataType) -> ValueView {
    match typ {
        MyDataType::Scalar => ValueView::Scalar(Scalar { bits: 0 }),
        MyDataType::Vec2 => ValueView::Vec2(Vec2 { x: Scalar { bits: 0 }, y: Scalar { bits: 0 } }),
        MyDataType::Widget => ValueView::Scalar(Scalar { bits: 0 }),
        MyDataType::Text => ValueView::Text(Seq::empty()),
    }
}

/// The input that a template puts on a node for one of its declared ports:
/// it starts with the constant of its class, takes a connection or the
/// constant, and shows the constant inside the node.
pub open spec fn declared_input(node: NodeId, port: Port, id: InputId) -> InputView {
    InputView {
        id,
        typ: port.typ,
        value: initial_value(port.typ),
        kind: InputParamKind::ConnectionOrConstant,
        node,
        shown_inline: true,
    }
}

/// The graph after inputs were put on a node for the ports given, one after
/// the other, under the handles given.
pub open spec fn with_inputs(g: GraphView, node: NodeId, ports: Seq<Port>, ids: Seq<InputId>) -> GraphView
    decreases ports.len(),
{
    if ports.len() == 0 {
        g
    } else {
        with_inputs(g, node, ports.drop_last(), ids.drop_last()).with_input(
            ports.last().name,
            declared_input(node, ports.last(), ids.last()),
        )
    }
}

/// The graph after outputs were put on a node for the ports given, one after
/// the other, under the handles given.
pub open spec fn with_outputs(g: GraphView, node: NodeId, ports: Seq<Port>, ids: Seq<OutputId>) -> GraphView
    decreases ports.len(),
{
    if ports.len() == 0 {
        g
    } else {
        with_outputs(g, node, ports.drop_last(), ids.drop_last()).with_output(
            ports.last().name,
            OutputParam { id: ids.last(), node, typ: ports.last().typ },
        )
    }
}

/// The handles of the inputs that a node lists in `after` beyond those that
/// it listed in `before`.
pub open spec fn added_inputs(before: GraphView, after: GraphView, node: NodeId) -> Seq<InputId> {
    Seq::new(
        (after.nodes[node].inputs.len() - before.nodes[node].inputs.len()) as nat,
        |k: int| after.nodes[node].inputs[before.nodes[node].inputs.len() + k].1,
    )
}

/// The handles of the outputs that a node lists in `after` beyond those that
/// it listed in `before`.
pub open spec fn added_outputs(before: GraphView, after: GraphView, node: NodeId) -> Seq<OutputId> {
    Seq::new(
        (after.nodes[node].outputs.len() - before.nodes[node].outputs.len()) as nat,
        |k: int| after.nodes[node].outputs[before.nodes[node].outputs.len() + k].1,
    )
}

/// Whether `after` is `before` with the ports of the template put on the
/// node: first its inputs, then its outputs, each in the declared order and
/// under the next handle that was not given out yet.
pub open spec fn built(
    before: GraphView,
    after: GraphView,
    template: MyNodeTemplate,
    node: NodeId,
) -> bool {
    let inputs = added_inputs(before, after, node);
    let outputs = added_outputs(before, after, node);
    &&& inputs.len() == template.input_ports().len()
    &&& outputs.len() == template.output_ports().len()
    &&& forall|k: int| 0 <= k < inputs.len() ==> (#[trigger] inputs[k]).0 == before.input_slots + k
    &&& forall|k: int|
        0 <= k < outputs.len() ==> (#[trigger] outputs[k]).0 == before.output_slots + k
    &&& after == with_outputs(
        with_inputs(before, node, template.input_ports(), inputs),
        node,
        template.output_ports(),
        outputs,
    )
}

/// The constant that a new input of a class starts with.
fn initial(typ: MyDataType) -> (v: MyValueType)
    ensures
        v@ == initial_value(typ),
{
    match typ {
        MyDataType::Scalar => MyValueType::Scalar { value: Scalar { bits: 0 } },
        MyDataType::Vec2 => MyValueType::Vec2 {
            value: Vec2 { x: Scalar { bits: 0 }, y: Scalar { bits: 0 } },
        },
        MyDataType::Widget => MyValueType::default(),
        MyDataType::Text => MyValueType::Text { value: String::new() },
    }
}

/// Whether a list of ports holds the names and classes of the declared ones.
pub open spec fn ports_are(listed: Seq<(&'static str, MyDataType)>, declared: Seq<Port>) -> bool {
    &&& listed.len() == declared.len()
    &&& forall|k: int|
        0 <= k < listed.len() ==> (#[trigger] listed[k]).0@ == declared[k].name && listed[k].1
            == declared[k].typ
}

impl MyNodeTemplate {
    /// The name under which this kind is offered and drawn.
    pub open spec fn label(self) -> Seq<char> {
        match self {
            MyNodeTemplate::MakeScalar => "New scalar"@,
            MyNodeTemplate::AddScalar => "Scalar add"@,
            MyNodeTemplate::SubtractScalar => "Scalar subtract"@,
            MyNodeTemplate::MakeVector => "New vector"@,
            MyNodeTemplate::AddVector => "Vector add"@,
            MyNodeTemplate::SubtractVector => "Vector subtract"@,
            MyNodeTemplate::VectorTimesScalar => "Vector times scalar"@,
            MyNodeTemplate::Scaffold => "Scaffold2"@,
            MyNodeTemplate::Text => "Text"@,
        }
    }

    /// The groups under which this kind is offered.
    pub open spec fn categories(self) -> Seq<Seq<char>> {
        match self {
            MyNodeTemplate::MakeScalar
            | MyNodeTemplate::AddScalar
            | MyNodeTemplate::SubtractScalar => seq!["Scalar"@],
            MyNodeTemplate::MakeVector
            | MyNodeTemplate::AddVector
            | MyNodeTemplate::SubtractVector => seq!["Vector"@],
            MyNodeTemplate::VectorTimesScalar => seq!["Vector"@, "Scalar"@],
            MyNodeTemplate::Scaffold => seq!["Widget"@],
            MyNodeTemplate::Text => seq!["WGT"@],
        }
    }

    /// The inputs that a node of this kind has, in order.
    pub open spec fn input_ports(self) -> Seq<Port> {
        match self {
            MyNodeTemplate::AddScalar | MyNodeTemplate::SubtractScalar => seq![
                Port { name: "A"@, typ: MyDataType::Scalar },
                Port { name: "B"@, typ: MyDataType::Scalar },
            ],
            MyNodeTemplate::VectorTimesScalar => seq![
                Port { name: "scalar"@, typ: MyDataType::Scalar },
                Port { name: "vector"@, typ: MyDataType::Vec2 },
            ],
            MyNodeTemplate::AddVector | MyNodeTemplate::SubtractVector => seq![
                Port { name: "v1"@, typ: MyDataType::Vec2 },
                Port { name: "v2"@, typ: MyDataType::Vec2 },
            ],
            MyNodeTemplate::MakeVector => seq![
                Port { name: "x"@, typ: MyDataType::Scalar },
                Port { name: "y"@, typ: MyDataType::Scalar },
            ],
            MyNodeTemplate::MakeScalar => seq![Port { name: "value"@, typ: MyDataType::Scalar }],
            MyNodeTemplate::Scaffold => seq![
                Port { name: "body"@, typ: MyDataType::Widget },
                Port { name: "header"@, typ: MyDataType::Widget },
            ],
            MyNodeTemplate::Text => seq![Port { name: "text"@, typ: MyDataType::Text }],
        }
    }

    /// The outputs that a node of this kind has, in order.
    pub open spec fn output_ports(self) -> Seq<Port> {
        match self {
            MyNodeTemplate::AddScalar
            | MyNodeTemplate::SubtractScalar
            | MyNodeTemplate::MakeScalar => seq![Port { name: "out"@, typ: MyDataType::Scalar }],
            MyNodeTemplate::VectorTimesScalar
            | MyNodeTemplate::AddVector
            | MyNodeTemplate::SubtractVector
            | MyNodeTemplate::MakeVector => seq![Port { name: "out"@, typ: MyDataType::Vec2 }],
            MyNodeTemplate::Scaffold | MyNodeTemplate::Text => seq![
                Port { name: "widget"@, typ: MyDataType::Widget },
            ],
        }
    }

    /// The name under which this kind is offered in a menu.
    pub fn node_finder_label(&self, user_state: &mut MyGraphState) -> (r: &'static str)
        ensures
            r@ == self.label(),
            *final(user_state) == *old(user_state),
    {
        match self {
            MyNodeTemplate::MakeScalar => "New scalar",
            MyNodeTemplate::AddScalar => "Scalar add",
            MyNodeTemplate::SubtractScalar => "Scalar subtract",
            MyNodeTemplate::MakeVector => "New vector",
            MyNodeTemplate::AddVector => "Vector add",
            MyNodeTemplate::SubtractVector => "Vector subtract",
            MyNodeTemplate::VectorTimesScalar => "Vector times scalar",
            MyNodeTemplate::Scaffold => "Scaffold2",
            MyNodeTemplate::Text => "Text",
        }
    }

    /// The groups under which this kind is offered in a menu.
    pub fn node_finder_categories(&self, user_state: &mut MyGraphState) -> (r: Vec<&'static str>)
        ensures
            r@.len() == self.categories().len(),
            forall|k: int| 0 <= k < r@.len() ==> (#[trigger] r@[k])@ == self.categories()[k],
            *final(user_state) == *old(user_state),
    {
        match self {
            MyNodeTemplate::MakeScalar
            | MyNodeTemplate::AddScalar
            | MyNodeTemplate::SubtractScalar => vec!["Scalar"],
            MyNodeTemplate::MakeVector
            | MyNodeTemplate::AddVector
            | MyNodeTemplate::SubtractVector => vec!["Vector"],
            MyNodeTemplate::VectorTimesScalar => vec!["Vector", "Scalar"],
            MyNodeTemplate::Scaffold => vec!["Widget"],
            MyNodeTemplate::Text => vec!["WGT"],
        }
    }

    /// The label of a node of this kind: the name under which it is offered.
    pub fn node_graph_label(&self, user_state: &mut MyGraphState) -> (r: String)
        ensures
            r@ == self.label(),
            *final(user_state) == *old(user_state),
    {
        self.node_finder_label(user_state).to_owned()
    }

    /// What a node of this kind carries: the kind itself.
    pub fn user_data(&self, user_state: &mut MyGraphState) -> (r: MyNodeData)
        ensures
            r == (MyNodeData { template: *self }),
            *final(user_state) == *old(user_state),
    {
        MyNodeData { template: *self }
    }

    /// The names and classes of the inputs that a node of this kind has, in order.
    pub fn declared_inputs(&self) -> (r: Vec<(&'static str, MyDataType)>)
        ensures
            ports_are(r@, self.input_ports()),
    {
        match self {
            MyNodeTemplate::AddScalar | MyNodeTemplate::SubtractScalar => vec![
                ("A", MyDataType::Scalar),
                ("B", MyDataType::Scalar),
            ],
            MyNodeTemplate::VectorTimesScalar => vec![
                ("scalar", MyDataType::Scalar),
                ("vector", MyDataType::Vec2),
            ],
            MyNodeTemplate::AddVector | MyNodeTemplate::SubtractVector => vec![
                ("v1", MyDataType::Vec2),
                ("v2", MyDataType::Vec2),
            ],
            MyNodeTemplate::MakeVector => vec![
                ("x", MyDataType::Scalar),
                ("y", MyDataType::Scalar),
            ],
            MyNodeTemplate::MakeScalar => vec![("value", MyDataType::Scalar)],
            MyNodeTemplate::Scaffold => vec![
                ("body", MyDataType::Widget),
                ("header", MyDataType::Widget),
            ],
            MyNodeTemplate::Text => vec![("text", MyDataType::Text)],
        }
    }

    /// The names and classes of the outputs that a node of this kind has, in order.
    pub fn declared_outputs(&self) -> (r: Vec<(&'static str, MyDataType)>)
        ensures
            ports_are(r@, self.output_ports()),
    {
        match self {
            MyNodeTemplate::AddScalar
            | MyNodeTemplate::SubtractScalar
            | MyNodeTemplate::MakeScalar => vec![("out", MyDataType::Scalar)],
            MyNodeTemplate::VectorTimesScalar
            | MyNodeTemplate::AddVector
            | MyNodeTemplate::SubtractVector
            | MyNodeTemplate::MakeVector => vec![("out", MyDataType::Vec2)],
            MyNodeTemplate::Scaffold | MyNodeTemplate::Text => vec![("widget", MyDataType::Widget)],
        }
    }
}

/// One more input after those already put on the node.
proof fn lemma_with_inputs_push(
    g: GraphView,
    node: NodeId,
    ports: Seq<Port>,
    ids: Seq<InputId>,
    port: Port,
    id: InputId,
)
    ensures
        with_inputs(g, node, ports.push(port), ids.push(id)) == with_inputs(
            g,
            node,
            ports,
            ids,
        ).with_input(port.name, declared_input(node, port, id)),
{
    assert(ports.push(port).drop_last() =~= ports);
    assert(ids.push(id).drop_last() =~= ids);
}

/// One more output after those already put on the node.
proof fn lemma_with_outputs_push(
    g: GraphView,
    node: NodeId,
    ports: Seq<Port>,
    ids: Seq<OutputId>,
    port: Port,
    id: OutputId,
)
    ensures
        with_outputs(g, node, ports.push(port), ids.push(id)) == with_outputs(
            g,
            node,
            ports,
            ids,
        ).with_output(port.name, OutputParam { id, node, typ: port.typ }),
{
    assert(ports.push(port).drop_last() =~= ports);
    assert(ids.push(id).drop_last() =~= ids);
}

/// What putting inputs on a node changes: the node lists them after the
/// inputs it had, under the names declared; the graph holds them; and
/// everything else is as it was.
pub proof fn lemma_with_inputs_lists(
    g: GraphView,
    node: NodeId,
    ports: Seq<Port>,
    ids: Seq<InputId>,
)
    requires
        g.nodes.contains_key(node),
        ports.len() == ids.len(),
    ensures
        ({
            let h = with_inputs(g, node, ports, ids);
            &&& forall|n: NodeId| h.nodes.contains_key(n) == g.nodes.contains_key(n)
            &&& forall|n: NodeId| n != node ==> h.nodes[n] == g.nodes[n]
            &&& h.nodes[node] == (NodeView {
                inputs: g.nodes[node].inputs + Seq::new(
                    ports.len(),
                    |k: int| (ports[k].name, ids[k]),
                ),
                ..g.nodes[node]
            })
            &&& h.outputs == g.outputs
            &&& h.connections == g.connections
            &&& h.node_slots == g.node_slots
            &&& h.output_slots == g.output_slots
            &&& h.input_slots == g.input_slots + ports.len()
            &&& forall|i: InputId| #[trigger]
                h.inputs.contains_key(i) == (g.inputs.contains_key(i) || ids.contains(i))
            &&& forall|i: InputId| !ids.contains(i) ==> h.inputs[i] == g.inputs[i]
            &&& forall|k: int|
                0 <= k < ids.len() && (forall|j: int| k < j < ids.len() ==> ids[j] != ids[k])
                    ==> h.inputs[#[trigger] ids[k]] == declared_input(node, ports[k], ids[k])
        }),
    decreases ports.len(),
{
    if ports.len() > 0 {
        let fewer_ports = ports.drop_last();
        let fewer_ids = ids.drop_last();
        lemma_with_inputs_lists(g, node, fewer_ports, fewer_ids);
        let before = with_inputs(g, node, fewer_ports, fewer_ids);
        let h = with_inputs(g, node, ports, ids);
        let last = ids.last();
        assert(h == before.with_input(ports.last().name, declared_input(node, ports.last(), last)));
        assert(h.nodes[node].inputs =~= g.nodes[node].inputs + Seq::new(
            ports.len(),
            |k: int| (ports[k].name, ids[k]),
        ));
        assert forall|i: InputId| #[trigger]
            h.inputs.contains_key(i) == (g.inputs.contains_key(i) || ids.contains(i)) by {
            if fewer_ids.contains(i) {
                let k = choose|k: int| 0 <= k < fewer_ids.len() && fewer_ids[k] == i;
                assert(ids[k] == i);
            }
            if ids.contains(i) {
                let k = choose|k: int| 0 <= k < ids.len() && ids[k] == i;
                if k < fewer_ids.len() {
                    assert(fewer_ids[k] == i);
                }
            }
            assert(ids[ids.len() - 1] == last);
        }
        assert forall|i: InputId| !ids.contains(i) implies h.inputs[i] == g.inputs[i] by {
            assert(ids[ids.len() - 1] == last);
            if fewer_ids.contains(i) {
                let k = choose|k: int| 0 <= k < fewer_ids.len() && fewer_ids[k] == i;
                assert(ids[k] == i);
            }
        }
        assert forall|k: int|
            0 <= k < ids.len() && (forall|j: int| k < j < ids.len() ==> ids[j] != ids[k])
            implies h.inputs[#[trigger] ids[k]] == declared_input(node, ports[k], ids[k]) by {
            if k < ids.len() - 1 {
                assert(fewer_ids[k] == ids[k]);
                assert(forall|j: int| k < j < fewer_ids.len() ==> fewer_ids[j] == ids[j]);
                assert(ids[ids.len() - 1] != ids[k]);
            }
        }
    } else {
        assert(g.nodes[node].inputs + Seq::new(ports.len(), |k: int| (ports[k].name, ids[k]))
            =~= g.nodes[node].inputs);
        assert forall|i: InputId| !ids.contains(i) by {}
    }
}

/// What putting outputs on a node changes: the node lists them after the
/// outputs it had, under the names declared; the graph holds them; and
/// everything else is as it was.
pub proof fn lemma_with_outputs_lists(
    g: GraphView,
    node: NodeId,
    ports: Seq<Port>,
    ids: Seq<OutputId>,
)
    requires
        g.nodes.contains_key(node),
        ports.len() == ids.len(),
    ensures
        ({
            let h = with_outputs(g, node, ports, ids);
            &&& forall|n: NodeId| h.nodes.contains_key(n) == g.nodes.contains_key(n)
            &&& forall|n: NodeId| n != node ==> h.nodes[n] == g.nodes[n]
            &&& h.nodes[node] == (NodeView {
                outputs: g.nodes[node].outputs + Seq::new(
                    ports.len(),
                    |k: int| (ports[k].name, ids[k]),
                ),
                ..g.nodes[node]
            })
            &&& h.inputs == g.inputs
            &&& h.connections == g.connections
            &&& h.node_slots == g.node_slots
            &&& h.input_slots == g.input_slots
            &&& h.output_slots == g.output_slots + ports.len()
            &&& forall|o: OutputId| #[trigger]
                h.outputs.contains_key(o) == (g.outputs.contains_key(o) || ids.contains(o))
            &&& forall|o: OutputId| !ids.contains(o) ==> h.outputs[o] == g.outputs[o]
            &&& forall|k: int|
                0 <= k < ids.len() && (forall|j: int| k < j < ids.len() ==> ids[j] != ids[k])
                    ==> h.outputs[#[trigger] ids[k]] == (OutputParam {
                    id: ids[k],
                    node,
                    typ: ports[k].typ,
                })
        }),
    decreases ports.len(),
{
    if ports.len() > 0 {
        let fewer_ports = ports.drop_last();
        let fewer_ids = ids.drop_last();
        lemma_with_outputs_lists(g, node, fewer_ports, fewer_ids);
        let before = with_outputs(g, node, fewer_ports, fewer_ids);
        let h = with_outputs(g, node, ports, ids);
        let last = ids.last();
        assert(h == before.with_output(
            ports.last().name,
            OutputParam { id: last, node, typ: ports.last().typ },
        ));
        assert(h.nodes[node].outputs =~= g.nodes[node].outputs + Seq::new(
            ports.len(),
            |k: int| (ports[k].name, ids[k]),
        ));
        assert forall|o: OutputId| #[trigger]
            h.outputs.contains_key(o) == (g.outputs.contains_key(o) || ids.contains(o)) by {
            if fewer_ids.contains(o) {
                let k = choose|k: int| 0 <= k < fewer_ids.len() && fewer_ids[k] == o;
                assert(ids[k] == o);
            }
            if ids.contains(o) {
                let k = choose|k: int| 0 <= k < ids.len() && ids[k] == o;
                if k < fewer_ids.len() {
                    assert(fewer_ids[k] == o);
                }
            }
            assert(ids[ids.len() - 1] == last);
        }
        assert forall|o: OutputId| !ids.contains(o) implies h.outputs[o] == g.outputs[o] by {
            assert(ids[ids.len() - 1] == last);
            if fewer_ids.contains(o) {
                let k = choose|k: int| 0 <= k < fewer_ids.len() && fewer_ids[k] == o;
                assert(ids[k] == o);
            }
        }
        assert forall|k: int|
            0 <= k < ids.len() && (forall|j: int| k < j < ids.len() ==> ids[j] != ids[k])
            implies h.outputs[#[trigger] ids[k]] == (OutputParam {
            id: ids[k],
            node,
            typ: ports[k].typ,
        }) by {
            if k < ids.len() - 1 {
                assert(fewer_ids[k] == ids[k]);
                assert(forall|j: int| k < j < fewer_ids.len() ==> fewer_ids[j] == ids[j]);
                assert(ids[ids.len() - 1] != ids[k]);
            }
        }
    } else {
        assert(g.nodes[node].outputs + Seq::new(ports.len(), |k: int| (ports[k].name, ids[k]))
            =~= g.nodes[node].outputs);
        assert forall|o: OutputId| !ids.contains(o) by {}
    }
}

impl MyNodeTemplate {
    /// Puts the ports of this kind on a node: its inputs, then its outputs,
    /// each in the declared order. Fails, and leaves the graph as it was,
    /// where the graph holds no such node.
    pub fn build_node(&self, graph: &mut Graph, user_state: &mut MyGraphState, node_id: NodeId) -> (r:
        Result<(), EguiGraphError>)
        requires
            old(graph).well_formed(),
        ensures
            final(graph).well_formed(),
            *final(user_state) == *old(user_state),
            match r {
                Ok(_) => {
                    &&& old(graph)@.nodes.contains_key(node_id)
                    &&& built(old(graph)@, final(graph)@, *self, node_id)
                },
                Err(e) => {
                    &&& !old(graph)@.nodes.contains_key(node_id)
                    &&& e@ == GraphErrorView::InvalidNodeId(node_id)
                    &&& final(graph)@ == old(graph)@
                },
            },
    {
        if !graph.contains_node(node_id) {
            return Err(EguiGraphError::InvalidNodeId(node_id));
        }
        let ghost before = graph@;
        let ghost in_ports = self.input_ports();
        let ghost out_ports = self.output_ports();
        let inputs = self.declared_inputs();
        let ghost mut in_ids: Seq<InputId> = Seq::empty();
        let mut k: usize = 0;
        while k < inputs.len()
            invariant
                0 <= k <= inputs@.len(),
                ports_are(inputs@, in_ports),
                graph.well_formed(),
                before.nodes.contains_key(node_id),
                graph@.nodes.contains_key(node_id),
                in_ids.len() == k,
                graph@ == with_inputs(before, node_id, in_ports.take(k as int), in_ids),
                graph@.nodes[node_id].outputs == before.nodes[node_id].outputs,
                graph@.nodes[node_id].inputs.len() == before.nodes[node_id].inputs.len() + k,
                forall|j: int|
                    0 <= j < k ==> graph@.nodes[node_id].inputs[before.nodes[node_id].inputs.len()
                        + j].1 == #[trigger] in_ids[j],
                forall|j: int| 0 <= j < k ==> (#[trigger] in_ids[j]).0 == before.input_slots + j,
                graph@.input_slots == before.input_slots + k,
                graph@.output_slots == before.output_slots,
            decreases inputs@.len() - k,
        {
            let name = inputs[k].0;
            let typ = inputs[k].1;
            match graph.add_input_param(
                node_id,
                name.to_owned(),
                typ,
                initial(typ),
                InputParamKind::ConnectionOrConstant,
                true,
            ) {
                Ok(id) => {
                    proof {
                        let port = in_ports[k as int];
                        assert(port.name == name@ && port.typ == typ);
                        lemma_with_inputs_push(
                            before,
                            node_id,
                            in_ports.take(k as int),
                            in_ids,
                            port,
                            id,
                        );
                        assert(in_ports.take(k as int).push(port) =~= in_ports.take(k + 1));
                        in_ids = in_ids.push(id);
                    }
                },
                Err(e) => {
                    return Err(e);
                },
            }
            k += 1;
        }
        assert(in_ports.take(k as int) =~= in_ports);
        let ghost middle = graph@;
        let outputs = self.declared_outputs();
        let ghost mut out_ids: Seq<OutputId> = Seq::empty();
        let mut m: usize = 0;
        while m < outputs.len()
            invariant
                0 <= m <= outputs@.len(),
                ports_are(outputs@, out_ports),
                graph.well_formed(),
                before.nodes.contains_key(node_id),
                graph@.nodes.contains_key(node_id),
                out_ids.len() == m,
                graph@ == with_outputs(middle, node_id, out_ports.take(m as int), out_ids),
                graph@.nodes[node_id].inputs == middle.nodes[node_id].inputs,
                graph@.nodes[node_id].outputs.len() == before.nodes[node_id].outputs.len() + m,
                forall|j: int|
                    0 <= j < m ==> graph@.nodes[node_id].outputs[before.nodes[node_id].outputs.len()
                        + j].1 == #[trigger] out_ids[j],
                forall|j: int|
                    0 <= j < m ==> (#[trigger] out_ids[j]).0 == before.output_slots + j,
                graph@.output_slots == before.output_slots + m,
            decreases outputs@.len() - m,
        {
            let name = outputs[m].0;
            let typ = outputs[m].1;
            match graph.add_output_param(node_id, name.to_owned(), typ) {
                Ok(id) => {
                    proof {
                        let port = out_ports[m as int];
                        assert(port.name == name@ && port.typ == typ);
                        lemma_with_outputs_push(
                            middle,
                            node_id,
                            out_ports.take(m as int),
                            out_ids,
                            port,
                            id,
                        );
                        assert(out_ports.take(m as int).push(port) =~= out_ports.take(m + 1));
                        out_ids = out_ids.push(id);
                    }
                },
                Err(e) => {
                    return Err(e);
                },
            }
            m += 1;
        }
        proof {
            assert(out_ports.take(m as int) =~= out_ports);
            assert(added_inputs(before, graph@, node_id) =~= in_ids);
            assert(added_outputs(before, graph@, node_id) =~= out_ids);
        }
        Ok(())
    }
}

impl Graph {
    /// Adds a node and lets a template put its ports on it. Returns the
    /// node's handle, which no node had before.
    pub fn add_node(
        &mut self,
        label: String,
        user_data: MyNodeData,
        builder: MyNodeTemplate,
        user_state: &mut MyGraphState,
    ) -> (id: NodeId)
        requires
            old(self).well_formed(),
        ensures
            final(self).well_formed(),
            *final(user_state) == *old(user_state),
            id.0 == old(self)@.node_slots,
            !old(self)@.nodes.contains_key(id),
            built(old(self)@.with_node(id, label@, user_data), final(self)@, builder, id),
    {
        let id = self.add_bare_node(label, user_data);
        let built = builder.build_node(self, user_state, id);
        assert(built is Ok);
        id
    }
}

impl AllMyNodeTemplates {
    /// Every kind of node, in the order in which a menu offers them.
    pub fn all_kinds(&self) -> (r: Vec<MyNodeTemplate>)
        ensures
            r@ == seq![
                MyNodeTemplate::MakeScalar,
                MyNodeTemplate::MakeVector,
                MyNodeTemplate::AddScalar,
                MyNodeTemplate::SubtractScalar,
                MyNodeTemplate::AddVector,
                MyNodeTemplate::SubtractVector,
                MyNodeTemplate::VectorTimesScalar,
                MyNodeTemplate::Scaffold,
                MyNodeTemplate::Text,
            ],
    {
        let r = vec![
            MyNodeTemplate::MakeScalar,
            MyNodeTemplate::MakeVector,
            MyNodeTemplate::AddScalar,
            MyNodeTemplate::SubtractScalar,
            MyNodeTemplate::AddVector,
            MyNodeTemplate::SubtractVector,
            MyNodeTemplate::VectorTimesScalar,
            MyNodeTemplate::Scaffold,
            MyNodeTemplate::Text,
        ];
        assert(r@ =~= seq![
            MyNodeTemplate::MakeScalar,
            MyNodeTemplate::MakeVector,
            MyNodeTemplate::AddScalar,
            MyNodeTemplate::SubtractScalar,
            MyNodeTemplate::AddVector,
            MyNodeTemplate::SubtractVector,
            MyNodeTemplate::VectorTimesScalar,
            MyNodeTemplate::Scaffold,
            MyNodeTemplate::Text,
        ]);
        r
    }
}

impl MyNodeData {
    /// What the button at the bottom of a node asks for when it is pressed:
    /// to make the node the active one, or, on the active node, to have no
    /// active node. Nothing while it is not pressed.
    pub fn bottom_ui(&self, node_id: NodeId, user_state: &MyGraphState, clicked: bool) -> (r: Vec<
        MyResponse,
    >)
        ensures
            r@ == (if !clicked {
                Seq::<MyResponse>::empty()
            } else if user_state.active_node == Some(node_id) {
                seq![MyResponse::ClearActiveNode]
            } else {
                seq![MyResponse::SetActiveNode(node_id)]
            }),
    {
        let mut responses: Vec<MyResponse> = Vec::new();
        if clicked {
            if !user_state.is_active(node_id) {
                responses.push(MyResponse::SetActiveNode(node_id));
                assert(responses@ =~= seq![MyResponse::SetActiveNode(node_id)]);
            } else {
                responses.push(MyResponse::ClearActiveNode);
                assert(responses@ =~= seq![MyResponse::ClearActiveNode]);
            }
        }
        responses
    }
}

} // verus!
