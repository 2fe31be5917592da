//! The graph store: nodes, their parameters, and the connections between them.

use vstd::prelude::*;
use crate::data_type::MyDataType;
use crate::errors::{outcome, EguiGraphError, GraphErrorView};
use crate::id_type::{AnyParameterId, InputId, NodeId, OutputId};
use crate::template::MyNodeData;
use crate::value::{MyValueType, ValueView};

verus! {

/// Where an input may take its value from.
#[derive(Clone, Copy, Debug, PartialEq, Eq, Structural, Hash)]
pub enum InputParamKind {
    /// Only from a connection.
    ConnectionOnly,
    /// Only from the constant stored in it.
    ConstantOnly,
    /// From a connection if it has one, else from its constant.
    ConnectionOrConstant,
}

/// An input parameter of a node.
#[derive(Clone, Debug)]
pub struct InputParam {
    pub id: InputId,
    /// The class of the port.
    pub typ: MyDataType,
    /// The constant used while nothing is connected.
    pub value: MyValueType,
    pub kind: InputParamKind,
    /// The node that owns this input.
    pub node: NodeId,
    /// Whether the constant is edited inside the node.
    pub shown_inline: bool,
}

/// What an input parameter holds.
pub struct InputView {
    pub id: InputId,
    pub typ: MyDataType,
    pub value: ValueView,
    pub kind: InputParamKind,
    pub node: NodeId,
    pub shown_inline: bool,
}

impl View for InputParam {
    type V = InputView;

    open spec fn view(&self) -> InputView {
        InputView {
            id: self.id,
            typ: self.typ,
            value: self.value@,
            kind: self.kind,
            node: self.node,
            shown_inline: self.shown_inline,
        }
    }
}

/// An output parameter of a node. It holds no value: values are computed
/// when the graph is evaluated.
#[derive(Clone, Copy, Debug, PartialEq, Eq, Structural, Hash)]
pub struct OutputParam {
    pub id: OutputId,
    /// The node that owns this output.
    pub node: NodeId,
    /// The class of the port.
    pub typ: MyDataType,
}

/// A node: a label, its ports in the order in which they were declared, and
/// the kind of node it is.
#[derive(Clone, Debug)]
pub struct Node {
    pub id: NodeId,
    pub label: String,
    pub inputs: Vec<(String, InputId)>,
    pub outputs: Vec<(String, OutputId)>,
    pub user_data: MyNodeData,
}

/// What a node holds.
pub struct NodeView {
    pub id: NodeId,
    pub label: Seq<char>,
    pub inputs: Seq<(Seq<char>, InputId)>,
    pub outputs: Seq<(Seq<char>, OutputId)>,
    pub user_data: MyNodeData,
}

impl View for Node {
    type V = NodeView;

    open spec fn view(&self) -> NodeView {
        NodeView {
            id: self.id,
            label: self.label@,
            inputs: named_ports(self.inputs@),
            outputs: named_ports(self.outputs@),
            user_data: self.user_data,
        }
    }
}

/// A list of ports, each name as the characters it is made of.
pub open spec fn named_ports<I>(ports: Seq<(String, I)>) -> Seq<(Seq<char>, I)> {
    Seq::new(ports.len(), |k: int| (ports[k].0@, ports[k].1))
}

/// Whether position `k` holds the only port of that name.
pub open spec fn is_only_named<I>(ports: Seq<(Seq<char>, I)>, name: Seq<char>, k: int) -> bool {
    &&& 0 <= k < ports.len()
    &&& ports[k].0 == name
    &&& forall|j: int| 0 <= j < ports.len() && #[trigger] ports[j].0 == name ==> j == k
}

/// The port of that name, where exactly one port has it.
pub open spec fn port_named<I>(ports: Seq<(Seq<char>, I)>, name: Seq<char>) -> Option<I> {
    if exists|k: int| #[trigger] is_only_named(ports, name, k) {
        Some(ports[choose|k: int| is_only_named(ports, name, k)].1)
    } else {
        None
    }
}

/// Looks a port up by name among the ports given: the position of the only
/// port of that name, or nothing where no port or several have it.
fn find_port<I>(ports: &Vec<(String, I)>, name: &str) -> (r: Option<usize>)
    ensures
        match r {
            Some(k) => is_only_named(named_ports(ports@), name@, k as int),
            None => forall|k: int| !#[trigger] is_only_named(named_ports(ports@), name@, k),
        },
{
    let ghost view = named_ports(ports@);
    let wanted = name.to_owned();
    let mut found: Option<usize> = None;
    let mut several = false;
    let mut k: usize = 0;
    while k < ports.len()
        invariant
            0 <= k <= ports.len(),
            wanted@ == name@,
            view == named_ports(ports@),
            !several ==> (match found {
                Some(f) => f < k && view[f as int].0 == name@ && forall|j: int|
                    0 <= j < k && #[trigger] view[j].0 == name@ ==> j == f,
                None => forall|j: int| 0 <= j < k ==> #[trigger] view[j].0 != name@,
            }),
            several ==> exists|a: int, b: int|
                0 <= a < b < k && view[a].0 == name@ && view[b].0 == name@,
        decreases ports.len() - k,
    {
        if ports[k].0 == wanted {
            assert(view[k as int].0 == name@);
            if found.is_some() {
                several = true;
            } else {
                found = Some(k);
            }
        } else {
            assert(view[k as int].0 != name@);
        }
        k += 1;
    }
    if several {
        None
    } else {
        found
    }
}

impl Node {
    /// The input of that name. Fails where the node has no input of that name,
    /// and also where it has several: then no one of them is meant.
    pub fn get_input(&self, name: &str) -> (r: Result<InputId, EguiGraphError>)
        ensures
            match r {
                Ok(id) => port_named(self@.inputs, name@) == Some(id),
                Err(e) => port_named(self@.inputs, name@) is None && e@
                    == GraphErrorView::NoParameterNamed(self.id, name@),
            },
    {
        match find_port(&self.inputs, name) {
            Some(k) => Ok(self.inputs[k].1),
            None => Err(EguiGraphError::NoParameterNamed(self.id, name.to_owned())),
        }
    }

    /// The output of that name. Fails where the node has no output of that
    /// name, and also where it has several: then no one of them is meant.
    pub fn get_output(&self, name: &str) -> (r: Result<OutputId, EguiGraphError>)
        ensures
            match r {
                Ok(id) => port_named(self@.outputs, name@) == Some(id),
                Err(e) => port_named(self@.outputs, name@) is None && e@
                    == GraphErrorView::NoParameterNamed(self.id, name@),
            },
    {
        match find_port(&self.outputs, name) {
            Some(k) => Ok(self.outputs[k].1),
            None => Err(EguiGraphError::NoParameterNamed(self.id, name.to_owned())),
        }
    }
}

/// What a graph holds: its nodes and parameters by handle, and for each
/// connected input the output that feeds it.
pub struct GraphView {
    pub nodes: Map<NodeId, NodeView>,
    pub inputs: Map<InputId, InputView>,
    pub outputs: Map<OutputId, OutputParam>,
    pub connections: Map<InputId, OutputId>,
    /// How many node handles were given out so far. The next node gets this
    /// number as its handle, so that no handle is ever given out twice.
    pub node_slots: nat,
    /// How many input handles were given out so far.
    pub input_slots: nat,
    /// How many output handles were given out so far.
    pub output_slots: nat,
}

impl GraphView {
    /// The graph that holds nothing and has given out no handle.
    pub open spec fn empty() -> GraphView {
        GraphView {
            nodes: Map::empty(),
            inputs: Map::empty(),
            outputs: Map::empty(),
            connections: Map::empty(),
            node_slots: 0,
            input_slots: 0,
            output_slots: 0,
        }
    }

    /// Whether `rank` puts the producer of every connection strictly below
    /// its consumer.
    pub open spec fn ranked_by(self, rank: spec_fn(NodeId) -> nat) -> bool {
        forall|i: InputId| #[trigger]
            self.connections.contains_key(i) ==> rank(self.outputs[self.connections[i]].node)
                < rank(self.inputs[i].node)
    }

    /// No node depends on itself: the nodes can be ranked so that every
    /// connection leads upwards.
    pub open spec fn acyclic(self) -> bool {
        exists|rank: spec_fn(NodeId) -> nat| #[trigger] self.ranked_by(rank)
    }

    /// A ranking of the nodes along the connections, where there is one.
    pub open spec fn ranking(self) -> spec_fn(NodeId) -> nat {
        choose|rank: spec_fn(NodeId) -> nat| #[trigger] self.ranked_by(rank)
    }

    /// Whether the node lists the input among its inputs.
    pub open spec fn lists_input(self, node: NodeId, input: InputId) -> bool {
        exists|k: int|
            0 <= k < self.nodes[node].inputs.len() && #[trigger] self.nodes[node].inputs[k].1
                == input
    }

    /// Whether the node lists the output among its outputs.
    pub open spec fn lists_output(self, node: NodeId, output: OutputId) -> bool {
        exists|k: int|
            0 <= k < self.nodes[node].outputs.len() && #[trigger] self.nodes[node].outputs[k].1
                == output
    }

    /// Whether some connection leads from an output of `producer` to an
    /// input of `consumer`.
    pub open spec fn feeds(self, producer: NodeId, consumer: NodeId) -> bool {
        exists|i: InputId| #[trigger]
            self.connections.contains_key(i) && self.inputs[i].node == consumer
                && self.outputs[self.connections[i]].node == producer
    }

    /// Whether the node at position `k + 1` of the chain feeds the one at `k`.
    pub open spec fn linked(self, chain: Seq<NodeId>, k: int) -> bool {
        self.feeds(chain[k + 1], chain[k])
    }

    /// Whether each node of the chain is fed by the next one.
    pub open spec fn is_chain(self, chain: Seq<NodeId>) -> bool {
        &&& chain.len() > 0
        &&& forall|k: int| 0 <= k < chain.len() - 1 ==> #[trigger] self.linked(chain, k)
    }

    /// Whether `node` depends on `on`: they are the same node, or a chain of
    /// connections leads from `on` to `node`.
    pub open spec fn depends_on(self, node: NodeId, on: NodeId) -> bool {
        exists|chain: Seq<NodeId>| #[trigger]
            self.is_chain(chain) && chain[0] == node && chain.last() == on
    }

    /// Why the output cannot be joined to the input, if it cannot: one of
    /// them is missing, or the output's node already depends on the input's.
    pub open spec fn connection_refusal(self, output: OutputId, input: InputId) -> Option<
        GraphErrorView,
    > {
        if !self.outputs.contains_key(output) {
            Some(GraphErrorView::InvalidParameterId(AnyParameterId::Output(output)))
        } else if !self.inputs.contains_key(input) {
            Some(GraphErrorView::InvalidParameterId(AnyParameterId::Input(input)))
        } else if self.depends_on(self.outputs[output].node, self.inputs[input].node) {
            Some(GraphErrorView::CyclicConnection(output, input))
        } else {
            None
        }
    }

    /// The graph with one more node, which has no ports yet.
    pub open spec fn with_node(self, id: NodeId, label: Seq<char>, user_data: MyNodeData) -> GraphView {
        GraphView {
            nodes: self.nodes.insert(
                id,
                NodeView { id, label, inputs: Seq::empty(), outputs: Seq::empty(), user_data },
            ),
            node_slots: self.node_slots + 1,
            ..self
        }
    }

    /// The graph with one more input, appended to the inputs of its node.
    pub open spec fn with_input(self, name: Seq<char>, param: InputView) -> GraphView {
        GraphView {
            nodes: self.nodes.insert(
                param.node,
                NodeView {
                    inputs: self.nodes[param.node].inputs.push((name, param.id)),
                    ..self.nodes[param.node]
                },
            ),
            inputs: self.inputs.insert(param.id, param),
            input_slots: self.input_slots + 1,
            ..self
        }
    }

    /// The graph with one more output, appended to the outputs of its node.
    pub open spec fn with_output(self, name: Seq<char>, param: OutputParam) -> GraphView {
        GraphView {
            nodes: self.nodes.insert(
                param.node,
                NodeView {
                    outputs: self.nodes[param.node].outputs.push((name, param.id)),
                    ..self.nodes[param.node]
                },
            ),
            outputs: self.outputs.insert(param.id, param),
            output_slots: self.output_slots + 1,
            ..self
        }
    }

    /// Whether the connection of input `i` starts or ends at the node.
    pub open spec fn touches(self, node: NodeId, i: InputId) -> bool {
        self.inputs[i].node == node || self.outputs[self.connections[i]].node == node
    }

    /// The graph without a node: without the node itself, without its
    /// parameters, and without the connections that start or end at it.
    pub open spec fn without_node(self, node: NodeId) -> GraphView {
        GraphView {
            nodes: self.nodes.remove(node),
            inputs: Map::new(
                |i: InputId| self.inputs.contains_key(i) && self.inputs[i].node != node,
                |i: InputId| self.inputs[i],
            ),
            outputs: Map::new(
                |o: OutputId| self.outputs.contains_key(o) && self.outputs[o].node != node,
                |o: OutputId| self.outputs[o],
            ),
            connections: Map::new(
                |i: InputId| self.connections.contains_key(i) && !self.touches(node, i),
                |i: InputId| self.connections[i],
            ),
            ..self
        }
    }

    /// What a lookup of an input by name returns.
    pub open spec fn input_named(self, node: NodeId, name: Seq<char>) -> Result<
        InputId,
        GraphErrorView,
    > {
        if !self.nodes.contains_key(node) {
            Err(GraphErrorView::InvalidNodeId(node))
        } else {
            match port_named(self.nodes[node].inputs, name) {
                Some(id) => Ok(id),
                None => Err(GraphErrorView::NoParameterNamed(node, name)),
            }
        }
    }

    /// What a lookup of an output by name returns.
    pub open spec fn output_named(self, node: NodeId, name: Seq<char>) -> Result<
        OutputId,
        GraphErrorView,
    > {
        if !self.nodes.contains_key(node) {
            Err(GraphErrorView::InvalidNodeId(node))
        } else {
            match port_named(self.nodes[node].outputs, name) {
                Some(id) => Ok(id),
                None => Err(GraphErrorView::NoParameterNamed(node, name)),
            }
        }
    }

    /// No handle dangles: every handle in use was given out, every parameter
    /// that a node lists exists and belongs to that node, every parameter
    /// belongs to a node that lists it, every connection joins an input and
    /// an output that exist, and no node depends on itself.
    pub open spec fn valid(self) -> bool {
        &&& forall|n: NodeId| #[trigger]
            self.nodes.contains_key(n) ==> self.nodes[n].id == n && n.0 < self.node_slots
        &&& forall|i: InputId| #[trigger]
            self.inputs.contains_key(i) ==> self.inputs[i].id == i && i.0 < self.input_slots
        &&& forall|o: OutputId| #[trigger]
            self.outputs.contains_key(o) ==> self.outputs[o].id == o && o.0 < self.output_slots
        &&& forall|n: NodeId, k: int|
            self.nodes.contains_key(n) && 0 <= k < self.nodes[n].inputs.len() ==> {
                &&& self.inputs.contains_key(#[trigger] self.nodes[n].inputs[k].1)
                &&& self.inputs[self.nodes[n].inputs[k].1].node == n
            }
        &&& forall|n: NodeId, k: int|
            self.nodes.contains_key(n) && 0 <= k < self.nodes[n].outputs.len() ==> {
                &&& self.outputs.contains_key(#[trigger] self.nodes[n].outputs[k].1)
                &&& self.outputs[self.nodes[n].outputs[k].1].node == n
            }
        &&& forall|i: InputId| #[trigger]
            self.inputs.contains_key(i) ==> {
                &&& self.nodes.contains_key(self.inputs[i].node)
                &&& self.lists_input(self.inputs[i].node, i)
            }
        &&& forall|o: OutputId| #[trigger]
            self.outputs.contains_key(o) ==> {
                &&& self.nodes.contains_key(self.outputs[o].node)
                &&& self.lists_output(self.outputs[o].node, o)
            }
        &&& forall|i: InputId| #[trigger]
            self.connections.contains_key(i) ==> {
                &&& self.inputs.contains_key(i)
                &&& self.outputs.contains_key(self.connections[i])
            }
        &&& self.acyclic()
    }
}

/// The graph store. Nodes and parameters live in arenas and are known by
/// their slot, which is never given out twice.
pub struct Graph {
    nodes: Vec<Option<Node>>,
    inputs: Vec<Option<InputParam>>,
    outputs: Vec<Option<OutputParam>>,
    /// For each slot of `inputs`, the output connected to that input.
    connections: Vec<Option<OutputId>>,
}

impl View for Graph {
    type V = GraphView;

    closed spec fn view(&self) -> GraphView {
        GraphView {
            nodes: Map::new(
                |n: NodeId| n.0 < self.nodes@.len() && self.nodes@[n.0 as int] is Some,
                |n: NodeId| self.nodes@[n.0 as int]->0@,
            ),
            inputs: Map::new(
                |i: InputId| i.0 < self.inputs@.len() && self.inputs@[i.0 as int] is Some,
                |i: InputId| self.inputs@[i.0 as int]->0@,
            ),
            outputs: Map::new(
                |o: OutputId| o.0 < self.outputs@.len() && self.outputs@[o.0 as int] is Some,
                |o: OutputId| self.outputs@[o.0 as int]->0,
            ),
            connections: Map::new(
                |i: InputId|
                    i.0 < self.connections@.len() && self.connections@[i.0 as int] is Some,
                |i: InputId| self.connections@[i.0 as int]->0,
            ),
            node_slots: self.nodes@.len(),
            input_slots: self.inputs@.len(),
            output_slots: self.outputs@.len(),
        }
    }
}

impl Default for Graph {
    /// A graph without nodes.
    fn default() -> (g: Graph)
        ensures
            g.well_formed(),
            g@ == GraphView::empty(),
    {
        Graph::new()
    }
}

impl Graph {
    /// The arenas agree with each other: one connection slot for each input slot.
    pub closed spec fn slots_agree(&self) -> bool {
        self.connections@.len() == self.inputs@.len()
    }

    /// What every graph that this library hands out satisfies.
    pub open spec fn well_formed(&self) -> bool {
        self.slots_agree() && self@.valid()
    }

    /// A graph without nodes.
    pub fn new() -> (g: Graph)
        ensures
            g.well_formed(),
            g@ == GraphView::empty(),
    {
        let g = Graph {
            nodes: Vec::new(),
            inputs: Vec::new(),
            outputs: Vec::new(),
            connections: Vec::new(),
        };
        proof {
            assert(g@.nodes =~= Map::<NodeId, NodeView>::empty());
            assert(g@.inputs =~= Map::<InputId, InputView>::empty());
            assert(g@.outputs =~= Map::<OutputId, OutputParam>::empty());
            assert(g@.connections =~= Map::<InputId, OutputId>::empty());
            let rank = |n: NodeId| 0nat;
            assert(g@.ranked_by(rank));
        }
        g
    }

    /// Whether the graph holds a node under that handle.
    pub fn contains_node(&self, id: NodeId) -> (r: bool)
        ensures
            r == self@.nodes.contains_key(id),
    {
        id.0 < self.nodes.len() && self.nodes[id.0].is_some()
    }

    /// The node under that handle, if the graph holds one.
    pub fn node(&self, id: NodeId) -> (r: Option<&Node>)
        ensures
            match r {
                Some(node) => self@.nodes.contains_key(id) && node@ == self@.nodes[id],
                None => !self@.nodes.contains_key(id),
            },
    {
        if id.0 < self.nodes.len() {
            self.nodes[id.0].as_ref()
        } else {
            None
        }
    }

    /// The input under that handle, if the graph holds one.
    pub fn try_get_input(&self, id: InputId) -> (r: Option<&InputParam>)
        ensures
            match r {
                Some(input) => self@.inputs.contains_key(id) && input@ == self@.inputs[id],
                None => !self@.inputs.contains_key(id),
            },
    {
        if id.0 < self.inputs.len() {
            self.inputs[id.0].as_ref()
        } else {
            None
        }
    }

    /// The output under that handle, if the graph holds one.
    pub fn try_get_output(&self, id: OutputId) -> (r: Option<&OutputParam>)
        ensures
            match r {
                Some(output) => self@.outputs.contains_key(id) && *output == self@.outputs[id],
                None => !self@.outputs.contains_key(id),
            },
    {
        if id.0 < self.outputs.len() {
            self.outputs[id.0].as_ref()
        } else {
            None
        }
    }

    /// The output that feeds the input, if one is connected to it.
    pub fn connection(&self, input: InputId) -> (r: Option<OutputId>)
        ensures
            r == (if self@.connections.contains_key(input) {
                Some(self@.connections[input])
            } else {
                None
            }),
    {
        if input.0 < self.connections.len() {
            self.connections[input.0]
        } else {
            None
        }
    }

    /// Adds a node without ports and returns its handle, which no node had before.
    pub fn add_bare_node(&mut self, label: String, user_data: MyNodeData) -> (id: NodeId)
        requires
            old(self).well_formed(),
        ensures
            final(self).well_formed(),
            id.0 == old(self)@.node_slots,
            !old(self)@.nodes.contains_key(id),
            final(self)@ == old(self)@.with_node(id, label@, user_data),
    {
        let id = NodeId(self.nodes.len());
        let node = Node { id, label, inputs: Vec::new(), outputs: Vec::new(), user_data };
        proof {
            assert(node@.inputs =~= Seq::empty());
            assert(node@.outputs =~= Seq::empty());
        }
        self.nodes.push(Some(node));
        proof {
            let before = old(self)@;
            let after = self@;
            assert(after.nodes =~= before.nodes.insert(id, node@));
            assert(after.inputs =~= before.inputs);
            assert(after.outputs =~= before.outputs);
            assert(after.connections =~= before.connections);
            assert(after.ranked_by(before.ranking()));
            assert forall|i: InputId| #[trigger] after.inputs.contains_key(i) implies {
                &&& after.nodes.contains_key(after.inputs[i].node)
                &&& after.lists_input(after.inputs[i].node, i)
            } by {
                assert(before.lists_input(before.inputs[i].node, i));
            }
            assert forall|o: OutputId| #[trigger] after.outputs.contains_key(o) implies {
                &&& after.nodes.contains_key(after.outputs[o].node)
                &&& after.lists_output(after.outputs[o].node, o)
            } by {
                assert(before.lists_output(before.outputs[o].node, o));
            }
        }
        id
    }

    /// Appends an input to a node and returns its handle, which no input had
    /// before. Nothing is connected to the new input. Fails where the graph
    /// holds no such node.
    pub fn add_input_param(
        &mut self,
        node_id: NodeId,
        name: String,
        typ: MyDataType,
        value: MyValueType,
        kind: InputParamKind,
        shown_inline: bool,
    ) -> (r: Result<InputId, EguiGraphError>)
        requires
            old(self).well_formed(),
        ensures
            final(self).well_formed(),
            match r {
                Ok(id) => {
                    &&& old(self)@.nodes.contains_key(node_id)
                    &&& id.0 == old(self)@.input_slots
                    &&& !old(self)@.inputs.contains_key(id)
                    &&& final(self)@ == old(self)@.with_input(
                        name@,
                        InputView { id, typ, value: value@, kind, node: node_id, shown_inline },
                    )
                },
                Err(e) => {
                    &&& !old(self)@.nodes.contains_key(node_id)
                    &&& e@ == GraphErrorView::InvalidNodeId(node_id)
                    &&& final(self)@ == old(self)@
                },
            },
    {
        if !self.contains_node(node_id) {
            return Err(EguiGraphError::InvalidNodeId(node_id));
        }
        let id = InputId(self.inputs.len());
        let param = InputParam { id, typ, value, kind, node: node_id, shown_inline };
        let ghost param_view = param@;
        self.inputs.push(Some(param));
        self.connections.push(None);
        let ghost name_view = name@;
        match &mut self.nodes[node_id.0] {
            Some(node) => {
                node.inputs.push((name, id));
            },
            None => {},
        }
        proof {
            let before = old(self)@;
            let after = self@;
            let listed = before.nodes[node_id].inputs.push((name_view, id));
            assert(after.nodes[node_id].inputs =~= listed);
            assert(after.nodes =~= before.nodes.insert(
                node_id,
                NodeView { inputs: listed, ..before.nodes[node_id] },
            ));
            assert(after.inputs =~= before.inputs.insert(id, param_view));
            assert(after.outputs =~= before.outputs);
            assert(after.connections =~= before.connections);
            assert(after.ranked_by(before.ranking()));
            assert forall|n: NodeId, k: int|
                after.nodes.contains_key(n) && 0 <= k < after.nodes[n].inputs.len() implies {
                &&& after.inputs.contains_key(#[trigger] after.nodes[n].inputs[k].1)
                &&& after.inputs[after.nodes[n].inputs[k].1].node == n
            } by {
                if n == node_id && k == listed.len() - 1 {
                } else {
                    assert(before.nodes[n].inputs[k] == after.nodes[n].inputs[k]);
                    assert(before.inputs.contains_key(before.nodes[n].inputs[k].1));
                }
            }
            assert forall|i: InputId| #[trigger] after.inputs.contains_key(i) implies {
                &&& after.nodes.contains_key(after.inputs[i].node)
                &&& after.lists_input(after.inputs[i].node, i)
            } by {
                if i == id {
                    assert(after.nodes[node_id].inputs[listed.len() - 1].1 == id);
                } else {
                    let owner = before.inputs[i].node;
                    assert(before.lists_input(owner, i));
                    let k = choose|k: int|
                        0 <= k < before.nodes[owner].inputs.len()
                            && #[trigger] before.nodes[owner].inputs[k].1 == i;
                    assert(after.nodes[owner].inputs[k].1 == i);
                }
            }
            assert forall|o: OutputId| #[trigger] after.outputs.contains_key(o) implies {
                &&& after.nodes.contains_key(after.outputs[o].node)
                &&& after.lists_output(after.outputs[o].node, o)
            } by {
                let owner = before.outputs[o].node;
                assert(before.lists_output(owner, o));
                let k = choose|k: int|
                    0 <= k < before.nodes[owner].outputs.len()
                        && #[trigger] before.nodes[owner].outputs[k].1 == o;
                assert(after.nodes[owner].outputs[k].1 == o);
            }
        }
        Ok(id)
    }

    /// Appends an output to a node and returns its handle, which no output
    /// had before. Fails where the graph holds no such node.
    pub fn add_output_param(&mut self, node_id: NodeId, name: String, typ: MyDataType) -> (r:
        Result<OutputId, EguiGraphError>)
        requires
            old(self).well_formed(),
        ensures
            final(self).well_formed(),
            match r {
                Ok(id) => {
                    &&& old(self)@.nodes.contains_key(node_id)
                    &&& id.0 == old(self)@.output_slots
                    &&& !old(self)@.outputs.contains_key(id)
                    &&& final(self)@ == old(self)@.with_output(
                        name@,
                        OutputParam { id, node: node_id, typ },
                    )
                },
                Err(e) => {
                    &&& !old(self)@.nodes.contains_key(node_id)
                    &&& e@ == GraphErrorView::InvalidNodeId(node_id)
                    &&& final(self)@ == old(self)@
                },
            },
    {
        if !self.contains_node(node_id) {
            return Err(EguiGraphError::InvalidNodeId(node_id));
        }
        let id = OutputId(self.outputs.len());
        self.outputs.push(Some(OutputParam { id, node: node_id, typ }));
        let ghost name_view = name@;
        match &mut self.nodes[node_id.0] {
            Some(node) => {
                node.outputs.push((name, id));
            },
            None => {},
        }
        proof {
            let before = old(self)@;
            let after = self@;
            let listed = before.nodes[node_id].outputs.push((name_view, id));
            assert(after.nodes[node_id].outputs =~= listed);
            assert(after.nodes =~= before.nodes.insert(
                node_id,
                NodeView { outputs: listed, ..before.nodes[node_id] },
            ));
            assert(after.outputs =~= before.outputs.insert(
                id,
                OutputParam { id, node: node_id, typ },
            ));
            assert(after.inputs =~= before.inputs);
            assert(after.connections =~= before.connections);
            assert(after.ranked_by(before.ranking()));
            assert forall|n: NodeId, k: int|
                after.nodes.contains_key(n) && 0 <= k < after.nodes[n].outputs.len() implies {
                &&& after.outputs.contains_key(#[trigger] after.nodes[n].outputs[k].1)
                &&& after.outputs[after.nodes[n].outputs[k].1].node == n
            } by {
                if n == node_id && k == listed.len() - 1 {
                } else {
                    assert(before.nodes[n].outputs[k] == after.nodes[n].outputs[k]);
                    assert(before.outputs.contains_key(before.nodes[n].outputs[k].1));
                }
            }
            assert forall|o: OutputId| #[trigger] after.outputs.contains_key(o) implies {
                &&& after.nodes.contains_key(after.outputs[o].node)
                &&& after.lists_output(after.outputs[o].node, o)
            } by {
                if o == id {
                    assert(after.nodes[node_id].outputs[listed.len() - 1].1 == id);
                } else {
                    let owner = before.outputs[o].node;
                    assert(before.lists_output(owner, o));
                    let k = choose|k: int|
                        0 <= k < before.nodes[owner].outputs.len()
                            && #[trigger] before.nodes[owner].outputs[k].1 == o;
                    assert(after.nodes[owner].outputs[k].1 == o);
                }
            }
            assert forall|i: InputId| #[trigger] after.inputs.contains_key(i) implies {
                &&& after.nodes.contains_key(after.inputs[i].node)
                &&& after.lists_input(after.inputs[i].node, i)
            } by {
                let owner = before.inputs[i].node;
                assert(before.lists_input(owner, i));
                let k = choose|k: int|
                    0 <= k < before.nodes[owner].inputs.len()
                        && #[trigger] before.nodes[owner].inputs[k].1 == i;
                assert(after.nodes[owner].inputs[k].1 == i);
            }
        }
        Ok(id)
    }

    /// Replaces the constant stored in an input. Fails where the graph holds
    /// no such input.
    pub fn set_input_value(&mut self, input: InputId, value: MyValueType) -> (r: Result<
        (),
        EguiGraphError,
    >)
        requires
            old(self).well_formed(),
        ensures
            final(self).well_formed(),
            match r {
                Ok(_) => {
                    &&& old(self)@.inputs.contains_key(input)
                    &&& final(self)@ == (GraphView {
                        inputs: old(self)@.inputs.insert(
                            input,
                            InputView { value: value@, ..old(self)@.inputs[input] },
                        ),
                        ..old(self)@
                    })
                },
                Err(e) => {
                    &&& !old(self)@.inputs.contains_key(input)
                    &&& e@ == GraphErrorView::InvalidParameterId(AnyParameterId::Input(input))
                    &&& final(self)@ == old(self)@
                },
            },
    {
        if input.0 >= self.inputs.len() || self.inputs[input.0].is_none() {
            return Err(EguiGraphError::InvalidParameterId(AnyParameterId::Input(input)));
        }
        match &mut self.inputs[input.0] {
            Some(param) => {
                param.value = value;
            },
            None => {},
        }
        proof {
            let before = old(self)@;
            let after = self@;
            assert(after.inputs =~= before.inputs.insert(
                input,
                InputView { value: value@, ..before.inputs[input] },
            ));
            assert(after.nodes =~= before.nodes);
            assert(after.outputs =~= before.outputs);
            assert(after.connections =~= before.connections);
            assert(after.ranked_by(before.ranking()));
            assert forall|i: InputId| #[trigger] after.inputs.contains_key(i) implies {
                &&& after.nodes.contains_key(after.inputs[i].node)
                &&& after.lists_input(after.inputs[i].node, i)
            } by {
                assert(before.lists_input(before.inputs[i].node, i));
            }
            assert forall|o: OutputId| #[trigger] after.outputs.contains_key(o) implies {
                &&& after.nodes.contains_key(after.outputs[o].node)
                &&& after.lists_output(after.outputs[o].node, o)
            } by {
                assert(before.lists_output(before.outputs[o].node, o));
            }
        }
        Ok(())
    }

    /// The class of a parameter, input or output. Fails where the graph holds
    /// no such parameter.
    pub fn any_param_type(&self, param: AnyParameterId) -> (r: Result<MyDataType, EguiGraphError>)
        ensures
            match param {
                AnyParameterId::Input(i) => if self@.inputs.contains_key(i) {
                    r == Ok::<MyDataType, EguiGraphError>(self@.inputs[i].typ)
                } else {
                    r is Err && r->Err_0@ == GraphErrorView::InvalidParameterId(param)
                },
                AnyParameterId::Output(o) => if self@.outputs.contains_key(o) {
                    r == Ok::<MyDataType, EguiGraphError>(self@.outputs[o].typ)
                } else {
                    r is Err && r->Err_0@ == GraphErrorView::InvalidParameterId(param)
                },
            },
    {
        match param {
            AnyParameterId::Input(i) => match self.try_get_input(i) {
                Some(input) => Ok(input.typ),
                None => Err(EguiGraphError::InvalidParameterId(param)),
            },
            AnyParameterId::Output(o) => match self.try_get_output(o) {
                Some(output) => Ok(output.typ),
                None => Err(EguiGraphError::InvalidParameterId(param)),
            },
        }
    }

    /// Looks an input of a node up by name. Fails where the graph holds no
    /// such node, and where the node has no input of that name or several.
    pub fn get_input(&self, node_id: NodeId, name: &str) -> (r: Result<InputId, EguiGraphError>)
        requires
            self.well_formed(),
        ensures
            outcome(r) == self@.input_named(node_id, name@),
    {
        match self.node(node_id) {
            Some(node) => node.get_input(name),
            None => Err(EguiGraphError::InvalidNodeId(node_id)),
        }
    }

    /// Looks an output of a node up by name. Fails where the graph holds no
    /// such node, and where the node has no output of that name or several.
    pub fn get_output(&self, node_id: NodeId, name: &str) -> (r: Result<OutputId, EguiGraphError>)
        requires
            self.well_formed(),
        ensures
            outcome(r) == self@.output_named(node_id, name@),
    {
        match self.node(node_id) {
            Some(node) => node.get_output(name),
            None => Err(EguiGraphError::InvalidNodeId(node_id)),
        }
    }

    /// Whether `node` depends on `on`, directly or through other nodes.
    pub fn depends_on(&self, node: NodeId, on: NodeId) -> (r: bool)
        requires
            self.well_formed(),
            self@.nodes.contains_key(node),
        ensures
            r == self@.depends_on(node, on),
    {
        let mut cleared: Vec<bool> = Vec::new();
        let mut k: usize = 0;
        while k < self.nodes.len()
            invariant
                0 <= k <= self.nodes@.len(),
                cleared@.len() == k,
                forall|j: int| 0 <= j < k ==> !cleared@[j],
            decreases self.nodes@.len() - k,
        {
            cleared.push(false);
            k += 1;
        }
        self.search(node, on, &mut cleared)
    }

    /// Whether `node` depends on `on`, given the nodes that are known not
    /// to: those are not gone through again, and every node found not to
    /// depend on `on` is added to them.
    fn search(&self, node: NodeId, on: NodeId, cleared: &mut Vec<bool>) -> (r: bool)
        requires
            self.well_formed(),
            self@.nodes.contains_key(node),
            old(cleared)@.len() == self@.node_slots,
            forall|k: int|
                0 <= k < old(cleared)@.len() && #[trigger] old(cleared)@[k] ==> !self@.depends_on(
                    NodeId(k as usize),
                    on,
                ),
        ensures
            r == self@.depends_on(node, on),
            final(cleared)@.len() == old(cleared)@.len(),
            forall|k: int|
                0 <= k < final(cleared)@.len() && #[trigger] final(cleared)@[k]
                    ==> !self@.depends_on(NodeId(k as usize), on),
        decreases self@.ranking()(node),
    {
        if node == on {
            proof {
                let chain = seq![node];
                assert(self@.is_chain(chain) && chain[0] == node && chain.last() == on);
            }
            return true;
        }
        assert(NodeId(node.0 as int as usize) == node);
        if cleared[node.0] {
            return false;
        }
        let ghost g = self@;
        let ghost rank = g.ranking();
        assert(g.ranked_by(rank));
        let Some(here) = self.node(node) else {
            return false;
        };
        let mut k: usize = 0;
        while k < here.inputs.len()
            invariant
                0 <= k <= here.inputs.len(),
                self.well_formed(),
                g == self@,
                rank == g.ranking(),
                g.ranked_by(rank),
                g.nodes.contains_key(node),
                here@ == g.nodes[node],
                cleared@.len() == g.node_slots,
                cleared@.len() == old(cleared)@.len(),
                forall|j: int|
                    0 <= j < cleared@.len() && #[trigger] cleared@[j] ==> !g.depends_on(
                        NodeId(j as usize),
                        on,
                    ),
                forall|j: int|
                    0 <= j < k && g.connections.contains_key(#[trigger] here.inputs@[j].1)
                        ==> !g.depends_on(
                        g.outputs[g.connections[here.inputs@[j].1]].node,
                        on,
                    ),
            decreases here.inputs.len() - k,
        {
            let input = here.inputs[k].1;
            assert(g.nodes[node].inputs[k as int].1 == input);
            assert(g.inputs.contains_key(input) && g.inputs[input].node == node);
            if let Some(output) = self.connection(input) {
                assert(g.connections.contains_key(input));
                if let Some(source) = self.try_get_output(output) {
                    let upstream = source.node;
                    assert(rank(upstream) < rank(node));
                    if self.search(upstream, on, cleared) {
                        proof {
                            let rest = choose|chain: Seq<NodeId>| #[trigger]
                                g.is_chain(chain) && chain[0] == upstream && chain.last() == on;
                            let chain = seq![node] + rest;
                            assert forall|j: int| 0 <= j < chain.len() - 1 implies #[trigger] g.linked(
                                chain,
                                j,
                            ) by {
                                if j == 0 {
                                    assert(g.feeds(upstream, node));
                                } else {
                                    assert(g.linked(rest, j - 1));
                                }
                            }
                            assert(g.is_chain(chain) && chain[0] == node && chain.last() == on);
                        }
                        return true;
                    }
                }
            }
            k += 1;
        }
        proof {
            assert forall|chain: Seq<NodeId>| #[trigger]
                g.is_chain(chain) && chain[0] == node implies chain.last() != on by {
                if chain.last() == on {
                    assert(chain.len() > 1);
                    assert(g.linked(chain, 0));
                    let i = choose|i: InputId| #[trigger]
                        g.connections.contains_key(i) && g.inputs[i].node == node
                            && g.outputs[g.connections[i]].node == chain[1];
                    assert(g.lists_input(node, i));
                    let j = choose|j: int|
                        0 <= j < g.nodes[node].inputs.len() && #[trigger] g.nodes[node].inputs[j].1
                            == i;
                    assert(here.inputs@[j].1 == i);
                    let rest = chain.skip(1);
                    assert forall|m: int| 0 <= m < rest.len() - 1 implies #[trigger] g.linked(
                        rest,
                        m,
                    ) by {
                        assert(g.linked(chain, m + 1));
                    }
                    assert(g.is_chain(rest) && rest[0] == chain[1] && rest.last() == on);
                    assert(g.depends_on(chain[1], on));
                }
            }
            assert(!g.depends_on(node, on));
        }
        cleared.set(node.0, true);
        false
    }

    /// Joins an output to an input. An input has one connection at most: the
    /// one it had, if any, is replaced. Refused where either end is missing,
    /// and where the output's node depends on the input's node, since the
    /// connection would then close a cycle.
    pub fn add_connection(&mut self, output: OutputId, input: InputId) -> (r: Result<
        (),
        EguiGraphError,
    >)
        requires
            old(self).well_formed(),
        ensures
            final(self).well_formed(),
            match r {
                Ok(_) => {
                    &&& old(self)@.connection_refusal(output, input) is None
                    &&& final(self)@ == (GraphView {
                        connections: old(self)@.connections.insert(input, output),
                        ..old(self)@
                    })
                },
                Err(e) => {
                    &&& old(self)@.connection_refusal(output, input) == Some(e@)
                    &&& final(self)@ == old(self)@
                },
            },
    {
        let Some(source) = self.try_get_output(output) else {
            return Err(EguiGraphError::InvalidParameterId(AnyParameterId::Output(output)));
        };
        let producer = source.node;
        let Some(target) = self.try_get_input(input) else {
            return Err(EguiGraphError::InvalidParameterId(AnyParameterId::Input(input)));
        };
        let consumer = target.node;
        if self.depends_on(producer, consumer) {
            return Err(EguiGraphError::CyclicConnection(output, input));
        }
        self.connections.set(input.0, Some(output));
        proof {
            let before = old(self)@;
            let after = self@;
            assert(after.connections =~= before.connections.insert(input, output));
            assert(after.nodes =~= before.nodes);
            assert(after.inputs =~= before.inputs);
            assert(after.outputs =~= before.outputs);
            assert forall|i: InputId| #[trigger] after.inputs.contains_key(i) implies {
                &&& after.nodes.contains_key(after.inputs[i].node)
                &&& after.lists_input(after.inputs[i].node, i)
            } by {
                assert(before.lists_input(before.inputs[i].node, i));
            }
            assert forall|o: OutputId| #[trigger] after.outputs.contains_key(o) implies {
                &&& after.nodes.contains_key(after.outputs[o].node)
                &&& after.lists_output(after.outputs[o].node, o)
            } by {
                assert(before.lists_output(before.outputs[o].node, o));
            }
            let old_rank = before.ranking();
            assert(before.ranked_by(old_rank));
            let lift = old_rank(producer) + 1;
            let rank = |n: NodeId|
                if before.depends_on(producer, n) {
                    old_rank(n)
                } else {
                    (old_rank(n) + lift) as nat
                };
            assert(before.depends_on(producer, producer)) by {
                let chain = seq![producer];
                assert(before.is_chain(chain) && chain[0] == producer && chain.last()
                    == producer);
            }
            assert forall|i: InputId| #[trigger] after.connections.contains_key(i) implies rank(
                after.outputs[after.connections[i]].node,
            ) < rank(after.inputs[i].node) by {
                if i != input {
                    assert(before.connections.contains_key(i));
                    let a = before.outputs[before.connections[i]].node;
                    let b = before.inputs[i].node;
                    assert(old_rank(a) < old_rank(b));
                    if before.depends_on(producer, b) {
                        let chain = choose|chain: Seq<NodeId>| #[trigger]
                            before.is_chain(chain) && chain[0] == producer && chain.last() == b;
                        let longer = chain.push(a);
                        assert forall|m: int| 0 <= m < longer.len() - 1 implies #[trigger] before.linked(
                            longer,
                            m,
                        ) by {
                            if m == chain.len() - 1 {
                                assert(before.feeds(a, b));
                            } else {
                                assert(before.linked(chain, m));
                            }
                        }
                        assert(before.is_chain(longer) && longer[0] == producer && longer.last()
                            == a);
                        assert(before.depends_on(producer, a));
                    }
                }
            }
            assert(after.ranked_by(rank));
        }
        Ok(())
    }

    /// Takes the connection of an input away and returns the output that fed
    /// it, if one did.
    pub fn remove_connection(&mut self, input: InputId) -> (r: Option<OutputId>)
        requires
            old(self).well_formed(),
        ensures
            final(self).well_formed(),
            r == (if old(self)@.connections.contains_key(input) {
                Some(old(self)@.connections[input])
            } else {
                None
            }),
            final(self)@ == (GraphView {
                connections: old(self)@.connections.remove(input),
                ..old(self)@
            }),
    {
        let found = self.connection(input);
        if found.is_some() {
            self.connections.set(input.0, None);
        }
        proof {
            let before = old(self)@;
            let after = self@;
            assert(after.connections =~= before.connections.remove(input));
            assert(after.nodes =~= before.nodes);
            assert(after.inputs =~= before.inputs);
            assert(after.outputs =~= before.outputs);
            assert forall|i: InputId| #[trigger] after.inputs.contains_key(i) implies {
                &&& after.nodes.contains_key(after.inputs[i].node)
                &&& after.lists_input(after.inputs[i].node, i)
            } by {
                assert(before.lists_input(before.inputs[i].node, i));
            }
            assert forall|o: OutputId| #[trigger] after.outputs.contains_key(o) implies {
                &&& after.nodes.contains_key(after.outputs[o].node)
                &&& after.lists_output(after.outputs[o].node, o)
            } by {
                assert(before.lists_output(before.outputs[o].node, o));
            }
            assert(after.ranked_by(before.ranking()));
        }
        found
    }

    /// Removes a node with its parameters and with every connection that
    /// starts or ends at it. Returns the node and the connections that were
    /// cut, each as its input and the output that fed it, in the order of
    /// their inputs' handles. Fails where the graph holds no such node.
    #[verifier::loop_isolation(false)]
    pub fn remove_node(&mut self, node_id: NodeId) -> (r: Result<
        (Node, Vec<(InputId, OutputId)>),
        EguiGraphError,
    >)
        requires
            old(self).well_formed(),
        ensures
            final(self).well_formed(),
            match r {
                Ok((node, cut)) => {
                    &&& old(self)@.nodes.contains_key(node_id)
                    &&& node@ == old(self)@.nodes[node_id]
                    &&& final(self)@ == old(self)@.without_node(node_id)
                    &&& forall|i: InputId, o: OutputId|
                        cut@.contains((i, o)) <==> old(self)@.connections.contains_key(i) && old(
                            self,
                        )@.connections[i] == o && old(self)@.touches(node_id, i)
                    &&& forall|a: int, b: int|
                        0 <= a < b < cut@.len() ==> cut@[a].0.0 < cut@[b].0.0
                },
                Err(e) => {
                    &&& !old(self)@.nodes.contains_key(node_id)
                    &&& e@ == GraphErrorView::InvalidNodeId(node_id)
                    &&& final(self)@ == old(self)@
                },
            },
    {
        if !self.contains_node(node_id) {
            return Err(EguiGraphError::InvalidNodeId(node_id));
        }
        let ghost before = self@;
        let mut cut: Vec<(InputId, OutputId)> = Vec::new();
        let mut k: usize = 0;
        while k < self.connections.len()
            invariant
                0 <= k <= self.connections@.len(),
                old(self).well_formed(),
                before == old(self)@,
                self.nodes@ == old(self).nodes@,
                self.inputs@ == old(self).inputs@,
                self.outputs@ == old(self).outputs@,
                self.connections@.len() == old(self).connections@.len(),
                forall|j: int|
                    k <= j < self.connections@.len() ==> self.connections@[j] == old(
                        self,
                    ).connections@[j],
                forall|j: int|
                    0 <= j < k ==> #[trigger] self.connections@[j] == (if before.connections.contains_key(
                        InputId(j as usize),
                    ) && before.touches(node_id, InputId(j as usize)) {
                        None
                    } else {
                        old(self).connections@[j]
                    }),
                forall|i: InputId, o: OutputId|
                    cut@.contains((i, o)) <==> i.0 < k && before.connections.contains_key(i)
                        && before.connections[i] == o && before.touches(node_id, i),
                forall|a: int| 0 <= a < cut@.len() ==> (#[trigger] cut@[a]).0.0 < k,
                forall|a: int, b: int| 0 <= a < b < cut@.len() ==> cut@[a].0.0 < cut@[b].0.0,
            decreases self.connections@.len() - k,
        {
            let input = InputId(k);
            if let Some(output) = self.connections[k] {
                assert(before.connections.contains_key(input) && before.connections[input]
                    == output);
                let at_input = match self.try_get_input(input) {
                    Some(param) => param.node == node_id,
                    None => false,
                };
                let at_output = match self.try_get_output(output) {
                    Some(param) => param.node == node_id,
                    None => false,
                };
                assert(self@.inputs =~= before.inputs);
                assert(self@.outputs =~= before.outputs);
                assert((at_input || at_output) == before.touches(node_id, input));
                if at_input || at_output {
                    let ghost earlier = cut@;
                    cut.push((input, output));
                    self.connections.set(k, None);
                    proof {
                        assert forall|i: InputId, o: OutputId|
                            cut@.contains((i, o)) <==> i.0 < k + 1
                                && before.connections.contains_key(i) && before.connections[i]
                                == o && before.touches(node_id, i) by {
                            if cut@.contains((i, o)) {
                                let a = choose|a: int| 0 <= a < cut@.len() && cut@[a] == (i, o);
                                if a < earlier.len() {
                                    assert(earlier[a] == (i, o));
                                    assert(earlier.contains((i, o)));
                                }
                            }
                            if i.0 < k + 1 && before.connections.contains_key(i)
                                && before.connections[i] == o && before.touches(node_id, i) {
                                if i.0 < k {
                                    assert(earlier.contains((i, o)));
                                    let a = choose|a: int|
                                        0 <= a < earlier.len() && earlier[a] == (i, o);
                                    assert(cut@[a] == (i, o));
                                } else {
                                    assert(i == input);
                                    assert(cut@[earlier.len() as int] == (i, o));
                                }
                            }
                        }
                    }
                }
            } else {
                assert(!before.connections.contains_key(input));
            }
            k += 1;
        }
        let removed = self.nodes[node_id.0].take();
        let Some(node) = removed else {
            return Err(EguiGraphError::InvalidNodeId(node_id));
        };
        assert(node@ == before.nodes[node_id]);
        let ghost mid_nodes = self.nodes@;
        let ghost mid_connections = self.connections@;
        let mut a: usize = 0;
        while a < node.inputs.len()
            invariant
                0 <= a <= node.inputs@.len(),
                old(self).well_formed(),
                before == old(self)@,
                before.nodes.contains_key(node_id),
                node@ == before.nodes[node_id],
                self.nodes@ == mid_nodes,
                self.connections@ == mid_connections,
                self.outputs@ == old(self).outputs@,
                self.inputs@.len() == old(self).inputs@.len(),
                forall|j: int|
                    0 <= j < self.inputs@.len() ==> #[trigger] self.inputs@[j] == (if exists|b: int|
                        0 <= b < a && (#[trigger] node.inputs@[b]).1.0 == j {
                        None
                    } else {
                        old(self).inputs@[j]
                    }),
            decreases node.inputs@.len() - a,
        {
            let id = node.inputs[a].1;
            assert(before.nodes[node_id].inputs[a as int].1 == id);
            assert(before.inputs.contains_key(id));
            self.inputs.set(id.0, None);
            a += 1;
        }
        let ghost mid_inputs = self.inputs@;
        let mut c: usize = 0;
        while c < node.outputs.len()
            invariant
                0 <= c <= node.outputs@.len(),
                old(self).well_formed(),
                before == old(self)@,
                before.nodes.contains_key(node_id),
                node@ == before.nodes[node_id],
                self.nodes@ == mid_nodes,
                self.connections@ == mid_connections,
                self.inputs@ == mid_inputs,
                self.outputs@.len() == old(self).outputs@.len(),
                forall|j: int|
                    0 <= j < self.outputs@.len() ==> #[trigger] self.outputs@[j] == (if exists|b: int|
                        0 <= b < c && (#[trigger] node.outputs@[b]).1.0 == j {
                        None
                    } else {
                        old(self).outputs@[j]
                    }),
            decreases node.outputs@.len() - c,
        {
            let id = node.outputs[c].1;
            assert(before.nodes[node_id].outputs[c as int].1 == id);
            assert(before.outputs.contains_key(id));
            self.outputs.set(id.0, None);
            c += 1;
        }
        proof {
            let after = self@;
            let wanted = before.without_node(node_id);
            assert(after.nodes =~= wanted.nodes);
            assert forall|i: InputId| after.inputs.contains_key(i) <==> wanted.inputs.contains_key(
                i,
            ) by {
                if before.inputs.contains_key(i) {
                    if before.inputs[i].node == node_id {
                        assert(before.lists_input(node_id, i));
                        let b = choose|b: int|
                            0 <= b < before.nodes[node_id].inputs.len()
                                && #[trigger] before.nodes[node_id].inputs[b].1 == i;
                        assert(node.inputs@[b].1.0 == i.0);
                    } else {
                        if exists|b: int|
                            0 <= b < node.inputs@.len() && (#[trigger] node.inputs@[b]).1 == i {
                            let b = choose|b: int|
                                0 <= b < node.inputs@.len() && (#[trigger] node.inputs@[b]).1
                                    == i;
                            assert(before.nodes[node_id].inputs[b].1 == i);
                        }
                    }
                }
            }
            assert(after.inputs =~= wanted.inputs);
            assert forall|o: OutputId|
                after.outputs.contains_key(o) <==> wanted.outputs.contains_key(o) by {
                if before.outputs.contains_key(o) {
                    if before.outputs[o].node == node_id {
                        assert(before.lists_output(node_id, o));
                        let b = choose|b: int|
                            0 <= b < before.nodes[node_id].outputs.len()
                                && #[trigger] before.nodes[node_id].outputs[b].1 == o;
                        assert(node.outputs@[b].1.0 == o.0);
                    } else {
                        if exists|b: int|
                            0 <= b < node.outputs@.len() && (#[trigger] node.outputs@[b]).1 == o {
                            let b = choose|b: int|
                                0 <= b < node.outputs@.len() && (#[trigger] node.outputs@[b]).1
                                    == o;
                            assert(before.nodes[node_id].outputs[b].1 == o);
                        }
                    }
                }
            }
            assert(after.outputs =~= wanted.outputs);
            assert forall|i: InputId|
                after.connections.contains_key(i) <==> wanted.connections.contains_key(i) by {
                if i.0 < mid_connections.len() {
                    assert(InputId(i.0 as int as usize) == i);
                    assert(mid_connections[i.0 as int] == (if before.connections.contains_key(i)
                        && before.touches(node_id, i) {
                        None
                    } else {
                        old(self).connections@[i.0 as int]
                    }));
                }
            }
            assert(after.connections =~= wanted.connections);
            assert(after == wanted);
            lemma_without_node_valid(before, node_id);
        }
        Ok((node, cut))
    }
}

/// Removing a node from a graph without dangling handles leaves none dangling.
pub proof fn lemma_without_node_valid(g: GraphView, node: NodeId)
    requires
        g.valid(),
    ensures
        g.without_node(node).valid(),
{
    let after = g.without_node(node);
    assert(g.ranked_by(g.ranking()));
    assert(after.ranked_by(g.ranking()));
    assert forall|n: NodeId, k: int|
        after.nodes.contains_key(n) && 0 <= k < after.nodes[n].inputs.len() implies {
        &&& after.inputs.contains_key(#[trigger] after.nodes[n].inputs[k].1)
        &&& after.inputs[after.nodes[n].inputs[k].1].node == n
    } by {
        assert(g.inputs.contains_key(g.nodes[n].inputs[k].1));
    }
    assert forall|n: NodeId, k: int|
        after.nodes.contains_key(n) && 0 <= k < after.nodes[n].outputs.len() implies {
        &&& after.outputs.contains_key(#[trigger] after.nodes[n].outputs[k].1)
        &&& after.outputs[after.nodes[n].outputs[k].1].node == n
    } by {
        assert(g.outputs.contains_key(g.nodes[n].outputs[k].1));
    }
    assert forall|i: InputId| #[trigger] after.inputs.contains_key(i) implies {
        &&& after.nodes.contains_key(after.inputs[i].node)
        &&& after.lists_input(after.inputs[i].node, i)
    } by {
        assert(g.lists_input(g.inputs[i].node, i));
    }
    assert forall|o: OutputId| #[trigger] after.outputs.contains_key(o) implies {
        &&& after.nodes.contains_key(after.outputs[o].node)
        &&& after.lists_output(after.outputs[o].node, o)
    } by {
        assert(g.lists_output(g.outputs[o].node, o));
    }
}

} // verus!
