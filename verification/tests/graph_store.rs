use node_graph::data_type::MyDataType;
use node_graph::errors::EguiGraphError;
use node_graph::graph::{Graph, InputParamKind};
use node_graph::id_type::{AnyParameterId, InputId, NodeId, OutputId};
use node_graph::state::MyGraphState;
use node_graph::template::{MyNodeData, MyNodeTemplate};
use node_graph::value::{MyValueType, Scalar};

fn store_node(graph: &mut Graph, template: MyNodeTemplate) -> NodeId {
    let mut state = MyGraphState::default();
    let label = template.node_graph_label(&mut state);
    let data = template.user_data(&mut state);
    graph.add_node(label, data, template, &mut state)
}

fn store_bare(graph: &mut Graph) -> NodeId {
    graph.add_bare_node("bare".to_string(), MyNodeData { template: MyNodeTemplate::MakeScalar })
}

fn store_zero() -> MyValueType {
    MyValueType::Scalar { value: Scalar { bits: 0 } }
}

#[test]
fn a_new_graph_holds_nothing() {
    let graph = Graph::new();
    assert!(!graph.contains_node(NodeId(0)));
    assert!(graph.node(NodeId(0)).is_none());
    assert!(graph.try_get_input(InputId(0)).is_none());
    assert!(graph.try_get_output(OutputId(0)).is_none());
    assert_eq!(graph.connection(InputId(0)), None);
}

#[test]
fn nodes_get_handles_of_their_own() {
    let mut graph = Graph::new();
    let a = store_bare(&mut graph);
    let b = store_bare(&mut graph);
    assert_ne!(a, b);
    assert!(graph.contains_node(a));
    assert!(graph.contains_node(b));
    let node = graph.node(a).unwrap();
    assert_eq!(node.id, a);
    assert_eq!(node.label, "bare");
    assert!(node.inputs.is_empty());
    assert!(node.outputs.is_empty());
    assert_eq!(node.user_data, MyNodeData { template: MyNodeTemplate::MakeScalar });
}

#[test]
fn parameters_are_appended_in_order() {
    let mut graph = Graph::new();
    let node = store_bare(&mut graph);
    let first = graph
        .add_input_param(
            node,
            "first".to_string(),
            MyDataType::Scalar,
            store_zero(),
            InputParamKind::ConnectionOrConstant,
            true,
        )
        .unwrap();
    let second = graph
        .add_input_param(
            node,
            "second".to_string(),
            MyDataType::Text,
            MyValueType::Text { value: "t".to_string() },
            InputParamKind::ConstantOnly,
            false,
        )
        .unwrap();
    let out = graph.add_output_param(node, "result".to_string(), MyDataType::Vec2).unwrap();
    assert_ne!(first, second);
    let listed = graph.node(node).unwrap();
    assert_eq!(listed.inputs, vec![("first".to_string(), first), ("second".to_string(), second)]);
    assert_eq!(listed.outputs, vec![("result".to_string(), out)]);

    let param = graph.try_get_input(second).unwrap();
    assert_eq!(param.id, second);
    assert_eq!(param.node, node);
    assert_eq!(param.typ, MyDataType::Text);
    assert_eq!(param.kind, InputParamKind::ConstantOnly);
    assert!(!param.shown_inline);
    assert_eq!(param.value, MyValueType::Text { value: "t".to_string() });
    let output = graph.try_get_output(out).unwrap();
    assert_eq!(output.id, out);
    assert_eq!(output.node, node);
    assert_eq!(output.typ, MyDataType::Vec2);

    assert_eq!(graph.get_input(node, "first"), Ok(first));
    assert_eq!(graph.get_input(node, "second"), Ok(second));
    assert_eq!(graph.get_output(node, "result"), Ok(out));
    assert_eq!(graph.connection(first), None);
}

#[test]
fn parameters_cannot_be_added_to_an_unknown_node() {
    let mut graph = Graph::new();
    let stranger = NodeId(7);
    assert_eq!(
        graph.add_input_param(
            stranger,
            "a".to_string(),
            MyDataType::Scalar,
            store_zero(),
            InputParamKind::ConnectionOrConstant,
            true,
        ),
        Err(EguiGraphError::InvalidNodeId(stranger))
    );
    assert_eq!(
        graph.add_output_param(stranger, "a".to_string(), MyDataType::Scalar),
        Err(EguiGraphError::InvalidNodeId(stranger))
    );
    assert_eq!(graph.get_input(stranger, "a"), Err(EguiGraphError::InvalidNodeId(stranger)));
    assert_eq!(graph.get_output(stranger, "a"), Err(EguiGraphError::InvalidNodeId(stranger)));
    let mut state = MyGraphState::default();
    assert_eq!(
        MyNodeTemplate::AddScalar.build_node(&mut graph, &mut state, stranger),
        Err(EguiGraphError::InvalidNodeId(stranger))
    );
    assert!(!graph.contains_node(stranger));
    assert!(graph.try_get_input(InputId(0)).is_none());
}

#[test]
fn a_name_that_two_inputs_share_is_not_found() {
    let mut graph = Graph::new();
    let node = store_bare(&mut graph);
    for _ in 0..2 {
        graph
            .add_input_param(
                node,
                "twin".to_string(),
                MyDataType::Scalar,
                store_zero(),
                InputParamKind::ConnectionOrConstant,
                true,
            )
            .unwrap();
    }
    let single = graph
        .add_input_param(
            node,
            "single".to_string(),
            MyDataType::Scalar,
            store_zero(),
            InputParamKind::ConnectionOrConstant,
            true,
        )
        .unwrap();
    assert_eq!(
        graph.get_input(node, "twin"),
        Err(EguiGraphError::NoParameterNamed(node, "twin".to_string()))
    );
    assert_eq!(graph.get_input(node, "single"), Ok(single));
    assert_eq!(graph.get_input(node, "single"), Ok(single));
}

#[test]
fn the_class_of_a_parameter_is_found_by_its_handle() {
    let mut graph = Graph::new();
    let node = store_node(&mut graph, MyNodeTemplate::VectorTimesScalar);
    let scalar = graph.get_input(node, "scalar").unwrap();
    let vector = graph.get_input(node, "vector").unwrap();
    let out = graph.get_output(node, "out").unwrap();
    assert_eq!(graph.any_param_type(AnyParameterId::Input(scalar)), Ok(MyDataType::Scalar));
    assert_eq!(graph.any_param_type(AnyParameterId::Input(vector)), Ok(MyDataType::Vec2));
    assert_eq!(graph.any_param_type(AnyParameterId::Output(out)), Ok(MyDataType::Vec2));
    let stranger = AnyParameterId::Input(InputId(99));
    assert_eq!(graph.any_param_type(stranger), Err(EguiGraphError::InvalidParameterId(stranger)));
    let stranger = AnyParameterId::Output(OutputId(99));
    assert_eq!(graph.any_param_type(stranger), Err(EguiGraphError::InvalidParameterId(stranger)));
    assert_eq!(AnyParameterId::Input(scalar).as_input(), Some(scalar));
    assert_eq!(AnyParameterId::Input(scalar).as_output(), None);
    assert_eq!(AnyParameterId::Output(out).as_output(), Some(out));
    assert_eq!(AnyParameterId::Output(out).as_input(), None);
}

#[test]
fn the_constant_of_an_input_can_be_replaced() {
    let mut graph = Graph::new();
    let node = store_node(&mut graph, MyNodeTemplate::MakeScalar);
    let input = graph.get_input(node, "value").unwrap();
    assert_eq!(graph.try_get_input(input).unwrap().value, store_zero());
    let nine = MyValueType::Scalar { value: Scalar { bits: 9 } };
    assert_eq!(graph.set_input_value(input, nine.clone()), Ok(()));
    assert_eq!(graph.try_get_input(input).unwrap().value, nine);
    let stranger = InputId(99);
    assert_eq!(
        graph.set_input_value(stranger, nine),
        Err(EguiGraphError::InvalidParameterId(AnyParameterId::Input(stranger)))
    );
}

#[test]
fn a_new_connection_replaces_the_old_one() {
    let mut graph = Graph::new();
    let one = store_node(&mut graph, MyNodeTemplate::MakeScalar);
    let two = store_node(&mut graph, MyNodeTemplate::MakeScalar);
    let sum = store_node(&mut graph, MyNodeTemplate::AddScalar);
    let out_one = graph.get_output(one, "out").unwrap();
    let out_two = graph.get_output(two, "out").unwrap();
    let a = graph.get_input(sum, "A").unwrap();
    let b = graph.get_input(sum, "B").unwrap();
    assert_eq!(graph.add_connection(out_one, a), Ok(()));
    assert_eq!(graph.connection(a), Some(out_one));
    assert_eq!(graph.add_connection(out_two, a), Ok(()));
    assert_eq!(graph.connection(a), Some(out_two));
    // An output may feed several inputs.
    assert_eq!(graph.add_connection(out_two, b), Ok(()));
    assert_eq!(graph.connection(b), Some(out_two));
    assert_eq!(graph.remove_connection(a), Some(out_two));
    assert_eq!(graph.connection(a), None);
    assert_eq!(graph.remove_connection(a), None);
    assert_eq!(graph.connection(b), Some(out_two));
}

#[test]
fn a_connection_needs_both_its_ends() {
    let mut graph = Graph::new();
    let node = store_node(&mut graph, MyNodeTemplate::AddScalar);
    let a = graph.get_input(node, "A").unwrap();
    let out = graph.get_output(node, "out").unwrap();
    assert_eq!(
        graph.add_connection(OutputId(99), a),
        Err(EguiGraphError::InvalidParameterId(AnyParameterId::Output(OutputId(99))))
    );
    assert_eq!(
        graph.add_connection(out, InputId(99)),
        Err(EguiGraphError::InvalidParameterId(AnyParameterId::Input(InputId(99))))
    );
    assert_eq!(
        graph.add_connection(OutputId(99), InputId(99)),
        Err(EguiGraphError::InvalidParameterId(AnyParameterId::Output(OutputId(99))))
    );
    assert_eq!(graph.connection(a), None);
}

#[test]
fn a_connection_that_would_close_a_cycle_is_refused() {
    let mut graph = Graph::new();
    let first = store_node(&mut graph, MyNodeTemplate::AddScalar);
    let second = store_node(&mut graph, MyNodeTemplate::AddScalar);
    let third = store_node(&mut graph, MyNodeTemplate::AddScalar);
    let out_first = graph.get_output(first, "out").unwrap();
    let out_second = graph.get_output(second, "out").unwrap();
    let out_third = graph.get_output(third, "out").unwrap();
    let first_a = graph.get_input(first, "A").unwrap();
    let second_a = graph.get_input(second, "A").unwrap();
    let third_a = graph.get_input(third, "A").unwrap();
    let third_b = graph.get_input(third, "B").unwrap();

    // A node cannot feed itself.
    assert_eq!(
        graph.add_connection(out_first, first_a),
        Err(EguiGraphError::CyclicConnection(out_first, first_a))
    );
    assert_eq!(graph.add_connection(out_first, second_a), Ok(()));
    assert_eq!(graph.add_connection(out_second, third_a), Ok(()));
    assert!(graph.depends_on(third, first));
    assert!(graph.depends_on(third, third));
    assert!(!graph.depends_on(first, third));
    // Nor through other nodes.
    assert_eq!(
        graph.add_connection(out_third, first_a),
        Err(EguiGraphError::CyclicConnection(out_third, first_a))
    );
    assert_eq!(
        graph.add_connection(out_second, first_a),
        Err(EguiGraphError::CyclicConnection(out_second, first_a))
    );
    assert_eq!(graph.connection(first_a), None);
    // A second path between two nodes closes no cycle.
    assert_eq!(graph.add_connection(out_first, third_b), Ok(()));
    // Once the chain is cut, the way back is free.
    assert_eq!(graph.remove_connection(second_a), Some(out_first));
    assert_eq!(graph.remove_connection(third_b), Some(out_first));
    assert_eq!(graph.add_connection(out_third, first_a), Ok(()));
    assert!(graph.depends_on(first, second));
}

#[test]
fn removing_a_node_takes_its_parameters_and_connections_along() {
    let mut graph = Graph::new();
    let source = store_node(&mut graph, MyNodeTemplate::MakeScalar);
    let middle = store_node(&mut graph, MyNodeTemplate::AddScalar);
    let sink = store_node(&mut graph, MyNodeTemplate::AddScalar);
    let out_source = graph.get_output(source, "out").unwrap();
    let out_middle = graph.get_output(middle, "out").unwrap();
    let middle_a = graph.get_input(middle, "A").unwrap();
    let middle_b = graph.get_input(middle, "B").unwrap();
    let sink_a = graph.get_input(sink, "A").unwrap();
    let sink_b = graph.get_input(sink, "B").unwrap();
    graph.add_connection(out_source, middle_a).unwrap();
    graph.add_connection(out_source, sink_b).unwrap();
    graph.add_connection(out_middle, sink_a).unwrap();

    let (node, cut) = graph.remove_node(middle).unwrap();
    assert_eq!(node.id, middle);
    assert_eq!(node.label, "Scalar add");
    assert_eq!(node.inputs, vec![("A".to_string(), middle_a), ("B".to_string(), middle_b)]);
    assert_eq!(cut, vec![(middle_a, out_source), (sink_a, out_middle)]);

    assert!(!graph.contains_node(middle));
    assert!(graph.try_get_input(middle_a).is_none());
    assert!(graph.try_get_input(middle_b).is_none());
    assert!(graph.try_get_output(out_middle).is_none());
    assert_eq!(graph.connection(middle_a), None);
    assert_eq!(graph.connection(sink_a), None);
    // What does not touch the node stays.
    assert!(graph.contains_node(source));
    assert!(graph.contains_node(sink));
    assert_eq!(graph.connection(sink_b), Some(out_source));
    assert!(graph.try_get_input(sink_a).is_some());

    assert_eq!(graph.remove_node(middle).map(|_| ()), Err(EguiGraphError::InvalidNodeId(middle)));
    // A handle that was given out is not given out again.
    let later = store_node(&mut graph, MyNodeTemplate::AddScalar);
    assert_ne!(later, middle);
    assert_ne!(graph.get_input(later, "A").unwrap(), middle_a);
    assert_ne!(graph.get_output(later, "out").unwrap(), out_middle);
}

#[test]
fn dependencies_are_found_through_many_paths() {
    // A ladder in which every node reads the one below it twice: the
    // paths from top to bottom are far too many to go through one by one.
    let mut graph = Graph::new();
    let mut nodes = Vec::new();
    for _ in 0..200 {
        nodes.push(store_node(&mut graph, MyNodeTemplate::AddScalar));
    }
    for pair in nodes.windows(2) {
        let out = graph.get_output(pair[0], "out").unwrap();
        let a = graph.get_input(pair[1], "A").unwrap();
        let b = graph.get_input(pair[1], "B").unwrap();
        assert_eq!(graph.add_connection(out, a), Ok(()));
        assert_eq!(graph.add_connection(out, b), Ok(()));
    }
    let bottom = nodes[0];
    let top = nodes[199];
    let aside = store_node(&mut graph, MyNodeTemplate::AddScalar);
    assert!(graph.depends_on(top, bottom));
    assert!(!graph.depends_on(bottom, top));
    assert!(!graph.depends_on(top, aside));
    let out = graph.get_output(top, "out").unwrap();
    let a = graph.get_input(bottom, "A").unwrap();
    assert_eq!(graph.add_connection(out, a), Err(EguiGraphError::CyclicConnection(out, a)));
    let a = graph.get_input(aside, "A").unwrap();
    assert_eq!(graph.add_connection(out, a), Ok(()));
}
