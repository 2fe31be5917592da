use node_graph::data_type::MyDataType;
use node_graph::graph::{Graph, InputParamKind};
use node_graph::id_type::NodeId;
use node_graph::state::{MyGraphState, MyResponse};
use node_graph::template::{AllMyNodeTemplates, MyNodeData, MyNodeTemplate};
use node_graph::value::{MyValueType, Scalar, Vec2};

fn kinds() -> Vec<MyNodeTemplate> {
    AllMyNodeTemplates.all_kinds()
}

#[test]
fn all_kinds_are_listed_in_menu_order() {
    assert_eq!(
        kinds(),
        vec![
            MyNodeTemplate::MakeScalar,
            MyNodeTemplate::MakeVector,
            MyNodeTemplate::AddScalar,
            MyNodeTemplate::SubtractScalar,
            MyNodeTemplate::AddVector,
            MyNodeTemplate::SubtractVector,
            MyNodeTemplate::VectorTimesScalar,
            MyNodeTemplate::Scaffold,
            MyNodeTemplate::Text,
        ]
    );
}

#[test]
fn each_kind_has_its_label() {
    let mut state = MyGraphState { active_node: Some(NodeId(3)) };
    let labels: Vec<&str> = kinds().iter().map(|k| k.node_finder_label(&mut state)).collect();
    assert_eq!(
        labels,
        vec![
            "New scalar",
            "New vector",
            "Scalar add",
            "Scalar subtract",
            "Vector add",
            "Vector subtract",
            "Vector times scalar",
            "Scaffold2",
            "Text",
        ]
    );
    for kind in kinds() {
        assert_eq!(kind.node_graph_label(&mut state), kind.node_finder_label(&mut state));
        assert_eq!(kind.user_data(&mut state), MyNodeData { template: kind });
    }
    assert_eq!(state, MyGraphState { active_node: Some(NodeId(3)) });
}

#[test]
fn each_kind_has_its_categories() {
    let mut state = MyGraphState::default();
    assert_eq!(MyNodeTemplate::MakeScalar.node_finder_categories(&mut state), vec!["Scalar"]);
    assert_eq!(MyNodeTemplate::AddScalar.node_finder_categories(&mut state), vec!["Scalar"]);
    assert_eq!(MyNodeTemplate::SubtractScalar.node_finder_categories(&mut state), vec!["Scalar"]);
    assert_eq!(MyNodeTemplate::MakeVector.node_finder_categories(&mut state), vec!["Vector"]);
    assert_eq!(MyNodeTemplate::AddVector.node_finder_categories(&mut state), vec!["Vector"]);
    assert_eq!(MyNodeTemplate::SubtractVector.node_finder_categories(&mut state), vec!["Vector"]);
    assert_eq!(
        MyNodeTemplate::VectorTimesScalar.node_finder_categories(&mut state),
        vec!["Vector", "Scalar"]
    );
    assert_eq!(MyNodeTemplate::Scaffold.node_finder_categories(&mut state), vec!["Widget"]);
    assert_eq!(MyNodeTemplate::Text.node_finder_categories(&mut state), vec!["WGT"]);
}

#[test]
#[allow(non_snake_case)]
fn each_kind_declares_its_ports() {
    let (S, T, V, W) =
        (MyDataType::Scalar, MyDataType::Text, MyDataType::Vec2, MyDataType::Widget);
    let expected: Vec<(MyNodeTemplate, Vec<(&str, MyDataType)>, Vec<(&str, MyDataType)>)> = vec![
        (MyNodeTemplate::MakeScalar, vec![("value", S)], vec![("out", S)]),
        (MyNodeTemplate::MakeVector, vec![("x", S), ("y", S)], vec![("out", V)]),
        (MyNodeTemplate::AddScalar, vec![("A", S), ("B", S)], vec![("out", S)]),
        (MyNodeTemplate::SubtractScalar, vec![("A", S), ("B", S)], vec![("out", S)]),
        (MyNodeTemplate::AddVector, vec![("v1", V), ("v2", V)], vec![("out", V)]),
        (MyNodeTemplate::SubtractVector, vec![("v1", V), ("v2", V)], vec![("out", V)]),
        (MyNodeTemplate::VectorTimesScalar, vec![("scalar", S), ("vector", V)], vec![("out", V)]),
        (MyNodeTemplate::Scaffold, vec![("body", W), ("header", W)], vec![("widget", W)]),
        (MyNodeTemplate::Text, vec![("text", T)], vec![("widget", W)]),
    ];
    for (kind, inputs, outputs) in expected {
        assert_eq!(kind.declared_inputs(), inputs);
        assert_eq!(kind.declared_outputs(), outputs);
    }
}

#[test]
fn building_puts_the_declared_ports_on_the_node() {
    for kind in kinds() {
        let mut graph = Graph::new();
        let mut state = MyGraphState::default();
        let node = graph.add_node("n".to_string(), MyNodeData { template: kind }, kind, &mut state);
        let built = graph.node(node).unwrap();
        let names: Vec<&str> = built.inputs.iter().map(|(name, _)| name.as_str()).collect();
        let declared: Vec<&str> = kind.declared_inputs().iter().map(|(name, _)| *name).collect();
        assert_eq!(names, declared);
        let names: Vec<&str> = built.outputs.iter().map(|(name, _)| name.as_str()).collect();
        let declared: Vec<&str> = kind.declared_outputs().iter().map(|(name, _)| *name).collect();
        assert_eq!(names, declared);
        for ((_, id), (_, typ)) in built.inputs.iter().zip(kind.declared_inputs()) {
            let param = graph.try_get_input(*id).unwrap();
            assert_eq!(param.id, *id);
            assert_eq!(param.node, node);
            assert_eq!(param.typ, typ);
            assert_eq!(param.kind, InputParamKind::ConnectionOrConstant);
            assert!(param.shown_inline);
            let zero = Scalar { bits: 0 };
            let seed = match typ {
                MyDataType::Scalar => MyValueType::Scalar { value: zero },
                MyDataType::Vec2 => MyValueType::Vec2 { value: Vec2 { x: zero, y: zero } },
                MyDataType::Widget => MyValueType::default(),
                MyDataType::Text => MyValueType::Text { value: String::new() },
            };
            assert_eq!(param.value, seed);
            assert_eq!(graph.connection(*id), None);
        }
        for ((_, id), (_, typ)) in built.outputs.iter().zip(kind.declared_outputs()) {
            let param = graph.try_get_output(*id).unwrap();
            assert_eq!(param.id, *id);
            assert_eq!(param.node, node);
            assert_eq!(param.typ, typ);
        }
    }
}

#[test]
fn building_twice_gives_the_same_layout() {
    let mut graph = Graph::new();
    let mut state = MyGraphState::default();
    let kind = MyNodeTemplate::VectorTimesScalar;
    let data = MyNodeData { template: kind };
    let first = graph.add_node("one".to_string(), data, kind, &mut state);
    let second = graph.add_node("two".to_string(), data, kind, &mut state);
    let layout = |graph: &Graph, node: NodeId| -> Vec<(String, MyDataType)> {
        let listed = graph.node(node).unwrap();
        let mut ports = Vec::new();
        for (name, id) in &listed.inputs {
            ports.push((name.clone(), graph.try_get_input(*id).unwrap().typ));
        }
        for (name, id) in &listed.outputs {
            ports.push((name.clone(), graph.try_get_output(*id).unwrap().typ));
        }
        ports
    };
    assert_eq!(layout(&graph, first), layout(&graph, second));
    // Building on a node that has ports already appends the same ports again.
    assert_eq!(kind.build_node(&mut graph, &mut state, first), Ok(()));
    let listed = graph.node(first).unwrap();
    let names: Vec<&str> = listed.inputs.iter().map(|(name, _)| name.as_str()).collect();
    assert_eq!(names, vec!["scalar", "vector", "scalar", "vector"]);
    assert_eq!(listed.outputs.len(), 2);
}

#[test]
fn classes_have_names_and_colours() {
    let mut state = MyGraphState::default();
    let expected = vec![
        (MyDataType::Scalar, "scalar", (38, 109, 211, 255)),
        (MyDataType::Vec2, "2d vector", (238, 207, 109, 255)),
        (MyDataType::Widget, "Widget", (38, 255, 150, 255)),
        (MyDataType::Text, "Text", (124, 25, 180, 255)),
    ];
    for (typ, name, colour) in expected {
        assert_eq!(typ.name(), name);
        assert_eq!(typ.data_type_color(&mut state).to_tuple(), colour);
        assert_eq!(typ.data_type_color(&mut state), egui::Color32::from_rgb(colour.0, colour.1, colour.2));
    }
    assert_eq!(state, MyGraphState::default());
}

#[test]
fn the_button_of_a_node_sets_or_clears_the_active_node() {
    let data = MyNodeData { template: MyNodeTemplate::Text };
    let node = NodeId(4);
    let other = NodeId(5);
    let idle = MyGraphState::default();
    assert_eq!(data.bottom_ui(node, &idle, false), vec![]);
    assert_eq!(data.bottom_ui(node, &idle, true), vec![MyResponse::SetActiveNode(node)]);
    let elsewhere = MyGraphState { active_node: Some(other) };
    assert_eq!(data.bottom_ui(node, &elsewhere, true), vec![MyResponse::SetActiveNode(node)]);
    let here = MyGraphState { active_node: Some(node) };
    assert_eq!(data.bottom_ui(node, &here, true), vec![MyResponse::ClearActiveNode]);
    assert_eq!(data.bottom_ui(node, &here, false), vec![]);
}

#[test]
fn the_state_follows_responses_and_forgets_nodes_that_left() {
    let mut graph = Graph::new();
    let mut state = MyGraphState::default();
    assert_eq!(state.active_node, None);
    let kind = MyNodeTemplate::MakeScalar;
    let node = graph.add_node("n".to_string(), MyNodeData { template: kind }, kind, &mut state);
    assert!(!state.is_active(node));
    assert_eq!(state.active_target(&graph), None);

    state.apply(MyResponse::SetActiveNode(node));
    assert_eq!(state.active_node, Some(node));
    assert!(state.is_active(node));
    assert!(!state.is_active(NodeId(77)));
    assert_eq!(state.active_target(&graph), Some(node));
    assert_eq!(state.active_node, Some(node));

    graph.remove_node(node).unwrap();
    assert_eq!(state.active_target(&graph), None);
    assert_eq!(state.active_node, None);

    state.apply(MyResponse::SetActiveNode(node));
    state.apply(MyResponse::ClearActiveNode);
    assert_eq!(state.active_node, None);
}
