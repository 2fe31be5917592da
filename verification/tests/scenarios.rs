use node_graph::cache::OutputsCache;
use node_graph::errors::EguiGraphError;
use node_graph::eval::{evaluate_node, resume, Arithmetic, EvalError, Pending, Step};
use node_graph::graph::Graph;
use node_graph::id_type::NodeId;
use node_graph::state::MyGraphState;
use node_graph::template::MyNodeTemplate;
use node_graph::value::{MyValueType, Scalar, Vec2};

fn scalar(x: f32) -> Scalar {
    Scalar { bits: x.to_bits() }
}

fn number(s: Scalar) -> f32 {
    f32::from_bits(s.bits)
}

fn vector(x: f32, y: f32) -> Vec2 {
    Vec2 { x: scalar(x), y: scalar(y) }
}

fn perform(work: Arithmetic) -> MyValueType {
    match work {
        Arithmetic::AddScalar { a, b } => {
            MyValueType::Scalar { value: scalar(number(a) + number(b)) }
        }
        Arithmetic::SubtractScalar { a, b } => {
            MyValueType::Scalar { value: scalar(number(a) - number(b)) }
        }
        Arithmetic::VectorTimesScalar { vector: v, scalar: s } => MyValueType::Vec2 {
            value: vector(number(v.x) * number(s), number(v.y) * number(s)),
        },
        Arithmetic::AddVector { v1, v2 } => MyValueType::Vec2 {
            value: vector(number(v1.x) + number(v2.x), number(v1.y) + number(v2.y)),
        },
        Arithmetic::SubtractVector { v1, v2 } => MyValueType::Vec2 {
            value: vector(number(v1.x) - number(v2.x), number(v1.y) - number(v2.y)),
        },
    }
}

fn run(graph: &Graph, node: NodeId, cache: &mut OutputsCache) -> Result<MyValueType, EvalError> {
    let mut step = evaluate_node(graph, node, cache)?;
    loop {
        match step {
            Step::Done(value) => return Ok(value),
            Step::Pending(pending) => {
                step = resume(graph, node, &pending, perform(pending.work), cache)?;
            }
        }
    }
}

fn add(graph: &mut Graph, template: MyNodeTemplate) -> NodeId {
    let mut state = MyGraphState::default();
    let label = template.node_graph_label(&mut state);
    let data = template.user_data(&mut state);
    graph.add_node(label, data, template, &mut state)
}

fn set(graph: &mut Graph, node: NodeId, name: &str, value: MyValueType) {
    let input = graph.get_input(node, name).unwrap();
    graph.set_input_value(input, value).unwrap();
}

fn connect(graph: &mut Graph, from: NodeId, output: &str, to: NodeId, input: &str) {
    let out = graph.get_output(from, output).unwrap();
    let inp = graph.get_input(to, input).unwrap();
    graph.add_connection(out, inp).unwrap();
}

fn object(entries: Vec<(&str, serde_json::Value)>) -> serde_json::Value {
    let mut map = serde_json::Map::new();
    for (key, value) in entries {
        map.insert(key.to_string(), value);
    }
    serde_json::Value::Object(map)
}

#[test]
fn add_scalar_of_two_constants_is_their_sum() {
    let mut graph = Graph::new();
    let node = add(&mut graph, MyNodeTemplate::AddScalar);
    set(&mut graph, node, "A", MyValueType::Scalar { value: scalar(2.0) });
    set(&mut graph, node, "B", MyValueType::Scalar { value: scalar(3.0) });
    let out = graph.get_output(node, "out").unwrap();

    let mut cache = OutputsCache::new();
    let first = evaluate_node(&graph, node, &mut cache).unwrap();
    assert_eq!(
        first,
        Step::Pending(Pending {
            node,
            output: out,
            work: Arithmetic::AddScalar { a: scalar(2.0), b: scalar(3.0) },
        })
    );
    assert!(!cache.contains(out));

    let mut cache = OutputsCache::new();
    let value = run(&graph, node, &mut cache).unwrap();
    assert_eq!(value, MyValueType::Scalar { value: scalar(5.0) });
    assert_eq!(cache.get(out), Some(&MyValueType::Scalar { value: scalar(5.0) }));
}

#[test]
fn subtract_scalar_of_two_constants_is_their_difference() {
    let mut graph = Graph::new();
    let node = add(&mut graph, MyNodeTemplate::SubtractScalar);
    set(&mut graph, node, "A", MyValueType::Scalar { value: scalar(2.0) });
    set(&mut graph, node, "B", MyValueType::Scalar { value: scalar(3.5) });
    let mut cache = OutputsCache::new();
    let value = run(&graph, node, &mut cache).unwrap();
    assert_eq!(value, MyValueType::Scalar { value: scalar(-1.5) });
}

#[test]
fn make_vector_feeds_vector_times_scalar() {
    let mut graph = Graph::new();
    let make = add(&mut graph, MyNodeTemplate::MakeVector);
    set(&mut graph, make, "x", MyValueType::Scalar { value: scalar(1.0) });
    set(&mut graph, make, "y", MyValueType::Scalar { value: scalar(2.0) });
    let times = add(&mut graph, MyNodeTemplate::VectorTimesScalar);
    set(&mut graph, times, "scalar", MyValueType::Scalar { value: scalar(3.0) });
    connect(&mut graph, make, "out", times, "vector");

    let mut cache = OutputsCache::new();
    let first = evaluate_node(&graph, times, &mut cache).unwrap();
    assert_eq!(
        first,
        Step::Pending(Pending {
            node: times,
            output: graph.get_output(times, "out").unwrap(),
            work: Arithmetic::VectorTimesScalar { vector: vector(1.0, 2.0), scalar: scalar(3.0) },
        })
    );
    let made = graph.get_output(make, "out").unwrap();
    assert_eq!(cache.get(made), Some(&MyValueType::Vec2 { value: vector(1.0, 2.0) }));

    let mut cache = OutputsCache::new();
    let value = run(&graph, times, &mut cache).unwrap();
    assert_eq!(value, MyValueType::Vec2 { value: vector(3.0, 6.0) });
}

#[test]
fn add_and_subtract_vectors() {
    let mut graph = Graph::new();
    let sum = add(&mut graph, MyNodeTemplate::AddVector);
    set(&mut graph, sum, "v1", MyValueType::Vec2 { value: vector(1.0, 2.0) });
    set(&mut graph, sum, "v2", MyValueType::Vec2 { value: vector(10.0, 20.0) });
    let difference = add(&mut graph, MyNodeTemplate::SubtractVector);
    connect(&mut graph, sum, "out", difference, "v1");
    set(&mut graph, difference, "v2", MyValueType::Vec2 { value: vector(0.5, 0.25) });
    let mut cache = OutputsCache::new();
    let value = run(&graph, difference, &mut cache).unwrap();
    assert_eq!(value, MyValueType::Vec2 { value: vector(10.5, 21.75) });
    let summed = graph.get_output(sum, "out").unwrap();
    assert_eq!(cache.get(summed), Some(&MyValueType::Vec2 { value: vector(11.0, 22.0) }));
}

#[test]
fn make_scalar_passes_its_value_on() {
    let mut graph = Graph::new();
    let node = add(&mut graph, MyNodeTemplate::MakeScalar);
    set(&mut graph, node, "value", MyValueType::Scalar { value: scalar(7.25) });
    let mut cache = OutputsCache::new();
    let value = evaluate_node(&graph, node, &mut cache).unwrap();
    assert_eq!(value, Step::Done(MyValueType::Scalar { value: scalar(7.25) }));
    let out = graph.get_output(node, "out").unwrap();
    assert_eq!(cache.get(out), Some(&MyValueType::Scalar { value: scalar(7.25) }));
}

#[test]
fn text_feeding_the_body_of_a_scaffold_gives_a_body_and_no_header() {
    let mut graph = Graph::new();
    let text = add(&mut graph, MyNodeTemplate::Text);
    set(&mut graph, text, "text", MyValueType::Text { value: "hi".to_string() });
    let scaffold = add(&mut graph, MyNodeTemplate::Scaffold);
    connect(&mut graph, text, "widget", scaffold, "body");

    let mut cache = OutputsCache::new();
    let value = evaluate_node(&graph, scaffold, &mut cache).unwrap();
    let expected = object(vec![(
        "body",
        object(vec![("text", serde_json::Value::String("hi".to_string()))]),
    )]);
    assert_eq!(value, Step::Done(MyValueType::Widget { value: expected.clone() }));
    match value {
        Step::Done(MyValueType::Widget { value }) => {
            let entries = value.as_object().unwrap();
            assert_eq!(entries.len(), 1);
            assert!(entries.contains_key("body"));
            assert!(!entries.contains_key("header"));
        }
        other => panic!("unexpected {:?}", other),
    }
    let out = graph.get_output(scaffold, "widget").unwrap();
    assert_eq!(cache.get(out), Some(&MyValueType::Widget { value: expected }));
}

#[test]
fn scaffold_shows_a_header_that_was_stored_in_it() {
    let mut graph = Graph::new();
    let text = add(&mut graph, MyNodeTemplate::Text);
    set(&mut graph, text, "text", MyValueType::Text { value: "hi".to_string() });
    let scaffold = add(&mut graph, MyNodeTemplate::Scaffold);
    connect(&mut graph, text, "widget", scaffold, "body");
    set(&mut graph, scaffold, "header", MyValueType::Widget { value: object(vec![]) });
    let mut cache = OutputsCache::new();
    let value = evaluate_node(&graph, scaffold, &mut cache).unwrap();
    let expected = object(vec![
        ("header", object(vec![])),
        ("body", object(vec![("text", serde_json::Value::String("hi".to_string()))])),
    ]);
    assert_eq!(value, Step::Done(MyValueType::Widget { value: expected }));
}

#[test]
fn scaffold_without_any_part_is_an_empty_object() {
    let mut graph = Graph::new();
    let scaffold = add(&mut graph, MyNodeTemplate::Scaffold);
    let mut cache = OutputsCache::new();
    let value = evaluate_node(&graph, scaffold, &mut cache).unwrap();
    assert_eq!(value, Step::Done(MyValueType::Widget { value: object(vec![]) }));
}

#[test]
fn scaffold_leaves_out_an_input_that_fails() {
    let mut graph = Graph::new();
    let sum = add(&mut graph, MyNodeTemplate::AddScalar);
    // The sum cannot be evaluated: its first input holds a text.
    set(&mut graph, sum, "A", MyValueType::Text { value: "no number".to_string() });
    let scaffold = add(&mut graph, MyNodeTemplate::Scaffold);
    connect(&mut graph, sum, "out", scaffold, "header");
    set(&mut graph, scaffold, "body", MyValueType::Widget { value: object(vec![]) });
    let mut cache = OutputsCache::new();
    let value = evaluate_node(&graph, scaffold, &mut cache).unwrap();
    let expected = object(vec![("body", object(vec![]))]);
    assert_eq!(value, Step::Done(MyValueType::Widget { value: expected }));
}

#[test]
fn text_node_without_a_text_shows_the_empty_text() {
    let mut graph = Graph::new();
    let text = add(&mut graph, MyNodeTemplate::Text);
    set(&mut graph, text, "text", MyValueType::Scalar { value: scalar(1.0) });
    let mut cache = OutputsCache::new();
    let value = evaluate_node(&graph, text, &mut cache).unwrap();
    let expected = object(vec![("text", serde_json::Value::String(String::new()))]);
    assert_eq!(value, Step::Done(MyValueType::Widget { value: expected }));
}

#[test]
fn looking_up_an_undeclared_input_fails_with_no_parameter_named() {
    let mut graph = Graph::new();
    let node = add(&mut graph, MyNodeTemplate::AddScalar);
    for _ in 0..3 {
        assert_eq!(
            graph.get_input(node, "Z"),
            Err(EguiGraphError::NoParameterNamed(node, "Z".to_string()))
        );
    }
    assert_eq!(
        graph.node(node).unwrap().get_input("Z"),
        Err(EguiGraphError::NoParameterNamed(node, "Z".to_string()))
    );
    assert_eq!(
        graph.get_output(node, "A"),
        Err(EguiGraphError::NoParameterNamed(node, "A".to_string()))
    );
}

#[test]
fn evaluating_after_the_producer_was_removed_does_not_crash() {
    let mut graph = Graph::new();
    let make = add(&mut graph, MyNodeTemplate::MakeVector);
    set(&mut graph, make, "x", MyValueType::Scalar { value: scalar(1.0) });
    set(&mut graph, make, "y", MyValueType::Scalar { value: scalar(2.0) });
    let times = add(&mut graph, MyNodeTemplate::VectorTimesScalar);
    set(&mut graph, times, "scalar", MyValueType::Scalar { value: scalar(3.0) });
    set(&mut graph, times, "vector", MyValueType::Vec2 { value: vector(4.0, 5.0) });
    connect(&mut graph, make, "out", times, "vector");
    let made = graph.get_output(make, "out").unwrap();
    let fed = graph.get_input(times, "vector").unwrap();

    let (removed, cut) = graph.remove_node(make).unwrap();
    assert_eq!(removed.id, make);
    assert_eq!(cut, vec![(fed, made)]);

    // The removed node is unknown from now on.
    let mut cache = OutputsCache::new();
    assert_eq!(
        evaluate_node(&graph, make, &mut cache),
        Err(EvalError::Graph(EguiGraphError::InvalidNodeId(make)))
    );
    assert_eq!(graph.get_input(make, "x"), Err(EguiGraphError::InvalidNodeId(make)));
    // Its connection went with it, so the consumer falls back on its constant.
    assert_eq!(graph.connection(fed), None);
    let mut cache = OutputsCache::new();
    let value = run(&graph, times, &mut cache).unwrap();
    assert_eq!(value, MyValueType::Vec2 { value: vector(12.0, 15.0) });
}
