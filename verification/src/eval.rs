//! Evaluation: the value of a node, computed on demand from the nodes that
//! feed it, with every output computed on the way kept in a cache.
//!
//! Numbers are held by their bits, and this library does not compute with
//! them. A node that adds, subtracts or scales does not produce its value
//! here: its evaluation ends with a request for that arithmetic, which the
//! caller performs and hands back through [`resume`].

use vstd::prelude::*;
use crate::cache::OutputsCache;
use crate::data_type::MyDataType;
use crate::document::{document_of, empty_object, insert_entry, text_document, Document};
use crate::errors::{EguiGraphError, GraphErrorView};
use crate::graph::{is_only_named, Graph, GraphView};
use crate::id_type::{AnyParameterId, NodeId, OutputId};
use crate::template::MyNodeTemplate;
use crate::value::{MyValueType, Scalar, TypeMismatch, ValueView, Vec2};

verus! {

/// Arithmetic on numbers that a node asks its caller to perform.
#[derive(Clone, Copy, Debug, PartialEq, Eq, Structural)]
pub enum Arithmetic {
    /// The sum `a + b`, a scalar.
    AddScalar { a: Scalar, b: Scalar },
    /// The difference `a - b`, a scalar.
    SubtractScalar { a: Scalar, b: Scalar },
    /// The vector scaled by the scalar, a vector.
    VectorTimesScalar { vector: Vec2, scalar: Scalar },
    /// The sum `v1 + v2`, a vector.
    AddVector { v1: Vec2, v2: Vec2 },
    /// The difference `v1 - v2`, a vector.
    SubtractVector { v1: Vec2, v2: Vec2 },
}

/// An evaluation that waits for arithmetic: the node that needs it, the
/// output of that node that its result is the value of, and the arithmetic.
#[derive(Clone, Copy, Debug, PartialEq, Eq, Structural)]
pub struct Pending {
    pub node: NodeId,
    pub output: OutputId,
    pub work: Arithmetic,
}

/// Where an evaluation that did not fail has got to.
#[derive(Clone, Debug, PartialEq)]
pub enum Step<T> {
    /// It has produced its result.
    Done(T),
    /// It cannot go on before the caller has performed some arithmetic.
    Pending(Pending),
}

/// Where the evaluation of a node has got to.
pub type Evaluation = Step<MyValueType>;

/// Why an evaluation failed.
#[derive(Clone, Debug, PartialEq, Eq)]
pub enum EvalError {
    /// The graph does not hold a node or parameter that the evaluation
    /// needs, or a node lacks a port that its kind reads or writes.
    Graph(EguiGraphError),
    /// An input of a node resolved to a value of another shape than the node
    /// computes with.
    TypeMismatch { node: NodeId, input: String, mismatch: TypeMismatch },
    /// A node was evaluated for the sake of one of its outputs and did not
    /// produce a value for it.
    CacheInvariantViolated(OutputId),
}

/// What an evaluation error says.
pub enum EvalErrorView {
    Graph(GraphErrorView),
    TypeMismatch { node: NodeId, input: Seq<char>, mismatch: TypeMismatch },
    CacheInvariantViolated(OutputId),
}

impl View for EvalError {
    type V = EvalErrorView;

    open spec fn view(&self) -> EvalErrorView {
        match *self {
            EvalError::Graph(e) => EvalErrorView::Graph(e@),
            EvalError::TypeMismatch { node, input, mismatch } => EvalErrorView::TypeMismatch {
                node,
                input: input@,
                mismatch,
            },
            EvalError::CacheInvariantViolated(output) => EvalErrorView::CacheInvariantViolated(
                output,
            ),
        }
    }
}

/// How one step of an evaluation ended.
pub enum Outcome<T> {
    Done(T),
    Pending(Pending),
    Failed(EvalErrorView),
}

/// How one step of an evaluation ended, and the cache it left.
pub struct Run<T> {
    pub outcome: Outcome<T>,
    pub cache: Map<OutputId, ValueView>,
}

/// What a node has to publish once its inputs are resolved.
pub enum Product {
    /// A value, ready to be stored.
    Value(ValueView),
    /// Arithmetic that the caller has to perform first.
    Work(Arithmetic),
}

/// A step that keeps its cache and has its result mapped.
pub open spec fn then<A, B>(run: Run<A>, f: spec_fn(A) -> B) -> Run<B> {
    Run {
        outcome: match run.outcome {
            Outcome::Done(a) => Outcome::Done(f(a)),
            Outcome::Pending(p) => Outcome::Pending(p),
            Outcome::Failed(e) => Outcome::Failed(e),
        },
        cache: run.cache,
    }
}

/// Two steps in a row, the second begun on the cache that the first left.
/// The second counts only where the first produced its result.
pub open spec fn both<A, B>(first: Run<A>, second: Run<B>) -> Run<(A, B)> {
    match first.outcome {
        Outcome::Done(a) => then(second, |b: B| (a, b)),
        Outcome::Pending(p) => Run { outcome: Outcome::Pending(p), cache: first.cache },
        Outcome::Failed(e) => Run { outcome: Outcome::Failed(e), cache: first.cache },
    }
}

/// The number in a resolved input. A value of another shape is a failure
/// that names the node and the input.
pub open spec fn as_scalar(run: Run<ValueView>, node: NodeId, input: Seq<char>) -> Run<Scalar> {
    Run {
        outcome: match run.outcome {
            Outcome::Done(ValueView::Scalar(s)) => Outcome::Done(s),
            Outcome::Done(other) => Outcome::Failed(
                EvalErrorView::TypeMismatch {
                    node,
                    input,
                    mismatch: TypeMismatch {
                        actual: other.data_type(),
                        expected: MyDataType::Scalar,
                    },
                },
            ),
            Outcome::Pending(p) => Outcome::Pending(p),
            Outcome::Failed(e) => Outcome::Failed(e),
        },
        cache: run.cache,
    }
}

/// The vector in a resolved input. A value of another shape is a failure
/// that names the node and the input.
pub open spec fn as_vector(run: Run<ValueView>, node: NodeId, input: Seq<char>) -> Run<Vec2> {
    Run {
        outcome: match run.outcome {
            Outcome::Done(ValueView::Vec2(v)) => Outcome::Done(v),
            Outcome::Done(other) => Outcome::Failed(
                EvalErrorView::TypeMismatch {
                    node,
                    input,
                    mismatch: TypeMismatch {
                        actual: other.data_type(),
                        expected: MyDataType::Vec2,
                    },
                },
            ),
            Outcome::Pending(p) => Outcome::Pending(p),
            Outcome::Failed(e) => Outcome::Failed(e),
        },
        cache: run.cache,
    }
}

/// The document in a resolved input, if there is one. An input that failed
/// or holds a value of another shape counts as absent, not as a failure.
pub open spec fn as_widget(run: Run<ValueView>) -> Run<Option<Document>> {
    Run {
        outcome: match run.outcome {
            Outcome::Done(ValueView::Widget(d)) => Outcome::Done(Some(d)),
            Outcome::Done(_) => Outcome::Done(None),
            Outcome::Pending(p) => Outcome::Pending(p),
            Outcome::Failed(_) => Outcome::Done(None),
        },
        cache: run.cache,
    }
}

/// The text in a resolved input, if there is one. An input that failed or
/// holds a value of another shape counts as absent, not as a failure.
pub open spec fn as_text(run: Run<ValueView>) -> Run<Option<Seq<char>>> {
    Run {
        outcome: match run.outcome {
            Outcome::Done(ValueView::Text(t)) => Outcome::Done(Some(t)),
            Outcome::Done(_) => Outcome::Done(None),
            Outcome::Pending(p) => Outcome::Pending(p),
            Outcome::Failed(_) => Outcome::Done(None),
        },
        cache: run.cache,
    }
}

/// The document of a scaffold: an object with an entry for each part that
/// is present.
pub open spec fn scaffold_document(header: Option<Document>, body: Option<Document>) -> Document {
    let empty = Map::<Seq<char>, Document>::empty();
    let with_header = match header {
        Some(d) => empty.insert("header"@, d),
        None => empty,
    };
    Document::Object(
        match body {
            Some(d) => with_header.insert("body"@, d),
            None => with_header,
        },
    )
}

/// The document of a text node: an object whose one entry holds the text,
/// or the empty text where there is none.
pub open spec fn text_node_document(text: Option<Seq<char>>) -> Document {
    Document::Object(
        Map::<Seq<char>, Document>::empty().insert(
            "text"@,
            Document::Text(
                match text {
                    Some(t) => t,
                    None => Seq::empty(),
                },
            ),
        ),
    )
}

/// Publishing what a node produced under one of its outputs. A value goes
/// into the cache and is the result. Arithmetic becomes a request that names
/// the output, and the cache stays as it is. Either way the node must have
/// exactly one output of that name.
pub open spec fn publish(g: GraphView, node: NodeId, name: Seq<char>, run: Run<Product>) -> Run<
    ValueView,
> {
    match run.outcome {
        Outcome::Done(product) => match g.output_named(node, name) {
            Ok(output) => match product {
                Product::Value(v) => Run {
                    outcome: Outcome::Done(v),
                    cache: run.cache.insert(output, v),
                },
                Product::Work(work) => Run {
                    outcome: Outcome::Pending(Pending { node, output, work }),
                    cache: run.cache,
                },
            },
            Err(e) => Run { outcome: Outcome::Failed(EvalErrorView::Graph(e)), cache: run.cache },
        },
        Outcome::Pending(p) => Run { outcome: Outcome::Pending(p), cache: run.cache },
        Outcome::Failed(e) => Run { outcome: Outcome::Failed(e), cache: run.cache },
    }
}

/// In a valid graph, an input that a node lists is connected, if at all, to
/// a node of lower rank.
pub proof fn lemma_producer_ranks_lower(g: GraphView, node: NodeId, name: Seq<char>)
    requires
        g.valid(),
        g.input_named(node, name) is Ok,
        g.connections.contains_key(g.input_named(node, name)->Ok_0),
    ensures
        g.inputs[g.input_named(node, name)->Ok_0].node == node,
        g.outputs.contains_key(g.connections[g.input_named(node, name)->Ok_0]),
        g.ranking()(g.outputs[g.connections[g.input_named(node, name)->Ok_0]].node)
            < g.ranking()(node),
{
    let input = g.input_named(node, name)->Ok_0;
    let k = choose|k: int| #[trigger] is_only_named(g.nodes[node].inputs, name, k);
    assert(g.nodes[node].inputs[k].1 == input);
    assert(g.inputs.contains_key(g.nodes[node].inputs[k].1));
    assert(g.ranked_by(g.ranking()));
}

/// What resolving an input of a node yields, and the cache it leaves.
///
/// An input without a connection yields the constant stored in it. A
/// connected input yields what the cache holds for the output that feeds it.
/// Where the cache holds nothing for that output, the node that owns the
/// output is evaluated first, and the input yields what the cache holds
/// afterwards.
pub open spec fn eval_input(
    g: GraphView,
    node: NodeId,
    name: Seq<char>,
    cache: Map<OutputId, ValueView>,
) -> Run<ValueView>
    decreases g.ranking()(node), 0nat,
    when g.valid()
{
    match g.input_named(node, name) {
        Err(e) => Run { outcome: Outcome::Failed(EvalErrorView::Graph(e)), cache },
        Ok(input) => if !g.connections.contains_key(input) {
            Run { outcome: Outcome::Done(g.inputs[input].value), cache }
        } else {
            let output = g.connections[input];
            if cache.contains_key(output) {
                Run { outcome: Outcome::Done(cache[output]), cache }
            } else {
                let producer = g.outputs[output].node;
                proof {
                    lemma_producer_ranks_lower(g, node, name);
                }
                let run = eval_node(g, producer, cache);
                Run {
                    outcome: match run.outcome {
                        Outcome::Done(_) => if run.cache.contains_key(output) {
                            Outcome::Done(run.cache[output])
                        } else {
                            Outcome::Failed(EvalErrorView::CacheInvariantViolated(output))
                        },
                        Outcome::Pending(p) => if p.node == producer && p.output != output {
                            Outcome::Failed(EvalErrorView::CacheInvariantViolated(output))
                        } else {
                            Outcome::Pending(p)
                        },
                        Outcome::Failed(e) => Outcome::Failed(e),
                    },
                    cache: run.cache,
                }
            }
        },
    }
}

/// What evaluating a node yields, and the cache it leaves.
///
/// The node's inputs are resolved in the order in which its kind reads them,
/// each on the cache that the one before left. A kind that computes with
/// numbers stops at the first input that fails or is of the wrong shape; a
/// kind that assembles a document leaves such an input out. What the node
/// produces is published under its output.
pub open spec fn eval_node(g: GraphView, node: NodeId, cache: Map<OutputId, ValueView>) -> Run<
    ValueView,
>
    decreases g.ranking()(node), 1nat,
    when g.valid()
{
    if !g.nodes.contains_key(node) {
        Run {
            outcome: Outcome::Failed(EvalErrorView::Graph(GraphErrorView::InvalidNodeId(node))),
            cache,
        }
    } else {
        match g.nodes[node].user_data.template {
            MyNodeTemplate::AddScalar => {
                let a = as_scalar(eval_input(g, node, "A"@, cache), node, "A"@);
                let b = as_scalar(eval_input(g, node, "B"@, a.cache), node, "B"@);
                publish(
                    g,
                    node,
                    "out"@,
                    then(
                        both(a, b),
                        |p: (Scalar, Scalar)|
                            Product::Work(Arithmetic::AddScalar { a: p.0, b: p.1 }),
                    ),
                )
            },
            MyNodeTemplate::SubtractScalar => {
                let a = as_scalar(eval_input(g, node, "A"@, cache), node, "A"@);
                let b = as_scalar(eval_input(g, node, "B"@, a.cache), node, "B"@);
                publish(
                    g,
                    node,
                    "out"@,
                    then(
                        both(a, b),
                        |p: (Scalar, Scalar)|
                            Product::Work(Arithmetic::SubtractScalar { a: p.0, b: p.1 }),
                    ),
                )
            },
            MyNodeTemplate::VectorTimesScalar => {
                let scalar = as_scalar(eval_input(g, node, "scalar"@, cache), node, "scalar"@);
                let vector = as_vector(
                    eval_input(g, node, "vector"@, scalar.cache),
                    node,
                    "vector"@,
                );
                publish(
                    g,
                    node,
                    "out"@,
                    then(
                        both(scalar, vector),
                        |p: (Scalar, Vec2)|
                            Product::Work(
                                Arithmetic::VectorTimesScalar { vector: p.1, scalar: p.0 },
                            ),
                    ),
                )
            },
            MyNodeTemplate::AddVector => {
                let v1 = as_vector(eval_input(g, node, "v1"@, cache), node, "v1"@);
                let v2 = as_vector(eval_input(g, node, "v2"@, v1.cache), node, "v2"@);
                publish(
                    g,
                    node,
                    "out"@,
                    then(
                        both(v1, v2),
                        |p: (Vec2, Vec2)| Product::Work(Arithmetic::AddVector { v1: p.0, v2: p.1 }),
                    ),
                )
            },
            MyNodeTemplate::SubtractVector => {
                let v1 = as_vector(eval_input(g, node, "v1"@, cache), node, "v1"@);
                let v2 = as_vector(eval_input(g, node, "v2"@, v1.cache), node, "v2"@);
                publish(
                    g,
                    node,
                    "out"@,
                    then(
                        both(v1, v2),
                        |p: (Vec2, Vec2)|
                            Product::Work(Arithmetic::SubtractVector { v1: p.0, v2: p.1 }),
                    ),
                )
            },
            MyNodeTemplate::MakeVector => {
                let x = as_scalar(eval_input(g, node, "x"@, cache), node, "x"@);
                let y = as_scalar(eval_input(g, node, "y"@, x.cache), node, "y"@);
                publish(
                    g,
                    node,
                    "out"@,
                    then(
                        both(x, y),
                        |p: (Scalar, Scalar)|
                            Product::Value(ValueView::Vec2(Vec2 { x: p.0, y: p.1 })),
                    ),
                )
            },
            MyNodeTemplate::MakeScalar => {
                let value = as_scalar(eval_input(g, node, "value"@, cache), node, "value"@);
                publish(
                    g,
                    node,
                    "out"@,
                    then(value, |s: Scalar| Product::Value(ValueView::Scalar(s))),
                )
            },
            MyNodeTemplate::Scaffold => {
                let header = as_widget(eval_input(g, node, "header"@, cache));
                let body = as_widget(eval_input(g, node, "body"@, header.cache));
                publish(
                    g,
                    node,
                    "widget"@,
                    then(
                        both(header, body),
                        |p: (Option<Document>, Option<Document>)|
                            Product::Value(ValueView::Widget(scaffold_document(p.0, p.1))),
                    ),
                )
            },
            MyNodeTemplate::Text => {
                let text = as_text(eval_input(g, node, "text"@, cache));
                publish(
                    g,
                    node,
                    "widget"@,
                    then(
                        text,
                        |t: Option<Seq<char>>|
                            Product::Value(ValueView::Widget(text_node_document(t))),
                    ),
                )
            },
        }
    }
}

/// What an evaluation returned, for contracts.
pub open spec fn outcome_of(r: Result<Evaluation, EvalError>) -> Outcome<ValueView> {
    match r {
        Ok(Step::Done(v)) => Outcome::Done(v@),
        Ok(Step::Pending(p)) => Outcome::Pending(p),
        Err(e) => Outcome::Failed(e@),
    }
}

/// What a step with a plain result returned, for contracts.
pub open spec fn plain_outcome<T>(r: Result<Step<T>, EvalError>) -> Outcome<T> {
    match r {
        Ok(Step::Done(v)) => Outcome::Done(v),
        Ok(Step::Pending(p)) => Outcome::Pending(p),
        Err(e) => Outcome::Failed(e@),
    }
}

/// Resolves an input of a node: to the constant stored in it, or, where it
/// is connected, to the value of the output that feeds it. That value is
/// taken from the cache; where the cache does not hold it, the node that
/// owns the output is evaluated first.
pub fn evaluate_input(
    graph: &Graph,
    node_id: NodeId,
    param_name: &str,
    outputs_cache: &mut OutputsCache,
) -> (r: Result<Evaluation, EvalError>)
    requires
        graph.well_formed(),
    ensures
        outcome_of(r) == eval_input(graph@, node_id, param_name@, old(outputs_cache)@).outcome,
        final(outputs_cache)@ == eval_input(
            graph@,
            node_id,
            param_name@,
            old(outputs_cache)@,
        ).cache,
    decreases graph@.ranking()(node_id), 0nat,
{
    let input_id = match graph.get_input(node_id, param_name) {
        Ok(id) => id,
        Err(e) => {
            return Err(EvalError::Graph(e));
        },
    };
    match graph.connection(input_id) {
        None => match graph.try_get_input(input_id) {
            Some(param) => Ok(Step::Done(param.value.duplicate())),
            None => {
                proof {
                    lemma_listed_input(graph@, node_id, param_name@);
                }
                Err(EvalError::Graph(EguiGraphError::InvalidParameterId(AnyParameterId::Input(input_id))))
            },
        },
        Some(other_output_id) => {
            if let Some(other_value) = outputs_cache.get(other_output_id) {
                return Ok(Step::Done(other_value.duplicate()));
            }
            proof {
                lemma_producer_ranks_lower(graph@, node_id, param_name@);
            }
            let producer = match graph.try_get_output(other_output_id) {
                Some(param) => param.node,
                None => {
                    return Err(
                        EvalError::Graph(
                            EguiGraphError::InvalidParameterId(
                                AnyParameterId::Output(other_output_id),
                            ),
                        ),
                    );
                },
            };
            match evaluate_node(graph, producer, outputs_cache) {
                Ok(Step::Done(_)) => match outputs_cache.get(other_output_id) {
                    Some(value) => Ok(Step::Done(value.duplicate())),
                    None => Err(EvalError::CacheInvariantViolated(other_output_id)),
                },
                Ok(Step::Pending(pending)) => {
                    if pending.node == producer && pending.output != other_output_id {
                        Err(EvalError::CacheInvariantViolated(other_output_id))
                    } else {
                        Ok(Step::Pending(pending))
                    }
                },
                Err(e) => Err(e),
            }
        },
    }
}

/// In a valid graph, the input that a lookup by name finds exists.
pub proof fn lemma_listed_input(g: GraphView, node: NodeId, name: Seq<char>)
    requires
        g.valid(),
        g.input_named(node, name) is Ok,
    ensures
        g.inputs.contains_key(g.input_named(node, name)->Ok_0),
        g.inputs[g.input_named(node, name)->Ok_0].node == node,
{
    let input = g.input_named(node, name)->Ok_0;
    let k = choose|k: int| #[trigger] is_only_named(g.nodes[node].inputs, name, k);
    assert(g.nodes[node].inputs[k].1 == input);
    assert(g.inputs.contains_key(g.nodes[node].inputs[k].1));
}

/// Resolves an input of a node to a number.
fn input_scalar(graph: &Graph, node_id: NodeId, name: &str, outputs_cache: &mut OutputsCache) -> (r:
    Result<Step<Scalar>, EvalError>)
    requires
        graph.well_formed(),
    ensures
        plain_outcome(r) == as_scalar(
            eval_input(graph@, node_id, name@, old(outputs_cache)@),
            node_id,
            name@,
        ).outcome,
        final(outputs_cache)@ == eval_input(graph@, node_id, name@, old(outputs_cache)@).cache,
    decreases graph@.ranking()(node_id), 1nat,
{
    match evaluate_input(graph, node_id, name, outputs_cache) {
        Ok(Step::Done(value)) => match value.try_to_scalar() {
            Ok(scalar) => Ok(Step::Done(scalar)),
            Err(mismatch) => Err(
                EvalError::TypeMismatch { node: node_id, input: name.to_owned(), mismatch },
            ),
        },
        Ok(Step::Pending(pending)) => Ok(Step::Pending(pending)),
        Err(e) => Err(e),
    }
}

/// Resolves an input of a node to a vector.
fn input_vector(graph: &Graph, node_id: NodeId, name: &str, outputs_cache: &mut OutputsCache) -> (r:
    Result<Step<Vec2>, EvalError>)
    requires
        graph.well_formed(),
    ensures
        plain_outcome(r) == as_vector(
            eval_input(graph@, node_id, name@, old(outputs_cache)@),
            node_id,
            name@,
        ).outcome,
        final(outputs_cache)@ == eval_input(graph@, node_id, name@, old(outputs_cache)@).cache,
    decreases graph@.ranking()(node_id), 1nat,
{
    match evaluate_input(graph, node_id, name, outputs_cache) {
        Ok(Step::Done(value)) => match value.try_to_vec2() {
            Ok(vector) => Ok(Step::Done(vector)),
            Err(mismatch) => Err(
                EvalError::TypeMismatch { node: node_id, input: name.to_owned(), mismatch },
            ),
        },
        Ok(Step::Pending(pending)) => Ok(Step::Pending(pending)),
        Err(e) => Err(e),
    }
}

/// What a lenient step returned, for contracts: a document, if any.
pub open spec fn widget_outcome(r: Step<Option<serde_json::Value>>) -> Outcome<Option<Document>> {
    match r {
        Step::Done(Some(doc)) => Outcome::Done(Some(document_of(doc))),
        Step::Done(None) => Outcome::Done(None),
        Step::Pending(p) => Outcome::Pending(p),
    }
}

/// What a lenient step returned, for contracts: a text, if any.
pub open spec fn text_outcome(r: Step<Option<String>>) -> Outcome<Option<Seq<char>>> {
    match r {
        Step::Done(Some(text)) => Outcome::Done(Some(text@)),
        Step::Done(None) => Outcome::Done(None),
        Step::Pending(p) => Outcome::Pending(p),
    }
}

/// Resolves an input of a node to a document. An input that cannot be
/// resolved, or resolves to another shape, yields no document and no error.
fn input_widget(graph: &Graph, node_id: NodeId, name: &str, outputs_cache: &mut OutputsCache) -> (r:
    Step<Option<serde_json::Value>>)
    requires
        graph.well_formed(),
    ensures
        widget_outcome(r) == as_widget(
            eval_input(graph@, node_id, name@, old(outputs_cache)@),
        ).outcome,
        final(outputs_cache)@ == eval_input(graph@, node_id, name@, old(outputs_cache)@).cache,
    decreases graph@.ranking()(node_id), 1nat,
{
    match evaluate_input(graph, node_id, name, outputs_cache) {
        Ok(Step::Done(value)) => match value {
            MyValueType::Widget { value } => Step::Done(Some(value)),
            _ => Step::Done(None),
        },
        Ok(Step::Pending(pending)) => Step::Pending(pending),
        Err(_) => Step::Done(None),
    }
}

/// Resolves an input of a node to a text. An input that cannot be resolved,
/// or resolves to another shape, yields no text and no error.
fn input_text(graph: &Graph, node_id: NodeId, name: &str, outputs_cache: &mut OutputsCache) -> (r:
    Step<Option<String>>)
    requires
        graph.well_formed(),
    ensures
        text_outcome(r) == as_text(
            eval_input(graph@, node_id, name@, old(outputs_cache)@),
        ).outcome,
        final(outputs_cache)@ == eval_input(graph@, node_id, name@, old(outputs_cache)@).cache,
    decreases graph@.ranking()(node_id), 1nat,
{
    match evaluate_input(graph, node_id, name, outputs_cache) {
        Ok(Step::Done(value)) => match value {
            MyValueType::Text { value } => Step::Done(Some(value)),
            _ => Step::Done(None),
        },
        Ok(Step::Pending(pending)) => Step::Pending(pending),
        Err(_) => Step::Done(None),
    }
}

/// Stores the value of an output of a node in the cache and returns it.
/// Fails, and leaves the cache as it was, where the graph holds no such node
/// or the node has not exactly one output of that name.
pub fn populate_output(
    graph: &Graph,
    outputs_cache: &mut OutputsCache,
    node_id: NodeId,
    param_name: &str,
    value: MyValueType,
) -> (r: Result<MyValueType, EvalError>)
    requires
        graph.well_formed(),
    ensures
        match graph@.output_named(node_id, param_name@) {
            Ok(output) => r is Ok && r->Ok_0@ == value@ && final(outputs_cache)@ == old(
                outputs_cache,
            )@.insert(output, value@),
            Err(e) => r is Err && r->Err_0@ == EvalErrorView::Graph(e) && final(outputs_cache)@
                == old(outputs_cache)@,
        },
{
    match graph.get_output(node_id, param_name) {
        Ok(output_id) => {
            let copy = value.duplicate();
            outputs_cache.insert(output_id, value);
            Ok(copy)
        },
        Err(e) => Err(EvalError::Graph(e)),
    }
}

/// Asks the caller for the arithmetic whose result is the value of an
/// output of a node. Fails where the graph holds no such node or the node
/// has not exactly one output of that name.
fn request(graph: &Graph, node_id: NodeId, param_name: &str, work: Arithmetic) -> (r: Result<
    Evaluation,
    EvalError,
>)
    requires
        graph.well_formed(),
    ensures
        match graph@.output_named(node_id, param_name@) {
            Ok(output) => r == Ok::<Evaluation, EvalError>(
                Step::Pending(Pending { node: node_id, output, work }),
            ),
            Err(e) => r is Err && r->Err_0@ == EvalErrorView::Graph(e),
        },
{
    match graph.get_output(node_id, param_name) {
        Ok(output) => Ok(Step::Pending(Pending { node: node_id, output, work })),
        Err(e) => Err(EvalError::Graph(e)),
    }
}

/// Evaluates a node: resolves the inputs that its kind reads, evaluating
/// the nodes that feed them where the cache does not hold their outputs, and
/// publishes what the node produces under its output.
///
/// A node that builds a vector from two numbers, passes a number on or
/// assembles a document is done here: its value is stored in the cache and
/// returned. A node that adds, subtracts or scales returns the arithmetic it
/// needs performed, and the cache is left without a value for it; so does
/// any node that cannot go on before such a node has its value.
pub fn evaluate_node(graph: &Graph, node_id: NodeId, outputs_cache: &mut OutputsCache) -> (r:
    Result<Evaluation, EvalError>)
    requires
        graph.well_formed(),
    ensures
        outcome_of(r) == eval_node(graph@, node_id, old(outputs_cache)@).outcome,
        final(outputs_cache)@ == eval_node(graph@, node_id, old(outputs_cache)@).cache,
    decreases graph@.ranking()(node_id), 2nat,
{
    let template = match graph.node(node_id) {
        Some(node) => node.user_data.template,
        None => {
            return Err(EvalError::Graph(EguiGraphError::InvalidNodeId(node_id)));
        },
    };
    match template {
        MyNodeTemplate::AddScalar => {
            let a = match input_scalar(graph, node_id, "A", outputs_cache)? {
                Step::Done(a) => a,
                Step::Pending(pending) => {
                    return Ok(Step::Pending(pending));
                },
            };
            let b = match input_scalar(graph, node_id, "B", outputs_cache)? {
                Step::Done(b) => b,
                Step::Pending(pending) => {
                    return Ok(Step::Pending(pending));
                },
            };
            request(graph, node_id, "out", Arithmetic::AddScalar { a, b })
        },
        MyNodeTemplate::SubtractScalar => {
            let a = match input_scalar(graph, node_id, "A", outputs_cache)? {
                Step::Done(a) => a,
                Step::Pending(pending) => {
                    return Ok(Step::Pending(pending));
                },
            };
            let b = match input_scalar(graph, node_id, "B", outputs_cache)? {
                Step::Done(b) => b,
                Step::Pending(pending) => {
                    return Ok(Step::Pending(pending));
                },
            };
            request(graph, node_id, "out", Arithmetic::SubtractScalar { a, b })
        },
        MyNodeTemplate::VectorTimesScalar => {
            let scalar = match input_scalar(graph, node_id, "scalar", outputs_cache)? {
                Step::Done(scalar) => scalar,
                Step::Pending(pending) => {
                    return Ok(Step::Pending(pending));
                },
            };
            let vector = match input_vector(graph, node_id, "vector", outputs_cache)? {
                Step::Done(vector) => vector,
                Step::Pending(pending) => {
                    return Ok(Step::Pending(pending));
                },
            };
            request(graph, node_id, "out", Arithmetic::VectorTimesScalar { vector, scalar })
        },
        MyNodeTemplate::AddVector => {
            let v1 = match input_vector(graph, node_id, "v1", outputs_cache)? {
                Step::Done(v1) => v1,
                Step::Pending(pending) => {
                    return Ok(Step::Pending(pending));
                },
            };
            let v2 = match input_vector(graph, node_id, "v2", outputs_cache)? {
                Step::Done(v2) => v2,
                Step::Pending(pending) => {
                    return Ok(Step::Pending(pending));
                },
            };
            request(graph, node_id, "out", Arithmetic::AddVector { v1, v2 })
        },
        MyNodeTemplate::SubtractVector => {
            let v1 = match input_vector(graph, node_id, "v1", outputs_cache)? {
                Step::Done(v1) => v1,
                Step::Pending(pending) => {
                    return Ok(Step::Pending(pending));
                },
            };
            let v2 = match input_vector(graph, node_id, "v2", outputs_cache)? {
                Step::Done(v2) => v2,
                Step::Pending(pending) => {
                    return Ok(Step::Pending(pending));
                },
            };
            request(graph, node_id, "out", Arithmetic::SubtractVector { v1, v2 })
        },
        MyNodeTemplate::MakeVector => {
            let x = match input_scalar(graph, node_id, "x", outputs_cache)? {
                Step::Done(x) => x,
                Step::Pending(pending) => {
                    return Ok(Step::Pending(pending));
                },
            };
            let y = match input_scalar(graph, node_id, "y", outputs_cache)? {
                Step::Done(y) => y,
                Step::Pending(pending) => {
                    return Ok(Step::Pending(pending));
                },
            };
            let value = MyValueType::Vec2 { value: Vec2 { x, y } };
            Ok(Step::Done(populate_output(graph, outputs_cache, node_id, "out", value)?))
        },
        MyNodeTemplate::MakeScalar => {
            let value = match input_scalar(graph, node_id, "value", outputs_cache)? {
                Step::Done(value) => value,
                Step::Pending(pending) => {
                    return Ok(Step::Pending(pending));
                },
            };
            let value = MyValueType::Scalar { value };
            Ok(Step::Done(populate_output(graph, outputs_cache, node_id, "out", value)?))
        },
        MyNodeTemplate::Scaffold => {
            let header = match input_widget(graph, node_id, "header", outputs_cache) {
                Step::Done(header) => header,
                Step::Pending(pending) => {
                    return Ok(Step::Pending(pending));
                },
            };
            let body = match input_widget(graph, node_id, "body", outputs_cache) {
                Step::Done(body) => body,
                Step::Pending(pending) => {
                    return Ok(Step::Pending(pending));
                },
            };
            let mut result = empty_object();
            if let Some(part) = header {
                insert_entry(&mut result, "header".to_owned(), part);
            }
            if let Some(part) = body {
                insert_entry(&mut result, "body".to_owned(), part);
            }
            let value = MyValueType::Widget { value: result };
            Ok(Step::Done(populate_output(graph, outputs_cache, node_id, "widget", value)?))
        },
        MyNodeTemplate::Text => {
            let text = match input_text(graph, node_id, "text", outputs_cache) {
                Step::Done(text) => text,
                Step::Pending(pending) => {
                    return Ok(Step::Pending(pending));
                },
            };
            let ghost found = as_text(
                eval_input(graph@, node_id, "text"@, old(outputs_cache)@),
            ).outcome->Done_0;
            let mut result = empty_object();
            insert_entry(&mut result, "text".to_owned(), text_document(String::new()));
            if let Some(text_value) = text {
                insert_entry(&mut result, "text".to_owned(), text_document(text_value));
            }
            proof {
                let empty = Map::<Seq<char>, Document>::empty();
                let blank = Document::Text(Seq::empty());
                if let Some(t) = found {
                    assert(empty.insert("text"@, blank).insert("text"@, Document::Text(t))
                        =~= empty.insert("text"@, Document::Text(t)));
                }
            }
            let value = MyValueType::Widget { value: result };
            Ok(Step::Done(populate_output(graph, outputs_cache, node_id, "widget", value)?))
        },
    }
}

/// Goes on with the evaluation of a node after the caller has performed the
/// arithmetic of a pending request: the value is stored in the cache under
/// the output that the request names. Where the request came from the node
/// itself, that value is the node's; else the node is evaluated again, on
/// the cache that now holds the value.
pub fn resume(
    graph: &Graph,
    node_id: NodeId,
    pending: &Pending,
    value: MyValueType,
    outputs_cache: &mut OutputsCache,
) -> (r: Result<Evaluation, EvalError>)
    requires
        graph.well_formed(),
    ensures
        outcome_of(r) == resumed(graph@, node_id, *pending, value@, old(outputs_cache)@).outcome,
        final(outputs_cache)@ == resumed(
            graph@,
            node_id,
            *pending,
            value@,
            old(outputs_cache)@,
        ).cache,
{
    let copy = value.duplicate();
    outputs_cache.insert(pending.output, value);
    if pending.node == node_id {
        Ok(Step::Done(copy))
    } else {
        evaluate_node(graph, node_id, outputs_cache)
    }
}

/// What going on with the evaluation of a node yields, once a pending
/// request has got its value.
pub open spec fn resumed(
    g: GraphView,
    node: NodeId,
    pending: Pending,
    value: ValueView,
    cache: Map<OutputId, ValueView>,
) -> Run<ValueView> {
    let stored = cache.insert(pending.output, value);
    if pending.node == node {
        Run { outcome: Outcome::Done(value), cache: stored }
    } else {
        eval_node(g, node, stored)
    }
}

} // verus!
