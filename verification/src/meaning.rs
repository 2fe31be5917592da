//! What an evaluation means: the value of a node, apart from any cache.
//!
//! The value of a node is defined here from the graph alone, given what the
//! caller's arithmetic yields. An evaluation with a cache arrives at that
//! value, as long as the cache holds nothing but such values: this is what
//! makes it safe to keep the cache and to compute every output once.

use vstd::prelude::*;
use crate::data_type::MyDataType;
use crate::document::Document;
use crate::errors::GraphErrorView;
use crate::eval::{
    eval_input, eval_node, lemma_producer_ranks_lower, resumed, scaffold_document,
    text_node_document, Arithmetic, EvalErrorView, Outcome, Pending, Product, Run,
};
use crate::graph::GraphView;
use crate::id_type::{NodeId, OutputId};
use crate::laws::{
    first_input, lemma_evaluated_node_is_cached, lemma_listed_output, primary_output, publishes,
    second_input,
};
use crate::template::MyNodeTemplate;
use crate::value::{Scalar, TypeMismatch, ValueView, Vec2};

verus! {

/// The number in a value, or the failure that names the node and the input.
pub open spec fn scalar_in(
    value: Result<ValueView, EvalErrorView>,
    node: NodeId,
    input: Seq<char>,
) -> Result<Scalar, EvalErrorView> {
    match value {
        Ok(ValueView::Scalar(s)) => Ok(s),
        Ok(other) => Err(
            EvalErrorView::TypeMismatch {
                node,
                input,
                mismatch: TypeMismatch { actual: other.data_type(), expected: MyDataType::Scalar },
            },
        ),
        Err(e) => Err(e),
    }
}

/// The vector in a value, or the failure that names the node and the input.
pub open spec fn vector_in(
    value: Result<ValueView, EvalErrorView>,
    node: NodeId,
    input: Seq<char>,
) -> Result<Vec2, EvalErrorView> {
    match value {
        Ok(ValueView::Vec2(v)) => Ok(v),
        Ok(other) => Err(
            EvalErrorView::TypeMismatch {
                node,
                input,
                mismatch: TypeMismatch { actual: other.data_type(), expected: MyDataType::Vec2 },
            },
        ),
        Err(e) => Err(e),
    }
}

/// The document in a value, if it is one.
pub open spec fn widget_in(value: Result<ValueView, EvalErrorView>) -> Option<Document> {
    match value {
        Ok(ValueView::Widget(d)) => Some(d),
        _ => None,
    }
}

/// The text in a value, if it is one.
pub open spec fn text_in(value: Result<ValueView, EvalErrorView>) -> Option<Seq<char>> {
    match value {
        Ok(ValueView::Text(t)) => Some(t),
        _ => None,
    }
}

/// Two results, of which the first failure counts.
pub open spec fn pair<A, B>(first: Result<A, EvalErrorView>, second: Result<B, EvalErrorView>) -> Result<
    (A, B),
    EvalErrorView,
> {
    match first {
        Ok(a) => match second {
            Ok(b) => Ok((a, b)),
            Err(e) => Err(e),
        },
        Err(e) => Err(e),
    }
}

/// The value that a node publishes: what it produced, with arithmetic done
/// by `arith`. The node must have exactly one output of that name.
pub open spec fn published(
    g: GraphView,
    arith: spec_fn(Arithmetic) -> ValueView,
    node: NodeId,
    name: Seq<char>,
    product: Result<Product, EvalErrorView>,
) -> Result<ValueView, EvalErrorView> {
    match product {
        Ok(product) => match g.output_named(node, name) {
            Ok(_) => Ok(
                match product {
                    Product::Value(v) => v,
                    Product::Work(work) => arith(work),
                },
            ),
            Err(e) => Err(EvalErrorView::Graph(e)),
        },
        Err(e) => Err(e),
    }
}

/// The value of an input: its constant, or the value of the node that owns
/// the output connected to it, which has to be the output under which that
/// node publishes.
pub open spec fn input_value(
    g: GraphView,
    arith: spec_fn(Arithmetic) -> ValueView,
    node: NodeId,
    name: Seq<char>,
) -> Result<ValueView, EvalErrorView>
    decreases g.ranking()(node), 0nat,
    when g.valid()
{
    match g.input_named(node, name) {
        Err(e) => Err(EvalErrorView::Graph(e)),
        Ok(input) => if !g.connections.contains_key(input) {
            Ok(g.inputs[input].value)
        } else {
            let output = g.connections[input];
            let producer = g.outputs[output].node;
            proof {
                lemma_producer_ranks_lower(g, node, name);
            }
            match node_value(g, arith, producer) {
                Ok(v) => if publishes(g, producer, output) {
                    Ok(v)
                } else {
                    Err(EvalErrorView::CacheInvariantViolated(output))
                },
                Err(e) => Err(e),
            }
        },
    }
}

/// The value of a node: what its kind makes of the values of its inputs,
/// with arithmetic done by `arith`.
pub open spec fn node_value(
    g: GraphView,
    arith: spec_fn(Arithmetic) -> ValueView,
    node: NodeId,
) -> Result<ValueView, EvalErrorView>
    decreases g.ranking()(node), 1nat,
    when g.valid()
{
    if !g.nodes.contains_key(node) {
        Err(EvalErrorView::Graph(GraphErrorView::InvalidNodeId(node)))
    } else {
        match g.nodes[node].user_data.template {
            MyNodeTemplate::AddScalar => {
                let a = scalar_in(input_value(g, arith, node, "A"@), node, "A"@);
                let b = scalar_in(input_value(g, arith, node, "B"@), node, "B"@);
                published(
                    g,
                    arith,
                    node,
                    "out"@,
                    match pair(a, b) {
                        Ok(p) => Ok(Product::Work(Arithmetic::AddScalar { a: p.0, b: p.1 })),
                        Err(e) => Err(e),
                    },
                )
            },
            MyNodeTemplate::SubtractScalar => {
                let a = scalar_in(input_value(g, arith, node, "A"@), node, "A"@);
                let b = scalar_in(input_value(g, arith, node, "B"@), node, "B"@);
                published(
                    g,
                    arith,
                    node,
                    "out"@,
                    match pair(a, b) {
                        Ok(p) => Ok(Product::Work(Arithmetic::SubtractScalar { a: p.0, b: p.1 })),
                        Err(e) => Err(e),
                    },
                )
            },
            MyNodeTemplate::VectorTimesScalar => {
                let scalar = scalar_in(input_value(g, arith, node, "scalar"@), node, "scalar"@);
                let vector = vector_in(input_value(g, arith, node, "vector"@), node, "vector"@);
                published(
                    g,
                    arith,
                    node,
                    "out"@,
                    match pair(scalar, vector) {
                        Ok(p) => Ok(
                            Product::Work(
                                Arithmetic::VectorTimesScalar { vector: p.1, scalar: p.0 },
                            ),
                        ),
                        Err(e) => Err(e),
                    },
                )
            },
            MyNodeTemplate::AddVector => {
                let v1 = vector_in(input_value(g, arith, node, "v1"@), node, "v1"@);
                let v2 = vector_in(input_value(g, arith, node, "v2"@), node, "v2"@);
                published(
                    g,
                    arith,
                    node,
                    "out"@,
                    match pair(v1, v2) {
                        Ok(p) => Ok(Product::Work(Arithmetic::AddVector { v1: p.0, v2: p.1 })),
                        Err(e) => Err(e),
                    },
                )
            },
            MyNodeTemplate::SubtractVector => {
                let v1 = vector_in(input_value(g, arith, node, "v1"@), node, "v1"@);
                let v2 = vector_in(input_value(g, arith, node, "v2"@), node, "v2"@);
                published(
                    g,
                    arith,
                    node,
                    "out"@,
                    match pair(v1, v2) {
                        Ok(p) => Ok(Product::Work(Arithmetic::SubtractVector { v1: p.0, v2: p.1 })),
                        Err(e) => Err(e),
                    },
                )
            },
            MyNodeTemplate::MakeVector => {
                let x = scalar_in(input_value(g, arith, node, "x"@), node, "x"@);
                let y = scalar_in(input_value(g, arith, node, "y"@), node, "y"@);
                published(
                    g,
                    arith,
                    node,
                    "out"@,
                    match pair(x, y) {
                        Ok(p) => Ok(Product::Value(ValueView::Vec2(Vec2 { x: p.0, y: p.1 }))),
                        Err(e) => Err(e),
                    },
                )
            },
            MyNodeTemplate::MakeScalar => {
                let value = scalar_in(input_value(g, arith, node, "value"@), node, "value"@);
                published(
                    g,
                    arith,
                    node,
                    "out"@,
                    match value {
                        Ok(s) => Ok(Product::Value(ValueView::Scalar(s))),
                        Err(e) => Err(e),
                    },
                )
            },
            MyNodeTemplate::Scaffold => {
                let header = widget_in(input_value(g, arith, node, "header"@));
                let body = widget_in(input_value(g, arith, node, "body"@));
                published(
                    g,
                    arith,
                    node,
                    "widget"@,
                    Ok(Product::Value(ValueView::Widget(scaffold_document(header, body)))),
                )
            },
            MyNodeTemplate::Text => {
                let text = text_in(input_value(g, arith, node, "text"@));
                published(
                    g,
                    arith,
                    node,
                    "widget"@,
                    Ok(Product::Value(ValueView::Widget(text_node_document(text)))),
                )
            },
        }
    }
}

/// Whether a cache holds nothing but values of nodes, each under the output
/// under which its node publishes.
pub open spec fn faithful(
    g: GraphView,
    arith: spec_fn(Arithmetic) -> ValueView,
    cache: Map<OutputId, ValueView>,
) -> bool {
    forall|o: OutputId| #[trigger]
        cache.contains_key(o) ==> {
            &&& g.outputs.contains_key(o)
            &&& publishes(g, g.outputs[o].node, o)
            &&& node_value(g, arith, g.outputs[o].node) == Ok::<ValueView, EvalErrorView>(
                cache[o],
            )
        }
}

/// Whether a request is for the value of its node, and names the output
/// under which that node publishes: answering it with the caller's
/// arithmetic keeps a faithful cache faithful.
pub open spec fn answerable(
    g: GraphView,
    arith: spec_fn(Arithmetic) -> ValueView,
    pending: Pending,
) -> bool {
    &&& g.outputs.contains_key(pending.output)
    &&& g.outputs[pending.output].node == pending.node
    &&& publishes(g, pending.node, pending.output)
    &&& node_value(g, arith, pending.node) == Ok::<ValueView, EvalErrorView>(
        arith(pending.work),
    )
}

/// Whether a step of an evaluation came to what the graph means: a result
/// is the value, a failure is the failure of the value, a request can be
/// answered, and the cache that is left is faithful.
pub open spec fn sound(
    g: GraphView,
    arith: spec_fn(Arithmetic) -> ValueView,
    run: Run<ValueView>,
    value: Result<ValueView, EvalErrorView>,
) -> bool {
    &&& faithful(g, arith, run.cache)
    &&& match run.outcome {
        Outcome::Done(v) => value == Ok::<ValueView, EvalErrorView>(v),
        Outcome::Failed(e) => value == Err::<ValueView, EvalErrorView>(e),
        Outcome::Pending(p) => answerable(g, arith, p),
    }
}

/// Resolving an input on a faithful cache comes to the value of the input.
pub proof fn lemma_input_is_sound(
    g: GraphView,
    arith: spec_fn(Arithmetic) -> ValueView,
    node: NodeId,
    name: Seq<char>,
    cache: Map<OutputId, ValueView>,
)
    requires
        g.valid(),
        faithful(g, arith, cache),
    ensures
        sound(g, arith, eval_input(g, node, name, cache), input_value(g, arith, node, name)),
    decreases g.ranking()(node), 0nat,
{
    match g.input_named(node, name) {
        Err(_) => {},
        Ok(input) => {
            if g.connections.contains_key(input) {
                let output = g.connections[input];
                lemma_producer_ranks_lower(g, node, name);
                let producer = g.outputs[output].node;
                if !cache.contains_key(output) {
                    lemma_node_is_sound(g, arith, producer, cache);
                    let run = eval_node(g, producer, cache);
                    match run.outcome {
                        Outcome::Done(v) => {
                            lemma_evaluated_node_is_cached(g, producer, cache);
                        },
                        _ => {},
                    }
                }
            }
        },
    }
}

/// Evaluating a node on a faithful cache comes to the value of the node.
pub proof fn lemma_node_is_sound(
    g: GraphView,
    arith: spec_fn(Arithmetic) -> ValueView,
    node: NodeId,
    cache: Map<OutputId, ValueView>,
)
    requires
        g.valid(),
        faithful(g, arith, cache),
    ensures
        sound(g, arith, eval_node(g, node, cache), node_value(g, arith, node)),
    decreases g.ranking()(node), 1nat,
{
    if g.nodes.contains_key(node) {
        let template = g.nodes[node].user_data.template;
        let first_name = first_input(template);
        let first = eval_input(g, node, first_name, cache);
        lemma_input_is_sound(g, arith, node, first_name, cache);
        match second_input(template) {
            Some(second_name) => {
                lemma_input_is_sound(g, arith, node, second_name, first.cache);
            },
            None => {},
        }
        let out_name = primary_output(template);
        if g.output_named(node, out_name) is Ok {
            lemma_listed_output(g, node, out_name);
        }
    }
}

/// A cache that holds nothing is faithful.
pub proof fn lemma_empty_cache_is_faithful(g: GraphView, arith: spec_fn(Arithmetic) -> ValueView)
    ensures
        faithful(g, arith, Map::<OutputId, ValueView>::empty()),
{
}

/// Storing the answer to a request that can be answered keeps a faithful
/// cache faithful.
pub proof fn lemma_answer_keeps_cache_faithful(
    g: GraphView,
    arith: spec_fn(Arithmetic) -> ValueView,
    cache: Map<OutputId, ValueView>,
    pending: Pending,
)
    requires
        faithful(g, arith, cache),
        answerable(g, arith, pending),
    ensures
        faithful(g, arith, cache.insert(pending.output, arith(pending.work))),
{
}

/// Going on after a request was answered with the caller's arithmetic comes
/// to the value of the node again: every step of an evaluation that starts
/// on a faithful cache ends with the node's value, with its failure, or
/// with a request that can be answered.
pub proof fn lemma_resumed_is_sound(
    g: GraphView,
    arith: spec_fn(Arithmetic) -> ValueView,
    node: NodeId,
    pending: Pending,
    cache: Map<OutputId, ValueView>,
)
    requires
        g.valid(),
        faithful(g, arith, cache),
        answerable(g, arith, pending),
    ensures
        sound(
            g,
            arith,
            resumed(g, node, pending, arith(pending.work), cache),
            node_value(g, arith, node),
        ),
{
    lemma_answer_keeps_cache_faithful(g, arith, cache, pending);
    if pending.node != node {
        lemma_node_is_sound(g, arith, node, cache.insert(pending.output, arith(pending.work)));
    }
}

/// The value that an evaluation arrives at does not depend on the cache it
/// started on, as long as that cache was faithful: whether the cache was
/// empty or kept from earlier evaluations, the same node of the same graph
/// has the same value, and fails with the same failure.
pub proof fn lemma_value_is_independent_of_cache(
    g: GraphView,
    arith: spec_fn(Arithmetic) -> ValueView,
    node: NodeId,
    first: Map<OutputId, ValueView>,
    second: Map<OutputId, ValueView>,
)
    requires
        g.valid(),
        faithful(g, arith, first),
        faithful(g, arith, second),
        !(eval_node(g, node, first).outcome is Pending),
        !(eval_node(g, node, second).outcome is Pending),
    ensures
        eval_node(g, node, first).outcome == eval_node(g, node, second).outcome,
{
    lemma_node_is_sound(g, arith, node, first);
    lemma_node_is_sound(g, arith, node, second);
}

} // verus!
