//! What holds of every graph and every evaluation.

use vstd::prelude::*;
use crate::driver::{
    advancing, asked, finished, lemma_answer_advances, lemma_first_step_advances, uncached,
    waiting,
};
use crate::errors::GraphErrorView;
use crate::eval::{
    eval_input, eval_node, lemma_producer_ranks_lower, resumed, Arithmetic, EvalErrorView,
    Outcome, Pending, Run,
};
use crate::graph::{
    is_only_named, lemma_without_node_valid, port_named, GraphView, OutputParam,
};
use crate::id_type::{InputId, NodeId, OutputId};
use crate::meaning::{faithful, lemma_node_is_sound, lemma_resumed_is_sound, node_value, sound};
use crate::template::{
    added_inputs, added_outputs, built, declared_input, lemma_with_inputs_lists,
    lemma_with_outputs_lists, with_inputs, MyNodeTemplate,
};
use crate::value::ValueView;

verus! {

/// A name that no input of a node has is not found, and the failure names
/// the node and the name.
pub proof fn lemma_undeclared_input_is_not_found(g: GraphView, node: NodeId, name: Seq<char>)
    requires
        g.nodes.contains_key(node),
        forall|k: int| 0 <= k < g.nodes[node].inputs.len() ==> g.nodes[node].inputs[k].0 != name,
    ensures
        g.input_named(node, name) == Err::<InputId, GraphErrorView>(
            GraphErrorView::NoParameterNamed(node, name),
        ),
{
    assert forall|k: int| !#[trigger] is_only_named(g.nodes[node].inputs, name, k) by {}
}

/// A name that no output of a node has is not found, and the failure names
/// the node and the name.
pub proof fn lemma_undeclared_output_is_not_found(g: GraphView, node: NodeId, name: Seq<char>)
    requires
        g.nodes.contains_key(node),
        forall|k: int|
            0 <= k < g.nodes[node].outputs.len() ==> g.nodes[node].outputs[k].0 != name,
    ensures
        g.output_named(node, name) == Err::<OutputId, GraphErrorView>(
            GraphErrorView::NoParameterNamed(node, name),
        ),
{
    assert forall|k: int| !#[trigger] is_only_named(g.nodes[node].outputs, name, k) by {}
}

/// A name that exactly one port in a list has leads to that port, whatever
/// else the list holds and however often it is looked up.
pub proof fn lemma_unique_name_is_found<I>(ports: Seq<(Seq<char>, I)>, name: Seq<char>, k: int)
    requires
        0 <= k < ports.len(),
        ports[k].0 == name,
        forall|j: int| 0 <= j < ports.len() && j != k ==> ports[j].0 != name,
    ensures
        port_named(ports, name) == Some(ports[k].1),
{
    assert(is_only_named(ports, name, k));
    let found = choose|j: int| #[trigger] is_only_named(ports, name, j);
    assert(found == k);
}

/// A name that several ports in a list have is not found: none of them is
/// picked.
pub proof fn lemma_repeated_name_is_not_found<I>(
    ports: Seq<(Seq<char>, I)>,
    name: Seq<char>,
    a: int,
    b: int,
)
    requires
        0 <= a < b < ports.len(),
        ports[a].0 == name,
        ports[b].0 == name,
    ensures
        port_named(ports, name) is None,
{
    assert forall|k: int| !#[trigger] is_only_named(ports, name, k) by {
        if is_only_named(ports, name, k) {
            assert(a == k);
            assert(b == k);
        }
    }
}

/// The handle of a removed node is not given out again: the graph goes on
/// counting from where it was, and so do the handles of the parameters that
/// left with the node.
pub proof fn lemma_removed_handles_stay_out_of_use(g: GraphView, node: NodeId)
    requires
        g.valid(),
        g.nodes.contains_key(node),
    ensures
        g.without_node(node).valid(),
        !g.without_node(node).nodes.contains_key(node),
        node.0 < g.without_node(node).node_slots,
        forall|i: InputId|
            g.inputs.contains_key(i) && g.inputs[i].node == node ==> !g.without_node(
                node,
            ).inputs.contains_key(i) && i.0 < g.without_node(node).input_slots,
        forall|o: OutputId|
            g.outputs.contains_key(o) && g.outputs[o].node == node ==> !g.without_node(
                node,
            ).outputs.contains_key(o) && o.0 < g.without_node(node).output_slots,
{
    lemma_without_node_valid(g, node);
}

/// The same graph, node and cache always evaluate alike: the outcome and
/// the cache that is left depend on nothing else.
pub proof fn lemma_evaluation_is_deterministic(
    g1: GraphView,
    g2: GraphView,
    node: NodeId,
    cache1: Map<OutputId, ValueView>,
    cache2: Map<OutputId, ValueView>,
)
    requires
        g1 == g2,
        cache1 =~= cache2,
    ensures
        eval_node(g1, node, cache1) == eval_node(g2, node, cache2),
{
}

/// An input that is fed by an output whose value the cache holds resolves
/// to that value, and the cache stays as it is: the node that owns the
/// output is not evaluated again.
pub proof fn lemma_cached_output_is_not_computed_again(
    g: GraphView,
    node: NodeId,
    name: Seq<char>,
    cache: Map<OutputId, ValueView>,
)
    requires
        g.valid(),
        g.input_named(node, name) is Ok,
        g.connections.contains_key(g.input_named(node, name)->Ok_0),
        cache.contains_key(g.connections[g.input_named(node, name)->Ok_0]),
    ensures
        eval_input(g, node, name, cache) == (Run {
            outcome: Outcome::Done(cache[g.connections[g.input_named(node, name)->Ok_0]]),
            cache,
        }),
{
}

/// In a valid graph, the output that a lookup by name finds exists and
/// belongs to the node.
pub proof fn lemma_listed_output(g: GraphView, node: NodeId, name: Seq<char>)
    requires
        g.valid(),
        g.output_named(node, name) is Ok,
    ensures
        g.outputs.contains_key(g.output_named(node, name)->Ok_0),
        g.outputs[g.output_named(node, name)->Ok_0].node == node,
{
    let output = g.output_named(node, name)->Ok_0;
    let k = choose|k: int| #[trigger] is_only_named(g.nodes[node].outputs, name, k);
    assert(g.nodes[node].outputs[k].1 == output);
    assert(g.outputs.contains_key(g.nodes[node].outputs[k].1));
}

/// Whether `after` holds everything that `before` holds, and differs from
/// it only in the values of outputs whose nodes rank below `limit`.
pub open spec fn written_below(
    g: GraphView,
    before: Map<OutputId, ValueView>,
    after: Map<OutputId, ValueView>,
    limit: nat,
) -> bool {
    &&& forall|o: OutputId| before.contains_key(o) ==> #[trigger] after.contains_key(o)
    &&& forall|o: OutputId| #[trigger]
        after.contains_key(o) && !(g.outputs.contains_key(o) && g.ranking()(g.outputs[o].node)
            < limit) ==> before.contains_key(o) && after[o] == before[o]
}

/// Whether the output is the one under which the node publishes its value.
pub open spec fn publishes(g: GraphView, node: NodeId, output: OutputId) -> bool {
    &&& g.nodes.contains_key(node)
    &&& g.output_named(node, primary_output(g.nodes[node].user_data.template)) == Ok::<
        OutputId,
        GraphErrorView,
    >(output)
}

/// Whether a request names a node of the graph and the output of that node
/// under which the node publishes its value.
pub open spec fn well_addressed(g: GraphView, pending: Pending) -> bool {
    &&& g.nodes.contains_key(pending.node)
    &&& g.outputs.contains_key(pending.output)
    &&& g.outputs[pending.output].node == pending.node
    &&& publishes(g, pending.node, pending.output)
}

/// What holds of resolving an input, whatever comes of it: the cache keeps
/// what it held and changes only for outputs of nodes that rank below the
/// input's node, and a pending request is for an output that the cache has
/// no value for.
pub open spec fn input_run_settled(
    g: GraphView,
    node: NodeId,
    before: Map<OutputId, ValueView>,
    run: Run<ValueView>,
) -> bool {
    &&& written_below(g, before, run.cache, g.ranking()(node))
    &&& run.outcome matches Outcome::Pending(p) ==> well_addressed(g, p)
        && !run.cache.contains_key(p.output)
}

/// What holds of evaluating a node, whatever comes of it: the cache keeps
/// what it held and changes only for outputs of the node and of nodes that
/// rank below it; unless the node produced its value, the cache has not
/// changed for the node's own outputs; and a pending request is the node's
/// own or is for an output that the cache has no value for.
pub open spec fn node_run_settled(
    g: GraphView,
    node: NodeId,
    before: Map<OutputId, ValueView>,
    run: Run<ValueView>,
) -> bool {
    &&& written_below(g, before, run.cache, g.ranking()(node) + 1)
    &&& !(run.outcome is Done) ==> written_below(g, before, run.cache, g.ranking()(node))
    &&& run.outcome matches Outcome::Pending(p) ==> well_addressed(g, p) && (p.node == node
        || !run.cache.contains_key(p.output))
}

/// Resolving an input leaves the cache settled.
pub proof fn lemma_input_run_settled(
    g: GraphView,
    node: NodeId,
    name: Seq<char>,
    cache: Map<OutputId, ValueView>,
)
    requires
        g.valid(),
    ensures
        input_run_settled(g, node, cache, eval_input(g, node, name, cache)),
    decreases g.ranking()(node), 0nat,
{
    match g.input_named(node, name) {
        Err(_) => {},
        Ok(input) => {
            if g.connections.contains_key(input) {
                let output = g.connections[input];
                if !cache.contains_key(output) {
                    lemma_producer_ranks_lower(g, node, name);
                    let producer = g.outputs[output].node;
                    lemma_node_run_settled(g, producer, cache);
                }
            }
        },
    }
}

/// Evaluating a node leaves the cache settled.
pub proof fn lemma_node_run_settled(g: GraphView, node: NodeId, cache: Map<OutputId, ValueView>)
    requires
        g.valid(),
    ensures
        node_run_settled(g, node, cache, eval_node(g, node, cache)),
    decreases g.ranking()(node), 1nat,
{
    if g.nodes.contains_key(node) {
        let template = g.nodes[node].user_data.template;
        let first_name = first_input(template);
        let first = eval_input(g, node, first_name, cache);
        lemma_input_run_settled(g, node, first_name, cache);
        match second_input(template) {
            Some(second_name) => {
                lemma_input_run_settled(g, node, second_name, first.cache);
            },
            None => {},
        }
        let out_name = primary_output(template);
        if g.output_named(node, out_name) is Ok {
            lemma_listed_output(g, node, out_name);
        }
    }
}

/// The name of the input that a kind of node reads first.
pub open spec fn first_input(template: MyNodeTemplate) -> Seq<char> {
    match template {
        MyNodeTemplate::AddScalar | MyNodeTemplate::SubtractScalar => "A"@,
        MyNodeTemplate::VectorTimesScalar => "scalar"@,
        MyNodeTemplate::AddVector | MyNodeTemplate::SubtractVector => "v1"@,
        MyNodeTemplate::MakeVector => "x"@,
        MyNodeTemplate::MakeScalar => "value"@,
        MyNodeTemplate::Scaffold => "header"@,
        MyNodeTemplate::Text => "text"@,
    }
}

/// The name of the input that a kind of node reads second, if it reads two.
pub open spec fn second_input(template: MyNodeTemplate) -> Option<Seq<char>> {
    match template {
        MyNodeTemplate::AddScalar | MyNodeTemplate::SubtractScalar => Some("B"@),
        MyNodeTemplate::VectorTimesScalar => Some("vector"@),
        MyNodeTemplate::AddVector | MyNodeTemplate::SubtractVector => Some("v2"@),
        MyNodeTemplate::MakeVector => Some("y"@),
        MyNodeTemplate::MakeScalar => None,
        MyNodeTemplate::Scaffold => Some("body"@),
        MyNodeTemplate::Text => None,
    }
}

/// The name of the output under which a kind of node publishes its value.
pub open spec fn primary_output(template: MyNodeTemplate) -> Seq<char> {
    match template {
        MyNodeTemplate::Scaffold | MyNodeTemplate::Text => "widget"@,
        _ => "out"@,
    }
}

/// An evaluation takes nothing out of the cache, whether it produces a
/// value, waits for arithmetic or fails.
pub proof fn lemma_cache_only_grows(g: GraphView, node: NodeId, cache: Map<OutputId, ValueView>)
    requires
        g.valid(),
    ensures
        forall|o: OutputId|
            cache.contains_key(o) ==> #[trigger] eval_node(g, node, cache).cache.contains_key(o),
{
    lemma_node_run_settled(g, node, cache);
}

/// An evaluation that does not produce the node's value leaves the cache
/// as it was for every output of that node, and for every output that
/// belongs to no node of the graph.
pub proof fn lemma_unfinished_evaluation_spares_own_outputs(
    g: GraphView,
    node: NodeId,
    cache: Map<OutputId, ValueView>,
    output: OutputId,
)
    requires
        g.valid(),
        !(eval_node(g, node, cache).outcome is Done),
        !g.outputs.contains_key(output) || g.outputs[output].node == node,
    ensures
        eval_node(g, node, cache).cache.contains_key(output) == cache.contains_key(output),
        cache.contains_key(output) ==> eval_node(g, node, cache).cache[output] == cache[output],
{
    lemma_node_run_settled(g, node, cache);
}

/// A node that produced its value has stored it in the cache, under the
/// output that its kind publishes.
pub proof fn lemma_evaluated_node_is_cached(
    g: GraphView,
    node: NodeId,
    cache: Map<OutputId, ValueView>,
)
    requires
        g.valid(),
        eval_node(g, node, cache).outcome is Done,
    ensures
        g.nodes.contains_key(node),
        g.output_named(node, primary_output(g.nodes[node].user_data.template)) is Ok,
        eval_node(g, node, cache).cache.contains_key(
            g.output_named(node, primary_output(g.nodes[node].user_data.template))->Ok_0,
        ),
        eval_node(g, node, cache).cache[g.output_named(
            node,
            primary_output(g.nodes[node].user_data.template),
        )->Ok_0] == eval_node(g, node, cache).outcome->Done_0,
{
}

/// An output that feeds several inputs is computed for the first of them
/// only. Once one input has resolved to the output's value, any input fed by
/// the same output resolves to that value on the cache that was left, and
/// leaves that cache as it is: the node that owns the output is not
/// evaluated for it again.
pub proof fn lemma_shared_output_is_computed_once(
    g: GraphView,
    first_node: NodeId,
    first_name: Seq<char>,
    second_node: NodeId,
    second_name: Seq<char>,
    cache: Map<OutputId, ValueView>,
)
    requires
        g.valid(),
        g.input_named(first_node, first_name) is Ok,
        g.input_named(second_node, second_name) is Ok,
        g.connections.contains_key(g.input_named(first_node, first_name)->Ok_0),
        g.connections.contains_key(g.input_named(second_node, second_name)->Ok_0),
        g.connections[g.input_named(first_node, first_name)->Ok_0]
            == g.connections[g.input_named(second_node, second_name)->Ok_0],
        eval_input(g, first_node, first_name, cache).outcome is Done,
    ensures
        eval_input(
            g,
            second_node,
            second_name,
            eval_input(g, first_node, first_name, cache).cache,
        ) == eval_input(g, first_node, first_name, cache),
{
}

/// A request for arithmetic that comes back from the evaluation of a node
/// names a node of the graph and an output of that node; and unless it is
/// the request of the evaluated node itself, the cache holds no value for
/// that output yet, so that every request answered fills a gap.
pub proof fn lemma_request_fills_a_gap(
    g: GraphView,
    node: NodeId,
    cache: Map<OutputId, ValueView>,
    value: ValueView,
)
    requires
        g.valid(),
        eval_node(g, node, cache).outcome is Pending,
    ensures
        well_addressed(g, eval_node(g, node, cache).outcome->Pending_0),
        eval_node(g, node, cache).outcome->Pending_0.node != node ==> {
            let run = eval_node(g, node, cache);
            let pending = run.outcome->Pending_0;
            &&& !run.cache.contains_key(pending.output)
            &&& resumed(g, node, pending, value, run.cache) == eval_node(
                g,
                node,
                run.cache.insert(pending.output, value),
            )
        },
        eval_node(g, node, cache).outcome->Pending_0.node == node ==> {
            let run = eval_node(g, node, cache);
            resumed(g, node, run.outcome->Pending_0, value, run.cache).outcome == Outcome::<
                ValueView,
            >::Done(value)
        },
{
    lemma_node_run_settled(g, node, cache);
}

/// The names that a kind of node gives its inputs differ from each other.
proof fn lemma_input_names_differ(template: MyNodeTemplate)
    ensures
        forall|a: int, b: int|
            0 <= a < b < template.input_ports().len() ==> template.input_ports()[a].name
                != template.input_ports()[b].name,
        template.output_ports().len() == 1,
        template.output_ports()[0].name == primary_output(template),
        0 < template.input_ports().len() <= 2,
        template.input_ports().len() == 2 <==> second_input(template) is Some,
        exists|k: int|
            0 <= k < template.input_ports().len() && template.input_ports()[k].name
                == first_input(template),
        second_input(template) is Some ==> exists|k: int|
            0 <= k < template.input_ports().len() && template.input_ports()[k].name
                == second_input(template)->0,
{
    reveal_strlit("A");
    reveal_strlit("B");
    reveal_strlit("scalar");
    reveal_strlit("vector");
    reveal_strlit("v1");
    reveal_strlit("v2");
    reveal_strlit("x");
    reveal_strlit("y");
    reveal_strlit("body");
    reveal_strlit("header");
    let ports = template.input_ports();
    assert("A"@[0] != "B"@[0]);
    assert("scalar"@[0] != "vector"@[0]);
    assert("v1"@[1] != "v2"@[1]);
    assert("x"@[0] != "y"@[0]);
    assert("body"@[0] != "header"@[0]);
    assert(ports[0].name == ports[0].name);
    match template {
        MyNodeTemplate::Scaffold => {
            assert(ports[1].name == first_input(template));
            assert(ports[0].name == second_input(template)->0);
        },
        MyNodeTemplate::MakeScalar | MyNodeTemplate::Text => {
            assert(ports[0].name == first_input(template));
        },
        _ => {
            assert(ports[0].name == first_input(template));
            assert(ports[1].name == second_input(template)->0);
        },
    }
}

/// A node that got its ports from a template, and had none before, has
/// exactly the ports that the template declares: each input under its name,
/// seeded with the constant of its class, and the output under which the
/// kind publishes. Every name that an evaluation of that kind looks up is
/// found on such a node.
pub proof fn lemma_fresh_node_has_its_ports(
    before: GraphView,
    after: GraphView,
    template: MyNodeTemplate,
    node: NodeId,
)
    requires
        before.valid(),
        before.nodes.contains_key(node),
        before.nodes[node].inputs.len() == 0,
        before.nodes[node].outputs.len() == 0,
        built(before, after, template, node),
    ensures
        after.nodes.contains_key(node),
        after.nodes[node].inputs.len() == template.input_ports().len(),
        after.nodes[node].outputs.len() == 1,
        forall|k: int|
            0 <= k < template.input_ports().len() ==> {
                let listed = #[trigger] after.nodes[node].inputs[k];
                &&& listed.0 == template.input_ports()[k].name
                &&& after.inputs.contains_key(listed.1)
                &&& after.inputs[listed.1] == declared_input(
                    node,
                    template.input_ports()[k],
                    listed.1,
                )
                &&& !after.connections.contains_key(listed.1)
                &&& after.input_named(node, listed.0) == Ok::<InputId, GraphErrorView>(listed.1)
            },
        after.nodes[node].outputs[0].0 == primary_output(template),
        after.outputs.contains_key(after.nodes[node].outputs[0].1),
        after.outputs[after.nodes[node].outputs[0].1] == (OutputParam {
            id: after.nodes[node].outputs[0].1,
            node,
            typ: template.output_ports()[0].typ,
        }),
        after.output_named(node, primary_output(template)) == Ok::<OutputId, GraphErrorView>(
            after.nodes[node].outputs[0].1,
        ),
        after.input_named(node, first_input(template)) is Ok,
        second_input(template) is Some ==> after.input_named(
            node,
            second_input(template)->0,
        ) is Ok,
{
    let ins = template.input_ports();
    let outs = template.output_ports();
    let in_ids = added_inputs(before, after, node);
    let out_ids = added_outputs(before, after, node);
    lemma_input_names_differ(template);
    lemma_with_inputs_lists(before, node, ins, in_ids);
    let middle = with_inputs(before, node, ins, in_ids);
    lemma_with_outputs_lists(middle, node, outs, out_ids);
    assert(after.nodes[node].inputs =~= Seq::new(ins.len(), |k: int| (ins[k].name, in_ids[k])));
    assert(after.nodes[node].outputs =~= Seq::new(outs.len(), |k: int| (outs[k].name, out_ids[k])));
    assert forall|k: int| 0 <= k < ins.len() implies {
        let listed = #[trigger] after.nodes[node].inputs[k];
        &&& listed.0 == ins[k].name
        &&& after.inputs.contains_key(listed.1)
        &&& after.inputs[listed.1] == declared_input(node, ins[k], listed.1)
        &&& !after.connections.contains_key(listed.1)
        &&& after.input_named(node, listed.0) == Ok::<InputId, GraphErrorView>(listed.1)
    } by {
        let listed = after.nodes[node].inputs[k];
        assert(listed.1 == in_ids[k]);
        assert(in_ids.contains(in_ids[k]));
        assert forall|j: int| k < j < in_ids.len() implies in_ids[j] != in_ids[k] by {
            assert(in_ids[j].0 == before.input_slots + j);
            assert(in_ids[k].0 == before.input_slots + k);
        }
        assert(middle.inputs[in_ids[k]] == declared_input(node, ins[k], in_ids[k]));
        assert(!before.inputs.contains_key(in_ids[k])) by {
            assert(in_ids[k].0 == before.input_slots + k);
        }
        assert(!before.connections.contains_key(in_ids[k]));
        lemma_unique_name_is_found(after.nodes[node].inputs, ins[k].name, k);
    }
    assert(out_ids.contains(out_ids[0]));
    lemma_unique_name_is_found(after.nodes[node].outputs, outs[0].name, 0);
    let first = choose|k: int| 0 <= k < ins.len() && ins[k].name == first_input(template);
    assert(after.nodes[node].inputs[first].0 == first_input(template));
    if second_input(template) is Some {
        let second = choose|k: int|
            0 <= k < ins.len() && ins[k].name == second_input(template)->0;
        assert(after.nodes[node].inputs[second].0 == second_input(template)->0);
    }
}

/// An evaluation that is gone on with until it asks for nothing more has
/// ended: with a value or with a failure.
pub proof fn lemma_finished_has_ended(
    g: GraphView,
    meaning: spec_fn(Arithmetic) -> ValueView,
    node: NodeId,
    run: Run<ValueView>,
)
    requires
        g.valid(),
        advancing(g, node, run),
    ensures
        !(finished(g, meaning, node, run).outcome is Pending),
    decreases uncached(g, run.cache, g.output_slots), waiting(run),
{
    match run.outcome {
        Outcome::Pending(p) => {
            lemma_answer_advances(g, node, p, meaning(p.work), run.cache);
            lemma_finished_has_ended(
                g,
                meaning,
                node,
                resumed(g, node, p, meaning(p.work), run.cache),
            );
        },
        _ => {},
    }
}

/// Going on from a step that came to what the graph means ends with what
/// the graph means.
proof fn lemma_finished_is_sound(
    g: GraphView,
    meaning: spec_fn(Arithmetic) -> ValueView,
    node: NodeId,
    run: Run<ValueView>,
)
    requires
        g.valid(),
        advancing(g, node, run),
        sound(g, meaning, run, node_value(g, meaning, node)),
    ensures
        sound(g, meaning, finished(g, meaning, node, run), node_value(g, meaning, node)),
    decreases uncached(g, run.cache, g.output_slots), waiting(run),
{
    match run.outcome {
        Outcome::Pending(p) => {
            lemma_answer_advances(g, node, p, meaning(p.work), run.cache);
            lemma_resumed_is_sound(g, meaning, node, p, run.cache);
            lemma_finished_is_sound(
                g,
                meaning,
                node,
                resumed(g, node, p, meaning(p.work), run.cache),
            );
        },
        _ => {},
    }
}

/// An evaluation to the end that starts on a cache which holds nothing but
/// values of nodes ends with the value of the node, or with the failure of
/// that value, and leaves such a cache. This holds of the empty cache, and
/// so of every cache that such evaluations have left: keeping the cache
/// does not change what a node evaluates to.
pub proof fn lemma_evaluation_ends_with_the_value(
    g: GraphView,
    meaning: spec_fn(Arithmetic) -> ValueView,
    node: NodeId,
    cache: Map<OutputId, ValueView>,
)
    requires
        g.valid(),
        faithful(g, meaning, cache),
    ensures
        ({
            let end = finished(g, meaning, node, eval_node(g, node, cache));
            &&& faithful(g, meaning, end.cache)
            &&& match end.outcome {
                Outcome::Done(v) => node_value(g, meaning, node) == Ok::<ValueView, EvalErrorView>(
                    v,
                ),
                Outcome::Failed(e) => node_value(g, meaning, node) == Err::<
                    ValueView,
                    EvalErrorView,
                >(e),
                Outcome::Pending(_) => false,
            }
        }),
{
    lemma_first_step_advances(g, node, cache);
    lemma_node_is_sound(g, meaning, node, cache);
    lemma_finished_is_sound(g, meaning, node, eval_node(g, node, cache));
    lemma_finished_has_ended(g, meaning, node, eval_node(g, node, cache));
}

/// Whether no two requests in a list are for the same node.
pub open spec fn nodes_differ(requests: Seq<Pending>) -> bool {
    forall|a: int, b: int|
        0 <= a < b < requests.len() ==> (#[trigger] requests[a]).node != (
        #[trigger] requests[b]).node
}

/// What holds of the requests that an evaluation makes from some step on:
/// each is for an output that the cache of that step has no value for,
/// unless it is the evaluated node's own; and no two are for the same node.
proof fn lemma_requests_are_new(
    g: GraphView,
    meaning: spec_fn(Arithmetic) -> ValueView,
    node: NodeId,
    run: Run<ValueView>,
)
    requires
        g.valid(),
        advancing(g, node, run),
    ensures
        nodes_differ(asked(g, meaning, node, run)),
        forall|k: int|
            0 <= k < asked(g, meaning, node, run).len() ==> {
                let q = #[trigger] asked(g, meaning, node, run)[k];
                &&& well_addressed(g, q)
                &&& q.node == node || !run.cache.contains_key(q.output)
            },
    decreases uncached(g, run.cache, g.output_slots), waiting(run),
{
    match run.outcome {
        Outcome::Pending(p) => {
            let next = resumed(g, node, p, meaning(p.work), run.cache);
            lemma_answer_advances(g, node, p, meaning(p.work), run.cache);
            lemma_requests_are_new(g, meaning, node, next);
            let rest = asked(g, meaning, node, next);
            let all = asked(g, meaning, node, run);
            assert(all =~= seq![p] + rest);
            assert forall|k: int| 0 <= k < all.len() implies {
                let q = #[trigger] all[k];
                &&& well_addressed(g, q)
                &&& q.node == node || !run.cache.contains_key(q.output)
            } by {
                if k > 0 {
                    let q = rest[k - 1];
                    assert(all[k] == q);
                    assert(q.node == node || !next.cache.contains_key(q.output));
                }
            }
            assert forall|a: int, b: int| 0 <= a < b < all.len() implies (#[trigger] all[a]).node
                != (#[trigger] all[b]).node by {
                let later = rest[b - 1];
                assert(all[b] == later);
                if a == 0 {
                    assert(all[a] == p);
                    if p.node == node {
                        assert(rest.len() == 0);
                    } else {
                        assert(later.node == node || !next.cache.contains_key(later.output));
                    }
                } else {
                    assert(all[a] == rest[a - 1]);
                }
            }
        },
        _ => {},
    }
}

/// In an evaluation to the end, no node is asked for its arithmetic twice:
/// whatever feeds several inputs, on whatever paths, is computed once.
pub proof fn lemma_no_node_is_computed_twice(
    g: GraphView,
    meaning: spec_fn(Arithmetic) -> ValueView,
    node: NodeId,
    cache: Map<OutputId, ValueView>,
)
    requires
        g.valid(),
    ensures
        nodes_differ(asked(g, meaning, node, eval_node(g, node, cache))),
        forall|k: int|
            0 <= k < asked(g, meaning, node, eval_node(g, node, cache)).len() ==> {
                let q = #[trigger] asked(g, meaning, node, eval_node(g, node, cache))[k];
                q.node == node || !cache.contains_key(q.output)
            },
{
    lemma_first_step_advances(g, node, cache);
    lemma_requests_are_new(g, meaning, node, eval_node(g, node, cache));
    lemma_node_run_settled(g, node, cache);
}

} // verus!
