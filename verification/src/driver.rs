//! Evaluation to the end: the steps of an evaluation run one after the
//! other, with the arithmetic that they ask for done by a function of the
//! caller's.

use vstd::prelude::*;
use crate::cache::OutputsCache;
use crate::eval::{
    eval_node, evaluate_node, outcome_of, resume, resumed, Arithmetic, EvalError, EvalErrorView,
    Outcome, Pending, Run, Step,
};
use crate::graph::{Graph, GraphView};
use crate::id_type::{NodeId, OutputId};
use crate::laws::{lemma_node_run_settled, well_addressed};
use crate::meaning::{
    faithful, lemma_node_is_sound, lemma_resumed_is_sound, node_value, sound,
};
use crate::value::{MyValueType, ValueView};

verus! {

/// How many of the first `slots` output handles belong to an output of the
/// graph for which the cache holds no value.
pub open spec fn uncached(g: GraphView, cache: Map<OutputId, ValueView>, slots: nat) -> nat
    decreases slots,
{
    if slots == 0 {
        0
    } else {
        let last = OutputId((slots - 1) as usize);
        let rest = uncached(g, cache, (slots - 1) as nat);
        if g.outputs.contains_key(last) && !cache.contains_key(last) {
            rest + 1
        } else {
            rest
        }
    }
}

/// A cache that holds more leaves no more outputs without a value.
proof fn lemma_uncached_shrinks(
    g: GraphView,
    before: Map<OutputId, ValueView>,
    after: Map<OutputId, ValueView>,
    slots: nat,
)
    requires
        forall|o: OutputId| before.contains_key(o) ==> #[trigger] after.contains_key(o),
    ensures
        uncached(g, after, slots) <= uncached(g, before, slots),
    decreases slots,
{
    if slots > 0 {
        lemma_uncached_shrinks(g, before, after, (slots - 1) as nat);
    }
}

/// A cache that holds more, and among it a value for an output of the graph
/// that had none, leaves fewer outputs without a value.
proof fn lemma_uncached_drops(
    g: GraphView,
    before: Map<OutputId, ValueView>,
    after: Map<OutputId, ValueView>,
    slots: nat,
    filled: OutputId,
)
    requires
        forall|o: OutputId| before.contains_key(o) ==> #[trigger] after.contains_key(o),
        g.outputs.contains_key(filled),
        !before.contains_key(filled),
        after.contains_key(filled),
        filled.0 < slots,
    ensures
        uncached(g, after, slots) < uncached(g, before, slots),
    decreases slots,
{
    if slots > 0 {
        let last = OutputId((slots - 1) as usize);
        if last == filled {
            lemma_uncached_shrinks(g, before, after, (slots - 1) as nat);
        } else {
            assert(filled.0 < slots - 1) by {
                if slots - 1 <= usize::MAX {
                    assert(last.0 == slots - 1);
                }
            }
            lemma_uncached_drops(g, before, after, (slots - 1) as nat, filled);
        }
    }
}

/// Whether an evaluation of `node` that has got to `run` gets further by an
/// answer to its request, if it has one: the request is the node's own, or
/// it is for an output that the cache has no value for.
pub open spec fn advancing(g: GraphView, node: NodeId, run: Run<ValueView>) -> bool {
    run.outcome matches Outcome::Pending(p) ==> well_addressed(g, p) && (p.node == node
        || !run.cache.contains_key(p.output))
}

/// One for a step that waits for arithmetic, zero for one that has ended.
pub open spec fn waiting(run: Run<ValueView>) -> nat {
    if run.outcome is Pending {
        1
    } else {
        0
    }
}

/// An answer to a request gets the evaluation further: the cache keeps what
/// it held and holds the answer, and the step that follows has ended or
/// leaves fewer outputs without a value.
pub proof fn lemma_answer_advances(
    g: GraphView,
    node: NodeId,
    pending: Pending,
    value: ValueView,
    cache: Map<OutputId, ValueView>,
)
    requires
        g.valid(),
        well_addressed(g, pending),
        pending.node == node || !cache.contains_key(pending.output),
    ensures
        ({
            let next = resumed(g, node, pending, value, cache);
            &&& advancing(g, node, next)
            &&& forall|o: OutputId| cache.contains_key(o) ==> #[trigger] next.cache.contains_key(o)
            &&& next.cache.contains_key(pending.output)
            &&& uncached(g, next.cache, g.output_slots) <= uncached(g, cache, g.output_slots)
            &&& next.outcome is Pending ==> uncached(g, next.cache, g.output_slots) < uncached(
                g,
                cache,
                g.output_slots,
            )
        }),
{
    let stored = cache.insert(pending.output, value);
    let next = resumed(g, node, pending, value, cache);
    if pending.node != node {
        lemma_node_run_settled(g, node, stored);
        lemma_uncached_drops(g, cache, next.cache, g.output_slots, pending.output);
    } else {
        lemma_uncached_shrinks(g, cache, stored, g.output_slots);
    }
}

/// Where an evaluation of `node` that has got to `run` ends, when every
/// request is answered with what `meaning` says of it.
pub open spec fn finished(
    g: GraphView,
    meaning: spec_fn(Arithmetic) -> ValueView,
    node: NodeId,
    run: Run<ValueView>,
) -> Run<ValueView>
    decreases uncached(g, run.cache, g.output_slots), waiting(run),
    when g.valid() && advancing(g, node, run)
{
    match run.outcome {
        Outcome::Pending(p) => {
            proof {
                lemma_answer_advances(g, node, p, meaning(p.work), run.cache);
            }
            finished(g, meaning, node, resumed(g, node, p, meaning(p.work), run.cache))
        },
        _ => run,
    }
}

/// The requests that an evaluation of `node` that has got to `run` makes
/// before it ends, in order, when every request is answered with what
/// `meaning` says of it.
pub open spec fn asked(
    g: GraphView,
    meaning: spec_fn(Arithmetic) -> ValueView,
    node: NodeId,
    run: Run<ValueView>,
) -> Seq<Pending>
    decreases uncached(g, run.cache, g.output_slots), waiting(run),
    when g.valid() && advancing(g, node, run)
{
    match run.outcome {
        Outcome::Pending(p) => {
            proof {
                lemma_answer_advances(g, node, p, meaning(p.work), run.cache);
            }
            seq![p] + asked(g, meaning, node, resumed(g, node, p, meaning(p.work), run.cache))
        },
        _ => Seq::empty(),
    }
}

/// Whether `meaning` says, for every request, what the function returns.
pub open spec fn computes<F: Fn(Arithmetic) -> MyValueType>(
    arith: F,
    meaning: spec_fn(Arithmetic) -> ValueView,
) -> bool {
    forall|work: Arithmetic, value: MyValueType| #[trigger]
        arith.ensures((work,), value) ==> value@ == meaning(work)
}

/// What an evaluation to the end returned, for contracts.
pub open spec fn result_of(r: Result<MyValueType, EvalError>) -> Result<ValueView, EvalErrorView> {
    match r {
        Ok(v) => Ok(v@),
        Err(e) => Err(e@),
    }
}

/// How an evaluation to the end that returned this has ended.
pub open spec fn ended(r: Result<MyValueType, EvalError>) -> Outcome<ValueView> {
    match r {
        Ok(v) => Outcome::Done(v@),
        Err(e) => Outcome::Failed(e@),
    }
}

/// The first step of an evaluation can be gone on from.
pub proof fn lemma_first_step_advances(g: GraphView, node: NodeId, cache: Map<OutputId, ValueView>)
    requires
        g.valid(),
    ensures
        advancing(g, node, eval_node(g, node, cache)),
{
    lemma_node_run_settled(g, node, cache);
}

/// Evaluates a node to the end. Whenever the evaluation asks for arithmetic,
/// `arith` is called to perform it, and the evaluation goes on with what it
/// returned.
///
/// What is returned, and the cache that is left, are those of the steps of
/// the evaluation taken one after the other. The cache keeps what it held.
/// If it held nothing but values of nodes, then so it does afterwards, and
/// what is returned is the value of the node, or the failure of that value.
pub fn evaluate_with<F: Fn(Arithmetic) -> MyValueType>(
    graph: &Graph,
    node_id: NodeId,
    outputs_cache: &mut OutputsCache,
    arith: F,
) -> (r: Result<MyValueType, EvalError>)
    requires
        graph.well_formed(),
        forall|work: Arithmetic| #[trigger] arith.requires((work,)),
    ensures
        forall|meaning: spec_fn(Arithmetic) -> ValueView| #[trigger]
            computes(arith, meaning) ==> (Run {
                outcome: ended(r),
                cache: final(outputs_cache)@,
            }) == finished(
                graph@,
                meaning,
                node_id,
                eval_node(graph@, node_id, old(outputs_cache)@),
            ),
        forall|o: OutputId|
            old(outputs_cache)@.contains_key(o) ==> #[trigger] final(outputs_cache)@.contains_key(
                o,
            ),
        forall|meaning: spec_fn(Arithmetic) -> ValueView|
            computes(arith, meaning) && #[trigger] faithful(graph@, meaning, old(outputs_cache)@)
                ==> {
                &&& faithful(graph@, meaning, final(outputs_cache)@)
                &&& result_of(r) == node_value(graph@, meaning, node_id)
            },
{
    let ghost g = graph@;
    let ghost start = outputs_cache@;
    proof {
        lemma_node_run_settled(g, node_id, start);
        assert forall|meaning: spec_fn(Arithmetic) -> ValueView|
            computes(arith, meaning) && #[trigger] faithful(g, meaning, start) implies sound(
            g,
            meaning,
            eval_node(g, node_id, start),
            node_value(g, meaning, node_id),
        ) by {
            lemma_node_is_sound(g, meaning, node_id, start);
        }
    }
    let mut step = evaluate_node(graph, node_id, outputs_cache);
    loop
        invariant
            graph.well_formed(),
            g == graph@,
            start == old(outputs_cache)@,
            forall|work: Arithmetic| #[trigger] arith.requires((work,)),
            forall|o: OutputId| start.contains_key(o) ==> #[trigger] outputs_cache@.contains_key(o),
            forall|meaning: spec_fn(Arithmetic) -> ValueView| #[trigger]
                computes(arith, meaning) ==> finished(
                    g,
                    meaning,
                    node_id,
                    Run { outcome: outcome_of(step), cache: outputs_cache@ },
                ) == finished(g, meaning, node_id, eval_node(g, node_id, start)),
            forall|meaning: spec_fn(Arithmetic) -> ValueView|
                computes(arith, meaning) && #[trigger] faithful(g, meaning, start) ==> sound(
                    g,
                    meaning,
                    Run { outcome: outcome_of(step), cache: outputs_cache@ },
                    node_value(g, meaning, node_id),
                ),
            advancing(g, node_id, Run { outcome: outcome_of(step), cache: outputs_cache@ }),
        decreases
                uncached(g, outputs_cache@, g.output_slots),
                waiting(Run { outcome: outcome_of(step), cache: outputs_cache@ }),
    {
        match step {
            Ok(Step::Done(value)) => {
                return Ok(value);
            },
            Err(e) => {
                return Err(e);
            },
            Ok(Step::Pending(pending)) => {
                let ghost earlier = outputs_cache@;
                let ghost run = Run { outcome: outcome_of(step), cache: earlier };
                let value = arith(pending.work);
                proof {
                    lemma_answer_advances(g, node_id, pending, value@, earlier);
                    assert forall|meaning: spec_fn(Arithmetic) -> ValueView| #[trigger]
                        computes(arith, meaning) implies finished(
                        g,
                        meaning,
                        node_id,
                        resumed(g, node_id, pending, value@, earlier),
                    ) == finished(g, meaning, node_id, eval_node(g, node_id, start)) by {
                        assert(arith.ensures((pending.work,), value));
                        assert(value@ == meaning(pending.work));
                        assert(finished(g, meaning, node_id, run) == finished(
                            g,
                            meaning,
                            node_id,
                            resumed(g, node_id, pending, meaning(pending.work), earlier),
                        ));
                    }
                    assert forall|meaning: spec_fn(Arithmetic) -> ValueView|
                        computes(arith, meaning) && #[trigger] faithful(
                            g,
                            meaning,
                            start,
                        ) implies sound(
                        g,
                        meaning,
                        resumed(g, node_id, pending, value@, earlier),
                        node_value(g, meaning, node_id),
                    ) by {
                        assert(arith.ensures((pending.work,), value));
                        assert(value@ == meaning(pending.work));
                        assert(sound(g, meaning, run, node_value(g, meaning, node_id)));
                        lemma_resumed_is_sound(g, meaning, node_id, pending, earlier);
                    }
                }
                step = resume(graph, node_id, &pending, value, outputs_cache);
            },
        }
    }
}

} // verus!
