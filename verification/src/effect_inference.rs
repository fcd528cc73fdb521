//! The worklist that infers every function's effects, and the checks of
//! declared effects against it.
use vstd::prelude::*;
use crate::effect_semantics::{
    self, collect_expr_facts, collect_function_facts, collect_statements_facts, copy_witnesses, empty_facts, merge,
    merge_from_call, EffectTables, EffectWitness, FactsView, FunctionFacts, GraphView, InferredEffects, TablesView,
    WitnessView,
};
use crate::lowered::ir::{EffectLabel, EffectRow, Expr, FunctionEntry, FunctionSig, FunctionVisibility, Statement};
use crate::lowered::view::{self, EffectLabelView, EffectRowView, FunctionEntryView, FunctionSigView};
use crate::text::{concat_five, concat_three, same_text};

verus! {

// Invariants of the worklist.

/// What a function has to perform by what is known so far.
pub open spec fn offers(graph: GraphView, inferred: Seq<Seq<WitnessView>>, f: int, label: EffectLabelView) -> bool {
    effect_semantics::performs(graph.facts[f].direct, label) || exists|k: int|
        0 <= k < graph.facts[f].callees.len() && called_performs(
            graph.keys,
            inferred,
            #[trigger] graph.facts[f].callees[k],
            label,
        )
}

/// Whether a called function is known to perform a label.
pub open spec fn called_performs(
    keys: Seq<Seq<char>>,
    inferred: Seq<Seq<WitnessView>>,
    callee: Seq<char>,
    label: EffectLabelView,
) -> bool {
    let node = effect_semantics::node_from(keys, 0, callee);
    0 <= node < inferred.len() && effect_semantics::performs(inferred[node], label)
}

/// A function performs all that it has to.
pub open spec fn closed_at(graph: GraphView, inferred: Seq<Seq<WitnessView>>, f: int) -> bool {
    forall|label: EffectLabelView| #[trigger]
        offers(graph, inferred, f, label) ==> effect_semantics::performs(inferred[f], label)
}

/// A function performs a label directly or through at most `depth` calls.
pub open spec fn arises(graph: GraphView, f: int, label: EffectLabelView, depth: nat) -> bool
    decreases depth, 0nat,
{
    effect_semantics::performs(graph.facts[f].direct, label) || (depth > 0 && exists|k: int|
        0 <= k < graph.facts[f].callees.len() && called_arises(
            graph,
            #[trigger] graph.facts[f].callees[k],
            label,
            (depth - 1) as nat,
        ))
}

pub open spec fn called_arises(graph: GraphView, callee: Seq<char>, label: EffectLabelView, depth: nat) -> bool
    decreases depth, 1nat,
{
    let node = effect_semantics::node_from(graph.keys, 0, callee);
    0 <= node < graph.facts.len() && arises(graph, node, label, depth)
}

/// A function performs a label directly or through calls.
pub open spec fn reaches(graph: GraphView, f: int, label: EffectLabelView) -> bool {
    exists|depth: nat| arises(graph, f, label, depth)
}

/// The labels that occur anywhere in the graph.
pub open spec fn universe(graph: GraphView) -> Set<EffectLabelView> {
    Set::new(
        |label: EffectLabelView| exists|f: int|
            0 <= f < graph.facts.len() && effect_semantics::performs((#[trigger] graph.facts[f]).direct, label),
    )
}

/// What holds of the worklist at every step.
pub open spec fn steady(graph: GraphView, inferred: Seq<Seq<WitnessView>>, queue: Seq<int>) -> bool {
    &&& graph.well_formed()
    &&& inferred.len() == graph.facts.len()
    &&& forall|i: int| 0 <= i < queue.len() ==> 0 <= #[trigger] queue[i] < graph.facts.len()
    &&& forall|f: int| 0 <= f < graph.facts.len() ==> effect_semantics::distinct((#[trigger] graph.facts[f]).direct)
    &&& forall|f: int| 0 <= f < inferred.len() ==> effect_semantics::distinct(#[trigger] inferred[f])
    &&& forall|f: int, label: EffectLabelView|
        0 <= f < inferred.len() && #[trigger] effect_semantics::performs(inferred[f], label)
            ==> reaches(graph, f, label)
    &&& forall|f: int, label: EffectLabelView|
        0 <= f < inferred.len() && effect_semantics::performs(graph.facts[f].direct, label)
            ==> #[trigger] effect_semantics::performs(inferred[f], label)
    &&& forall|f: int| 0 <= f < inferred.len() ==> queue.contains(f) || #[trigger] closed_at(graph, inferred, f)
}

proof fn lemma_node(keys: Seq<Seq<char>>, from: int, key: Seq<char>)
    requires
        0 <= from <= keys.len(),
    ensures
        from <= effect_semantics::node_from(keys, from, key) <= keys.len(),
        effect_semantics::node_from(keys, from, key) < keys.len() ==> keys[effect_semantics::node_from(keys, from, key)]
            == key,
    decreases keys.len() - from,
{
    if from < keys.len() && keys[from] != key {
        lemma_node(keys, from + 1, key);
    }
}

/// What the calls `callees[from..]` add to a list.
proof fn lemma_called_effects(
    keys: Seq<Seq<char>>,
    inferred: Seq<Seq<WitnessView>>,
    callees: Seq<Seq<char>>,
    from: int,
    list: Seq<WitnessView>,
)
    requires
        0 <= from <= callees.len(),
    ensures
        effect_semantics::distinct(list) ==> effect_semantics::distinct(
            effect_semantics::called_effects(keys, inferred, callees, from, list),
        ),
        forall|label: EffectLabelView| #[trigger]
            effect_semantics::performs(
                effect_semantics::called_effects(keys, inferred, callees, from, list),
                label,
            ) == (effect_semantics::performs(list, label) || exists|k: int|
                from <= k < callees.len() && called_performs(keys, inferred, #[trigger] callees[k], label)),
    decreases callees.len() - from,
{
    let result = effect_semantics::called_effects(keys, inferred, callees, from, list);
    if from < callees.len() {
        let node = effect_semantics::node_from(keys, 0, callees[from]);
        let next = if 0 <= node < inferred.len() {
            effect_semantics::merged_call(list, inferred[node], 0, callees[from])
        } else {
            list
        };
        if 0 <= node < inferred.len() {
            effect_semantics::lemma_merged_call(list, inferred[node], 0, callees[from]);
        }
        lemma_called_effects(keys, inferred, callees, from + 1, next);
        assert forall|label: EffectLabelView| #[trigger] effect_semantics::performs(result, label) == (
        effect_semantics::performs(list, label) || exists|k: int|
            from <= k < callees.len() && called_performs(keys, inferred, #[trigger] callees[k], label)) by {
            assert(effect_semantics::performs(
                effect_semantics::called_effects(keys, inferred, callees, from + 1, next),
                label,
            ) == (effect_semantics::performs(next, label) || exists|k: int|
                from + 1 <= k < callees.len() && called_performs(keys, inferred, #[trigger] callees[k], label)));
            if 0 <= node < inferred.len() {
                assert(effect_semantics::performs_from(inferred[node], 0, label) == effect_semantics::performs(
                    inferred[node],
                    label,
                ));
            }
            assert(effect_semantics::performs(next, label) == (effect_semantics::performs(list, label)
                || called_performs(keys, inferred, callees[from], label)));
            if exists|k: int|
                from <= k < callees.len() && called_performs(keys, inferred, #[trigger] callees[k], label) {
                let k = choose|k: int|
                    from <= k < callees.len() && called_performs(keys, inferred, #[trigger] callees[k], label);
                if k > from {
                    assert(from + 1 <= k && called_performs(keys, inferred, callees[k], label));
                }
            }
        }
    }
}

proof fn lemma_candidate(graph: GraphView, inferred: Seq<Seq<WitnessView>>, f: int)
    requires
        0 <= f < graph.facts.len(),
    ensures
        effect_semantics::distinct(graph.facts[f].direct) ==> effect_semantics::distinct(
            effect_semantics::candidate(graph, inferred, f),
        ),
        forall|label: EffectLabelView| #[trigger]
            effect_semantics::performs(effect_semantics::candidate(graph, inferred, f), label) == offers(
                graph,
                inferred,
                f,
                label,
            ),
{
    lemma_called_effects(graph.keys, inferred, graph.facts[f].callees, 0, graph.facts[f].direct);
}

proof fn lemma_updated(graph: GraphView, inferred: Seq<Seq<WitnessView>>, f: int)
    requires
        0 <= f < graph.facts.len(),
        inferred.len() == graph.facts.len(),
    ensures
        effect_semantics::distinct(inferred[f]) ==> effect_semantics::distinct(
            effect_semantics::updated(graph, inferred, f),
        ),
        effect_semantics::extends(inferred[f], effect_semantics::updated(graph, inferred, f)),
        forall|label: EffectLabelView| #[trigger]
            effect_semantics::performs(effect_semantics::updated(graph, inferred, f), label) == (
            effect_semantics::performs(inferred[f], label) || offers(graph, inferred, f, label)),
{
    let more = effect_semantics::candidate(graph, inferred, f);
    lemma_candidate(graph, inferred, f);
    effect_semantics::lemma_merged(inferred[f], more, 0);
    assert forall|label: EffectLabelView| #[trigger]
        effect_semantics::performs(effect_semantics::updated(graph, inferred, f), label) == (
        effect_semantics::performs(inferred[f], label) || offers(graph, inferred, f, label)) by {
        assert(effect_semantics::performs_from(more, 0, label) == effect_semantics::performs(more, label));
    }
}

proof fn lemma_callers(graph: GraphView, callee: int, from: int, done: Seq<int>)
    requires
        0 <= from <= graph.facts.len(),
    ensures
        forall|f: int| #[trigger]
            effect_semantics::callers_from(graph, callee, from, done).contains(f) == (done.contains(f) || (from <= f
                < graph.facts.len() && graph.facts[f].callees.contains(graph.keys[callee]))),
    decreases graph.facts.len() - from,
{
    if from < graph.facts.len() {
        let calls = graph.facts[from].callees.contains(graph.keys[callee]);
        let next = if calls {
            done.push(from)
        } else {
            done
        };
        lemma_callers(graph, callee, from + 1, next);
        assert forall|f: int| #[trigger]
            effect_semantics::callers_from(graph, callee, from, done).contains(f) == (done.contains(f) || (from <= f
                < graph.facts.len() && graph.facts[f].callees.contains(graph.keys[callee]))) by {
            assert(effect_semantics::callers_from(graph, callee, from + 1, next).contains(f) == (next.contains(f) || (
            from + 1 <= f < graph.facts.len() && graph.facts[f].callees.contains(graph.keys[callee]))));
            if calls {
                assert(next.contains(f) == (done.contains(f) || f == from)) by {
                    if done.contains(f) {
                        let k = done.index_of(f);
                        assert(next[k] == f);
                    }
                    if f == from {
                        assert(next[done.len() as int] == f);
                    }
                    if next.contains(f) {
                        let k = next.index_of(f);
                        if k < done.len() {
                            assert(done[k] == f);
                        }
                    }
                }
            }
        }
    }
}

proof fn lemma_reaches_deeper(graph: GraphView, f: int, label: EffectLabelView, low: nat, high: nat)
    requires
        low <= high,
        arises(graph, f, label, low),
    ensures
        arises(graph, f, label, high),
    decreases low,
{
    if !effect_semantics::performs(graph.facts[f].direct, label) {
        let k = choose|k: int|
            0 <= k < graph.facts[f].callees.len() && called_arises(
                graph,
                #[trigger] graph.facts[f].callees[k],
                label,
                (low - 1) as nat,
            );
        let node = effect_semantics::node_from(graph.keys, 0, graph.facts[f].callees[k]);
        lemma_reaches_deeper(graph, node, label, (low - 1) as nat, (high - 1) as nat);
        assert(called_arises(graph, graph.facts[f].callees[k], label, (high - 1) as nat));
    }
}

/// What is offered is reached.
proof fn lemma_offers_reach(graph: GraphView, inferred: Seq<Seq<WitnessView>>, f: int, label: EffectLabelView)
    requires
        0 <= f < graph.facts.len(),
        inferred.len() == graph.facts.len(),
        forall|g: int, other: EffectLabelView|
            0 <= g < inferred.len() && #[trigger] effect_semantics::performs(inferred[g], other) ==> reaches(
                graph,
                g,
                other,
            ),
        offers(graph, inferred, f, label),
    ensures
        reaches(graph, f, label),
{
    if effect_semantics::performs(graph.facts[f].direct, label) {
        assert(arises(graph, f, label, 0));
    } else {
        let k = choose|k: int|
            0 <= k < graph.facts[f].callees.len() && called_performs(
                graph.keys,
                inferred,
                #[trigger] graph.facts[f].callees[k],
                label,
            );
        let node = effect_semantics::node_from(graph.keys, 0, graph.facts[f].callees[k]);
        assert(reaches(graph, node, label));
        let depth = choose|depth: nat| arises(graph, node, label, depth);
        assert(called_arises(graph, graph.facts[f].callees[k], label, depth));
        assert(arises(graph, f, label, depth + 1));
    }
}

/// A look at the first function of the worklist keeps what holds at every step.
proof fn lemma_step(graph: GraphView, inferred: Seq<Seq<WitnessView>>, queue: Seq<int>)
    requires
        steady(graph, inferred, queue),
        queue.len() > 0,
    ensures
        steady(
            graph,
            inferred.update(queue[0], effect_semantics::updated(graph, inferred, queue[0])),
            effect_semantics::requeued(graph, inferred, queue, queue[0]),
        ),
{
    let c = queue[0];
    let fresh = effect_semantics::updated(graph, inferred, c);
    let after = inferred.update(c, fresh);
    let rest = effect_semantics::requeued(graph, inferred, queue, c);
    lemma_updated(graph, inferred, c);
    lemma_callers(graph, c, 0, Seq::empty());
    let changed = fresh.len() != inferred[c].len();
    let parents = effect_semantics::callers_from(graph, c, 0, Seq::empty());
    if !changed {
        assert(fresh =~= inferred[c]) by {
            assert(fresh.take(inferred[c].len() as int) =~= fresh);
        }
        assert(after =~= inferred);
    }
    assert forall|i: int| 0 <= i < rest.len() implies 0 <= #[trigger] rest[i] < graph.facts.len() by {
        let dropped = queue.drop_first();
        if i < dropped.len() {
            assert(rest[i] == queue[i + 1]);
        } else {
            assert(parents.contains(rest[i])) by {
                assert(parents[i - dropped.len()] == rest[i]);
            }
        }
    }
    assert forall|f: int, label: EffectLabelView|
        0 <= f < after.len() && #[trigger] effect_semantics::performs(after[f], label) implies reaches(graph, f, label) by {
        if f == c {
            if !effect_semantics::performs(inferred[c], label) {
                lemma_offers_reach(graph, inferred, c, label);
            }
        }
    }
    assert forall|f: int, label: EffectLabelView|
        0 <= f < after.len() && effect_semantics::performs(graph.facts[f].direct, label) implies
        #[trigger] effect_semantics::performs(after[f], label) by {
        assert(effect_semantics::performs(inferred[f], label));
    }
    assert forall|f: int| 0 <= f < after.len() implies rest.contains(f) || #[trigger] closed_at(graph, after, f) by {
        let dropped = queue.drop_first();
        if changed && graph.facts[f].callees.contains(graph.keys[c]) {
            assert(parents.contains(f));
            let k = parents.index_of(f);
            assert(rest[dropped.len() + k] == f);
        } else if f == c {
            assert forall|label: EffectLabelView| #[trigger] offers(graph, after, f, label) implies
                effect_semantics::performs(after[f], label) by {
                if changed {
                    lemma_same_offers(graph, inferred, after, c, f, label);
                }
                assert(effect_semantics::performs(fresh, label) == (effect_semantics::performs(inferred[c], label)
                    || offers(graph, inferred, c, label)));
            }
        } else if queue.contains(f) {
            let k = queue.index_of(f);
            assert(k > 0);
            assert(dropped[k - 1] == f);
            assert(rest[k - 1] == f);
        } else {
            assert(closed_at(graph, inferred, f));
            assert forall|label: EffectLabelView| #[trigger] offers(graph, after, f, label) implies
                effect_semantics::performs(after[f], label) by {
                if changed {
                    lemma_same_offers(graph, inferred, after, c, f, label);
                }
                assert(offers(graph, inferred, f, label));
            }
        }
    }
}

/// A change of one function does not matter to those that do not call it.
proof fn lemma_same_offers(
    graph: GraphView,
    before: Seq<Seq<WitnessView>>,
    after: Seq<Seq<WitnessView>>,
    changed: int,
    f: int,
    label: EffectLabelView,
)
    requires
        graph.well_formed(),
        0 <= f < graph.facts.len(),
        0 <= changed < graph.facts.len(),
        before.len() == graph.facts.len(),
        after.len() == before.len(),
        forall|g: int| 0 <= g < before.len() && g != changed ==> #[trigger] after[g] == before[g],
        !graph.facts[f].callees.contains(graph.keys[changed]),
    ensures
        offers(graph, after, f, label) == offers(graph, before, f, label),
{
    assert forall|k: int| 0 <= k < graph.facts[f].callees.len() implies called_performs(
        graph.keys,
        after,
        #[trigger] graph.facts[f].callees[k],
        label,
    ) == called_performs(graph.keys, before, graph.facts[f].callees[k], label) by {
        let node = effect_semantics::node_from(graph.keys, 0, graph.facts[f].callees[k]);
        lemma_node(graph.keys, 0, graph.facts[f].callees[k]);
        if node == changed {
            assert(graph.facts[f].callees.contains(graph.keys[changed]));
        }
    }
    if offers(graph, after, f, label) && !effect_semantics::performs(graph.facts[f].direct, label) {
        let k = choose|k: int|
            0 <= k < graph.facts[f].callees.len() && called_performs(
                graph.keys,
                after,
                #[trigger] graph.facts[f].callees[k],
                label,
            );
        assert(called_performs(graph.keys, before, graph.facts[f].callees[k], label));
    }
    if offers(graph, before, f, label) && !effect_semantics::performs(graph.facts[f].direct, label) {
        let k = choose|k: int|
            0 <= k < graph.facts[f].callees.len() && called_performs(
                graph.keys,
                before,
                #[trigger] graph.facts[f].callees[k],
                label,
            );
        assert(called_performs(graph.keys, after, graph.facts[f].callees[k], label));
    }
}

proof fn lemma_start(graph: GraphView)
    requires
        graph.well_formed(),
        forall|f: int| 0 <= f < graph.facts.len() ==> effect_semantics::distinct((#[trigger] graph.facts[f]).direct),
    ensures
        steady(graph, effect_semantics::initial(graph), effect_semantics::everyone(graph)),
{
    let inferred = effect_semantics::initial(graph);
    let queue = effect_semantics::everyone(graph);
    assert forall|f: int| 0 <= f < inferred.len() implies effect_semantics::distinct(#[trigger] inferred[f]) by {
        assert(effect_semantics::distinct(graph.facts[f].direct));
    }
    assert forall|f: int, label: EffectLabelView|
        0 <= f < inferred.len() && #[trigger] effect_semantics::performs(inferred[f], label) implies reaches(
        graph,
        f,
        label,
    ) by {
        assert(arises(graph, f, label, 0));
    }
    assert forall|f: int| 0 <= f < inferred.len() implies queue.contains(f)
        || #[trigger] closed_at(graph, inferred, f) by {
        assert(queue[f] == f);
    }
}

/// With an empty worklist, what is reached is performed.
proof fn lemma_closed(graph: GraphView, inferred: Seq<Seq<WitnessView>>, f: int, label: EffectLabelView, depth: nat)
    requires
        steady(graph, inferred, Seq::empty()),
        0 <= f < graph.facts.len(),
        arises(graph, f, label, depth),
    ensures
        effect_semantics::performs(inferred[f], label),
    decreases depth,
{
    assert(closed_at(graph, inferred, f));
    if !effect_semantics::performs(graph.facts[f].direct, label) {
        let k = choose|k: int|
            0 <= k < graph.facts[f].callees.len() && called_arises(
                graph,
                #[trigger] graph.facts[f].callees[k],
                label,
                (depth - 1) as nat,
            );
        let node = effect_semantics::node_from(graph.keys, 0, graph.facts[f].callees[k]);
        lemma_closed(graph, inferred, node, label, (depth - 1) as nat);
        assert(called_performs(graph.keys, inferred, graph.facts[f].callees[k], label));
        assert(offers(graph, inferred, f, label));
    }
}

proof fn lemma_settled(graph: GraphView, inferred: Seq<Seq<WitnessView>>, queue: Seq<int>, rounds: nat)
    requires
        steady(graph, inferred, queue),
        effect_semantics::settled(graph, inferred, queue, rounds) is Some,
    ensures
        steady(graph, effect_semantics::settled(graph, inferred, queue, rounds)->Some_0, Seq::empty()),
    decreases rounds,
{
    if queue.len() == 0 {
        assert(queue =~= Seq::<int>::empty());
    } else {
        lemma_step(graph, inferred, queue);
        lemma_settled(
            graph,
            inferred.update(queue[0], effect_semantics::updated(graph, inferred, queue[0])),
            effect_semantics::requeued(graph, inferred, queue, queue[0]),
            (rounds - 1) as nat,
        );
    }
}

/// The inference gives every function exactly the effects that it performs
/// itself or through any chain of calls, each with one witness.
pub proof fn law_inference_is_the_least_fixed_point(
    graph: GraphView,
    result: Seq<Seq<WitnessView>>,
    f: int,
    label: EffectLabelView,
)
    requires
        graph.well_formed(),
        forall|g: int| 0 <= g < graph.facts.len() ==> effect_semantics::distinct((#[trigger] graph.facts[g]).direct),
        effect_semantics::inferred_as(graph, result),
        0 <= f < graph.facts.len(),
    ensures
        effect_semantics::performs(result[f], label) <==> reaches(graph, f, label),
        effect_semantics::distinct(result[f]),
{
    let rounds = choose|rounds: nat|
        effect_semantics::settled(
            graph,
            effect_semantics::initial(graph),
            effect_semantics::everyone(graph),
            rounds,
        ) == Some(result);
    lemma_start(graph);
    lemma_settled(graph, effect_semantics::initial(graph), effect_semantics::everyone(graph), rounds);
    if reaches(graph, f, label) {
        let depth = choose|depth: nat| arises(graph, f, label, depth);
        lemma_closed(graph, result, f, label, depth);
    }
}

// Termination.

/// How many effects are not found yet, counted over the first `count` functions.
pub open spec fn missing(inferred: Seq<Seq<WitnessView>>, count: int, most: nat) -> int
    decreases count,
{
    if count <= 0 {
        0
    } else {
        missing(inferred, count - 1, most) + (most - inferred[count - 1].len())
    }
}

pub open spec fn label_list(list: Seq<WitnessView>) -> Seq<EffectLabelView> {
    Seq::new(list.len(), |i: int| list[i].label)
}

proof fn lemma_universe_finite(graph: GraphView, count: int)
    requires
        0 <= count <= graph.facts.len(),
    ensures
        Set::new(
            |label: EffectLabelView| exists|f: int|
                0 <= f < count && effect_semantics::performs((#[trigger] graph.facts[f]).direct, label),
        ).finite(),
    decreases count,
{
    let now = Set::new(
        |label: EffectLabelView| exists|f: int|
            0 <= f < count && effect_semantics::performs((#[trigger] graph.facts[f]).direct, label),
    );
    if count == 0 {
        assert(now =~= Set::empty());
    } else {
        lemma_universe_finite(graph, count - 1);
        let before = Set::new(
            |label: EffectLabelView| exists|f: int|
                0 <= f < count - 1 && effect_semantics::performs((#[trigger] graph.facts[f]).direct, label),
        );
        let own = label_list(graph.facts[count - 1].direct).to_set();
        assert forall|label: EffectLabelView| now.contains(label) implies before.union(own).contains(label) by {
            let f = choose|f: int|
                0 <= f < count && effect_semantics::performs((#[trigger] graph.facts[f]).direct, label);
            if f < count - 1 {
                assert(before.contains(label));
            } else {
                let list = graph.facts[f].direct;
                let i = choose|i: int| 0 <= i < list.len() && (#[trigger] list[i]).label == label;
                assert(label_list(list)[i] == label);
            }
        }
        assert(now.subset_of(before.union(own)));
        vstd::seq_lib::seq_to_set_is_finite(label_list(graph.facts[count - 1].direct));
        vstd::set_lib::lemma_len_subset(now, before.union(own));
    }
}

proof fn lemma_bounded(graph: GraphView, list: Seq<WitnessView>)
    requires
        effect_semantics::distinct(list),
        forall|label: EffectLabelView| #[trigger] effect_semantics::performs(list, label)
            ==> universe(graph).contains(label),
    ensures
        universe(graph).finite(),
        list.len() <= universe(graph).len(),
{
    lemma_universe_finite(graph, graph.facts.len() as int);
    let all = Set::new(
        |label: EffectLabelView| exists|f: int|
            0 <= f < graph.facts.len() && effect_semantics::performs((#[trigger] graph.facts[f]).direct, label),
    );
    assert(universe(graph) =~= all);
    let labels = label_list(list);
    assert(labels.no_duplicates()) by {
        assert forall|i: int, j: int| 0 <= i < labels.len() && 0 <= j < labels.len() && i != j implies labels[i]
            != labels[j] by {
            if i < j {
                assert(list[i].label != list[j].label);
            } else {
                assert(list[j].label != list[i].label);
            }
        }
    }
    labels.unique_seq_to_set();
    assert(labels.to_set().subset_of(universe(graph))) by {
        assert forall|label: EffectLabelView| labels.to_set().contains(label) implies universe(graph).contains(label) by {
            let i = choose|i: int| 0 <= i < labels.len() && labels[i] == label;
            assert(list[i].label == label);
            assert(effect_semantics::performs(list, label));
        }
    }
    vstd::set_lib::lemma_len_subset(labels.to_set(), universe(graph));
}

/// Whatever is reached occurs in the graph.
proof fn lemma_reached_in_universe(graph: GraphView, f: int, label: EffectLabelView, depth: nat)
    requires
        0 <= f < graph.facts.len(),
        arises(graph, f, label, depth),
    ensures
        universe(graph).contains(label),
    decreases depth,
{
    if !effect_semantics::performs(graph.facts[f].direct, label) {
        let k = choose|k: int|
            0 <= k < graph.facts[f].callees.len() && called_arises(
                graph,
                #[trigger] graph.facts[f].callees[k],
                label,
                (depth - 1) as nat,
            );
        let node = effect_semantics::node_from(graph.keys, 0, graph.facts[f].callees[k]);
        lemma_reached_in_universe(graph, node, label, (depth - 1) as nat);
    }
}

proof fn lemma_within(graph: GraphView, inferred: Seq<Seq<WitnessView>>, queue: Seq<int>)
    requires
        steady(graph, inferred, queue),
    ensures
        forall|f: int| 0 <= f < inferred.len() ==> (#[trigger] inferred[f]).len() <= universe(graph).len(),
{
    assert forall|f: int| 0 <= f < inferred.len() implies (#[trigger] inferred[f]).len() <= universe(graph).len() by {
        assert forall|label: EffectLabelView| #[trigger] effect_semantics::performs(inferred[f], label) implies universe(
            graph,
        ).contains(label) by {
            assert(reaches(graph, f, label));
            let depth = choose|depth: nat| arises(graph, f, label, depth);
            lemma_reached_in_universe(graph, f, label, depth);
        }
        lemma_bounded(graph, inferred[f]);
    }
}

proof fn lemma_missing(before: Seq<Seq<WitnessView>>, after: Seq<Seq<WitnessView>>, at: int, count: int, most: nat)
    requires
        0 <= count <= before.len(),
        before.len() == after.len(),
        0 <= at < before.len(),
        forall|f: int| 0 <= f < before.len() && f != at ==> #[trigger] after[f] == before[f],
    ensures
        missing(after, count, most) == missing(before, count, most) - (if at < count {
            after[at].len() - before[at].len()
        } else {
            0
        }),
    decreases count,
{
    if count > 0 {
        lemma_missing(before, after, at, count - 1, most);
    }
}

proof fn lemma_missing_positive(inferred: Seq<Seq<WitnessView>>, count: int, most: nat)
    requires
        0 <= count <= inferred.len(),
        forall|f: int| 0 <= f < inferred.len() ==> (#[trigger] inferred[f]).len() <= most,
    ensures
        missing(inferred, count, most) >= 0,
    decreases count,
{
    if count > 0 {
        lemma_missing_positive(inferred, count - 1, most);
    }
}

// The worklist.

/// What the inference gives for a list of functions, in their order.
#[derive(Debug)]
pub struct InferenceResult {
    pub functions: Vec<InferredEffects>,
    pub call_edges: Vec<Vec<String>>,
}

pub open spec fn inferred_views(list: Seq<InferredEffects>) -> Seq<Seq<WitnessView>> {
    Seq::new(list.len(), |i: int| list[i]@)
}

pub open spec fn facts_views(list: Seq<FunctionFacts>) -> Seq<FactsView> {
    Seq::new(list.len(), |i: int| list[i]@)
}

pub open spec fn edge_views(list: Seq<Vec<String>>) -> Seq<Seq<Seq<char>>> {
    Seq::new(list.len(), |i: int| view::texts(list[i]@))
}

fn node_of(entries: &Vec<FunctionEntry>, key: &str) -> (node: usize)
    ensures
        node as int == effect_semantics::node_from(
            Seq::new(view::function_entries(entries@).len(), |i: int| view::function_entries(entries@)[i].key),
            0,
            key@,
        ),
        node <= entries.len(),
{
    let ghost all = view::function_entries(entries@);
    let ghost keys = Seq::new(all.len(), |i: int| all[i].key);
    let mut i: usize = 0;
    while i < entries.len()
        invariant
            i <= entries.len(),
            all == view::function_entries(entries@),
            keys == Seq::new(all.len(), |i: int| all[i].key),
            effect_semantics::node_from(keys, 0, key@) == effect_semantics::node_from(keys, i as int, key@),
        decreases entries.len() - i,
    {
        assert(keys[i as int] == entries@[i as int].key@);
        if same_text(entries[i].key.as_str(), key) {
            return i;
        }
        i += 1;
    }
    i
}

fn add_calls(
    entries: &Vec<FunctionEntry>,
    inferred: &Vec<InferredEffects>,
    callees: &Vec<String>,
    list: &mut Vec<EffectWitness>,
)
    ensures
        effect_semantics::witnesses(final(list)@) == effect_semantics::called_effects(
            Seq::new(view::function_entries(entries@).len(), |i: int| view::function_entries(entries@)[i].key),
            inferred_views(inferred@),
            view::texts(callees@),
            0,
            effect_semantics::witnesses(old(list)@),
        ),
{
    let ghost all = view::function_entries(entries@);
    let ghost keys = Seq::new(all.len(), |i: int| all[i].key);
    let ghost known = inferred_views(inferred@);
    let ghost called = view::texts(callees@);
    let ghost start = effect_semantics::witnesses(list@);
    let mut k: usize = 0;
    while k < callees.len()
        invariant
            k <= callees.len(),
            all == view::function_entries(entries@),
            keys == Seq::new(all.len(), |i: int| all[i].key),
            known == inferred_views(inferred@),
            called == view::texts(callees@),
            start == effect_semantics::witnesses(old(list)@),
            effect_semantics::called_effects(keys, known, called, 0, start) == effect_semantics::called_effects(
                keys,
                known,
                called,
                k as int,
                effect_semantics::witnesses(list@),
            ),
        decreases callees.len() - k,
    {
        assert(called[k as int] == callees@[k as int]@);
        let node = node_of(entries, callees[k].as_str());
        if node < inferred.len() {
            assert(known[node as int] == inferred@[node as int]@);
            merge_from_call(list, &inferred[node].witnesses, callees[k].as_str());
        }
        k += 1;
    }
}

fn calls(facts: &FunctionFacts, key: &str) -> (result: bool)
    ensures
        result == facts@.callees.contains(key@),
{
    let ghost all = view::texts(facts.callees@);
    let mut i: usize = 0;
    while i < facts.callees.len()
        invariant
            i <= facts.callees.len(),
            all == view::texts(facts.callees@),
            forall|k: int| 0 <= k < i ==> all[k] != key@,
        decreases facts.callees.len() - i,
    {
        assert(all[i as int] == facts.callees@[i as int]@);
        if same_text(facts.callees[i].as_str(), key) {
            assert(facts@.callees[i as int] == key@);
            return true;
        }
        i += 1;
    }
    false
}

spec fn places(list: Seq<usize>) -> Seq<int> {
    Seq::new(list.len(), |i: int| list[i] as int)
}

fn enqueue_callers(
    entries: &Vec<FunctionEntry>,
    facts: &Vec<FunctionFacts>,
    callee: usize,
    queue: &mut Vec<usize>,
    Ghost(graph): Ghost<GraphView>,
)
    requires
        callee < entries.len(),
        facts.len() == entries.len(),
        graph.facts == facts_views(facts@),
        graph.keys == Seq::new(view::function_entries(entries@).len(), |i: int| view::function_entries(entries@)[i].key),
    ensures
        places(final(queue)@) == places(old(queue)@) + effect_semantics::callers_from(
            graph,
            callee as int,
            0,
            Seq::empty(),
        ),
{
    let ghost start = places(queue@);
    let ghost mut found: Seq<int> = Seq::empty();
    let ghost all = view::function_entries(entries@);
    let key = entries[callee].key.as_str();
    assert(graph.keys[callee as int] == key@);
    let mut j: usize = 0;
    assert(places(queue@) =~= start + found);
    while j < facts.len()
        invariant
            j <= facts.len(),
            graph.facts == facts_views(facts@),
            graph.keys[callee as int] == key@,
            start == places(old(queue)@),
            places(queue@) == start + found,
            effect_semantics::callers_from(graph, callee as int, 0, Seq::empty()) == effect_semantics::callers_from(
                graph,
                callee as int,
                j as int,
                found,
            ),
        decreases facts.len() - j,
    {
        assert(graph.facts[j as int] == facts@[j as int]@);
        if calls(&facts[j], key) {
            let ghost before = queue@;
            queue.push(j);
            proof {
                assert(places(queue@) =~= places(before).push(j as int));
                assert((start + found).push(j as int) =~= start + found.push(j as int));
                found = found.push(j as int);
            }
        }
        j += 1;
    }
}

/// Infers every function of the list. The functions are looked at in order, and
/// again whenever one that they call turns out to perform more.
pub fn infer_program(entries: &Vec<FunctionEntry>, tables: &EffectTables) -> (result: InferenceResult)
    requires
        crate::lowered::tables::keys_ascending(entries@),
    ensures
        effect_semantics::inferred_as(
            effect_semantics::graph_of(view::function_entries(entries@), tables@),
            inferred_views(result.functions@),
        ),
        result.functions.len() == entries.len(),
        edge_views(result.call_edges@) == Seq::new(
            entries@.len(),
            |i: int| effect_semantics::graph_of(view::function_entries(entries@), tables@).facts[i].callees,
        ),
{
    let ghost all = view::function_entries(entries@);
    let ghost graph = effect_semantics::graph_of(all, tables@);
    let mut facts: Vec<FunctionFacts> = Vec::new();
    let mut inferred: Vec<InferredEffects> = Vec::new();
    let mut edges: Vec<Vec<String>> = Vec::new();
    let mut queue: Vec<usize> = Vec::new();
    let mut i: usize = 0;
    while i < entries.len()
        invariant
            i <= entries.len(),
            all == view::function_entries(entries@),
            graph == effect_semantics::graph_of(all, tables@),
            facts.len() == i,
            inferred.len() == i,
            edges.len() == i,
            queue.len() == i,
            forall|k: int| 0 <= k < i ==> (#[trigger] facts@[k])@ == graph.facts[k],
            forall|k: int| 0 <= k < i ==> (#[trigger] inferred@[k])@ == graph.facts[k].direct,
            forall|k: int| 0 <= k < i ==> view::texts((#[trigger] edges@[k])@) == graph.facts[k].callees,
            forall|k: int| 0 <= k < i ==> #[trigger] queue@[k] == k,
        decreases entries.len() - i,
    {
        assert(all[i as int] == view::function_entry(entries@[i as int]));
        let own = collect_function_facts(&entries[i].signature, tables);
        inferred.push(InferredEffects { witnesses: copy_witnesses(&own.direct) });
        edges.push(crate::lowered::copy::texts(&own.callees));
        facts.push(own);
        queue.push(i);
        i += 1;
    }
    proof {
        assert(facts_views(facts@) =~= graph.facts);
        assert(inferred_views(inferred@) =~= effect_semantics::initial(graph));
        assert(places(queue@) =~= effect_semantics::everyone(graph));
        assert(edge_views(edges@) =~= Seq::new(entries@.len(), |i: int| graph.facts[i].callees));
        assert forall|f: int, g: int| 0 <= f < g < graph.keys.len() implies (#[trigger] graph.keys[f]) != (
        #[trigger] graph.keys[g]) by {
            crate::lowered::tables::lemma_ascending_distinct(entries@);
            assert(entries@[f].key@ != entries@[g].key@);
        }
        assert forall|f: int| 0 <= f < graph.facts.len() implies effect_semantics::distinct(
            (#[trigger] graph.facts[f]).direct,
        ) by {
            effect_semantics::law_direct_effects_are_distinct(all[f].signature, tables@);
        }
        lemma_start(graph);
    }
    let ghost mut rounds: nat = 0;
    let ghost start = effect_semantics::initial(graph);
    let ghost first = effect_semantics::everyone(graph);
    assert(forall|more: nat| #[trigger]
        effect_semantics::settled(graph, start, first, (more + rounds) as nat) == effect_semantics::settled(
            graph,
            inferred_views(inferred@),
            places(queue@),
            more,
        ));
    while queue.len() > 0
        invariant
            all == view::function_entries(entries@),
            graph == effect_semantics::graph_of(all, tables@),
            graph.facts == facts_views(facts@),
            facts.len() == entries.len(),
            inferred.len() == entries.len(),
            start == effect_semantics::initial(graph),
            first == effect_semantics::everyone(graph),
            steady(graph, inferred_views(inferred@), places(queue@)),
            forall|more: nat| #[trigger]
                effect_semantics::settled(graph, start, first, (more + rounds) as nat) == effect_semantics::settled(
                    graph,
                    inferred_views(inferred@),
                    places(queue@),
                    more,
                ),
        decreases
                missing(inferred_views(inferred@), inferred@.len() as int, universe(graph).len()),
                queue.len(),
    {
        let ghost before = inferred_views(inferred@);
        let ghost list = places(queue@);
        let caller = queue.remove(0);
        assert(caller as int == list[0]);
        assert(places(queue@) =~= list.drop_first());
        assert(graph.facts[caller as int] == facts@[caller as int]@);
        let mut found = copy_witnesses(&facts[caller].direct);
        add_calls(entries, &inferred, &facts[caller].callees, &mut found);
        let mut known = copy_witnesses(&inferred[caller].witnesses);
        let count: usize = known.len();
        assert(before[caller as int] == inferred@[caller as int]@);
        assert(effect_semantics::witnesses(known@).len() == count);
        merge(&mut known, &found);
        let changed = known.len() != count;
        inferred[caller] = InferredEffects { witnesses: known };
        if changed {
            enqueue_callers(entries, &facts, caller, &mut queue, Ghost(graph));
        }
        proof {
            let fresh = effect_semantics::updated(graph, before, caller as int);
            assert(effect_semantics::witnesses(known@) == fresh);
            assert(inferred_views(inferred@) =~= before.update(caller as int, fresh));
            assert(places(queue@) == effect_semantics::requeued(graph, before, list, caller as int));
            lemma_step(graph, before, list);
            lemma_within(graph, before, list);
            lemma_within(graph, inferred_views(inferred@), places(queue@));
            lemma_updated(graph, before, caller as int);
            lemma_missing(
                before,
                inferred_views(inferred@),
                caller as int,
                before.len() as int,
                universe(graph).len(),
            );
            lemma_missing_positive(before, before.len() as int, universe(graph).len());
            lemma_missing_positive(inferred_views(inferred@), before.len() as int, universe(graph).len());
            assert forall|more: nat| #[trigger]
                effect_semantics::settled(graph, start, first, (more + (rounds + 1)) as nat)
                    == effect_semantics::settled(graph, inferred_views(inferred@), places(queue@), more) by {
                assert(more + (rounds + 1) == (more + 1) + rounds);
                assert(effect_semantics::settled(graph, start, first, ((more + 1) + rounds) as nat)
                    == effect_semantics::settled(graph, before, list, (more + 1) as nat));
            }
            rounds = rounds + 1;
        }
    }
    proof {
        assert(effect_semantics::settled(graph, start, first, (0nat + rounds) as nat) == effect_semantics::settled(
            graph,
            inferred_views(inferred@),
            places(queue@),
            0,
        ));
        assert(effect_semantics::settled(graph, start, first, rounds) == Some(inferred_views(inferred@)));
    }
    InferenceResult { functions: inferred, call_edges: edges }
}

// Queries.

/// What a body performs by its own facts and the inferred effects of whom it
/// calls.
pub open spec fn body_effects(
    facts: FactsView,
    keys: Seq<Seq<char>>,
    inferred: Seq<Seq<WitnessView>>,
) -> Seq<WitnessView> {
    effect_semantics::called_effects(keys, inferred, facts.callees, 0, facts.direct)
}

fn infer_facts_with_result(
    facts: FunctionFacts,
    entries: &Vec<FunctionEntry>,
    result: &InferenceResult,
) -> (effects: InferredEffects)
    ensures
        effects@ == body_effects(
            facts@,
            Seq::new(view::function_entries(entries@).len(), |i: int| view::function_entries(entries@)[i].key),
            inferred_views(result.functions@),
        ),
{
    let mut found = facts.direct;
    add_calls(entries, &result.functions, &facts.callees, &mut found);
    InferredEffects { witnesses: found }
}

/// The key that a function is registered under.
pub open spec fn function_key(signature: FunctionSigView) -> Seq<char> {
    if signature.alias.len() == 0 {
        signature.symbol
    } else {
        signature.alias + "."@ + signature.symbol
    }
}

fn key_of(signature: &FunctionSig) -> (key: String)
    ensures
        key@ == function_key(view::function_sig(*signature)),
{
    if signature.alias.as_str().is_empty() {
        signature.symbol.clone()
    } else {
        concat_three(signature.alias.as_str(), ".", signature.symbol.as_str())
    }
}

/// The effects of a function. `registered` says which of the entries the
/// function is, when it is one; otherwise its key decides, and a function that
/// is not among the entries is inferred on its own.
pub fn infer_function(
    signature: &FunctionSig,
    registered: Option<usize>,
    entries: &Vec<FunctionEntry>,
    tables: &EffectTables,
) -> (effects: InferredEffects)
    requires
        crate::lowered::tables::keys_ascending(entries@),
        registered matches Some(node) ==> node < entries.len(),
    ensures
        exists|inferred: Seq<Seq<WitnessView>>| #[trigger]
            effect_semantics::inferred_as(
                effect_semantics::graph_of(view::function_entries(entries@), tables@),
                inferred,
            ) && effects@ == function_effects(
                view::function_sig(*signature),
                registered,
                effect_semantics::graph_of(view::function_entries(entries@), tables@),
                inferred,
                tables@,
            ),
{
    let result = infer_program(entries, tables);
    let ghost all = view::function_entries(entries@);
    let ghost graph = effect_semantics::graph_of(all, tables@);
    let ghost inferred = inferred_views(result.functions@);
    assert(graph.keys == Seq::new(all.len(), |i: int| all[i].key));
    let node = match registered {
        Some(node) => node,
        None => {
            let key = key_of(signature);
            node_of(entries, key.as_str())
        }
    };
    let effects = if node < entries.len() {
        assert(inferred[node as int] == result.functions@[node as int]@);
        InferredEffects { witnesses: copy_witnesses(&result.functions[node].witnesses) }
    } else {
        infer_facts_with_result(collect_function_facts(signature, tables), entries, &result)
    };
    assert(effects@ == function_effects(view::function_sig(*signature), registered, graph, inferred, tables@));
    effects
}

/// The effects of a function by what was inferred for the registered ones.
pub open spec fn function_effects(
    signature: FunctionSigView,
    registered: Option<usize>,
    graph: GraphView,
    inferred: Seq<Seq<WitnessView>>,
    tables: TablesView,
) -> Seq<WitnessView> {
    let node = match registered {
        Some(node) => node as int,
        None => effect_semantics::node_from(graph.keys, 0, function_key(signature)),
    };
    if 0 <= node < inferred.len() {
        inferred[node]
    } else {
        body_effects(effect_semantics::function_facts(signature, tables), graph.keys, inferred)
    }
}

/// The effects of a body that is not registered.
pub fn infer_statements(
    statements: &Vec<Statement>,
    entries: &Vec<FunctionEntry>,
    tables: &EffectTables,
) -> (effects: InferredEffects)
    requires
        crate::lowered::tables::keys_ascending(entries@),
    ensures
        exists|inferred: Seq<Seq<WitnessView>>| #[trigger]
            effect_semantics::inferred_as(
                effect_semantics::graph_of(view::function_entries(entries@), tables@),
                inferred,
            ) && effects@ == body_effects(
                effect_semantics::body_facts(
                    view::statements(statements@),
                    0,
                    tables@,
                    effect_semantics::no_facts(),
                ),
                effect_semantics::graph_of(view::function_entries(entries@), tables@).keys,
                inferred,
            ),
{
    let result = infer_program(entries, tables);
    let ghost all = view::function_entries(entries@);
    let ghost inferred = inferred_views(result.functions@);
    assert(effect_semantics::graph_of(all, tables@).keys == Seq::new(all.len(), |i: int| all[i].key));
    let mut facts = empty_facts();
    collect_statements_facts(statements, tables, &mut facts);
    let effects = infer_facts_with_result(facts, entries, &result);
    assert(effect_semantics::inferred_as(effect_semantics::graph_of(all, tables@), inferred));
    effects
}

/// The effects of an expression.
pub fn infer_expr(expr: &Expr, entries: &Vec<FunctionEntry>, tables: &EffectTables) -> (effects: InferredEffects)
    requires
        crate::lowered::tables::keys_ascending(entries@),
    ensures
        exists|inferred: Seq<Seq<WitnessView>>| #[trigger]
            effect_semantics::inferred_as(
                effect_semantics::graph_of(view::function_entries(entries@), tables@),
                inferred,
            ) && effects@ == body_effects(
                effect_semantics::expr_facts(view::expr(*expr), tables@, effect_semantics::no_facts()),
                effect_semantics::graph_of(view::function_entries(entries@), tables@).keys,
                inferred,
            ),
{
    let result = infer_program(entries, tables);
    let ghost all = view::function_entries(entries@);
    let ghost inferred = inferred_views(result.functions@);
    assert(effect_semantics::graph_of(all, tables@).keys == Seq::new(all.len(), |i: int| all[i].key));
    let mut facts = empty_facts();
    collect_expr_facts(expr, tables, &mut facts);
    let effects = infer_facts_with_result(facts, entries, &result);
    assert(effect_semantics::inferred_as(effect_semantics::graph_of(all, tables@), inferred));
    effects
}

/// Whom a body calls, in order.
pub fn call_edges_for_statements(statements: &Vec<Statement>, tables: &EffectTables) -> (callees: Vec<String>)
    ensures
        view::texts(callees@) == effect_semantics::body_facts(
            view::statements(statements@),
            0,
            tables@,
            effect_semantics::no_facts(),
        ).callees,
{
    let mut facts = empty_facts();
    collect_statements_facts(statements, tables, &mut facts);
    facts.callees
}

// Declarations.

/// A label as it is written: an action behind its domain.
pub open spec fn label_text(label: EffectLabelView) -> Seq<char> {
    if label.action.len() == 0 {
        label.domain
    } else {
        label.domain + "."@ + label.action
    }
}

pub fn effect_label_display(label: &EffectLabel) -> (text: String)
    ensures
        text@ == label_text(view::effect_label(*label)),
{
    if label.action.as_str().is_empty() {
        label.domain.clone()
    } else {
        concat_three(label.domain.as_str(), ".", label.action.as_str())
    }
}

/// The first `count` labels, separated by spaces.
pub open spec fn labels_text(labels: Seq<EffectLabelView>, count: int) -> Seq<char>
    decreases count,
{
    if count <= 0 || count > labels.len() {
        Seq::empty()
    } else if count == 1 {
        label_text(labels[0])
    } else {
        labels_text(labels, count - 1) + " "@ + label_text(labels[count - 1])
    }
}

fn show_labels(labels: &Vec<EffectLabel>) -> (text: String)
    ensures
        text@ == labels_text(view::effect_labels(labels@), labels@.len() as int),
{
    let ghost all = view::effect_labels(labels@);
    let mut text = String::new();
    let mut i: usize = 0;
    assert(text@ =~= labels_text(all, 0));
    while i < labels.len()
        invariant
            i <= labels.len(),
            all == view::effect_labels(labels@),
            text@ == labels_text(all, i as int),
        decreases labels.len() - i,
    {
        assert(all[i as int] == view::effect_label(labels@[i as int]));
        let shown = effect_label_display(&labels[i]);
        if i == 0 {
            text = shown;
        } else {
            text.append(" ");
            text.append(shown.as_str());
        }
        i += 1;
    }
    text
}

pub open spec fn declared_text(row: EffectRowView) -> Seq<char> {
    if row.labels.len() == 0 {
        "no effects"@
    } else {
        let labels = effect_semantics::row_labels(row.labels, 0, Seq::empty());
        labels_text(labels, labels.len() as int)
    }
}

/// The message about an effect that is not declared.
pub open spec fn undeclared_text(owner: Seq<char>, declared: EffectRowView, found: WitnessView) -> Seq<char> {
    "E-EFFECT-001: `"@ + owner + "` declares "@ + declared_text(declared) + " but its body performs "@ + label_text(
        found.label,
    ) + " via `"@ + found.source + "`; add it to `effects:` or stop calling it"@
}

pub fn undeclared_effect_message(owner: &str, declared: &EffectRow, witness: &EffectWitness) -> (text: String)
    ensures
        text@ == undeclared_text(owner@, view::effect_row(*declared), effect_semantics::witness(*witness)),
{
    let declared_list = if declared.labels.len() == 0 {
        crate::text::owned("no effects")
    } else {
        let labels = effect_semantics::sort_row(declared);
        assert(view::effect_labels(labels@).len() == labels@.len());
        show_labels(&labels)
    };
    assert(view::effect_row(*declared).labels.len() == declared.labels@.len());
    let label = effect_label_display(&witness.label);
    let mut text = concat_five(
        "E-EFFECT-001: `",
        owner,
        "` declares ",
        declared_list.as_str(),
        " but its body performs ",
    );
    text.append(label.as_str());
    text.append(" via `");
    text.append(witness.source.as_str());
    text.append("`; add it to `effects:` or stop calling it");
    text
}

/// Whether a function's declared row is a promise to its callers.
pub open spec fn is_boundary(signature: FunctionSigView) -> bool {
    signature.visibility == FunctionVisibility::Public || signature.interface_method || signature.owner_effect is Some
}

fn is_effect_boundary(signature: &FunctionSig) -> (result: bool)
    ensures
        result == is_boundary(view::function_sig(*signature)),
{
    signature.visibility == FunctionVisibility::Public || signature.interface_method || signature.owner_effect.is_some()
}

/// The warning about labels that are declared and not performed.
pub open spec fn overdeclared_text(owner: Seq<char>, extra: Seq<EffectLabelView>, performed: Seq<WitnessView>) -> Seq<
    char,
> {
    let labels = effect_semantics::sorted_labels(performed, 0, Seq::empty());
    "W-EFFECT-001: `"@ + owner + "` over-declares "@ + labels_text(extra, extra.len() as int) + "; inferred effects: "@
        + (if labels.len() == 0 {
        "no effects"@
    } else {
        labels_text(labels, labels.len() as int)
    })
}

/// What the check says of one function: an error, or the warnings behind it.
pub open spec fn checked(entry: FunctionEntryView, performed: Seq<WitnessView>, warnings: Seq<Seq<char>>) -> Result<
    Seq<Seq<char>>,
    Seq<char>,
> {
    if entry.key == "main"@ || !is_boundary(entry.signature) {
        Ok(warnings)
    } else {
        let declared = entry.signature.effects;
        let missing = effect_semantics::not_covered(performed, 0, declared, Seq::empty());
        let extra = effect_semantics::not_performed(declared.labels, 0, performed, Seq::empty());
        if missing.len() > 0 {
            Err(undeclared_text(entry.key, declared, missing[0]))
        } else if extra.len() > 0 {
            Ok(warnings.push(overdeclared_text(entry.key, extra, performed)))
        } else {
            Ok(warnings)
        }
    }
}

/// The check of the functions from `from` on.
pub open spec fn checked_from(
    entries: Seq<FunctionEntryView>,
    from: int,
    inferred: Seq<Seq<WitnessView>>,
    warnings: Seq<Seq<char>>,
) -> Result<Seq<Seq<char>>, Seq<char>>
    decreases entries.len() - from,
{
    if from < 0 || from >= entries.len() {
        Ok(warnings)
    } else {
        match checked(entries[from], inferred[from], warnings) {
            Err(message) => Err(message),
            Ok(warnings) => checked_from(entries, from + 1, inferred, warnings),
        }
    }
}

/// The warnings that the check of the functions from `from` on leaves, be it
/// that it ends with an error: those about the functions before the offender.
pub open spec fn warned_from(
    entries: Seq<FunctionEntryView>,
    from: int,
    inferred: Seq<Seq<WitnessView>>,
    warnings: Seq<Seq<char>>,
) -> Seq<Seq<char>>
    decreases entries.len() - from,
{
    if from < 0 || from >= entries.len() {
        warnings
    } else {
        match checked(entries[from], inferred[from], warnings) {
            Err(_) => warnings,
            Ok(more) => warned_from(entries, from + 1, inferred, more),
        }
    }
}

fn check_entry(
    entry: &FunctionEntry,
    performed: &InferredEffects,
    warnings: &mut Vec<String>,
) -> (result: Result<(), String>)
    ensures
        match result {
            Ok(_) => checked(view::function_entry(*entry), performed@, view::texts(old(warnings)@)) == Ok::<
                Seq<Seq<char>>,
                Seq<char>,
            >(view::texts(final(warnings)@)),
            Err(message) => checked(view::function_entry(*entry), performed@, view::texts(old(warnings)@)) == Err::<
                Seq<Seq<char>>,
                Seq<char>,
            >(message@) && final(warnings)@ == old(warnings)@,
        },
{
    if same_text(entry.key.as_str(), "main") || !is_effect_boundary(&entry.signature) {
        return Ok(());
    }
    let declared = &entry.signature.effects;
    let missing = performed.undeclared(declared);
    assert(effect_semantics::witnesses(missing@).len() == missing@.len());
    if missing.len() > 0 {
        assert(effect_semantics::witnesses(missing@)[0] == effect_semantics::witness(missing@[0]));
        return Err(undeclared_effect_message(entry.key.as_str(), declared, &missing[0]));
    }
    let extra = performed.overdeclared(declared);
    assert(view::effect_labels(extra@).len() == extra@.len());
    if extra.len() > 0 {
        let shown = show_labels(&extra);
        let labels = performed.labels();
        assert(view::effect_labels(labels@).len() == labels@.len());
        let mut text = concat_five(
            "W-EFFECT-001: `",
            entry.key.as_str(),
            "` over-declares ",
            shown.as_str(),
            "; inferred effects: ",
        );
        if labels.len() == 0 {
            text.append("no effects");
        } else {
            let all = show_labels(&labels);
            text.append(all.as_str());
        }
        let ghost before = warnings@;
        warnings.push(text);
        proof {
            view::lemma_texts_push(before, warnings@.last());
        }
    }
    Ok(())
}

/// Checks the declared row of every function whose row is a promise. An effect
/// that is not declared is an error; a label that is not performed is a warning.
pub fn validate_declared_effects(entries: &Vec<FunctionEntry>, tables: &EffectTables, warnings: &mut Vec<String>) -> (result: Result<
    (),
    String,
>)
    requires
        crate::lowered::tables::keys_ascending(entries@),
    ensures
        exists|inferred: Seq<Seq<WitnessView>>| #[trigger]
            effect_semantics::inferred_as(
                effect_semantics::graph_of(view::function_entries(entries@), tables@),
                inferred,
            ) && view::texts(final(warnings)@) == warned_from(
                view::function_entries(entries@),
                0,
                inferred,
                view::texts(old(warnings)@),
            ) && match result {
                Ok(_) => checked_from(view::function_entries(entries@), 0, inferred, view::texts(old(warnings)@))
                    == Ok::<Seq<Seq<char>>, Seq<char>>(view::texts(final(warnings)@)),
                Err(message) => checked_from(
                    view::function_entries(entries@),
                    0,
                    inferred,
                    view::texts(old(warnings)@),
                ) == Err::<Seq<Seq<char>>, Seq<char>>(message@),
            },
{
    let outcome = infer_program(entries, tables);
    let ghost all = view::function_entries(entries@);
    let ghost inferred = inferred_views(outcome.functions@);
    let ghost graph = effect_semantics::graph_of(all, tables@);
    let ghost start = view::texts(warnings@);
    let mut i: usize = 0;
    while i < entries.len()
        invariant
            i <= entries.len(),
            all == view::function_entries(entries@),
            graph == effect_semantics::graph_of(all, tables@),
            inferred == inferred_views(outcome.functions@),
            outcome.functions.len() == entries.len(),
            effect_semantics::inferred_as(graph, inferred),
            start == view::texts(old(warnings)@),
            checked_from(all, 0, inferred, start) == checked_from(all, i as int, inferred, view::texts(warnings@)),
            warned_from(all, 0, inferred, start) == warned_from(all, i as int, inferred, view::texts(warnings@)),
        decreases entries.len() - i,
    {
        assert(all[i as int] == view::function_entry(entries@[i as int]));
        assert(inferred[i as int] == outcome.functions@[i as int]@);
        match check_entry(&entries[i], &outcome.functions[i], warnings) {
            Ok(_) => {}
            Err(message) => return Err(message),
        }
        i += 1;
    }
    Ok(())
}

/// Checks a row that the program entry declares; an omitted row permits all.
pub fn validate_entry_effects(
    statements: &Vec<Statement>,
    declared: Option<&EffectRow>,
    entries: &Vec<FunctionEntry>,
    tables: &EffectTables,
) -> (result: Result<(), String>)
    requires
        crate::lowered::tables::keys_ascending(entries@),
    ensures
        match declared {
            None => result is Ok,
            Some(row) => exists|inferred: Seq<Seq<WitnessView>>| #[trigger]
                effect_semantics::inferred_as(
                    effect_semantics::graph_of(view::function_entries(entries@), tables@),
                    inferred,
                ) && entry_checked(
                    body_effects(
                        effect_semantics::body_facts(
                            view::statements(statements@),
                            0,
                            tables@,
                            effect_semantics::no_facts(),
                        ),
                        effect_semantics::graph_of(view::function_entries(entries@), tables@).keys,
                        inferred,
                    ),
                    view::effect_row(*row),
                ) == (match result {
                    Ok(_) => None,
                    Err(message) => Some(message@),
                }),
        },
{
    let row = match declared {
        Some(row) => row,
        None => return Ok(()),
    };
    let performed = infer_statements(statements, entries, tables);
    let missing = performed.undeclared(row);
    assert(effect_semantics::witnesses(missing@).len() == missing@.len());
    if missing.len() > 0 {
        assert(effect_semantics::witnesses(missing@)[0] == effect_semantics::witness(missing@[0]));
        return Err(undeclared_effect_message("main", row, &missing[0]));
    }
    Ok(())
}

/// What is wrong with the entry's declared row.
pub open spec fn entry_checked(performed: Seq<WitnessView>, declared: EffectRowView) -> Option<Seq<char>> {
    let missing = effect_semantics::not_covered(performed, 0, declared, Seq::empty());
    if missing.len() > 0 {
        Some(undeclared_text("main"@, declared, missing[0]))
    } else {
        None
    }
}

} // verus!
