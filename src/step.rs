use vstd::prelude::*;

use crate::graph::ForceGraph;
use crate::node::Node;

verus! {

/// What one tick of `rule` makes of `before`: the edges stay, a removed node
/// stays removed, a locked node does not change, and every free node keeps its
/// name, payload and lock and takes the place and velocity that `rule` gives
/// for it on `before`.
pub open spec fn stepped<N, P, E, F>(
    before: ForceGraph<Node<N, P>, E>,
    after: ForceGraph<Node<N, P>, E>,
    rule: F,
) -> bool
    where
        F: Fn(&ForceGraph<Node<N, P>, E>, usize) -> (P, P),
{
    &&& after.wf()
    &&& after.edges_view() == before.edges_view()
    &&& after.nodes_view().len() == before.nodes_view().len()
    &&& forall|i: int|
        #![trigger after.nodes_view()[i]]
        0 <= i < before.nodes_view().len() && !(before.has_node(i)
            && !before.nodes_view()[i]->0.locked) ==> after.nodes_view()[i] == before.nodes_view()[i]
    &&& forall|i: int|
        #![trigger after.nodes_view()[i]]
        before.has_node(i) && !before.nodes_view()[i]->0.locked ==> {
            let moved = after.nodes_view()[i]->0;
            &&& after.nodes_view()[i] is Some
            &&& moved == before.nodes_view()[i]->0.moved_to(moved.location, moved.velocity)
            &&& rule.ensures((&before, i as usize), (moved.location, moved.velocity))
        }
}

/// A rule whose outcome is fixed by its arguments.
pub open spec fn deterministic<N, P, E, F>(rule: F) -> bool
    where
        F: Fn(&ForceGraph<Node<N, P>, E>, usize) -> (P, P),
{
    forall|g: ForceGraph<Node<N, P>, E>, i: usize, x: (P, P), y: (P, P)|
        rule.ensures((&g, i), x) && rule.ensures((&g, i), y) ==> x == y
}

/// Stepping the same graph with the same deterministic rule twice gives the
/// same graph both times: the outcome does not depend on anything but the
/// graph before the tick and the rule.
pub proof fn lemma_step_deterministic<N, P, E, F>(
    before: ForceGraph<Node<N, P>, E>,
    a: ForceGraph<Node<N, P>, E>,
    b: ForceGraph<Node<N, P>, E>,
    rule: F,
)
    where
        F: Fn(&ForceGraph<Node<N, P>, E>, usize) -> (P, P),
    requires
        deterministic(rule),
        stepped(before, a, rule),
        stepped(before, b, rule),
    ensures
        a.nodes_view() == b.nodes_view(),
        a.edges_view() == b.edges_view(),
{
    assert forall|i: int| 0 <= i < a.nodes_view().len() implies a.nodes_view()[i] == b.nodes_view()[i] by {
        if before.has_node(i) && !before.nodes_view()[i]->0.locked {
            let x = a.nodes_view()[i]->0;
            let y = b.nodes_view()[i]->0;
            assert(rule.ensures((&before, i as usize), (x.location, x.velocity)));
            assert(rule.ensures((&before, i as usize), (y.location, y.velocity)));
            assert((x.location, x.velocity) == (y.location, y.velocity));
        }
    }
    assert(a.nodes_view() =~= b.nodes_view());
}

/// A locked node comes out of a tick exactly as it went in, whatever the rule
/// and whatever surrounds it.
pub proof fn lemma_locked_unmoved<N, P, E, F>(
    before: ForceGraph<Node<N, P>, E>,
    after: ForceGraph<Node<N, P>, E>,
    rule: F,
    i: int,
)
    where
        F: Fn(&ForceGraph<Node<N, P>, E>, usize) -> (P, P),
    requires
        stepped(before, after, rule),
        before.has_node(i),
        before.nodes_view()[i]->0.locked,
    ensures
        after.nodes_view()[i] == before.nodes_view()[i],
{
}

/// One tick of a force. For every free node, `rule(graph, i)` computes the
/// node's new place and velocity from the graph as it stood before the tick;
/// only once every node has been computed are the results written. A locked
/// node is read by the rule like any other but is never moved.
///
/// Because no result is written while the rule runs, the outcome does not
/// depend on the order in which the nodes are visited.
pub fn apply_step<N, P, E, F>(graph: &mut ForceGraph<Node<N, P>, E>, rule: F)
    where
        F: Fn(&ForceGraph<Node<N, P>, E>, usize) -> (P, P),
    requires
        old(graph).wf(),
        forall|i: usize| old(graph).has_node(i as int) ==> rule.requires((old(graph), i)),
    ensures
        stepped(*old(graph), *final(graph), rule),
{
    let ghost before = *graph;
    let bound = graph.node_bound();
    let mut results: Vec<Option<(P, P)>> = Vec::new();
    let mut i: usize = 0;
    while i < bound
        invariant
            *graph == before,
            bound == before.nodes_view().len(),
            before == *old(graph),
            i <= bound,
            results@.len() == i,
            forall|j: usize| before.has_node(j as int) ==> rule.requires((&before, j)),
            forall|j: int|
                #![trigger results@[j]]
                0 <= j < i ==> (results@[j] is Some <==> (before.has_node(j)
                    && !before.nodes_view()[j]->0.locked)),
            forall|j: int|
                #![trigger results@[j]]
                0 <= j < i && results@[j] is Some ==> rule.ensures((&before, j as usize), results@[j]->0),
        decreases bound - i,
    {
        let free = match graph.node_weight(i) {
            Some(node) => !node.locked,
            None => false,
        };
        if free {
            results.push(Some(rule(&*graph, i)));
        } else {
            results.push(None);
        }
        i += 1;
    }
    let ghost computed = results@;
    let mut i: usize = 0;
    while i < bound
        invariant
            graph.wf(),
            graph.edges_view() == before.edges_view(),
            bound == before.nodes_view().len(),
            before == *old(graph),
            graph.nodes_view().len() == bound,
            results@.len() == bound,
            i <= bound,
            forall|j: int| i <= j < bound ==> #[trigger] results@[j] == computed[j],
            forall|j: int| i <= j < bound ==> #[trigger] graph.nodes_view()[j] == before.nodes_view()[j],
            forall|j: int|
                #![trigger graph.nodes_view()[j]]
                0 <= j < i ==> graph.nodes_view()[j] == if computed[j] is Some {
                    Some(before.nodes_view()[j]->0.moved_by(computed[j]->0))
                } else {
                    before.nodes_view()[j]
                },
            forall|j: int|
                #![trigger computed[j]]
                0 <= j < bound && computed[j] is Some ==> rule.ensures((&before, j as usize), computed[j]->0),
            forall|j: int|
                #![trigger computed[j]]
                0 <= j < bound ==> (computed[j] is Some <==> (before.has_node(j)
                    && !before.nodes_view()[j]->0.locked)),
        decreases bound - i,
    {
        let r = results[i].take();
        match r {
            Some(moved) => {
                let (p, v) = moved;
                let ok = graph.set_motion(i, p, v);
            },
            None => {},
        }
        i += 1;
    }
    proof {
        assert forall|j: int|
            #![trigger graph.nodes_view()[j]]
            old(graph).has_node(j) && !old(graph).nodes_view()[j]->0.locked implies {
                let after = graph.nodes_view()[j]->0;
                &&& graph.nodes_view()[j] is Some
                &&& after == old(graph).nodes_view()[j]->0.moved_to(after.location, after.velocity)
                &&& rule.ensures((old(graph), j as usize), (after.location, after.velocity))
            } by {
            assert(computed[j] is Some);
            let moved = computed[j]->0;
            assert(rule.ensures((&before, j as usize), moved));
            assert(moved == (moved.0, moved.1));
        }
    }
}

/// What a one-shot transform `rule` makes of `before`: the edges stay, a
/// removed node stays removed, and every node, locked or not, keeps its name,
/// payload, lock and velocity and moves to the place that `rule` gives for it
/// on `before`.
pub open spec fn transformed<N, P, E, F>(
    before: ForceGraph<Node<N, P>, E>,
    after: ForceGraph<Node<N, P>, E>,
    rule: F,
) -> bool
    where
        F: Fn(&ForceGraph<Node<N, P>, E>, usize) -> P,
{
    &&& after.wf()
    &&& after.edges_view() == before.edges_view()
    &&& after.nodes_view().len() == before.nodes_view().len()
    &&& forall|i: int|
        #![trigger after.nodes_view()[i]]
        0 <= i < before.nodes_view().len() && !before.has_node(i) ==> after.nodes_view()[i]
            == before.nodes_view()[i]
    &&& forall|i: int|
        #![trigger after.nodes_view()[i]]
        before.has_node(i) ==> {
            let moved = after.nodes_view()[i]->0;
            &&& after.nodes_view()[i] is Some
            &&& moved == before.nodes_view()[i]->0.moved_to(
                moved.location,
                before.nodes_view()[i]->0.velocity,
            )
            &&& rule.ensures((&before, i as usize), moved.location)
        }
}

/// Moves every node, locked ones included, to the place that `rule(graph, i)`
/// computes from the graph as it stood before the call. Used for one-shot
/// transforms of the whole layout.
pub fn apply_transform<N, P: Copy, E, F>(graph: &mut ForceGraph<Node<N, P>, E>, rule: F)
    where
        F: Fn(&ForceGraph<Node<N, P>, E>, usize) -> P,
    requires
        old(graph).wf(),
        forall|i: usize| old(graph).has_node(i as int) ==> rule.requires((old(graph), i)),
    ensures
        transformed(*old(graph), *final(graph), rule),
{
    let ghost before = *graph;
    let bound = graph.node_bound();
    let mut results: Vec<Option<(P, P)>> = Vec::new();
    let mut i: usize = 0;
    while i < bound
        invariant
            *graph == before,
            bound == before.nodes_view().len(),
            before == *old(graph),
            i <= bound,
            results@.len() == i,
            forall|j: usize| before.has_node(j as int) ==> rule.requires((&before, j)),
            forall|j: int|
                #![trigger results@[j]]
                0 <= j < i ==> (results@[j] is Some <==> before.has_node(j)),
            forall|j: int|
                #![trigger results@[j]]
                0 <= j < i && results@[j] is Some ==> rule.ensures((&before, j as usize), (results@[j]->0).0)
                    && (results@[j]->0).1 == before.nodes_view()[j]->0.velocity,
        decreases bound - i,
    {
        match graph.node_weight(i) {
            Some(node) => {
                let v = node.velocity;
                results.push(Some((rule(&*graph, i), v)));
            },
            None => {
                results.push(None);
            },
        }
        i += 1;
    }
    let ghost computed = results@;
    let mut i: usize = 0;
    while i < bound
        invariant
            graph.wf(),
            graph.edges_view() == before.edges_view(),
            bound == before.nodes_view().len(),
            before == *old(graph),
            graph.nodes_view().len() == bound,
            results@.len() == bound,
            i <= bound,
            forall|j: int| i <= j < bound ==> #[trigger] results@[j] == computed[j],
            forall|j: int| i <= j < bound ==> #[trigger] graph.nodes_view()[j] == before.nodes_view()[j],
            forall|j: int|
                #![trigger graph.nodes_view()[j]]
                0 <= j < i ==> graph.nodes_view()[j] == if computed[j] is Some {
                    Some(before.nodes_view()[j]->0.moved_by(computed[j]->0))
                } else {
                    before.nodes_view()[j]
                },
            forall|j: int|
                #![trigger computed[j]]
                0 <= j < bound && computed[j] is Some ==> rule.ensures((&before, j as usize), (computed[j]->0).0)
                    && (computed[j]->0).1 == before.nodes_view()[j]->0.velocity,
            forall|j: int|
                #![trigger computed[j]]
                0 <= j < bound ==> (computed[j] is Some <==> before.has_node(j)),
        decreases bound - i,
    {
        let r = results[i].take();
        match r {
            Some(moved) => {
                let (p, v) = moved;
                let ok = graph.set_motion(i, p, v);
            },
            None => {},
        }
        i += 1;
    }
    proof {
        assert forall|j: int|
            #![trigger graph.nodes_view()[j]]
            before.has_node(j) implies {
                let moved = graph.nodes_view()[j]->0;
                &&& graph.nodes_view()[j] is Some
                &&& moved == before.nodes_view()[j]->0.moved_to(
                    moved.location,
                    before.nodes_view()[j]->0.velocity,
                )
                &&& rule.ensures((&before, j as usize), moved.location)
            } by {
            assert(computed[j] is Some);
        }
    }
}

} // verus!
