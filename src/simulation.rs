use vstd::prelude::*;

use crate::dims::Dimensions;
use crate::force::Force;
use crate::graph::ForceGraph;
use crate::node::Node;

verus! {

/// What a simulation runs with: the width of the box the nodes start in
/// (centred on the origin), the number of axes, and the force applied on
/// every tick.
#[derive(Clone, Debug)]
pub struct SimulationParameters<T> {
    pub node_start_size: T,
    pub dimensions: Dimensions,
    pub force: Force<T>,
}

impl<T: Copy> SimulationParameters<T> {
    pub fn new(node_start_size: T, dimensions: Dimensions, force: Force<T>) -> (r: Self)
        ensures
            r.node_start_size == node_start_size,
            r.dimensions == dimensions,
            r.force == force,
    {
        SimulationParameters { node_start_size, dimensions, force }
    }

    /// The force applied on every tick.
    pub fn force(&self) -> (r: &Force<T>)
        ensures
            *r == self.force,
    {
        &self.force
    }

    /// The force applied on every tick, for changing it in place.
    pub fn force_mut(&mut self) -> (r: &mut Force<T>)
        ensures
            *r == old(self).force,
            final(self).force == *final(r),
            final(self).node_start_size == old(self).node_start_size,
            final(self).dimensions == old(self).dimensions,
    {
        &mut self.force
    }

    /// Replaces the force applied on every tick.
    pub fn set_force(&mut self, force: Force<T>)
        ensures
            final(self).force == force,
            final(self).node_start_size == old(self).node_start_size,
            final(self).dimensions == old(self).dimensions,
    {
        self.force = force;
    }
}

/// A graph being laid out, with the parameters it is laid out with.
#[derive(Clone, Debug)]
pub struct Simulation<N, P, E, T> {
    graph: ForceGraph<Node<N, P>, E>,
    parameters: SimulationParameters<T>,
}

impl<N, P, E, T: Copy> Simulation<N, P, E, T> {
    pub closed spec fn spec_graph(&self) -> ForceGraph<Node<N, P>, E> {
        self.graph
    }

    pub closed spec fn spec_parameters(&self) -> SimulationParameters<T> {
        self.parameters
    }

    pub open spec fn wf(&self) -> bool {
        self.spec_graph().wf() && self.spec_parameters().force.wf()
    }

    /// A simulation of `graph`, with the nodes where they stand.
    pub fn new(graph: ForceGraph<Node<N, P>, E>, parameters: SimulationParameters<T>) -> (r: Self)
        requires
            graph.wf(),
            parameters.force.wf(),
        ensures
            r.wf(),
            r.spec_graph() == graph,
            r.spec_parameters() == parameters,
    {
        Simulation { graph, parameters }
    }

    pub fn get_graph(&self) -> (r: &ForceGraph<Node<N, P>, E>)
        ensures
            *r == self.spec_graph(),
    {
        &self.graph
    }

    pub fn get_graph_mut(&mut self) -> (r: &mut ForceGraph<Node<N, P>, E>)
        ensures
            *r == old(self).spec_graph(),
            final(self).spec_graph() == *final(r),
            final(self).spec_parameters() == old(self).spec_parameters(),
    {
        &mut self.graph
    }

    /// Replaces the graph being laid out.
    pub fn set_graph(&mut self, graph: ForceGraph<Node<N, P>, E>)
        requires
            old(self).wf(),
            graph.wf(),
        ensures
            final(self).wf(),
            final(self).spec_graph() == graph,
            final(self).spec_parameters() == old(self).spec_parameters(),
    {
        self.graph = graph;
    }

    pub fn parameters(&self) -> (r: &SimulationParameters<T>)
        ensures
            *r == self.spec_parameters(),
    {
        &self.parameters
    }

    pub fn parameters_mut(&mut self) -> (r: &mut SimulationParameters<T>)
        ensures
            *r == old(self).spec_parameters(),
            final(self).spec_parameters() == *final(r),
            final(self).spec_graph() == old(self).spec_graph(),
    {
        &mut self.parameters
    }

    /// Adds a node to the graph and returns its index.
    pub fn add_node(&mut self, node: Node<N, P>) -> (r: usize)
        requires
            old(self).wf(),
            old(self).spec_graph().nodes_view().len() < usize::MAX,
        ensures
            final(self).wf(),
            r == old(self).spec_graph().nodes_view().len(),
            final(self).spec_graph().nodes_view() == old(self).spec_graph().nodes_view().push(Some(node)),
            final(self).spec_graph().edges_view() == old(self).spec_graph().edges_view(),
            final(self).spec_parameters() == old(self).spec_parameters(),
    {
        self.graph.add_node(node)
    }

    /// Adds an edge; `None`, with nothing added, when an end is not a node.
    pub fn add_edge(&mut self, a: usize, b: usize, weight: E) -> (r: Option<usize>)
        requires
            old(self).wf(),
            old(self).spec_graph().edges_view().len() < usize::MAX,
        ensures
            final(self).wf(),
            final(self).spec_graph().nodes_view() == old(self).spec_graph().nodes_view(),
            r is Some <==> (old(self).spec_graph().has_node(a as int) && old(self).spec_graph().has_node(
                b as int,
            )),
            r is Some ==> r->0 == old(self).spec_graph().edges_view().len()
                && final(self).spec_graph().edges_view() == old(
                self,
            ).spec_graph().edges_view().push(Some(crate::graph::Edge { source: a, target: b, weight })),
            r is None ==> final(self).spec_graph().edges_view() == old(self).spec_graph().edges_view(),
            final(self).spec_parameters() == old(self).spec_parameters(),
    {
        self.graph.add_edge(a, b, weight)
    }

    /// Removes a node and the edges that touch it; `None` when there is no such node.
    pub fn remove_node(&mut self, i: usize) -> (r: Option<Node<N, P>>)
        requires
            old(self).wf(),
        ensures
            final(self).wf(),
            r is Some <==> old(self).spec_graph().has_node(i as int),
            r is Some ==> r->0 == old(self).spec_graph().nodes_view()[i as int]->0
                && final(self).spec_graph().nodes_view() == old(self).spec_graph().nodes_view().update(
                i as int,
                None,
            ) && final(self).spec_graph().edges_view() == crate::graph::without_incident(
                old(self).spec_graph().edges_view(),
                i as nat,
            ),
            r is None ==> final(self).spec_graph().nodes_view() == old(self).spec_graph().nodes_view()
                && final(self).spec_graph().edges_view() == old(self).spec_graph().edges_view(),
            final(self).spec_parameters() == old(self).spec_parameters(),
    {
        self.graph.remove_node(i)
    }

    /// Removes an edge; `None` when there is no such edge.
    pub fn remove_edge(&mut self, k: usize) -> (r: Option<E>)
        requires
            old(self).wf(),
        ensures
            final(self).wf(),
            final(self).spec_graph().nodes_view() == old(self).spec_graph().nodes_view(),
            r is Some <==> old(self).spec_graph().has_edge(k as int),
            r is Some ==> r->0 == old(self).spec_graph().edges_view()[k as int]->0.weight
                && final(self).spec_graph().edges_view() == old(self).spec_graph().edges_view().update(
                k as int,
                None,
            ),
            r is None ==> final(self).spec_graph().edges_view() == old(self).spec_graph().edges_view(),
            final(self).spec_parameters() == old(self).spec_parameters(),
    {
        self.graph.remove_edge(k)
    }

    /// Removes every node and edge.
    pub fn clear(&mut self)
        requires
            old(self).wf(),
        ensures
            final(self).wf(),
            forall|i: int| !final(self).spec_graph().has_node(i),
            forall|k: int| !final(self).spec_graph().has_edge(k),
            final(self).spec_parameters() == old(self).spec_parameters(),
    {
        self.graph.clear();
    }

    /// Runs `cb` on every node, in index order.
    pub fn visit_nodes<F: Fn(&Node<N, P>)>(&self, cb: &F)
        requires
            forall|n: Node<N, P>| cb.requires((&n,)),
    {
        let ids = self.graph.node_indices();
        let mut k: usize = 0;
        while k < ids.len()
            invariant
                k <= ids@.len(),
                forall|n: Node<N, P>| cb.requires((&n,)),
            decreases ids@.len() - k,
        {
            match self.graph.node_weight(ids[k]) {
                Some(node) => cb(node),
                None => {},
            }
            k += 1;
        }
    }

    /// Runs `cb` on the two ends of every edge, in edge order.
    pub fn visit_edges<F: Fn(&Node<N, P>, &Node<N, P>)>(&self, cb: &F)
        requires
            forall|a: Node<N, P>, b: Node<N, P>| cb.requires((&a, &b)),
    {
        let ids = self.graph.edge_indices();
        let mut k: usize = 0;
        while k < ids.len()
            invariant
                k <= ids@.len(),
                forall|a: Node<N, P>, b: Node<N, P>| cb.requires((&a, &b)),
            decreases ids@.len() - k,
        {
            match self.graph.edge_endpoints(ids[k]) {
                Some((a, b)) => {
                    match (self.graph.node_weight(a), self.graph.node_weight(b)) {
                        (Some(x), Some(y)) => cb(x, y),
                        _ => {},
                    }
                },
                None => {},
            }
            k += 1;
        }
    }
}

} // verus!
