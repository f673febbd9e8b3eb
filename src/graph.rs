use vstd::prelude::*;

use crate::node::Node;

verus! {

/// An undirected edge between two node indices, carrying a payload.
#[derive(Clone, Debug)]
pub struct Edge<E> {
    pub source: usize,
    pub target: usize,
    pub weight: E,
}

impl<E> Edge<E> {
    /// Whether the edge touches node `i` at either end.
    pub open spec fn touches(self, i: nat) -> bool {
        self.source == i || self.target == i
    }
}

/// Whether slot `i` of a node table holds a node.
pub open spec fn slot_live<T>(slots: Seq<Option<T>>, i: int) -> bool {
    0 <= i < slots.len() && slots[i] is Some
}

/// Number of occupied slots.
pub open spec fn live_count<T>(slots: Seq<Option<T>>) -> nat
    decreases slots.len(),
{
    if slots.len() == 0 {
        0
    } else {
        live_count(slots.drop_last()) + if slots.last() is Some {
            1nat
        } else {
            0nat
        }
    }
}

/// Indices of the occupied slots, in increasing order.
pub open spec fn live_indices<T>(slots: Seq<Option<T>>) -> Seq<usize>
    decreases slots.len(),
{
    if slots.len() == 0 {
        Seq::empty()
    } else {
        let rest = live_indices(slots.drop_last());
        if slots.last() is Some {
            rest.push((slots.len() - 1) as usize)
        } else {
            rest
        }
    }
}

/// The edge table after every edge that touches node `i` is dropped.
pub open spec fn without_incident<E>(edges: Seq<Option<Edge<E>>>, i: nat) -> Seq<Option<Edge<E>>> {
    Seq::new(
        edges.len(),
        |k: int|
            if edges[k] is Some && edges[k]->0.touches(i) {
                None
            } else {
                edges[k]
            },
    )
}

/// The far ends of the edges that touch node `i`, in edge order.
/// A loop on `i` yields `i` once.
pub open spec fn neighbors_in<E>(edges: Seq<Option<Edge<E>>>, i: nat) -> Seq<usize>
    decreases edges.len(),
{
    if edges.len() == 0 {
        Seq::empty()
    } else {
        let rest = neighbors_in(edges.drop_last(), i);
        match edges.last() {
            Some(e) => if e.source == i {
                rest.push(e.target)
            } else if e.target == i {
                rest.push(e.source)
            } else {
                rest
            },
            None => rest,
        }
    }
}

/// Indices of the edges that touch node `i`, in increasing order.
pub open spec fn incident_in<E>(edges: Seq<Option<Edge<E>>>, i: nat) -> Seq<usize>
    decreases edges.len(),
{
    if edges.len() == 0 {
        Seq::empty()
    } else {
        let rest = incident_in(edges.drop_last(), i);
        match edges.last() {
            Some(e) => if e.touches(i) {
                rest.push((edges.len() - 1) as usize)
            } else {
                rest
            },
            None => rest,
        }
    }
}

pub proof fn lemma_live_count_bound<T>(slots: Seq<Option<T>>)
    ensures
        live_count(slots) <= slots.len(),
    decreases slots.len(),
{
    if slots.len() > 0 {
        lemma_live_count_bound(slots.drop_last());
    }
}

pub proof fn lemma_live_indices_below<T>(slots: Seq<Option<T>>)
    requires
        slots.len() <= usize::MAX,
    ensures
        forall|k: int|
            0 <= k < live_indices(slots).len() ==> #[trigger] live_indices(slots)[k] < slots.len(),
    decreases slots.len(),
{
    if slots.len() > 0 {
        let rest = slots.drop_last();
        lemma_live_indices_below(rest);
        assert forall|k: int| 0 <= k < live_indices(slots).len() implies #[trigger] live_indices(slots)[k]
            < slots.len() by {
            if k < live_indices(rest).len() {
                assert(live_indices(slots)[k] == live_indices(rest)[k]);
            }
        }
    }
}

/// Adding a node and then removing it again gives back the node count and
/// the edges from before, and its index is not among the nodes any more.
pub proof fn lemma_add_then_remove_node<W, E>(
    before: ForceGraph<W, E>,
    added: ForceGraph<W, E>,
    after: ForceGraph<W, E>,
    weight: W,
    i: usize,
)
    requires
        before.wf(),
        i == before.nodes_view().len(),
        added.nodes_view() == before.nodes_view().push(Some(weight)),
        added.edges_view() == before.edges_view(),
        after.nodes_view() == added.nodes_view().update(i as int, None),
        after.edges_view() == without_incident(added.edges_view(), i as nat),
    ensures
        live_count(after.nodes_view()) == live_count(before.nodes_view()),
        after.edges_view() == before.edges_view(),
        !live_indices(after.nodes_view()).contains(i),
{
    let nodes = after.nodes_view();
    assert(nodes =~= before.nodes_view().push(None));
    assert(nodes.drop_last() =~= before.nodes_view());
    lemma_live_indices_below(before.nodes_view());
    assert(live_indices(nodes) == live_indices(before.nodes_view()));
    assert forall|k: int| 0 <= k < before.edges_view().len() implies after.edges_view()[k]
        == before.edges_view()[k] by {
        if before.edges_view()[k] is Some {
            assert(before.has_edge(k));
        }
    }
    assert(after.edges_view() =~= before.edges_view());
}

/// An undirected graph whose node and edge indices stay valid until the item
/// they name is removed. A removed index is never handed out again.
#[derive(Clone, Debug)]
pub struct ForceGraph<W, E> {
    nodes: Vec<Option<W>>,
    edges: Vec<Option<Edge<E>>>,
}

impl<W, E> ForceGraph<W, E> {
    /// Node table: slot `i` holds the weight of node `i`, or `None` once removed.
    pub closed spec fn nodes_view(&self) -> Seq<Option<W>> {
        self.nodes@
    }

    /// Edge table: slot `k` holds edge `k`, or `None` once removed.
    pub closed spec fn edges_view(&self) -> Seq<Option<Edge<E>>> {
        self.edges@
    }

    pub open spec fn has_node(&self, i: int) -> bool {
        slot_live(self.nodes_view(), i)
    }

    pub open spec fn has_edge(&self, k: int) -> bool {
        slot_live(self.edges_view(), k)
    }

    /// Every live edge joins two live nodes.
    pub open spec fn wf(&self) -> bool {
        forall|k: int|
            #![trigger self.edges_view()[k]]
            self.has_edge(k) ==> self.has_node(self.edges_view()[k]->0.source as int)
                && self.has_node(self.edges_view()[k]->0.target as int)
    }

    /// An empty graph.
    pub fn new() -> (r: Self)
        ensures
            r.wf(),
            r.nodes_view() == Seq::<Option<W>>::empty(),
            r.edges_view() == Seq::<Option<Edge<E>>>::empty(),
    {
        ForceGraph { nodes: Vec::new(), edges: Vec::new() }
    }

    /// Adds a node and returns its index.
    pub fn add_node(&mut self, weight: W) -> (r: usize)
        requires
            old(self).wf(),
            old(self).nodes_view().len() < usize::MAX,
        ensures
            final(self).wf(),
            r == old(self).nodes_view().len(),
            final(self).nodes_view() == old(self).nodes_view().push(Some(weight)),
            final(self).edges_view() == old(self).edges_view(),
    {
        let r = self.nodes.len();
        self.nodes.push(Some(weight));
        proof {
            assert forall|k: int| #![trigger self.edges_view()[k]] self.has_edge(k) implies self.has_node(
                self.edges_view()[k]->0.source as int,
            ) && self.has_node(self.edges_view()[k]->0.target as int) by {
                assert(old(self).has_edge(k));
                assert(self.nodes@[self.edges@[k]->0.source as int] == old(self).nodes@[self.edges@[k]->0.source as int]);
                assert(self.nodes@[self.edges@[k]->0.target as int] == old(self).nodes@[self.edges@[k]->0.target as int]);
            }
        }
        r
    }

    /// Adds an edge between nodes `a` and `b`. Returns its index, or `None`
    /// (and adds nothing) when either end is not a node of the graph.
    pub fn add_edge(&mut self, a: usize, b: usize, weight: E) -> (r: Option<usize>)
        requires
            old(self).wf(),
            old(self).edges_view().len() < usize::MAX,
        ensures
            final(self).wf(),
            final(self).nodes_view() == old(self).nodes_view(),
            r is Some <==> (old(self).has_node(a as int) && old(self).has_node(b as int)),
            r is Some ==> r->0 == old(self).edges_view().len() && final(self).edges_view()
                == old(self).edges_view().push(Some(Edge { source: a, target: b, weight })),
            r is None ==> final(self).edges_view() == old(self).edges_view(),
    {
        if !self.contains_node(a) || !self.contains_node(b) {
            return None;
        }
        let k = self.edges.len();
        self.edges.push(Some(Edge { source: a, target: b, weight }));
        proof {
            assert forall|j: int| #![trigger self.edges_view()[j]] self.has_edge(j) implies self.has_node(
                self.edges_view()[j]->0.source as int,
            ) && self.has_node(self.edges_view()[j]->0.target as int) by {
                if j < k {
                    assert(old(self).has_edge(j));
                    assert(self.edges@[j] == old(self).edges@[j]);
                }
            }
        }
        Some(k)
    }

    /// One past the largest node index ever handed out.
    pub fn node_bound(&self) -> (r: usize)
        ensures
            r == self.nodes_view().len(),
    {
        self.nodes.len()
    }

    /// Whether `i` names a node of the graph.
    pub fn contains_node(&self, i: usize) -> (r: bool)
        ensures
            r == self.has_node(i as int),
    {
        i < self.nodes.len() && self.nodes[i].is_some()
    }

    /// Whether `k` names an edge of the graph.
    pub fn contains_edge(&self, k: usize) -> (r: bool)
        ensures
            r == self.has_edge(k as int),
    {
        k < self.edges.len() && self.edges[k].is_some()
    }

    /// Removes node `i` together with every edge that touches it, and
    /// returns its weight; `None`, with nothing changed, when there is no such node.
    pub fn remove_node(&mut self, i: usize) -> (r: Option<W>)
        requires
            old(self).wf(),
        ensures
            final(self).wf(),
            r is Some <==> old(self).has_node(i as int),
            r is Some ==> r->0 == old(self).nodes_view()[i as int]->0
                && final(self).nodes_view() == old(self).nodes_view().update(i as int, None)
                && final(self).edges_view() == without_incident(old(self).edges_view(), i as nat),
            r is None ==> final(self).nodes_view() == old(self).nodes_view()
                && final(self).edges_view() == old(self).edges_view(),
    {
        if i >= self.nodes.len() {
            return None;
        }
        let r = self.nodes[i].take();
        if r.is_none() {
            return r;
        }
        let ghost old_edges = self.edges@;
        let ghost mid_nodes = self.nodes@;
        assert(mid_nodes == old(self).nodes@.update(i as int, None));
        let mut k: usize = 0;
        while k < self.edges.len()
            invariant
                self.nodes@ == mid_nodes,
                self.edges@.len() == old_edges.len(),
                k <= old_edges.len(),
                forall|j: int| 0 <= j < k ==> self.edges@[j] == without_incident(old_edges, i as nat)[j],
                forall|j: int| k <= j < old_edges.len() ==> self.edges@[j] == old_edges[j],
            decreases old_edges.len() - k,
        {
            let hit = match &self.edges[k] {
                Some(e) => e.source == i || e.target == i,
                None => false,
            };
            if hit {
                self.edges[k] = None;
            }
            k += 1;
        }
        assert(self.edges@ =~= without_incident(old_edges, i as nat));
        proof {
            assert forall|j: int| #![trigger self.edges_view()[j]] self.has_edge(j) implies self.has_node(
                self.edges_view()[j]->0.source as int,
            ) && self.has_node(self.edges_view()[j]->0.target as int) by {
                assert(old(self).has_edge(j));
                assert(self.edges@[j] == old_edges[j]);
            }
        }
        r
    }

    /// Removes edge `k` and returns its payload; `None`, with nothing changed,
    /// when there is no such edge.
    pub fn remove_edge(&mut self, k: usize) -> (r: Option<E>)
        requires
            old(self).wf(),
        ensures
            final(self).wf(),
            final(self).nodes_view() == old(self).nodes_view(),
            r is Some <==> old(self).has_edge(k as int),
            r is Some ==> r->0 == old(self).edges_view()[k as int]->0.weight
                && final(self).edges_view() == old(self).edges_view().update(k as int, None),
            r is None ==> final(self).edges_view() == old(self).edges_view(),
    {
        if k >= self.edges.len() {
            return None;
        }
        let e = self.edges[k].take();
        proof {
            assert forall|j: int| #![trigger self.edges_view()[j]] self.has_edge(j) implies self.has_node(
                self.edges_view()[j]->0.source as int,
            ) && self.has_node(self.edges_view()[j]->0.target as int) by {
                assert(old(self).has_edge(j));
                assert(self.edges@[j] == old(self).edges@[j]);
            }
        }
        match e {
            Some(e) => Some(e.weight),
            None => None,
        }
    }

    /// Removes every node and edge. Indices handed out before are not reused.
    pub fn clear(&mut self)
        requires
            old(self).wf(),
        ensures
            final(self).wf(),
            final(self).nodes_view().len() == old(self).nodes_view().len(),
            final(self).edges_view().len() == old(self).edges_view().len(),
            forall|i: int| 0 <= i < final(self).nodes_view().len() ==> final(self).nodes_view()[i] is None,
            forall|k: int| 0 <= k < final(self).edges_view().len() ==> final(self).edges_view()[k] is None,
    {
        let mut k: usize = 0;
        while k < self.edges.len()
            invariant
                self.nodes@ == old(self).nodes@,
                self.edges@.len() == old(self).edges@.len(),
                k <= self.edges@.len(),
                forall|j: int| 0 <= j < k ==> self.edges@[j] is None,
            decreases self.edges@.len() - k,
        {
            self.edges[k] = None;
            k += 1;
        }
        let mut i: usize = 0;
        while i < self.nodes.len()
            invariant
                self.nodes@.len() == old(self).nodes@.len(),
                self.edges@.len() == old(self).edges@.len(),
                i <= self.nodes@.len(),
                forall|j: int| 0 <= j < i ==> self.nodes@[j] is None,
                forall|j: int| 0 <= j < self.edges@.len() ==> self.edges@[j] is None,
            decreases self.nodes@.len() - i,
        {
            self.nodes[i] = None;
            i += 1;
        }
    }

    /// Number of nodes in the graph.
    pub fn node_count(&self) -> (r: usize)
        ensures
            r == live_count(self.nodes_view()),
    {
        let mut c: usize = 0;
        let mut i: usize = 0;
        while i < self.nodes.len()
            invariant
                i <= self.nodes@.len(),
                c == live_count(self.nodes@.take(i as int)),
            decreases self.nodes@.len() - i,
        {
            proof {
                assert(self.nodes@.take(i + 1).drop_last() =~= self.nodes@.take(i as int));
                lemma_live_count_bound(self.nodes@.take(i as int));
            }
            if self.nodes[i].is_some() {
                c += 1;
            }
            i += 1;
        }
        assert(self.nodes@.take(i as int) =~= self.nodes@);
        c
    }

    /// Number of edges in the graph.
    pub fn edge_count(&self) -> (r: usize)
        ensures
            r == live_count(self.edges_view()),
    {
        let mut c: usize = 0;
        let mut k: usize = 0;
        while k < self.edges.len()
            invariant
                k <= self.edges@.len(),
                c == live_count(self.edges@.take(k as int)),
            decreases self.edges@.len() - k,
        {
            proof {
                assert(self.edges@.take(k + 1).drop_last() =~= self.edges@.take(k as int));
                lemma_live_count_bound(self.edges@.take(k as int));
            }
            if self.edges[k].is_some() {
                c += 1;
            }
            k += 1;
        }
        assert(self.edges@.take(k as int) =~= self.edges@);
        c
    }

    /// Indices of all nodes, in increasing order.
    pub fn node_indices(&self) -> (r: Vec<usize>)
        ensures
            r@ == live_indices(self.nodes_view()),
    {
        let mut r: Vec<usize> = Vec::new();
        let mut i: usize = 0;
        while i < self.nodes.len()
            invariant
                i <= self.nodes@.len(),
                r@ == live_indices(self.nodes@.take(i as int)),
            decreases self.nodes@.len() - i,
        {
            assert(self.nodes@.take(i + 1).drop_last() =~= self.nodes@.take(i as int));
            if self.nodes[i].is_some() {
                r.push(i);
            }
            i += 1;
        }
        assert(self.nodes@.take(i as int) =~= self.nodes@);
        r
    }

    /// Indices of all edges, in increasing order.
    pub fn edge_indices(&self) -> (r: Vec<usize>)
        ensures
            r@ == live_indices(self.edges_view()),
    {
        let mut r: Vec<usize> = Vec::new();
        let mut k: usize = 0;
        while k < self.edges.len()
            invariant
                k <= self.edges@.len(),
                r@ == live_indices(self.edges@.take(k as int)),
            decreases self.edges@.len() - k,
        {
            assert(self.edges@.take(k + 1).drop_last() =~= self.edges@.take(k as int));
            if self.edges[k].is_some() {
                r.push(k);
            }
            k += 1;
        }
        assert(self.edges@.take(k as int) =~= self.edges@);
        r
    }

    /// The nodes joined to node `i` by an edge, one entry per edge, in edge order.
    pub fn neighbors(&self, i: usize) -> (r: Vec<usize>)
        ensures
            r@ == neighbors_in(self.edges_view(), i as nat),
    {
        let mut r: Vec<usize> = Vec::new();
        let mut k: usize = 0;
        while k < self.edges.len()
            invariant
                k <= self.edges@.len(),
                r@ == neighbors_in(self.edges@.take(k as int), i as nat),
            decreases self.edges@.len() - k,
        {
            assert(self.edges@.take(k + 1).drop_last() =~= self.edges@.take(k as int));
            match &self.edges[k] {
                Some(e) => {
                    if e.source == i {
                        r.push(e.target);
                    } else if e.target == i {
                        r.push(e.source);
                    }
                },
                None => {},
            }
            k += 1;
        }
        assert(self.edges@.take(k as int) =~= self.edges@);
        r
    }

    /// Indices of the edges that touch node `i`, in increasing order.
    pub fn incident_edges(&self, i: usize) -> (r: Vec<usize>)
        ensures
            r@ == incident_in(self.edges_view(), i as nat),
    {
        let mut r: Vec<usize> = Vec::new();
        let mut k: usize = 0;
        while k < self.edges.len()
            invariant
                k <= self.edges@.len(),
                r@ == incident_in(self.edges@.take(k as int), i as nat),
            decreases self.edges@.len() - k,
        {
            assert(self.edges@.take(k + 1).drop_last() =~= self.edges@.take(k as int));
            match &self.edges[k] {
                Some(e) => {
                    if e.source == i || e.target == i {
                        r.push(k);
                    }
                },
                None => {},
            }
            k += 1;
        }
        assert(self.edges@.take(k as int) =~= self.edges@);
        r
    }

    /// The weight of node `i`, if there is such a node.
    pub fn node_weight(&self, i: usize) -> (r: Option<&W>)
        ensures
            r is Some <==> self.has_node(i as int),
            r is Some ==> *r->0 == self.nodes_view()[i as int]->0,
    {
        if i < self.nodes.len() {
            self.nodes[i].as_ref()
        } else {
            None
        }
    }

    /// The two ends of edge `k`, if there is such an edge.
    pub fn edge_endpoints(&self, k: usize) -> (r: Option<(usize, usize)>)
        ensures
            r is Some <==> self.has_edge(k as int),
            r is Some ==> r->0 == (self.edges_view()[k as int]->0.source, self.edges_view()[k as int]->0.target),
    {
        if k < self.edges.len() {
            match &self.edges[k] {
                Some(e) => Some((e.source, e.target)),
                None => None,
            }
        } else {
            None
        }
    }

    /// The payload of edge `k`, if there is such an edge.
    pub fn edge_weight(&self, k: usize) -> (r: Option<&E>)
        ensures
            r is Some <==> self.has_edge(k as int),
            r is Some ==> *r->0 == self.edges_view()[k as int]->0.weight,
    {
        if k < self.edges.len() {
            match &self.edges[k] {
                Some(e) => Some(&e.weight),
                None => None,
            }
        } else {
            None
        }
    }

    /// Replaces the weight of node `i`. Returns `false`, with nothing changed,
    /// when there is no such node.
    pub fn set_node_weight(&mut self, i: usize, weight: W) -> (r: bool)
        requires
            old(self).wf(),
        ensures
            final(self).wf(),
            r == old(self).has_node(i as int),
            r ==> final(self).nodes_view() == old(self).nodes_view().update(i as int, Some(weight)),
            !r ==> final(self).nodes_view() == old(self).nodes_view(),
            final(self).edges_view() == old(self).edges_view(),
    {
        if !self.contains_node(i) {
            return false;
        }
        self.nodes[i] = Some(weight);
        proof {
            assert forall|j: int| #![trigger self.edges_view()[j]] self.has_edge(j) implies self.has_node(
                self.edges_view()[j]->0.source as int,
            ) && self.has_node(self.edges_view()[j]->0.target as int) by {
                assert(old(self).has_edge(j));
            }
        }
        true
    }
}

impl<N, P, E> ForceGraph<Node<N, P>, E> {
    /// Moves node `i` to `location` with `velocity`, leaving the rest of it
    /// as it is. Returns `false`, with nothing changed, when there is no such node.
    pub fn set_motion(&mut self, i: usize, location: P, velocity: P) -> (r: bool)
        requires
            old(self).wf(),
        ensures
            final(self).wf(),
            r == old(self).has_node(i as int),
            r ==> final(self).nodes_view() == old(self).nodes_view().update(
                i as int,
                Some(old(self).nodes_view()[i as int]->0.moved_to(location, velocity)),
            ),
            !r ==> final(self).nodes_view() == old(self).nodes_view(),
            final(self).edges_view() == old(self).edges_view(),
    {
        if i >= self.nodes.len() {
            return false;
        }
        let slot = self.nodes[i].take();
        match slot {
            Some(n) => {
                self.nodes[i] = Some(Node { location, velocity, ..n });
                proof {
                    assert(self.nodes@ =~= old(self).nodes@.update(
                        i as int,
                        Some(old(self).nodes@[i as int]->0.moved_to(location, velocity)),
                    ));
                    assert forall|j: int| #![trigger self.edges_view()[j]] self.has_edge(j) implies self.has_node(
                        self.edges_view()[j]->0.source as int,
                    ) && self.has_node(self.edges_view()[j]->0.target as int) by {
                        assert(old(self).has_edge(j));
                    }
                }
                true
            },
            None => {
                assert(self.nodes@ =~= old(self).nodes@);
                false
            },
        }
    }
}

} // verus!
