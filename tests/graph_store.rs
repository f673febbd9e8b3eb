use fdg_sim::{ForceGraph, Node};

type Pos = [f32; 3];

fn node(name: &str) -> Node<(), Pos> {
    Node::new(name.to_string(), (), [0.0; 3], [0.0; 3])
}

#[test]
fn add_then_remove_node_leaves_empty_graph() {
    let mut graph: ForceGraph<Node<(), Pos>, ()> = ForceGraph::new();
    let idx = graph.add_node(node("a"));
    let removed = graph.remove_node(idx);
    assert!(removed.is_some());
    assert_eq!(removed.unwrap().name, "a");
    assert_eq!(graph.node_count(), 0);
    assert_eq!(graph.edge_count(), 0);
    assert!(!graph.node_indices().contains(&idx));
    assert!(graph.node_weight(idx).is_none());
    let next = graph.add_node(node("b"));
    assert_ne!(next, idx);
    assert_eq!(graph.node_indices(), vec![next]);
}

#[test]
fn removing_a_node_drops_its_edges() {
    let mut graph: ForceGraph<Node<(), Pos>, u32> = ForceGraph::new();
    let a = graph.add_node(node("a"));
    let b = graph.add_node(node("b"));
    let c = graph.add_node(node("c"));
    let ab = graph.add_edge(a, b, 1).unwrap();
    let bc = graph.add_edge(b, c, 2).unwrap();
    let ca = graph.add_edge(c, a, 3).unwrap();
    assert_eq!(graph.edge_count(), 3);
    graph.remove_node(b);
    assert_eq!(graph.node_count(), 2);
    assert_eq!(graph.edge_count(), 1);
    assert_eq!(graph.edge_indices(), vec![ca]);
    assert!(graph.edge_endpoints(ab).is_none());
    assert!(graph.edge_endpoints(bc).is_none());
    assert_eq!(graph.edge_endpoints(ca), Some((c, a)));
    assert_eq!(graph.edge_weight(ca), Some(&3));
}

#[test]
fn edge_to_missing_node_is_refused() {
    let mut graph: ForceGraph<Node<(), Pos>, ()> = ForceGraph::new();
    let a = graph.add_node(node("a"));
    assert_eq!(graph.add_edge(a, 7, ()), None);
    let b = graph.add_node(node("b"));
    graph.remove_node(b);
    assert_eq!(graph.add_edge(a, b, ()), None);
    assert_eq!(graph.edge_count(), 0);
}

#[test]
fn stale_indices_give_none() {
    let mut graph: ForceGraph<Node<(), Pos>, ()> = ForceGraph::new();
    let a = graph.add_node(node("a"));
    let b = graph.add_node(node("b"));
    let e = graph.add_edge(a, b, ()).unwrap();
    assert_eq!(graph.remove_edge(e), Some(()));
    assert_eq!(graph.remove_edge(e), None);
    assert!(graph.remove_node(a).is_some());
    assert!(graph.remove_node(a).is_none());
    assert!(graph.remove_node(99).is_none());
    assert!(!graph.contains_node(a));
    assert!(graph.contains_node(b));
    assert!(!graph.set_node_weight(a, node("z")));
}

#[test]
fn neighbors_follow_edge_order() {
    let mut graph: ForceGraph<Node<(), Pos>, ()> = ForceGraph::new();
    let a = graph.add_node(node("a"));
    let b = graph.add_node(node("b"));
    let c = graph.add_node(node("c"));
    graph.add_edge(c, a, ());
    graph.add_edge(a, b, ());
    graph.add_edge(b, c, ());
    assert_eq!(graph.neighbors(a), vec![c, b]);
    assert_eq!(graph.neighbors(b), vec![a, c]);
    assert_eq!(graph.neighbors(c), vec![a, b]);
}

#[test]
fn clear_empties_without_reusing_indices() {
    let mut graph: ForceGraph<Node<(), Pos>, ()> = ForceGraph::new();
    let a = graph.add_node(node("a"));
    let b = graph.add_node(node("b"));
    graph.add_edge(a, b, ());
    graph.clear();
    assert_eq!(graph.node_count(), 0);
    assert_eq!(graph.edge_count(), 0);
    assert_eq!(graph.node_bound(), 2);
    let c = graph.add_node(node("c"));
    assert_eq!(c, 2);
}

#[test]
fn set_node_weight_replaces_the_node() {
    let mut graph: ForceGraph<Node<(), Pos>, ()> = ForceGraph::new();
    let a = graph.add_node(node("a"));
    assert!(graph.set_node_weight(a, node("renamed")));
    assert_eq!(graph.node_weight(a).unwrap().name, "renamed");
    assert!(graph.set_motion(a, [1.0, 2.0, 3.0], [4.0, 5.0, 6.0]));
    let n = graph.node_weight(a).unwrap();
    assert_eq!(n.location, [1.0, 2.0, 3.0]);
    assert_eq!(n.velocity, [4.0, 5.0, 6.0]);
    assert_eq!(n.name, "renamed");
}
