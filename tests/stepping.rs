use fdg_sim::{apply_step, apply_transform, Dimensions, ForceGraph, Node};

type Pos = [f32; 3];
type Graph = ForceGraph<Node<(), Pos>, ()>;

fn node_at(name: &str, x: f32, y: f32) -> Node<(), Pos> {
    Node::new(name.to_string(), (), [x, y, 0.0], [0.0; 3])
}

fn location(graph: &Graph, i: usize) -> Pos {
    graph.node_weight(i).unwrap().location
}

/// Moves each free node halfway to the mean of its neighbours, as they
/// stood before the tick.
fn halfway(graph: &Graph, i: usize) -> (Pos, Pos) {
    let here = graph.node_weight(i).unwrap().location;
    let ns = graph.neighbors(i);
    let mut sum = [0.0f32; 3];
    for n in &ns {
        let p = graph.node_weight(*n).unwrap().location;
        for k in 0..3 {
            sum[k] += p[k];
        }
    }
    let mut out = here;
    if !ns.is_empty() {
        for k in 0..3 {
            out[k] = (here[k] + sum[k] / ns.len() as f32) / 2.0;
        }
    }
    (out, [out[0] - here[0], out[1] - here[1], out[2] - here[2]])
}

#[test]
fn locked_node_stays_put() {
    let mut graph: Graph = ForceGraph::new();
    let a = graph.add_node(node_at("a", -5.0, 0.0));
    let mut locked = node_at("b", 5.0, 0.0);
    locked.locked = true;
    locked.velocity = [1.0, 1.0, 1.0];
    let b = graph.add_node(locked);
    graph.add_edge(a, b, ());
    apply_step(&mut graph, |g: &Graph, i: usize| halfway(g, i));
    assert_eq!(location(&graph, b), [5.0, 0.0, 0.0]);
    assert_eq!(graph.node_weight(b).unwrap().velocity, [1.0, 1.0, 1.0]);
    assert_eq!(location(&graph, a), [0.0, 0.0, 0.0]);
    assert_eq!(graph.node_weight(a).unwrap().velocity, [5.0, 0.0, 0.0]);
}

#[test]
fn step_reads_positions_from_before_the_tick() {
    let mut graph: Graph = ForceGraph::new();
    let a = graph.add_node(node_at("a", 0.0, 0.0));
    let b = graph.add_node(node_at("b", 4.0, 0.0));
    graph.add_edge(a, b, ());
    apply_step(&mut graph, |g: &Graph, i: usize| halfway(g, i));
    // Both moved against the other's old place: they meet in the middle.
    assert_eq!(location(&graph, a), [2.0, 0.0, 0.0]);
    assert_eq!(location(&graph, b), [2.0, 0.0, 0.0]);
}

#[test]
fn same_start_same_outcome() {
    let build = || {
        let mut graph: Graph = ForceGraph::new();
        let a = graph.add_node(node_at("a", 1.0, 2.0));
        let b = graph.add_node(node_at("b", -3.0, 0.5));
        let c = graph.add_node(node_at("c", 0.25, -7.0));
        graph.add_edge(a, b, ());
        graph.add_edge(b, c, ());
        graph
    };
    let mut one = build();
    let mut two = build();
    for _ in 0..5 {
        apply_step(&mut one, |g: &Graph, i: usize| halfway(g, i));
        apply_step(&mut two, |g: &Graph, i: usize| halfway(g, i));
    }
    for i in one.node_indices() {
        assert_eq!(location(&one, i), location(&two, i));
    }
}

#[test]
fn transform_moves_locked_nodes_and_keeps_velocity() {
    let mut graph: Graph = ForceGraph::new();
    let mut locked = node_at("a", 1.0, 1.0);
    locked.locked = true;
    locked.velocity = [0.5, 0.5, 0.0];
    let a = graph.add_node(locked);
    let b = graph.add_node(node_at("b", -1.0, 3.0));
    apply_transform(&mut graph, |g: &Graph, i: usize| {
        let p = g.node_weight(i).unwrap().location;
        [p[0] * 2.0, p[1] * 2.0, p[2] * 2.0]
    });
    assert_eq!(location(&graph, a), [2.0, 2.0, 0.0]);
    assert_eq!(graph.node_weight(a).unwrap().velocity, [0.5, 0.5, 0.0]);
    assert_eq!(location(&graph, b), [-2.0, 6.0, 0.0]);
}

#[test]
fn removed_nodes_are_left_alone_by_a_step() {
    let mut graph: Graph = ForceGraph::new();
    let a = graph.add_node(node_at("a", 0.0, 0.0));
    let b = graph.add_node(node_at("b", 1.0, 0.0));
    graph.remove_node(a);
    apply_step(&mut graph, |_g: &Graph, _i: usize| ([9.0; 3], [1.0; 3]));
    assert!(graph.node_weight(a).is_none());
    assert_eq!(location(&graph, b), [9.0; 3]);
    assert_eq!(graph.node_count(), 1);
}

#[test]
fn dimensions_count_axes() {
    assert_eq!(Dimensions::Two.axes(), 2);
    assert_eq!(Dimensions::Three.axes(), 3);
    assert!(Dimensions::Two.is_flat());
    assert!(!Dimensions::Three.is_flat());
}
