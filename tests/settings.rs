use fdg_sim::{Center, Dictionary, Force, ForceGraph, ForceKind, Node, Simulation, SimulationParameters, Dimensions, Value};

fn fr_dict() -> Dictionary<f32> {
    let mut dict = Dictionary::new();
    dict.insert("Scale".to_string(), Value::Number { value: 45.0, min: 1.0, max: 200.0 });
    dict.insert("Cooloff Factor".to_string(), Value::Number { value: 0.975, min: 0.0, max: 1.0 });
    dict.insert("Gravity".to_string(), Value::Bool(false));
    dict
}

#[test]
fn entries_keep_insertion_order() {
    let dict = fr_dict();
    assert_eq!(dict.len(), 3);
    assert_eq!(dict.entry(0).0, "Scale");
    assert_eq!(dict.entry(1).0, "Cooloff Factor");
    assert_eq!(dict.entry(2).0, "Gravity");
    assert_eq!(dict.position("Gravity"), Some(2));
    assert_eq!(dict.position("Missing"), None);
}

#[test]
fn insert_on_existing_label_replaces_in_place() {
    let mut dict = fr_dict();
    let old = dict.insert("Scale".to_string(), Value::Number { value: 10.0, min: 1.0, max: 200.0 });
    assert_eq!(old.unwrap().number(), Some(45.0));
    assert_eq!(dict.len(), 3);
    assert_eq!(dict.entry(0).0, "Scale");
    assert_eq!(dict.get("Scale").unwrap().number(), Some(10.0));
}

#[test]
fn setters_respect_the_kind_of_entry() {
    let mut dict = fr_dict();
    assert!(dict.set_number("Scale", 60.0));
    assert_eq!(dict.get("Scale").unwrap().number(), Some(60.0));
    assert_eq!(dict.get("Scale").unwrap().range(), Some((1.0, 200.0)));
    assert!(!dict.set_number("Gravity", 1.0));
    assert_eq!(dict.get("Gravity").unwrap().bool(), Some(false));
    assert!(dict.set_bool("Gravity", true));
    assert_eq!(dict.get("Gravity").unwrap().bool(), Some(true));
    assert!(!dict.set_bool("Scale", true));
    assert!(!dict.set_number("Missing", 1.0));
    assert!(dict.get("Missing").is_none());
    assert_eq!(dict.get("Gravity").unwrap().number(), None);
    assert_eq!(dict.get("Scale").unwrap().bool(), None);
}

#[test]
fn reset_restores_the_starting_settings() {
    let mut force: Force<f32> = Force::new(
        ForceKind::FruchtermanReingold,
        "Fruchterman-Reingold (1991)".to_string(),
        None,
        true,
        fr_dict(),
    );
    assert!(force.dict_mut().set_number("Scale", 3.0));
    assert!(force.dict_mut().set_bool("Gravity", true));
    assert_eq!(force.dict().get("Scale").unwrap().number(), Some(3.0));
    force.reset();
    assert_eq!(force.dict().get("Scale").unwrap().number(), Some(45.0));
    assert_eq!(force.dict().get("Gravity").unwrap().bool(), Some(false));
    assert_eq!(force.dict().len(), 3);
    assert_eq!(force.name(), "Fruchterman-Reingold (1991)");
    assert!(force.continuous());
    assert_eq!(force.info(), None);
    assert_eq!(force.kind(), ForceKind::FruchtermanReingold);
}

#[test]
fn forces_compare_by_name() {
    let a: Force<f32> = Force::new(ForceKind::Handy, "Handy".to_string(), None, true, fr_dict());
    let b: Force<f32> = Force::new(ForceKind::Scale, "Handy".to_string(), Some("x".to_string()), false, Dictionary::new());
    let c: Force<f32> = Force::new(ForceKind::Handy, "Other".to_string(), None, true, fr_dict());
    assert!(a == b);
    assert!(a != c);
}

#[test]
fn center_force_is_one_shot_without_settings() {
    let force: Force<f32> = Center.force();
    assert_eq!(force.name(), "Center");
    assert_eq!(force.kind(), ForceKind::Center);
    assert!(!force.continuous());
    assert_eq!(force.dict().len(), 0);
    assert!(force.info().is_some());
}

#[test]
fn simulation_mutations_and_visits() {
    let params = SimulationParameters::new(200.0f32, Dimensions::Two, Center.force());
    let mut sim: Simulation<(), [f32; 3], (), f32> = Simulation::new(ForceGraph::new(), params);
    let a = sim.add_node(Node::new("a".to_string(), (), [0.0; 3], [0.0; 3]));
    let b = sim.add_node(Node::new("b".to_string(), (), [1.0; 3], [0.0; 3]));
    assert_eq!(sim.add_edge(a, b, ()), Some(0));
    let count = std::cell::Cell::new(0);
    sim.visit_nodes(&|_n: &Node<(), [f32; 3]>| count.set(count.get() + 1));
    assert_eq!(count.get(), 2);
    let edges = std::cell::Cell::new(0);
    sim.visit_edges(&|x: &Node<(), [f32; 3]>, y: &Node<(), [f32; 3]>| {
        assert_eq!(x.name, "a");
        assert_eq!(y.name, "b");
        edges.set(edges.get() + 1)
    });
    assert_eq!(edges.get(), 1);
    assert!(sim.remove_node(a).is_some());
    assert_eq!(sim.get_graph().edge_count(), 0);
    assert_eq!(sim.parameters().dimensions, Dimensions::Two);
    sim.clear();
    assert_eq!(sim.get_graph().node_count(), 0);
}

#[test]
fn value_setters_only_touch_their_own_kind() {
    let mut n: Value<f32> = Value::Number { value: 1.5, min: 0.1, max: 2.0 };
    assert!(n.set_number(0.5));
    assert_eq!(n.number(), Some(0.5));
    assert_eq!(n.range(), Some((0.1, 2.0)));
    assert!(!n.set_bool(true));
    assert_eq!(n.number(), Some(0.5));
    let mut b: Value<f32> = Value::Bool(false);
    assert!(b.set_bool(true));
    assert_eq!(b.bool(), Some(true));
    assert!(!b.set_number(3.0));
    assert_eq!(b.bool(), Some(true));
    assert_eq!(b.range(), None);
}

#[test]
fn simulation_graph_and_parameters_can_be_replaced() {
    let params = SimulationParameters::new(10.0f32, Dimensions::Three, Center.force());
    let mut sim: Simulation<u8, [f32; 3], (), f32> = Simulation::new(ForceGraph::new(), params);
    let mut other: ForceGraph<Node<u8, [f32; 3]>, ()> = ForceGraph::new();
    other.add_node(Node::new("x".to_string(), 7, [1.0; 3], [0.0; 3]));
    sim.set_graph(other);
    assert_eq!(sim.get_graph().node_count(), 1);
    assert_eq!(sim.get_graph().node_weight(0).unwrap().data, 7);
    sim.parameters_mut().node_start_size = 50.0;
    assert_eq!(sim.parameters().node_start_size, 50.0);
    let replacement: Force<f32> = Force::new(ForceKind::Scale, "Scale".to_string(), None, false, Dictionary::new());
    sim.parameters_mut().set_force(replacement);
    assert_eq!(sim.parameters().force().name(), "Scale");
    assert_eq!(sim.remove_edge(0), None);
    assert!(sim.remove_node(5).is_none());
    assert!(sim.get_graph_mut().set_node_weight(0, Node::new("y".to_string(), 8, [0.0; 3], [0.0; 3])));
    assert_eq!(sim.get_graph().node_weight(0).unwrap().name, "y");
}
