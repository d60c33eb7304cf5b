// Scenario tests for the interaction state machine driving the graph.

use graph_editor::config::{PullForceConfig, PushForceConfig};
use graph_editor::geometry::Vec2i;
use graph_editor::graph::{EdgeId, Graph, NodeId};
use graph_editor::input::{ConnectData, InputState, MoveData};
use graph_editor::node::NodeHighlight;

#[test]
fn add_click_creates_single_node() {
    let mut g = Graph::new();
    let mut st = InputState::Add;
    st.on_left_click(&mut g, Vec2i::new(100, 100));
    assert_eq!(g.node_count(), 1);
    assert_eq!(g.edge_count(), 0);
    assert_eq!(g.node_position(NodeId { index: 0 }), Some(Vec2i::new(100, 100)));
}

#[test]
fn connect_two_clicks_creates_edge_and_restores_highlight() {
    let mut g = Graph::new();
    let a = g.add_node(Vec2i::new(0, 0));
    let b = g.add_node(Vec2i::new(300, 0));
    let mut st = InputState::Connect(ConnectData { from_node: None });

    st.on_left_click(&mut g, Vec2i::new(0, 0));
    assert_eq!(g.node_highlight(a), Some(NodeHighlight::Highlighted));

    st.on_left_click(&mut g, Vec2i::new(300, 0));
    assert_eq!(g.edge_count(), 1);
    let (from, to) = g.edge_endpoints(EdgeId { index: 0 }).unwrap();
    assert_eq!(from, a);
    assert_eq!(to, b);
    assert_eq!(g.node_highlight(a), Some(NodeHighlight::Normal));
}

#[test]
fn step_pushes_pair_apart_symmetrically() {
    let mut g = Graph::new();
    let a = g.add_node(Vec2i::new(0, 0));
    let b = g.add_node(Vec2i::new(10, 0));
    let push = PushForceConfig::new(1000, 150);
    let pull = PullForceConfig::new(100, 500);
    g.step(1000, &push, &pull);

    let pa = g.node_position(a).unwrap();
    let pb = g.node_position(b).unwrap();
    // magnitude 1000 * (150 - 10) / 150 = 933, along the x axis
    assert_eq!(pa, Vec2i::new(-933, 0));
    assert_eq!(pb, Vec2i::new(10 + 933, 0));
    let dx = pb.x - pa.x;
    assert!(dx > 10);
    // displacement of a is exactly the negation of displacement of b
    assert_eq!(pa.x - 0, -(pb.x - 10));
    assert_eq!(pa.y - 0, -(pb.y - 0));
}

#[test]
fn remove_click_on_edge_midpoint_removes_only_the_edge() {
    let mut g = Graph::new();
    let a = g.add_node(Vec2i::new(0, 0));
    let b = g.add_node(Vec2i::new(300, 0));
    g.add_edge(a, b);
    assert_eq!(g.edge_count(), 1);

    let mut st = InputState::Remove;
    st.on_left_click(&mut g, Vec2i::new(150, 0));
    assert_eq!(g.edge_count(), 0);
    assert_eq!(g.node_count(), 2);
}

#[test]
fn remove_node_cascades_to_incident_edges() {
    let mut g = Graph::new();
    let a = g.add_node(Vec2i::new(0, 0));
    let b = g.add_node(Vec2i::new(300, 0));
    let c = g.add_node(Vec2i::new(0, 300));
    g.add_edge(a, b);
    g.add_edge(b, c);
    g.add_edge(a, c);
    assert_eq!(g.edge_count(), 3);

    g.remove_node(b);
    assert_eq!(g.node_count(), 2);
    assert_eq!(g.edge_count(), 1);
    let (from, to) = g.edge_endpoints(EdgeId { index: 2 }).unwrap();
    assert_eq!(from, a);
    assert_eq!(to, c);
    // the removed node's former position no longer matches any node
    assert_eq!(g.get_node_at(Vec2i::new(300, 0)), None);
    assert_eq!(g.node_position(b), None);
}

#[test]
fn remove_click_on_empty_space_is_a_no_op() {
    let mut g = Graph::new();
    g.add_node(Vec2i::new(0, 0));
    let mut st = InputState::Remove;
    st.on_left_click(&mut g, Vec2i::new(500, 500));
    assert_eq!(g.node_count(), 1);
    assert_eq!(g.edge_count(), 0);
}

#[test]
fn add_edge_with_stale_endpoint_is_a_no_op() {
    let mut g = Graph::new();
    let a = g.add_node(Vec2i::new(0, 0));
    let b = g.add_node(Vec2i::new(300, 0));
    g.remove_node(b);
    g.add_edge(a, b);
    g.add_edge(b, a);
    assert_eq!(g.edge_count(), 0);
}

#[test]
fn drag_moves_node_and_suspends_forces() {
    let mut g = Graph::new();
    let a = g.add_node(Vec2i::new(0, 0));
    let mut st = InputState::Move(MoveData { dragged: None });

    st.on_drag(&mut g, Vec2i::new(5, 5));
    assert_eq!(g.node_position(a), Some(Vec2i::new(5, 5)));
    assert_eq!(g.node_ignores_force(a), Some(true));

    st.on_drag(&mut g, Vec2i::new(40, 40));
    assert_eq!(g.node_position(a), Some(Vec2i::new(40, 40)));

    // a dragged node is not moved by the simulation
    let push = PushForceConfig::new(1000, 150);
    let pull = PullForceConfig::new(100, 500);
    g.add_node(Vec2i::new(41, 40));
    g.step(1000, &push, &pull);
    assert_eq!(g.node_position(a), Some(Vec2i::new(40, 40)));

    st.on_drag_end(&mut g);
    assert_eq!(g.node_ignores_force(a), Some(false));
}

#[test]
fn cancel_pending_clears_selection_and_highlight() {
    let mut g = Graph::new();
    let a = g.add_node(Vec2i::new(0, 0));
    let mut st = InputState::Connect(ConnectData { from_node: None });
    st.on_left_click(&mut g, Vec2i::new(0, 0));
    assert_eq!(g.node_highlight(a), Some(NodeHighlight::Highlighted));

    st.cancel_pending(&mut g);
    assert_eq!(g.node_highlight(a), Some(NodeHighlight::Normal));

    // a later click in Connect mode starts from a clean selection
    st.on_left_click(&mut g, Vec2i::new(500, 500));
    assert_eq!(g.edge_count(), 0);
}

#[test]
fn zero_elapsed_time_moves_nothing() {
    let mut g = Graph::new();
    let a = g.add_node(Vec2i::new(0, 0));
    let b = g.add_node(Vec2i::new(10, 0));
    let push = PushForceConfig::new(1000, 150);
    let pull = PullForceConfig::new(100, 500);
    g.step(0, &push, &pull);
    assert_eq!(g.node_position(a), Some(Vec2i::new(0, 0)));
    assert_eq!(g.node_position(b), Some(Vec2i::new(10, 0)));
}

#[test]
fn soft_disable_gates_pull_and_reenabling_restores_behavior() {
    let push = PushForceConfig::new(1000, 150);
    let pull = PullForceConfig::new(100, 500);

    // Disabled edge: no pull, no push (the nodes are beyond push range).
    let mut g = Graph::new();
    let a = g.add_node(Vec2i::new(0, 0));
    let b = g.add_node(Vec2i::new(300, 0));
    g.add_edge(a, b);
    let e = EdgeId { index: 0 };
    g.set_edge_enabled(e, false);
    assert_eq!(g.edge_enabled(e), Some(false));
    g.step(1000, &push, &pull);
    assert_eq!(g.node_position(a), Some(Vec2i::new(0, 0)));
    assert_eq!(g.node_position(b), Some(Vec2i::new(300, 0)));

    // Re-enabled, it behaves like one that was never disabled.
    g.set_edge_enabled(e, true);
    assert_eq!(g.edge_enabled(e), Some(true));
    let mut fresh = Graph::new();
    let fa = fresh.add_node(Vec2i::new(0, 0));
    let fb = fresh.add_node(Vec2i::new(300, 0));
    fresh.add_edge(fa, fb);
    g.step(1000, &push, &pull);
    fresh.step(1000, &push, &pull);
    assert_eq!(g.node_position(a), fresh.node_position(fa));
    assert_eq!(g.node_position(b), fresh.node_position(fb));
}

#[test]
fn input_state_equality_compares_modes_only() {
    assert!(InputState::Add == InputState::Add);
    assert!(InputState::Add != InputState::Remove);
    assert!(
        InputState::Move(MoveData { dragged: None })
            == InputState::Move(MoveData { dragged: Some(NodeId { index: 3 }) })
    );
    assert!(
        InputState::Connect(ConnectData { from_node: None })
            == InputState::Connect(ConnectData { from_node: Some(NodeId { index: 0 }) })
    );
}
