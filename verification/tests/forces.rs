// Tests for the force formulas and the geometric hit tests.

use graph_editor::config::{PullForceConfig, PushForceConfig};
use graph_editor::edge::Edge;
use graph_editor::geometry::{distance, Vec2i};
use graph_editor::graph::NodeId;
use graph_editor::node::Node;

#[test]
fn distance_is_the_floor_of_the_euclidean_distance() {
    assert_eq!(distance(Vec2i::new(0, 0), Vec2i::new(3, 4)), 5);
    assert_eq!(distance(Vec2i::new(0, 0), Vec2i::new(1, 1)), 1);
    assert_eq!(distance(Vec2i::new(-3, 0), Vec2i::new(3, 0)), 6);
}

#[test]
fn push_force_is_zero_at_and_beyond_the_configured_distance() {
    let conf = PushForceConfig::new(1000, 150);
    let mut n = Node::new(Vec2i::new(0, 0));
    n.push_away_from_point(Vec2i::new(200, 0), &conf, 7);
    assert_eq!(n.current_force, Vec2i::new(0, 0));
    n.push_away_from_point(Vec2i::new(150, 0), &conf, 7);
    assert_eq!(n.current_force, Vec2i::new(0, 0));
}

#[test]
fn push_force_inside_range_has_the_exact_linear_falloff() {
    let conf = PushForceConfig::new(1000, 150);
    let mut n = Node::new(Vec2i::new(0, 0));
    n.push_away_from_point(Vec2i::new(140, 0), &conf, 7);
    // 1000 * (150 - 140) / 150 = 66, pointing away from the other point
    assert_eq!(n.current_force, Vec2i::new(-66, 0));
}

#[test]
fn coincident_nodes_get_a_full_strength_axis_push() {
    let conf = PushForceConfig::new(1000, 150);
    for tie in 0u64..8 {
        let mut n = Node::new(Vec2i::new(5, 5));
        n.push_away_from_point(Vec2i::new(5, 5), &conf, tie);
        let f = n.current_force;
        assert_eq!(f.x.abs() + f.y.abs(), 1000);
        assert!(f.x == 0 || f.y == 0);
    }
}

#[test]
fn pull_force_is_zero_below_min_distance_and_exact_at_twice_it() {
    let conf = PullForceConfig::new(100, 500);
    let near = Edge::new(NodeId { index: 0 }, NodeId { index: 1 }, Vec2i::new(0, 0), Vec2i::new(
        50,
        0,
    ));
    assert_eq!(near.calculate_pull_force(&conf), Vec2i::new(0, 0));

    let twice = Edge::new(NodeId { index: 0 }, NodeId { index: 1 }, Vec2i::new(0, 0), Vec2i::new(
        200,
        0,
    ));
    // (200 / 100 - 1) * 500 = 500, toward the `to` endpoint
    assert_eq!(twice.calculate_pull_force(&conf), Vec2i::new(500, 0));
}

#[test]
fn disabled_edge_pulls_nothing_and_reenabling_restores_it_exactly() {
    let conf = PullForceConfig::new(100, 500);
    let e = Edge::new(NodeId { index: 0 }, NodeId { index: 1 }, Vec2i::new(0, 0), Vec2i::new(
        200,
        0,
    ));
    let mut e2 = e;
    e2.disable_edge();
    assert_eq!(e2.calculate_pull_force(&conf), Vec2i::new(0, 0));
    assert!(e2.is_point_in_shape(Vec2i::new(100, 0)));
    e2.enable_edge();
    assert_eq!(e2, e);
    assert_eq!(e2.calculate_pull_force(&conf), Vec2i::new(500, 0));
}

#[test]
fn edge_hit_test_is_symmetric_in_the_endpoints() {
    let a = Vec2i::new(0, 0);
    let b = Vec2i::new(100, 40);
    let ab = Edge::new(NodeId { index: 0 }, NodeId { index: 1 }, a, b);
    let ba = Edge::new(NodeId { index: 1 }, NodeId { index: 0 }, b, a);
    for p in [Vec2i::new(50, 20), Vec2i::new(50, 21), Vec2i::new(50, 30), Vec2i::new(200, 80)] {
        assert_eq!(ab.is_point_in_shape(p), ba.is_point_in_shape(p));
    }
    assert!(ab.is_point_in_shape(Vec2i::new(50, 20)));
}

#[test]
fn edge_hit_test_rejects_points_off_the_segment_ends() {
    let e = Edge::new(NodeId { index: 0 }, NodeId { index: 1 }, Vec2i::new(0, 0), Vec2i::new(
        100,
        0,
    ));
    // on the carrier line but outside the bounding rectangle
    assert!(!e.is_point_in_shape(Vec2i::new(150, 0)));
    assert!(e.is_point_in_shape(Vec2i::new(100, 0)));
    // close to the stroke but above it
    assert!(e.is_point_in_shape(Vec2i::new(50, 0)));
    assert!(!e.is_point_in_shape(Vec2i::new(50, 4)));
}

#[test]
fn node_contains_its_own_center_and_its_rim() {
    let n = Node::new(Vec2i::new(30, -40));
    assert!(n.contains(Vec2i::new(30, -40)));
    assert!(n.contains(Vec2i::new(50, -40)));
    assert!(!n.contains(Vec2i::new(51, -40)));
}

#[test]
fn consume_force_integrates_and_resets() {
    let mut n = Node::new(Vec2i::new(10, 10));
    n.add_force(Vec2i::new(300, -500));
    n.consume_force(500);
    // half a second: half the force
    assert_eq!(n.position, Vec2i::new(10 + 150, 10 - 250));
    assert_eq!(n.current_force, Vec2i::new(0, 0));
}

#[test]
fn ignored_force_is_discarded_not_applied() {
    let mut n = Node::new(Vec2i::new(10, 10));
    n.set_ignore_force(true);
    n.add_force(Vec2i::new(300, -500));
    n.consume_force(1000);
    assert_eq!(n.position, Vec2i::new(10, 10));
    assert_eq!(n.current_force, Vec2i::new(0, 0));
}
