use bevy::math::Vec3;
use bevy_bezier_splines::components::{BezierPath, BezierPathNode, GizmoDrawMode, NodeType};
use bevy_bezier_splines::snapshot::{build_snapshot_from_node_data, BezierSplineSnapshot};

fn offset(point: Vec3, handle: Vec3) -> Vec3 {
    point + handle
}

fn mirror(v: Vec3) -> Vec3 {
    -v
}

fn oppose(direction: Vec3, length_of: Vec3) -> Vec3 {
    -direction.normalize_or_zero() * length_of.length()
}

#[test]
fn builds_open_snapshot_segments() {
    let path = BezierPath {
        closed: false,
        subdivisions: 0,
        ..Default::default()
    };
    let nodes = vec![
        (
            Vec3::new(0.0, 0.0, 0.0),
            Vec3::new(-1.0, 0.0, 0.0),
            Vec3::new(1.0, 0.0, 0.0),
        ),
        (
            Vec3::new(2.0, 0.0, 0.0),
            Vec3::new(-0.5, 0.0, 0.0),
            Vec3::new(0.5, 0.0, 0.0),
        ),
        (
            Vec3::new(4.0, 0.0, 0.0),
            Vec3::new(-1.0, 0.0, 0.0),
            Vec3::new(1.0, 0.0, 0.0),
        ),
    ];

    let snapshot = build_snapshot_from_node_data(&path, &nodes, offset).unwrap();
    assert!(!snapshot.closed);
    assert_eq!(snapshot.subdivisions, 1);
    assert_eq!(snapshot.segments.len(), 2);
    assert_eq!(snapshot.segments[0].p0, Vec3::new(0.0, 0.0, 0.0));
    assert_eq!(snapshot.segments[0].p1, Vec3::new(1.0, 0.0, 0.0));
    assert_eq!(snapshot.segments[0].p2, Vec3::new(1.5, 0.0, 0.0));
    assert_eq!(snapshot.segments[0].p3, Vec3::new(2.0, 0.0, 0.0));
}

#[test]
fn builds_closed_snapshot_segments() {
    let path = BezierPath {
        closed: true,
        ..Default::default()
    };
    let nodes = vec![
        (
            Vec3::new(0.0, 0.0, 0.0),
            Vec3::ZERO,
            Vec3::new(1.0, 0.0, 0.0),
        ),
        (
            Vec3::new(2.0, 0.0, 0.0),
            Vec3::new(-1.0, 0.0, 0.0),
            Vec3::ZERO,
        ),
    ];

    let snapshot = build_snapshot_from_node_data(&path, &nodes, offset).unwrap();
    assert!(snapshot.closed);
    assert_eq!(snapshot.segments.len(), 2);
    assert_eq!(snapshot.segments[1].p0, Vec3::new(2.0, 0.0, 0.0));
    assert_eq!(snapshot.segments[1].p3, Vec3::new(0.0, 0.0, 0.0));
}

#[test]
fn none_for_too_few_nodes() {
    let path = BezierPath::default();
    let nodes = vec![(Vec3::ZERO, Vec3::ZERO, Vec3::ZERO)];
    assert!(build_snapshot_from_node_data(&path, &nodes, offset).is_none());
}

#[test]
fn node_type_does_not_affect_snapshot_shape() {
    let mut node = BezierPathNode {
        incoming: Vec3::new(-1.0, 0.0, 0.0),
        outgoing: Vec3::new(1.0, 0.0, 0.0),
        node_type: NodeType::Connected,
    };
    node.update_from_incoming(mirror, oppose);
    let path = BezierPath::default();
    let nodes = vec![
        (Vec3::ZERO, node.incoming, node.outgoing),
        (
            Vec3::new(2.0, 0.0, 0.0),
            Vec3::new(-1.0, 0.0, 0.0),
            Vec3::ZERO,
        ),
    ];
    assert!(build_snapshot_from_node_data(&path, &nodes, offset).is_some());
}

#[test]
fn default_path_settings() {
    let path = BezierPath::default();
    assert_eq!(path.subdivisions, 30);
    assert!(!path.closed);
    assert_eq!(path.gizmo_draw_mode, GizmoDrawMode::Complete);
    assert_eq!(path.effective_subdivisions(), 30);
    let coarse = BezierPath { subdivisions: 0, ..Default::default() };
    assert_eq!(coarse.effective_subdivisions(), 1);
}

#[test]
fn closed_snapshot_is_continuous_and_returns_to_start() {
    let path = BezierPath { closed: true, subdivisions: 7, ..Default::default() };
    let nodes = vec![
        (Vec3::new(0.0, 0.0, 0.0), Vec3::new(0.0, 0.0, -1.0), Vec3::new(0.0, 0.0, 1.0)),
        (Vec3::new(3.0, 0.0, 0.0), Vec3::new(-1.0, 0.0, 0.0), Vec3::new(1.0, 0.0, 0.0)),
        (Vec3::new(3.0, 0.0, 3.0), Vec3::new(0.0, 1.0, 0.0), Vec3::new(0.0, -1.0, 0.0)),
    ];
    let snapshot = build_snapshot_from_node_data(&path, &nodes, offset).unwrap();
    assert_eq!(snapshot.subdivisions, 7);
    assert_eq!(snapshot.segments.len(), 3);
    for i in 0..2 {
        assert_eq!(snapshot.segments[i].p3, snapshot.segments[i + 1].p0);
    }
    assert_eq!(snapshot.segments[2].p3, snapshot.segments[0].p0);
    // The closing segment leaves node 2 by its outgoing handle and enters node 0 by its incoming one.
    assert_eq!(snapshot.segments[2].p1, Vec3::new(3.0, -1.0, 3.0));
    assert_eq!(snapshot.segments[2].p2, Vec3::new(0.0, 0.0, -1.0));
}

#[test]
fn open_snapshot_of_two_nodes_has_one_segment() {
    let path = BezierPath::default();
    let nodes = vec![
        (Vec3::ZERO, Vec3::ZERO, Vec3::new(0.0, 0.0, 0.5)),
        (Vec3::new(1.0, 0.0, 0.0), Vec3::new(0.0, 0.0, -0.5), Vec3::ZERO),
    ];
    let snapshot = build_snapshot_from_node_data(&path, &nodes, offset).unwrap();
    assert_eq!(snapshot.segments.len(), 1);
    assert_eq!(snapshot.segments[0].p1, Vec3::new(0.0, 0.0, 0.5));
    assert_eq!(snapshot.segments[0].p2, Vec3::new(1.0, 0.0, -0.5));
    assert!(!snapshot.is_empty());
    assert_eq!(snapshot.subdivisions, 30);
}

#[test]
fn empty_snapshot_reports_empty() {
    let snapshot: BezierSplineSnapshot<Vec3> = BezierSplineSnapshot {
        closed: false,
        subdivisions: 1,
        segments: Vec::new(),
    };
    assert!(snapshot.is_empty());
    let copy = snapshot.clone();
    assert_eq!(copy, snapshot);
}

#[test]
fn no_snapshot_without_nodes() {
    let path = BezierPath { closed: true, ..Default::default() };
    let nodes: Vec<(Vec3, Vec3, Vec3)> = Vec::new();
    assert!(build_snapshot_from_node_data(&path, &nodes, offset).is_none());
}

#[test]
fn connected_node_reorients_the_opposite_handle() {
    let mut node = BezierPathNode {
        incoming: Vec3::new(0.0, 0.0, 2.0),
        outgoing: Vec3::new(3.0, 0.0, 0.0),
        node_type: NodeType::Connected,
    };
    node.update_from_incoming(mirror, oppose);
    assert_eq!(node.incoming, Vec3::new(0.0, 0.0, 2.0));
    assert_eq!(node.outgoing, Vec3::new(0.0, 0.0, -3.0));
}

#[test]
fn symmetric_node_mirrors_the_opposite_handle() {
    let mut node = BezierPathNode {
        incoming: Vec3::new(1.0, 2.0, 3.0),
        outgoing: Vec3::new(5.0, 0.0, 0.0),
        node_type: NodeType::Symmetric,
    };
    node.update_from_outgoing(mirror, oppose);
    assert_eq!(node.outgoing, Vec3::new(5.0, 0.0, 0.0));
    assert_eq!(node.incoming, Vec3::new(-5.0, 0.0, 0.0));
}

#[test]
fn broken_node_leaves_the_opposite_handle() {
    let mut node = BezierPathNode {
        incoming: Vec3::new(1.0, 2.0, 3.0),
        outgoing: Vec3::new(5.0, 0.0, 0.0),
        node_type: NodeType::Broken,
    };
    node.update_from_incoming(mirror, oppose);
    node.update_from_outgoing(mirror, oppose);
    assert_eq!(node.incoming, Vec3::new(1.0, 2.0, 3.0));
    assert_eq!(node.outgoing, Vec3::new(5.0, 0.0, 0.0));
    assert_eq!(NodeType::default(), NodeType::Connected);
    assert_eq!(GizmoDrawMode::default(), GizmoDrawMode::Complete);
}

#[test]
fn reversed_open_path_gives_reversed_segments() {
    let path = BezierPath::default();
    let nodes = vec![
        (Vec3::new(0.0, 0.0, 0.0), Vec3::new(0.0, 0.0, -1.0), Vec3::new(0.0, 0.0, 1.0)),
        (Vec3::new(2.0, 0.0, 1.0), Vec3::new(-1.0, 0.0, 0.0), Vec3::new(1.0, 0.0, 0.0)),
        (Vec3::new(4.0, 1.0, 0.0), Vec3::new(0.0, -1.0, 0.0), Vec3::new(0.0, 1.0, 0.0)),
    ];
    let reversed: Vec<(Vec3, Vec3, Vec3)> =
        nodes.iter().rev().map(|&(c, incoming, outgoing)| (c, outgoing, incoming)).collect();
    let forward = build_snapshot_from_node_data(&path, &nodes, offset).unwrap();
    let backward = build_snapshot_from_node_data(&path, &reversed, offset).unwrap();
    assert_eq!(backward.segments.len(), forward.segments.len());
    let len = forward.segments.len();
    for k in 0..len {
        let f = forward.segments[len - 1 - k];
        let b = backward.segments[k];
        assert_eq!((b.p0, b.p1, b.p2, b.p3), (f.p3, f.p2, f.p1, f.p0));
    }
}

#[test]
fn repeated_handle_update_changes_nothing() {
    for node_type in [NodeType::Symmetric, NodeType::Connected, NodeType::Broken] {
        let mut node = BezierPathNode {
            incoming: Vec3::new(0.0, 3.0, 4.0),
            outgoing: Vec3::new(2.0, 0.0, 0.0),
            node_type,
        };
        node.update_from_incoming(mirror, oppose);
        let once = node;
        node.update_from_incoming(mirror, oppose);
        assert_eq!(node, once);
    }
}

#[test]
fn handle_round_trip_restores_incoming() {
    for node_type in [NodeType::Symmetric, NodeType::Connected, NodeType::Broken] {
        let start = BezierPathNode {
            incoming: Vec3::new(0.0, 0.0, -2.0),
            outgoing: Vec3::new(4.0, 0.0, 0.0),
            node_type,
        };
        let mut node = start;
        node.update_from_incoming(mirror, oppose);
        let forward = node;
        node.update_from_outgoing(mirror, oppose);
        assert_eq!(node.incoming, start.incoming);
        assert_eq!(node.outgoing, forward.outgoing);
    }
}
