use bevy::math::Vec3;
use bevy_bezier_splines::components::BezierPath;
use bevy_bezier_splines::jackdaw::JackdawSplineRegistry;
use bevy_bezier_splines::snapshot::{build_snapshot_from_node_data, BezierSplineSnapshot};

type Snapshot = BezierSplineSnapshot<Vec3>;

fn same(a: &Snapshot, b: &Snapshot) -> bool {
    a == b
}

fn snapshot_at(x: f32) -> Option<Snapshot> {
    let nodes = vec![
        (Vec3::new(x, 0.0, 0.0), Vec3::new(0.0, 0.0, -0.5), Vec3::new(0.0, 0.0, 0.5)),
        (Vec3::new(1.0, 0.0, 0.0), Vec3::new(0.0, 0.0, -0.5), Vec3::new(0.0, 0.0, 0.5)),
    ];
    build_snapshot_from_node_data(&BezierPath::default(), &nodes, |a: Vec3, b: Vec3| a + b)
}

#[test]
fn sync_populates_registry_and_emits_message() {
    let mut registry: JackdawSplineRegistry<Vec3> = JackdawSplineRegistry::default();
    assert!(registry.needs_sync(7, false, false, false, false));
    let message = registry.publish(7, snapshot_at(-1.0), same).unwrap();
    assert_eq!(message.entity, 7);
    assert_eq!(message.snapshot, snapshot_at(-1.0));
    assert_eq!(registry.snapshots.get(&7), snapshot_at(-1.0).as_ref());
    assert!(!registry.needs_sync(7, false, false, false, false));
    assert!(registry.needs_sync(7, true, false, false, false));
    assert!(registry.needs_sync(7, false, true, false, false));
    assert!(registry.needs_sync(7, false, false, true, false));
    assert!(registry.needs_sync(7, false, false, false, true));
}

#[test]
fn moved_node_resyncs_and_announces_new_snapshot() {
    let mut registry: JackdawSplineRegistry<Vec3> = JackdawSplineRegistry::default();
    registry.publish(7, snapshot_at(-1.0), same);
    // Only a node's placement changed: the sync still runs and sees the new waypoint.
    assert!(registry.needs_sync(7, false, false, false, true));
    let message = registry.publish(7, snapshot_at(-0.5), same).unwrap();
    assert_eq!(message.snapshot, snapshot_at(-0.5));
    assert_eq!(registry.snapshots.get(&7), snapshot_at(-0.5).as_ref());
}

#[test]
fn republishing_an_equal_snapshot_is_silent() {
    let mut registry: JackdawSplineRegistry<Vec3> = JackdawSplineRegistry::default();
    assert!(registry.publish(7, snapshot_at(-1.0), same).is_some());
    assert!(registry.publish(7, snapshot_at(-1.0), same).is_none());
    assert_eq!(registry.snapshots.len(), 1);
}

#[test]
fn changed_snapshot_replaces_cached_one() {
    let mut registry: JackdawSplineRegistry<Vec3> = JackdawSplineRegistry::default();
    registry.publish(7, snapshot_at(-1.0), same);
    registry.publish(8, snapshot_at(-2.0), same);
    let message = registry.publish(7, snapshot_at(-0.75), same).unwrap();
    assert_eq!(message.snapshot, snapshot_at(-0.75));
    assert_eq!(registry.snapshots.get(&7), snapshot_at(-0.75).as_ref());
    assert_eq!(registry.snapshots.get(&8), snapshot_at(-2.0).as_ref());
}

#[test]
fn invalid_path_removes_cached_snapshot() {
    let mut registry: JackdawSplineRegistry<Vec3> = JackdawSplineRegistry::default();
    registry.publish(7, snapshot_at(-1.0), same);
    let message = registry.publish(7, None, same).unwrap();
    assert_eq!(message.entity, 7);
    assert!(message.snapshot.is_none());
    assert!(!registry.snapshots.contains_key(&7));
    assert!(registry.publish(7, None, same).is_none());
}

#[test]
fn removing_marker_cleans_registry() {
    let mut registry: JackdawSplineRegistry<Vec3> = JackdawSplineRegistry::default();
    registry.publish(7, snapshot_at(-1.0), same);
    let message = registry.remove_marker(7).unwrap();
    assert_eq!(message.entity, 7);
    assert!(message.snapshot.is_none());
    assert!(!registry.snapshots.contains_key(&7));
    assert!(registry.remove_marker(7).is_none());
}
