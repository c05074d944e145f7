use bevy::math::Vec3;
use bevy_bezier_splines::components::{BezierPathNode, NodeType};
use bevy_bezier_splines::interaction::{
    apply_axis_drag, collect_axis_handles, AxisDrag, AxisHandleDragState, AxisHandleGrabbed,
    AxisHandleReleased, DragAxis, HandleKind,
};

fn axis_unit(axis: DragAxis) -> Vec3 {
    match axis {
        DragAxis::X => Vec3::X,
        DragAxis::Y => Vec3::Y,
        DragAxis::Z => Vec3::Z,
    }
}

fn mirror(v: Vec3) -> Vec3 {
    -v
}

fn oppose(direction: Vec3, length_of: Vec3) -> Vec3 {
    -direction.normalize_or_zero() * length_of.length()
}

#[test]
fn nine_axis_handles_per_node_in_order() {
    let nodes = vec![
        (11u64, Vec3::new(1.0, 0.0, 0.0), Vec3::new(0.0, 0.0, -1.0), Vec3::new(0.0, 0.0, 1.0)),
        (22u64, Vec3::new(5.0, 2.0, 0.0), Vec3::new(-1.0, 0.0, 0.0), Vec3::new(2.0, 0.0, 0.0)),
    ];
    let arrow_length = 0.25;
    let picks = collect_axis_handles(&nodes, |p: Vec3, h: Vec3| p + h, |p: Vec3, axis: DragAxis| {
        p + axis_unit(axis) * arrow_length
    });
    assert_eq!(picks.len(), 18);
    let kinds = [HandleKind::Center, HandleKind::Incoming, HandleKind::Outgoing];
    let axes = [DragAxis::X, DragAxis::Y, DragAxis::Z];
    for (i, (entity, center, incoming, outgoing)) in nodes.iter().enumerate() {
        let points = [*center, *center + *incoming, *center + *outgoing];
        for j in 0..3 {
            for a in 0..3 {
                let pick = &picks[9 * i + 3 * j + a];
                assert_eq!(pick.entity, *entity);
                assert_eq!(pick.kind, kinds[j]);
                assert_eq!(pick.axis, axes[a]);
                assert_eq!(pick.anchor, points[j]);
                assert_eq!(pick.tip, points[j] + axis_unit(axes[a]) * arrow_length);
            }
        }
    }
    assert_eq!(picks[14].anchor, Vec3::new(4.0, 2.0, 0.0));
    assert_eq!(picks[17].tip, Vec3::new(7.0, 2.0, 0.25));
}

#[test]
fn no_axis_handles_without_nodes() {
    let nodes: Vec<(u64, Vec3, Vec3, Vec3)> = Vec::new();
    let picks = collect_axis_handles(&nodes, |p: Vec3, h: Vec3| p + h, |p: Vec3, _axis: DragAxis| p);
    assert!(picks.is_empty());
}

fn sample_drag(entity: u64) -> AxisDrag<Vec3, f32> {
    AxisDrag {
        entity,
        kind: HandleKind::Outgoing,
        axis: DragAxis::Z,
        anchor: Vec3::new(1.0, 2.0, 3.0),
        grab_offset: 0.5,
    }
}

#[test]
fn drag_session_grab_then_release() {
    let mut state: AxisHandleDragState<Vec3, f32> = AxisHandleDragState::default();
    assert!(state.dragging.is_none());
    assert!(state.accepts_pick(true, true));
    assert!(!state.accepts_pick(false, true));
    assert!(!state.accepts_pick(true, false));

    let grabbed = state.grab(sample_drag(42));
    assert_eq!(grabbed, AxisHandleGrabbed { entity: 42, kind: HandleKind::Outgoing, axis: DragAxis::Z });
    assert!(!state.accepts_pick(true, true));

    assert!(state.drag_in_progress(false).is_none());
    let drag = state.drag_in_progress(true).unwrap();
    assert_eq!(drag.entity, 42);
    assert_eq!(drag.grab_offset, 0.5);

    assert_eq!(state.release(false), None);
    assert!(state.dragging.is_some());
    assert_eq!(state.release(true), Some(AxisHandleReleased { entity: 42 }));
    assert!(state.dragging.is_none());
    assert_eq!(state.release(true), None);
    assert!(state.accepts_pick(true, true));
}

#[test]
fn dragging_the_center_moves_the_node() {
    let mut node = BezierPathNode {
        incoming: Vec3::new(0.0, 0.0, -1.0),
        outgoing: Vec3::new(0.0, 0.0, 1.0),
        node_type: NodeType::Symmetric,
    };
    let mut position = Vec3::new(1.0, 1.0, 1.0);
    apply_axis_drag(
        &mut node,
        &mut position,
        HandleKind::Center,
        Vec3::new(4.0, 1.0, 1.0),
        |a: Vec3, b: Vec3| a - b,
        mirror,
        oppose,
    );
    assert_eq!(position, Vec3::new(4.0, 1.0, 1.0));
    assert_eq!(node.incoming, Vec3::new(0.0, 0.0, -1.0));
    assert_eq!(node.outgoing, Vec3::new(0.0, 0.0, 1.0));
}

#[test]
fn dragging_a_handle_sets_its_offset_and_updates_the_other() {
    let mut node = BezierPathNode {
        incoming: Vec3::new(0.0, 0.0, -1.0),
        outgoing: Vec3::new(0.0, 0.0, 1.0),
        node_type: NodeType::Symmetric,
    };
    let mut position = Vec3::new(1.0, 0.0, 0.0);
    apply_axis_drag(
        &mut node,
        &mut position,
        HandleKind::Incoming,
        Vec3::new(1.0, 0.0, -3.0),
        |a: Vec3, b: Vec3| a - b,
        mirror,
        oppose,
    );
    assert_eq!(position, Vec3::new(1.0, 0.0, 0.0));
    assert_eq!(node.incoming, Vec3::new(0.0, 0.0, -3.0));
    assert_eq!(node.outgoing, Vec3::new(0.0, 0.0, 3.0));

    node.node_type = NodeType::Connected;
    apply_axis_drag(
        &mut node,
        &mut position,
        HandleKind::Outgoing,
        Vec3::new(3.0, 0.0, 0.0),
        |a: Vec3, b: Vec3| a - b,
        mirror,
        oppose,
    );
    assert_eq!(node.outgoing, Vec3::new(2.0, 0.0, 0.0));
    assert_eq!(node.incoming, Vec3::new(-3.0, 0.0, 0.0));
}
