//! What the spline gizmo draws, decided from the path's settings.
//!
//! Drawing itself needs a renderer; this module decides which curve segments,
//! waypoint markers, handle lines and connections are drawn, and between which
//! nodes.

use vstd::prelude::*;

use crate::components::{BezierPath, GizmoDrawMode};
use crate::snapshot::{is_snapshot_of, is_segment_of, segment_count, segment_end, segment_pairs, SnapshotModel};

verus! {

/// Which control handles of one waypoint are drawn.
#[derive(Debug, Clone, Copy, PartialEq, Eq, Structural)]
pub struct HandleVisibility {
    /// The incoming handle line and tip are drawn.
    pub incoming: bool,
    /// The outgoing handle line and tip are drawn.
    pub outgoing: bool,
}

/// The gizmo elements of one path, by node index.
#[derive(Debug, Clone, PartialEq, Eq)]
pub struct SplineGizmoPlan {
    /// Segments whose sampled curve is drawn, as `(start node, end node)`.
    pub curve_segments: Vec<(usize, usize)>,
    /// Whether every waypoint gets a marker.
    pub waypoints: bool,
    /// The handles drawn at each node; empty unless handles are drawn.
    pub handles: Vec<HandleVisibility>,
    /// Straight connections drawn between waypoints, as `(from, to)`.
    pub connections: Vec<(usize, usize)>,
}

/// Handle `i` of `n` is drawn when it has an inward neighbour segment (it is
/// not the free end of an open path) and its offset is not zero.
pub open spec fn handle_visibility(i: int, n: nat, closed: bool, set: (bool, bool)) -> HandleVisibility {
    HandleVisibility {
        incoming: (i > 0 || closed) && set.0,
        outgoing: (i < n - 1 || closed) && set.1,
    }
}

/// `plan` is the gizmo plan of `path` over nodes whose handles are non-zero
/// as `handles_set` says (one entry per node, at least two nodes).
pub open spec fn is_gizmo_plan_of(
    plan: SplineGizmoPlan,
    path: BezierPath,
    handles_set: Seq<(bool, bool)>,
) -> bool {
    let n = handles_set.len();
    let mode = path.gizmo_draw_mode;
    &&& plan.curve_segments@ == (if mode.draws_spline() {
        segment_pairs(n, path.closed)
    } else {
        Seq::empty()
    })
    &&& plan.waypoints == mode.draws_waypoints()
    &&& plan.handles@.len() == (if mode.draws_handles() { n } else { 0 })
    &&& forall|i: int|
        0 <= i < plan.handles@.len() ==> #[trigger] plan.handles@[i] == handle_visibility(
            i,
            n,
            path.closed,
            handles_set[i],
        )
    &&& plan.connections@ == (if mode.draws_waypoints() {
        segment_pairs(n, path.closed)
    } else {
        Seq::empty()
    })
}

/// The `(start, end)` node indices of every segment of a path over `n` nodes.
fn segment_pair_list(n: usize, closed: bool) -> (pairs: Vec<(usize, usize)>)
    requires
        n >= 2,
    ensures
        pairs@ == segment_pairs(n as nat, closed),
{
    let count = if closed {
        n
    } else {
        n - 1
    };
    let mut pairs: Vec<(usize, usize)> = Vec::with_capacity(count);
    for i in 0..count
        invariant
            n >= 2,
            count == segment_count(n as nat, closed),
            pairs@ == segment_pairs(n as nat, closed).subrange(0, i as int),
    {
        pairs.push((i, (i + 1) % n));
        assert(pairs@ =~= segment_pairs(n as nat, closed).subrange(0, i + 1));
    }
    assert(pairs@ =~= segment_pairs(n as nat, closed));
    pairs
}

/// Decides what the spline gizmo of `path` draws.
///
/// `handles_set[i]` tells whether node `i`'s incoming and outgoing offsets are
/// non-zero. Returns `None` when there are fewer than two nodes, in which
/// case nothing is drawn for the path.
pub fn plan_spline_gizmos(path: &BezierPath, handles_set: &[(bool, bool)]) -> (plan: Option<
    SplineGizmoPlan,
>)
    ensures
        plan is None <==> handles_set@.len() < 2,
        plan matches Some(p) ==> is_gizmo_plan_of(p, *path, handles_set@),
{
    let n = handles_set.len();
    if n < 2 {
        return None;
    }
    let draw_spline = match path.gizmo_draw_mode {
        GizmoDrawMode::Complete | GizmoDrawMode::SplineOnly => true,
        _ => false,
    };
    let draw_waypoints = match path.gizmo_draw_mode {
        GizmoDrawMode::Complete | GizmoDrawMode::WaypointOnly => true,
        _ => false,
    };
    let draw_handles = match path.gizmo_draw_mode {
        GizmoDrawMode::Complete => true,
        _ => false,
    };
    let curve_segments = if draw_spline {
        segment_pair_list(n, path.closed)
    } else {
        Vec::new()
    };
    let mut handles: Vec<HandleVisibility> = Vec::new();
    let mut connections: Vec<(usize, usize)> = Vec::new();
    if draw_handles {
        let last = n - 1;
        for i in 0..n
            invariant
                n == handles_set@.len(),
                last == n - 1,
                handles@.len() == i,
                forall|k: int|
                    0 <= k < i ==> #[trigger] handles@[k] == handle_visibility(
                        k,
                        n as nat,
                        path.closed,
                        handles_set@[k],
                    ),
        {
            let (incoming_set, outgoing_set) = handles_set[i];
            let draw_incoming = i > 0 || path.closed;
            let draw_outgoing = i < last || path.closed;
            handles.push(
                HandleVisibility {
                    incoming: draw_incoming && incoming_set,
                    outgoing: draw_outgoing && outgoing_set,
                },
            );
        }
    }
    if draw_waypoints {
        connections = segment_pair_list(n, path.closed);
    }
    Some(SplineGizmoPlan { curve_segments, waypoints: draw_waypoints, handles, connections })
}

/// `pairs` joins node `k` to node `k + 1`, and, on a closed path, the last
/// node back to node 0: `n - 1` pairs on an open path over `n` nodes, `n` on a
/// closed one.
pub open spec fn joins_consecutive_nodes(pairs: Seq<(usize, usize)>, n: int, closed: bool) -> bool {
    &&& pairs.len() == (if closed { n } else { n - 1 })
    &&& forall|k: int|
        #![trigger pairs[k]]
        0 <= k < pairs.len() ==> pairs[k].0 == k && pairs[k].1 == (if k + 1 < n {
            k + 1
        } else {
            0
        })
}

/// Facts about the pairs of one segment list, for the laws below.
proof fn lemma_segment_pairs_join_consecutive_nodes(pairs: Vec<(usize, usize)>, n: nat, closed: bool)
    requires
        n >= 2,
        pairs@ == segment_pairs(n, closed),
    ensures
        joins_consecutive_nodes(pairs@, n as int, closed),
{
    assert(pairs.len() == pairs@.len());
    assert(pairs@.len() == (if closed { n as int } else { n - 1 }));
    assert forall|k: int| #![trigger pairs@[k]] 0 <= k < pairs@.len() implies pairs@[k].0 == k
        && pairs@[k].1 == (if k + 1 < n {
        k + 1
    } else {
        0
    }) by {
        assert(pairs@[k] == segment_pairs(n, closed)[k]);
        assert(k <= usize::MAX);
        if k + 1 < n {
            vstd::arithmetic::div_mod::lemma_small_mod((k + 1) as nat, n);
        } else {
            vstd::arithmetic::div_mod::lemma_mod_self_0(n as int);
        }
    }

    assert(forall|k: int|
        0 <= k < pairs@.len() ==> #[trigger] pairs@[k].0 == k && pairs@[k].1 == (if k + 1 < n as int {
            k + 1
        } else {
            0
        }));
}

/// What the gizmo draws, by draw mode, in terms of `closed` and the nodes'
/// handle offsets (over `n >= 2` nodes, `handles_set[i]` telling whether node
/// `i`'s incoming and outgoing offsets are non-zero):
/// - the curve is drawn in `Complete` and `SplineOnly` mode, one piece per
///   segment, joining consecutive nodes and closing the loop on a closed path;
/// - waypoint markers and connections are drawn in `Complete` and
///   `WaypointOnly` mode only, whether or not the path is closed, the
///   connections joining the same nodes as the curve;
/// - control handles are drawn in `Complete` mode only: node `i`'s incoming
///   handle exactly when its incoming offset is non-zero and the node is not
///   the first of an open path, its outgoing handle exactly when its outgoing
///   offset is non-zero and the node is not the last of an open path, each
///   independent of the other handle.
pub proof fn lemma_gizmo_plan_by_mode(
    plan: SplineGizmoPlan,
    path: BezierPath,
    handles_set: Seq<(bool, bool)>,
)
    requires
        handles_set.len() >= 2,
        is_gizmo_plan_of(plan, path, handles_set),
    ensures
        plan.waypoints <==> (path.gizmo_draw_mode is Complete || path.gizmo_draw_mode is WaypointOnly),
        path.gizmo_draw_mode is Complete || path.gizmo_draw_mode is WaypointOnly ==> joins_consecutive_nodes(
            plan.connections@,
            handles_set.len() as int,
            path.closed,
        ),
        path.gizmo_draw_mode is SplineOnly || path.gizmo_draw_mode is Hidden ==> plan.connections@.len() == 0,
        path.gizmo_draw_mode is Complete || path.gizmo_draw_mode is SplineOnly ==> joins_consecutive_nodes(
            plan.curve_segments@,
            handles_set.len() as int,
            path.closed,
        ),
        path.gizmo_draw_mode is WaypointOnly || path.gizmo_draw_mode is Hidden ==> plan.curve_segments@.len() == 0,
        !(path.gizmo_draw_mode is Complete) ==> plan.handles@.len() == 0,
        path.gizmo_draw_mode is Complete ==> plan.handles@.len() == handles_set.len(),
        path.gizmo_draw_mode is Complete ==> forall|i: int|
            0 <= i < handles_set.len() ==> (#[trigger] plan.handles@[i].incoming <==> (i > 0 || path.closed)
                && handles_set[i].0),
        path.gizmo_draw_mode is Complete ==> forall|i: int|
            0 <= i < handles_set.len() ==> (#[trigger] plan.handles@[i].outgoing <==> (i + 1
                < handles_set.len() || path.closed) && handles_set[i].1),
{
    let n = handles_set.len();
    let mode = path.gizmo_draw_mode;
    if mode is Complete || mode is WaypointOnly {
        lemma_segment_pairs_join_consecutive_nodes(plan.connections, n, path.closed);
    }
    if mode is Complete || mode is SplineOnly {
        lemma_segment_pairs_join_consecutive_nodes(plan.curve_segments, n, path.closed);
    }
    if mode is Complete {
        assert forall|i: int| 0 <= i < n implies (#[trigger] plan.handles@[i].incoming <==> (i > 0
            || path.closed) && handles_set[i].0) by {
            assert(plan.handles@[i] == handle_visibility(i, n, path.closed, handles_set[i]));
        }
        assert forall|i: int| 0 <= i < n implies (#[trigger] plan.handles@[i].outgoing <==> (i + 1 < n
            || path.closed) && handles_set[i].1) by {
            assert(plan.handles@[i] == handle_visibility(i, n, path.closed, handles_set[i]));
        }
    }
}

/// Only the `Complete` mode draws control handles: in every other mode the
/// plan holds no handle, while `WaypointOnly` still marks the waypoints and
/// connects them.
pub proof fn lemma_only_complete_mode_draws_handles(
    plan: SplineGizmoPlan,
    path: BezierPath,
    handles_set: Seq<(bool, bool)>,
)
    requires
        handles_set.len() >= 2,
        is_gizmo_plan_of(plan, path, handles_set),
    ensures
        !(path.gizmo_draw_mode is Complete) ==> plan.handles@.len() == 0,
        path.gizmo_draw_mode is WaypointOnly ==> plan.waypoints && plan.curve_segments@.len() == 0
            && plan.connections@ == segment_pairs(handles_set.len(), path.closed),
{
}

/// The ends of an open path show no free handle: the first node's incoming
/// handle and the last node's outgoing handle are never drawn; on a closed
/// path every non-zero handle is drawn.
pub proof fn lemma_open_path_ends_hide_free_handles(
    plan: SplineGizmoPlan,
    path: BezierPath,
    handles_set: Seq<(bool, bool)>,
)
    requires
        handles_set.len() >= 2,
        is_gizmo_plan_of(plan, path, handles_set),
        path.gizmo_draw_mode.draws_handles(),
    ensures
        !path.closed ==> !plan.handles@[0].incoming,
        !path.closed ==> !plan.handles@[handles_set.len() - 1].outgoing,
        path.closed ==> forall|i: int|
            0 <= i < handles_set.len() ==> #[trigger] plan.handles@[i] == (HandleVisibility {
                incoming: handles_set[i].0,
                outgoing: handles_set[i].1,
            }),
{
    assert(plan.handles@[0] == handle_visibility(0, handles_set.len(), path.closed, handles_set[0]));
    let last = handles_set.len() - 1;
    assert(plan.handles@[last] == handle_visibility(
        last,
        handles_set.len(),
        path.closed,
        handles_set[last],
    ));
}

/// The curve the gizmo draws is the snapshot's curve: for the same path and
/// the same nodes, curve segment `k` runs between the nodes at which snapshot
/// segment `k` starts and ends, and there are as many of each.
pub proof fn lemma_gizmo_curve_matches_snapshot<P, F: Fn(P, P) -> P>(
    plan: SplineGizmoPlan,
    snap: SnapshotModel<P>,
    path: BezierPath,
    nodes: Seq<(P, P, P)>,
    handles_set: Seq<(bool, bool)>,
    offset: F,
)
    requires
        nodes.len() >= 2,
        handles_set.len() == nodes.len(),
        is_gizmo_plan_of(plan, path, handles_set),
        is_snapshot_of(snap, path, nodes, offset),
        path.gizmo_draw_mode.draws_spline(),
    ensures
        plan.curve_segments@.len() == snap.segments.len(),
        forall|k: int|
            0 <= k < snap.segments.len() ==> #[trigger] snap.segments[k].p0 == nodes[plan.curve_segments@[k].0 as int].0
                && snap.segments[k].p3 == nodes[plan.curve_segments@[k].1 as int].0,
{
    assert forall|k: int| 0 <= k < snap.segments.len() implies #[trigger] snap.segments[k].p0
        == nodes[plan.curve_segments@[k].0 as int].0 && snap.segments[k].p3
        == nodes[plan.curve_segments@[k].1 as int].0 by {
        let n = nodes.len();
        assert(is_segment_of(snap.segments[k], nodes, k, offset));
        assert(0 <= segment_end(k, n) < n) by {
            vstd::arithmetic::div_mod::lemma_mod_bound(k + 1, n as int);
        }
        assert(plan.curve_segments.len() == plan.curve_segments@.len());
        assert(plan.curve_segments@[k] == segment_pairs(n, path.closed)[k]);
        assert(segment_end(k, n) <= usize::MAX) by {
            if !path.closed {
                if k + 1 < n {
                    vstd::arithmetic::div_mod::lemma_small_mod((k + 1) as nat, n);
                } else {
                    vstd::arithmetic::div_mod::lemma_mod_self_0(n as int);
                }
            }
        }
    }
}

} // verus!
