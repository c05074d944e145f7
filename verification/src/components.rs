//! Spline components that carry no geometry.

use vstd::prelude::*;

verus! {

/// Controls how the two control handles of a node relate to each other.
#[derive(Debug, Default, Clone, Copy, PartialEq, Eq, Structural)]
pub enum NodeType {
    /// Handles are kept mirror-symmetric (same direction **and** magnitude).
    Symmetric,
    /// Handles point in opposite directions but may have different magnitudes.
    #[default]
    Connected,
    /// Handles are fully independent.
    Broken,
}

/// Controls which parts of the spline gizmo are rendered.
#[derive(Debug, Default, Clone, Copy, PartialEq, Eq, Structural)]
pub enum GizmoDrawMode {
    /// Draw the spline curve and the control handles.
    #[default]
    Complete,
    /// Draw only the spline curve.
    SplineOnly,
    /// Draw only the waypoint markers and dashed connections.
    WaypointOnly,
    /// Draw nothing.
    Hidden,
}

impl GizmoDrawMode {
    /// The curve itself is drawn in `Complete` and `SplineOnly` mode.
    pub open spec fn draws_spline(self) -> bool {
        self is Complete || self is SplineOnly
    }

    /// Waypoint markers and the connections between waypoints are drawn in
    /// `Complete` and `WaypointOnly` mode.
    pub open spec fn draws_waypoints(self) -> bool {
        self is Complete || self is WaypointOnly
    }

    /// Control handles are drawn in `Complete` mode only.
    pub open spec fn draws_handles(self) -> bool {
        self is Complete
    }
}

/// A cubic Bezier spline path.
///
/// Its waypoints are the path's child nodes, visited in child order.
#[derive(Debug, Clone, Copy, PartialEq, Eq, Structural)]
pub struct BezierPath {
    /// Number of line segments used to approximate each cubic segment.
    pub subdivisions: u32,
    /// Whether the last node connects back to the first node.
    pub closed: bool,
    /// Controls which visual elements are rendered.
    pub gizmo_draw_mode: GizmoDrawMode,
}

/// The subdivision count actually used: never below one.
pub open spec fn effective_subdivisions(subdivisions: u32) -> u32 {
    if subdivisions == 0 { 1 } else { subdivisions }
}

impl BezierPath {
    /// The subdivision count used for sampling: `subdivisions`, but at least one.
    pub fn effective_subdivisions(&self) -> (n: u32)
        ensures
            n == effective_subdivisions(self.subdivisions),
            n >= 1,
            self.subdivisions >= 1 ==> n == self.subdivisions,
    {
        if self.subdivisions == 0 {
            1
        } else {
            self.subdivisions
        }
    }
}

impl Default for BezierPath {
    fn default() -> (path: Self)
        ensures
            path.subdivisions == 30,
            !path.closed,
            path.gizmo_draw_mode == GizmoDrawMode::Complete,
    {
        BezierPath { subdivisions: 30, closed: false, gizmo_draw_mode: GizmoDrawMode::Complete }
    }
}

/// A waypoint (control node) of a path.
///
/// The node's position is its entity's world position; `incoming` and
/// `outgoing` are offsets of the two control handles from that position.
#[derive(Debug, Clone, Copy, PartialEq)]
pub struct BezierPathNode<V> {
    /// Offset of the incoming control handle.
    pub incoming: V,
    /// Offset of the outgoing control handle.
    pub outgoing: V,
    /// How the two handles constrain each other.
    pub node_type: NodeType,
}

/// The handle `follower` after the handle `leader` was edited, on a node of
/// type `node_type`: a symmetric node mirrors the leader (`mirror(leader)`), a
/// connected node points the follower against the leader while keeping its
/// own length (`oppose(leader, follower)`), a broken node leaves it alone.
pub open spec fn follows<V, M: Fn(V) -> V, O: Fn(V, V) -> V>(
    node_type: NodeType,
    leader: V,
    follower: V,
    updated: V,
    mirror: M,
    oppose: O,
) -> bool {
    match node_type {
        NodeType::Symmetric => call_ensures(mirror, (leader,), updated),
        NodeType::Connected => call_ensures(oppose, (leader, follower), updated),
        NodeType::Broken => updated == follower,
    }
}

/// `updated` is `node` after its incoming handle was edited and the outgoing
/// handle followed it.
pub open spec fn updated_from_incoming<V, M: Fn(V) -> V, O: Fn(V, V) -> V>(
    node: BezierPathNode<V>,
    updated: BezierPathNode<V>,
    mirror: M,
    oppose: O,
) -> bool {
    &&& updated.incoming == node.incoming
    &&& updated.node_type == node.node_type
    &&& follows(node.node_type, node.incoming, node.outgoing, updated.outgoing, mirror, oppose)
}

/// `updated` is `node` after its outgoing handle was edited and the incoming
/// handle followed it.
pub open spec fn updated_from_outgoing<V, M: Fn(V) -> V, O: Fn(V, V) -> V>(
    node: BezierPathNode<V>,
    updated: BezierPathNode<V>,
    mirror: M,
    oppose: O,
) -> bool {
    &&& updated.outgoing == node.outgoing
    &&& updated.node_type == node.node_type
    &&& follows(node.node_type, node.outgoing, node.incoming, updated.incoming, mirror, oppose)
}

/// What a handle update does, by node type: the edited handle and the type
/// stay; the other handle of a symmetric node becomes the mirror of the
/// edited one, that of a connected node is opposed to the edited one with its
/// own length kept, and that of a broken node is left alone.
pub proof fn lemma_handle_update_by_node_type<V, M: Fn(V) -> V, O: Fn(V, V) -> V>(
    node: BezierPathNode<V>,
    updated: BezierPathNode<V>,
    mirror: M,
    oppose: O,
    from_incoming: bool,
)
    requires
        from_incoming ==> updated_from_incoming(node, updated, mirror, oppose),
        !from_incoming ==> updated_from_outgoing(node, updated, mirror, oppose),
    ensures
        updated.node_type == node.node_type,
        from_incoming ==> updated.incoming == node.incoming,
        from_incoming && node.node_type is Symmetric ==> call_ensures(mirror, (node.incoming,), updated.outgoing),
        from_incoming && node.node_type is Connected ==> call_ensures(
            oppose,
            (node.incoming, node.outgoing),
            updated.outgoing,
        ),
        from_incoming && node.node_type is Broken ==> updated.outgoing == node.outgoing,
        !from_incoming ==> updated.outgoing == node.outgoing,
        !from_incoming && node.node_type is Symmetric ==> call_ensures(mirror, (node.outgoing,), updated.incoming),
        !from_incoming && node.node_type is Connected ==> call_ensures(
            oppose,
            (node.outgoing, node.incoming),
            updated.incoming,
        ),
        !from_incoming && node.node_type is Broken ==> updated.incoming == node.incoming,
{
}

/// `mirror` gives one result per argument.
pub open spec fn mirror_is_deterministic<V, M: Fn(V) -> V>(mirror: M) -> bool {
    forall|v: V, r: V, q: V|
        #[trigger] call_ensures(mirror, (v,), r) && #[trigger] call_ensures(mirror, (v,), q) ==> r == q
}

/// `oppose` gives one result per pair of arguments.
pub open spec fn oppose_is_deterministic<V, O: Fn(V, V) -> V>(oppose: O) -> bool {
    forall|d: V, l: V, r: V, q: V|
        #[trigger] call_ensures(oppose, (d, l), r) && #[trigger] call_ensures(oppose, (d, l), q) ==> r == q
}

/// Opposing a handle to `d` twice gives what opposing it once gave: the
/// length of an opposed handle is the length it was given.
pub open spec fn oppose_is_stable<V, O: Fn(V, V) -> V>(oppose: O) -> bool {
    forall|d: V, l: V, r: V, q: V|
        #[trigger] call_ensures(oppose, (d, l), r) && #[trigger] call_ensures(oppose, (d, r), q) ==> q == r
}

/// Mirroring twice gives back the handle.
pub open spec fn mirror_is_involution<V, M: Fn(V) -> V>(mirror: M) -> bool {
    forall|v: V, r: V, q: V|
        #[trigger] call_ensures(mirror, (v,), r) && #[trigger] call_ensures(mirror, (r,), q) ==> q == v
}

/// Opposing to `d` with the length of `l`, and then opposing `d` to that
/// result with its own length, gives back `d`.
pub open spec fn oppose_restores<V, O: Fn(V, V) -> V>(oppose: O, d: V, l: V) -> bool {
    forall|r: V, q: V|
        #[trigger] call_ensures(oppose, (d, l), r) && #[trigger] call_ensures(oppose, (r, d), q) ==> q == d
}

/// Updating from the incoming handle a second time changes nothing, when
/// `mirror` and `oppose` are deterministic and an opposed handle keeps its
/// length when opposed again; the same holds for the outgoing handle.
pub proof fn lemma_handle_update_is_idempotent<V, M: Fn(V) -> V, O: Fn(V, V) -> V>(
    node: BezierPathNode<V>,
    once: BezierPathNode<V>,
    twice: BezierPathNode<V>,
    mirror: M,
    oppose: O,
    from_incoming: bool,
)
    requires
        mirror_is_deterministic(mirror),
        oppose_is_deterministic(oppose),
        oppose_is_stable(oppose),
        from_incoming ==> updated_from_incoming(node, once, mirror, oppose)
            && updated_from_incoming(once, twice, mirror, oppose),
        !from_incoming ==> updated_from_outgoing(node, once, mirror, oppose)
            && updated_from_outgoing(once, twice, mirror, oppose),
    ensures
        twice == once,
{
    if from_incoming {
        match node.node_type {
            NodeType::Symmetric => {
                assert(call_ensures(mirror, (node.incoming,), once.outgoing));
                assert(call_ensures(mirror, (node.incoming,), twice.outgoing));
            },
            NodeType::Connected => {
                assert(call_ensures(oppose, (node.incoming, node.outgoing), once.outgoing));
                assert(call_ensures(oppose, (node.incoming, once.outgoing), twice.outgoing));
            },
            NodeType::Broken => {},
        }
    } else {
        match node.node_type {
            NodeType::Symmetric => {
                assert(call_ensures(mirror, (node.outgoing,), once.incoming));
                assert(call_ensures(mirror, (node.outgoing,), twice.incoming));
            },
            NodeType::Connected => {
                assert(call_ensures(oppose, (node.outgoing, node.incoming), once.incoming));
                assert(call_ensures(oppose, (node.outgoing, once.incoming), twice.incoming));
            },
            NodeType::Broken => {},
        }
    }
}

/// Editing the incoming handle and then letting the incoming handle follow
/// the outgoing one restores the incoming handle, and keeps the outgoing one
/// that the first update set: for a symmetric node when `mirror` is an
/// involution, for a connected node when opposing twice gives back the
/// incoming handle (true of non-zero handles), and for a broken node always.
pub proof fn lemma_handle_round_trip<V, M: Fn(V) -> V, O: Fn(V, V) -> V>(
    node: BezierPathNode<V>,
    forward: BezierPathNode<V>,
    back: BezierPathNode<V>,
    mirror: M,
    oppose: O,
)
    requires
        node.node_type is Symmetric ==> mirror_is_involution(mirror),
        node.node_type is Connected ==> oppose_restores(oppose, node.incoming, node.outgoing),
        updated_from_incoming(node, forward, mirror, oppose),
        updated_from_outgoing(forward, back, mirror, oppose),
    ensures
        back.incoming == node.incoming,
        back.outgoing == forward.outgoing,
        back.node_type == node.node_type,
{
    match node.node_type {
        NodeType::Symmetric => {
            assert(call_ensures(mirror, (node.incoming,), forward.outgoing));
            assert(call_ensures(mirror, (forward.outgoing,), back.incoming));
        },
        NodeType::Connected => {
            assert(call_ensures(oppose, (node.incoming, node.outgoing), forward.outgoing));
            assert(call_ensures(oppose, (forward.outgoing, node.incoming), back.incoming));
        },
        NodeType::Broken => {},
    }
}

impl<V: Copy> BezierPathNode<V> {
    /// Updates the outgoing handle after the incoming handle has changed.
    ///
    /// `mirror(v)` is the handle opposite to `v`; `oppose(d, l)` is the handle
    /// pointing against `d` with the length of `l`.
    pub fn update_from_incoming<M: Fn(V) -> V, O: Fn(V, V) -> V>(&mut self, mirror: M, oppose: O)
        requires
            forall|v: V| mirror.requires((v,)),
            forall|d: V, l: V| oppose.requires((d, l)),
        ensures
            updated_from_incoming(*old(self), *final(self), mirror, oppose),
    {
        match self.node_type {
            NodeType::Connected => {
                self.outgoing = oppose(self.incoming, self.outgoing);
            },
            NodeType::Symmetric => {
                self.outgoing = mirror(self.incoming);
            },
            NodeType::Broken => {},
        }
    }

    /// Updates the incoming handle after the outgoing handle has changed.
    ///
    /// `mirror(v)` is the handle opposite to `v`; `oppose(d, l)` is the handle
    /// pointing against `d` with the length of `l`.
    pub fn update_from_outgoing<M: Fn(V) -> V, O: Fn(V, V) -> V>(&mut self, mirror: M, oppose: O)
        requires
            forall|v: V| mirror.requires((v,)),
            forall|d: V, l: V| oppose.requires((d, l)),
        ensures
            updated_from_outgoing(*old(self), *final(self), mirror, oppose),
    {
        match self.node_type {
            NodeType::Connected => {
                self.incoming = oppose(self.outgoing, self.incoming);
            },
            NodeType::Symmetric => {
                self.incoming = mirror(self.outgoing);
            },
            NodeType::Broken => {},
        }
    }
}

} // verus!
