//! Axis-aligned handle interaction: the pick targets of every node, and the
//! drag session that a pick starts and a button release ends.

use vstd::prelude::*;

use crate::components::{follows, BezierPathNode};

verus! {

/// Which draggable point on a Bezier node is targeted.
#[derive(Debug, Clone, Copy, PartialEq, Eq, Structural)]
pub enum HandleKind {
    /// The node center (waypoint).
    Center,
    /// The incoming control handle tip.
    Incoming,
    /// The outgoing control handle tip.
    Outgoing,
}

/// World-axis constraint used while dragging.
#[derive(Debug, Clone, Copy, PartialEq, Eq, Structural)]
pub enum DragAxis {
    X,
    Y,
    Z,
}

/// The point kinds of a node, in pick order: center, incoming, outgoing.
pub open spec fn handle_kind_at(j: int) -> HandleKind {
    if j == 0 {
        HandleKind::Center
    } else if j == 1 {
        HandleKind::Incoming
    } else {
        HandleKind::Outgoing
    }
}

/// The axes of a point, in pick order: X, Y, Z.
pub open spec fn drag_axis_at(a: int) -> DragAxis {
    if a == 0 {
        DragAxis::X
    } else if a == 1 {
        DragAxis::Y
    } else {
        DragAxis::Z
    }
}

/// One axis arrow of one point of one node (nine per node).
#[derive(Debug, Clone, Copy, PartialEq)]
pub struct AxisHandlePick<P> {
    /// The node's entity, by its bits.
    pub entity: u64,
    pub kind: HandleKind,
    pub axis: DragAxis,
    /// The point the arrow originates from (world space).
    pub anchor: P,
    /// The arrow's tip: the anchor moved along the axis by the arrow length.
    pub tip: P,
}

/// Position of the pick for node `i`, point `j` and axis `a`.
pub open spec fn pick_slot(i: int, j: int, a: int) -> int {
    9 * i + 3 * j + a
}

/// `pick` is the arrow of node `node` for point `j` along axis `a`: the center
/// is the node's own point, a handle point is what `offset` returned for the
/// center and that handle's offset, and the tip is what `arrow_tip` returned
/// for the anchor and the axis.
pub open spec fn is_axis_handle_of<P, F: Fn(P, P) -> P, G: Fn(P, DragAxis) -> P>(
    pick: AxisHandlePick<P>,
    node: (u64, P, P, P),
    j: int,
    a: int,
    offset: F,
    arrow_tip: G,
) -> bool {
    &&& pick.entity == node.0
    &&& pick.kind == handle_kind_at(j)
    &&& pick.axis == drag_axis_at(a)
    &&& (j == 0 ==> pick.anchor == node.1)
    &&& (j == 1 ==> call_ensures(offset, (node.1, node.2), pick.anchor))
    &&& (j == 2 ==> call_ensures(offset, (node.1, node.3), pick.anchor))
    &&& call_ensures(arrow_tip, (pick.anchor, pick.axis), pick.tip)
}

/// `picks` are the axis handles of `nodes`: nine per node, node by node, in
/// point order center, incoming, outgoing and, per point, axis order X, Y, Z;
/// the three arrows of a point share its anchor.
pub open spec fn are_axis_handles_of<P, F: Fn(P, P) -> P, G: Fn(P, DragAxis) -> P>(
    picks: Seq<AxisHandlePick<P>>,
    nodes: Seq<(u64, P, P, P)>,
    offset: F,
    arrow_tip: G,
) -> bool {
    &&& picks.len() == 9 * nodes.len()
    &&& forall|i: int, j: int, a: int|
        0 <= i < nodes.len() && 0 <= j < 3 && 0 <= a < 3 ==> {
            &&& is_axis_handle_of(
                #[trigger] picks[pick_slot(i, j, a)],
                nodes[i],
                j,
                a,
                offset,
                arrow_tip,
            )
            &&& picks[pick_slot(i, j, a)].anchor == picks[pick_slot(i, j, 0)].anchor
        }
}

/// Where each axis handle sits, by its position `k` in the list: pick `k`
/// belongs to node `k / 9` and carries that node's entity; of a node's nine
/// picks, the first three are `Center` arrows at the node's center, the next
/// three `Incoming` arrows at the tip of the node's *incoming* handle, the last
/// three `Outgoing` arrows at the tip of its *outgoing* handle; each group of
/// three runs along X, Y and Z, and every arrow ends where `arrow_tip` put it
/// for its anchor and axis. A node is `(entity, center, incoming, outgoing)`.
pub proof fn lemma_axis_handles_by_position<P, F: Fn(P, P) -> P, G: Fn(P, DragAxis) -> P>(
    picks: Seq<AxisHandlePick<P>>,
    nodes: Seq<(u64, P, P, P)>,
    offset: F,
    arrow_tip: G,
)
    requires
        are_axis_handles_of(picks, nodes, offset, arrow_tip),
    ensures
        picks.len() == 9 * nodes.len(),
        forall|k: int|
            #![trigger picks[k]]
            0 <= k < picks.len() ==> picks[k].entity == nodes[k / 9].0
                && call_ensures(arrow_tip, (picks[k].anchor, picks[k].axis), picks[k].tip)
                && (k % 9 < 3 ==> picks[k].kind is Center && picks[k].anchor == nodes[k / 9].1)
                && (3 <= k % 9 < 6 ==> picks[k].kind is Incoming && call_ensures(
                offset,
                (nodes[k / 9].1, nodes[k / 9].2),
                picks[k].anchor,
            )) && (6 <= k % 9 ==> picks[k].kind is Outgoing && call_ensures(
                offset,
                (nodes[k / 9].1, nodes[k / 9].3),
                picks[k].anchor,
            )) && (k % 3 == 0 ==> picks[k].axis is X) && (k % 3 == 1 ==> picks[k].axis is Y) && (k
                % 3 == 2 ==> picks[k].axis is Z),
{
    assert forall|k: int| #![trigger picks[k]] 0 <= k < picks.len() implies picks[k].entity
        == nodes[k / 9].0 && call_ensures(arrow_tip, (picks[k].anchor, picks[k].axis), picks[k].tip)
        && (k % 9 < 3 ==> picks[k].kind is Center && picks[k].anchor == nodes[k / 9].1) && (3 <= k % 9
        < 6 ==> picks[k].kind is Incoming && call_ensures(
        offset,
        (nodes[k / 9].1, nodes[k / 9].2),
        picks[k].anchor,
    )) && (6 <= k % 9 ==> picks[k].kind is Outgoing && call_ensures(
        offset,
        (nodes[k / 9].1, nodes[k / 9].3),
        picks[k].anchor,
    )) && (k % 3 == 0 ==> picks[k].axis is X) && (k % 3 == 1 ==> picks[k].axis is Y) && (k % 3 == 2
        ==> picks[k].axis is Z) by {
        let i = k / 9;
        let r = k % 9;
        let j = r / 3;
        let a = r % 3;
        assert(k == 9 * i + r && 0 <= r < 9) by (nonlinear_arith)
            requires
                0 <= k,
                i == k / 9,
                r == k % 9,
        ;
        assert(r == 3 * j + a && 0 <= a < 3 && 0 <= j < 3) by (nonlinear_arith)
            requires
                0 <= r < 9,
                j == r / 3,
                a == r % 3,
        ;
        assert(k % 3 == a) by (nonlinear_arith)
            requires
                k == 9 * i + 3 * j + a,
                0 <= a < 3,
                0 <= i,
        ;
        assert(0 <= i < nodes.len()) by (nonlinear_arith)
            requires
                k == 9 * i + r,
                0 <= r < 9,
                0 <= k < 9 * nodes.len(),
        ;
        assert(k == pick_slot(i, j, a));
        assert(is_axis_handle_of(picks[pick_slot(i, j, a)], nodes[i], j, a, offset, arrow_tip));
    }
}

/// Appends the X, Y and Z arrows of one point.
fn push_point_arrows<P: Copy, G: Fn(P, DragAxis) -> P>(
    picks: &mut Vec<AxisHandlePick<P>>,
    entity: u64,
    kind: HandleKind,
    anchor: P,
    arrow_tip: &G,
)
    requires
        forall|p: P, axis: DragAxis| arrow_tip.requires((p, axis)),
    ensures
        final(picks)@.len() == old(picks)@.len() + 3,
        final(picks)@.subrange(0, old(picks)@.len() as int) == old(picks)@,
        forall|a: int|
            0 <= a < 3 ==> {
                let pick = #[trigger] final(picks)@[old(picks)@.len() + a];
                &&& pick.entity == entity
                &&& pick.kind == kind
                &&& pick.axis == drag_axis_at(a)
                &&& pick.anchor == anchor
                &&& call_ensures(*arrow_tip, (anchor, pick.axis), pick.tip)
            },
{
    let tip_x = arrow_tip(anchor, DragAxis::X);
    picks.push(AxisHandlePick { entity, kind, axis: DragAxis::X, anchor, tip: tip_x });
    let tip_y = arrow_tip(anchor, DragAxis::Y);
    picks.push(AxisHandlePick { entity, kind, axis: DragAxis::Y, anchor, tip: tip_y });
    let tip_z = arrow_tip(anchor, DragAxis::Z);
    picks.push(AxisHandlePick { entity, kind, axis: DragAxis::Z, anchor, tip: tip_z });
}

/// Collects all axis-aligned pick targets of the given nodes.
///
/// Each node is `(entity bits, center, incoming offset, outgoing offset)`, in
/// path order. `offset(center, handle)` gives a handle's tip and
/// `arrow_tip(point, axis)` the tip of the arrow from `point` along `axis`.
pub fn collect_axis_handles<P: Copy, F: Fn(P, P) -> P, G: Fn(P, DragAxis) -> P>(
    nodes: &[(u64, P, P, P)],
    offset: F,
    arrow_tip: G,
) -> (picks: Vec<AxisHandlePick<P>>)
    requires
        forall|p: P, q: P| offset.requires((p, q)),
        forall|p: P, axis: DragAxis| arrow_tip.requires((p, axis)),
    ensures
        are_axis_handles_of(picks@, nodes@, offset, arrow_tip),
{
    let mut picks: Vec<AxisHandlePick<P>> = Vec::new();
    let n = nodes.len();
    for i in 0..n
        invariant
            n == nodes@.len(),
            forall|p: P, q: P| offset.requires((p, q)),
            forall|p: P, axis: DragAxis| arrow_tip.requires((p, axis)),
            are_axis_handles_of(picks@, nodes@.subrange(0, i as int), offset, arrow_tip),
    {
        let (entity, center, incoming, outgoing) = nodes[i];
        let incoming_tip = offset(center, incoming);
        let outgoing_tip = offset(center, outgoing);
        let ghost before = picks@;
        push_point_arrows(&mut picks, entity, HandleKind::Center, center, &arrow_tip);
        let ghost after_center = picks@;
        push_point_arrows(&mut picks, entity, HandleKind::Incoming, incoming_tip, &arrow_tip);
        let ghost after_incoming = picks@;
        push_point_arrows(&mut picks, entity, HandleKind::Outgoing, outgoing_tip, &arrow_tip);
        proof {
            let done = nodes@.subrange(0, i + 1);
            let b = before.len() as int;
            assert(b == 9 * i);
            // The picks of earlier nodes, and of earlier points of this node,
            // survive the later pushes.
            assert forall|x: int| 0 <= x < b + 6 implies picks@[x] == after_incoming[x] by {
                assert(picks@.subrange(0, b + 6)[x] == picks@[x]);
            }
            assert forall|x: int| 0 <= x < b + 3 implies picks@[x] == after_center[x] by {
                assert(after_incoming.subrange(0, b + 3)[x] == after_incoming[x]);
            }
            assert forall|x: int| 0 <= x < b implies picks@[x] == before[x] by {
                assert(after_center.subrange(0, b)[x] == after_center[x]);
            }
            assert forall|k: int, j: int, a: int|
                0 <= k < done.len() && 0 <= j < 3 && 0 <= a < 3 implies {
                &&& is_axis_handle_of(
                    #[trigger] picks@[pick_slot(k, j, a)],
                    done[k],
                    j,
                    a,
                    offset,
                    arrow_tip,
                )
                &&& picks@[pick_slot(k, j, a)].anchor == picks@[pick_slot(k, j, 0)].anchor
            } by {
                assert(picks@.len() == b + 9);
                assert(pick_slot(k, j, a) < b + 9);
                if k < i {
                    // An earlier node: its picks were already in place.
                    assert(before[pick_slot(k, j, a)] == picks@[pick_slot(k, j, a)]);
                    assert(before[pick_slot(k, j, 0)] == picks@[pick_slot(k, j, 0)]);
                    assert(done[k] == nodes@.subrange(0, i as int)[k]);
                } else {
                    // This node: point `j` was pushed by the `j`-th call.
                    assert(done[k] == nodes@[i as int]);
                    if j == 0 {
                        let x = after_center[before.len() + a];
                        let x0 = after_center[before.len() + 0int];
                        assert(picks@[pick_slot(k, j, a)] == x);
                        assert(picks@[pick_slot(k, j, 0)] == x0);
                    } else if j == 1 {
                        let x = after_incoming[after_center.len() + a];
                        let x0 = after_incoming[after_center.len() + 0int];
                        assert(picks@[pick_slot(k, j, a)] == x);
                        assert(picks@[pick_slot(k, j, 0)] == x0);
                    } else {
                        let x = picks@[after_incoming.len() + a];
                        let x0 = picks@[after_incoming.len() + 0int];
                        assert(picks@[pick_slot(k, j, a)] == x);
                        assert(picks@[pick_slot(k, j, 0)] == x0);
                    }
                }
            }
        }
    }
    assert(nodes@.subrange(0, n as int) =~= nodes@);
    picks
}

/// Active drag session state.
#[derive(Debug, Clone, Copy)]
pub struct AxisDrag<P, S> {
    /// The dragged node's entity, by its bits.
    pub entity: u64,
    pub kind: HandleKind,
    pub axis: DragAxis,
    /// World-space position of the handle at mouse-down.
    pub anchor: P,
    /// Signed distance along the axis at mouse-down (used to avoid a jump).
    pub grab_offset: S,
}

/// Emitted when an axis handle is grabbed.
#[derive(Debug, Clone, Copy, PartialEq, Eq, Structural)]
pub struct AxisHandleGrabbed {
    pub entity: u64,
    pub kind: HandleKind,
    pub axis: DragAxis,
}

/// Emitted when an axis handle is released.
#[derive(Debug, Clone, Copy, PartialEq, Eq, Structural)]
pub struct AxisHandleReleased {
    pub entity: u64,
}

/// Drag session state: at most one handle is dragged at a time.
#[derive(Debug, Clone, Copy)]
pub struct AxisHandleDragState<P, S> {
    pub dragging: Option<AxisDrag<P, S>>,
}

/// The message announcing that `drag` started.
pub open spec fn grabbed_message<P, S>(drag: AxisDrag<P, S>) -> AxisHandleGrabbed {
    AxisHandleGrabbed { entity: drag.entity, kind: drag.kind, axis: drag.axis }
}

/// The state after a release step, and the message it emits: a release of
/// the left button ends a running drag and announces it; anything else leaves
/// the state as it was and emits nothing.
pub open spec fn release_step<P, S>(
    state: AxisHandleDragState<P, S>,
    just_released: bool,
) -> (AxisHandleDragState<P, S>, Option<AxisHandleReleased>) {
    match state.dragging {
        Some(drag) if just_released => (
            AxisHandleDragState { dragging: None },
            Some(AxisHandleReleased { entity: drag.entity }),
        ),
        _ => (state, None),
    }
}

impl<P, S> Default for AxisHandleDragState<P, S> {
    fn default() -> (state: Self)
        ensures
            state.dragging is None,
    {
        AxisHandleDragState { dragging: None }
    }
}

impl<P, S> AxisHandleDragState<P, S> {
    /// Whether a left click may start a pick: interaction is active, the left
    /// button was just pressed, and no drag is running.
    pub fn accepts_pick(&self, active: bool, just_pressed: bool) -> (accepts: bool)
        ensures
            accepts == (active && just_pressed && self.dragging is None),
    {
        active && just_pressed && self.dragging.is_none()
    }

    /// Starts a drag session and returns the message that announces it.
    pub fn grab(&mut self, drag: AxisDrag<P, S>) -> (grabbed: AxisHandleGrabbed)
        requires
            old(self).dragging is None,
        ensures
            final(self).dragging == Some(drag),
            grabbed == grabbed_message(drag),
            grabbed.entity == drag.entity,
            grabbed.kind == drag.kind,
            grabbed.axis == drag.axis,
    {
        let grabbed = AxisHandleGrabbed { entity: drag.entity, kind: drag.kind, axis: drag.axis };
        self.dragging = Some(drag);
        grabbed
    }

    /// Ends the drag session when the left button was just released, and
    /// returns the message that announces it.
    pub fn release(&mut self, just_released: bool) -> (released: Option<AxisHandleReleased>)
        ensures
            (*final(self), released) == release_step(*old(self), just_released),
            just_released && old(self).dragging is Some ==> final(self).dragging is None
                && released == Some(AxisHandleReleased { entity: old(self).dragging->0.entity }),
            !(just_released && old(self).dragging is Some) ==> *final(self) == *old(self)
                && released is None,
    {
        if just_released {
            if let Some(drag) = &self.dragging {
                let released = AxisHandleReleased { entity: drag.entity };
                self.dragging = None;
                return Some(released);
            }
        }
        None
    }
}

impl<P: Copy, S: Copy> AxisHandleDragState<P, S> {
    /// The drag to apply this frame: the running drag, while the left button
    /// is held.
    pub fn drag_in_progress(&self, pressed: bool) -> (drag: Option<AxisDrag<P, S>>)
        ensures
            drag == (if pressed { self.dragging } else { None }),
    {
        if pressed {
            self.dragging
        } else {
            None
        }
    }
}

/// Moves the dragged point of a node to `target`.
///
/// The center moves the node itself (`position`); a handle tip sets that
/// handle's offset to `relative(target, position)` and then lets the other
/// handle follow as the node's type demands.
pub fn apply_axis_drag<V: Copy, D: Fn(V, V) -> V, M: Fn(V) -> V, O: Fn(V, V) -> V>(
    node: &mut BezierPathNode<V>,
    position: &mut V,
    kind: HandleKind,
    target: V,
    relative: D,
    mirror: M,
    oppose: O,
)
    requires
        forall|a: V, b: V| relative.requires((a, b)),
        forall|v: V| mirror.requires((v,)),
        forall|d: V, l: V| oppose.requires((d, l)),
    ensures
        final(node).node_type == old(node).node_type,
        kind is Center ==> *final(position) == target && *final(node) == *old(node),
        !(kind is Center) ==> *final(position) == *old(position),
        kind is Incoming ==> call_ensures(relative, (target, *old(position)), final(node).incoming)
            && follows(
            old(node).node_type,
            final(node).incoming,
            old(node).outgoing,
            final(node).outgoing,
            mirror,
            oppose,
        ),
        kind is Outgoing ==> call_ensures(relative, (target, *old(position)), final(node).outgoing)
            && follows(
            old(node).node_type,
            final(node).outgoing,
            old(node).incoming,
            final(node).incoming,
            mirror,
            oppose,
        ),
{
    match kind {
        HandleKind::Center => {
            *position = target;
        },
        HandleKind::Incoming => {
            node.incoming = relative(target, *position);
            node.update_from_incoming(mirror, oppose);
        },
        HandleKind::Outgoing => {
            node.outgoing = relative(target, *position);
            node.update_from_outgoing(mirror, oppose);
        },
    }
}

/// The grab announcement names exactly the grabbed handle: the drag's
/// entity, point kind and axis.
pub proof fn lemma_grab_announces_the_grabbed_handle<P, S>(drag: AxisDrag<P, S>)
    ensures
        grabbed_message(drag).entity == drag.entity,
        grabbed_message(drag).kind == drag.kind,
        grabbed_message(drag).axis == drag.axis,
{
}

/// A drag session ends with the entity it began with: after a grab, a release
/// of the left button announces the grabbed entity and leaves no drag
/// running, while a frame without that release keeps the drag.
pub proof fn lemma_release_ends_the_grabbed_drag<P, S>(drag: AxisDrag<P, S>)
    ensures
        release_step(AxisHandleDragState { dragging: Some(drag) }, true) == (
            AxisHandleDragState::<P, S> { dragging: None },
            Some(AxisHandleReleased { entity: grabbed_message(drag).entity }),
        ),
        release_step(AxisHandleDragState { dragging: Some(drag) }, false) == (
            AxisHandleDragState::<P, S> { dragging: Some(drag) },
            Option::<AxisHandleReleased>::None,
        ),
{
}

/// Without a running drag, a release announces nothing and changes nothing.
pub proof fn lemma_idle_release_is_silent<P, S>(state: AxisHandleDragState<P, S>, just_released: bool)
    requires
        state.dragging is None,
    ensures
        release_step(state, just_released) == (state, Option::<AxisHandleReleased>::None),
{
}

} // verus!
