//! Immutable spline snapshots built from ordered node data.
//!
//! A node is `(center, incoming, outgoing)`: the waypoint and the offsets of
//! its two control handles from that waypoint. Segment `i` of a snapshot runs
//! from node `i` to node `(i + 1) % n`; an open path has `n - 1` segments, a
//! closed path `n`.

use vstd::prelude::*;

use crate::components::{effective_subdivisions, BezierPath};

verus! {

/// A cubic segment represented by four absolute control points.
#[derive(Debug, Clone, Copy, PartialEq)]
pub struct CubicBezierSegment<P> {
    /// Start waypoint.
    pub p0: P,
    /// Outgoing control point from `p0`.
    pub p1: P,
    /// Incoming control point into `p3`.
    pub p2: P,
    /// End waypoint.
    pub p3: P,
}

/// Immutable snapshot of a spline suitable for external consumers.
#[derive(Debug, Default, PartialEq)]
pub struct BezierSplineSnapshot<P> {
    /// Whether the last node connects back to the first node.
    pub closed: bool,
    /// Sampling density to use for downstream consumers.
    pub subdivisions: u32,
    /// Ordered cubic segments composing the spline.
    pub segments: Vec<CubicBezierSegment<P>>,
}

/// What a snapshot holds, with its segments as a sequence.
pub ghost struct SnapshotModel<P> {
    pub closed: bool,
    pub subdivisions: u32,
    pub segments: Seq<CubicBezierSegment<P>>,
}

impl<P> View for BezierSplineSnapshot<P> {
    type V = SnapshotModel<P>;

    open spec fn view(&self) -> SnapshotModel<P> {
        SnapshotModel { closed: self.closed, subdivisions: self.subdivisions, segments: self.segments@ }
    }
}

impl<P: Copy> Clone for BezierSplineSnapshot<P> {
    fn clone(&self) -> (copy: Self)
        ensures
            copy@ == self@,
    {
        let mut segments: Vec<CubicBezierSegment<P>> = Vec::with_capacity(self.segments.len());
        let n = self.segments.len();
        for i in 0..n
            invariant
                n == self.segments@.len(),
                segments@ == self.segments@.subrange(0, i as int),
        {
            segments.push(self.segments[i]);
        }
        assert(segments@ =~= self.segments@);
        BezierSplineSnapshot { closed: self.closed, subdivisions: self.subdivisions, segments }
    }
}

impl<P> BezierSplineSnapshot<P> {
    /// Returns `true` when there are no segments to consume.
    pub fn is_empty(&self) -> (empty: bool)
        ensures
            empty == (self.segments@.len() == 0),
    {
        self.segments.len() == 0
    }
}

/// Number of segments of a path over `n` nodes.
pub open spec fn segment_count(n: nat, closed: bool) -> nat {
    if closed {
        n
    } else if n == 0 {
        0
    } else {
        (n - 1) as nat
    }
}

/// Index of the node at which segment `i` of a path over `n` nodes ends.
pub open spec fn segment_end(i: int, n: nat) -> int {
    (i + 1) % (n as int)
}

/// The `(start, end)` node indices of every segment of a path over `n` nodes.
pub open spec fn segment_pairs(n: nat, closed: bool) -> Seq<(usize, usize)> {
    Seq::new(segment_count(n, closed), |i: int| (i as usize, segment_end(i, n) as usize))
}

/// `seg` is segment `i` of the spline through `nodes`: it starts at node `i`,
/// ends at node `(i + 1) % n`, and its inner control points are the two
/// handle tips, each what `offset` returned for a waypoint and its handle.
pub open spec fn is_segment_of<P, F: Fn(P, P) -> P>(
    seg: CubicBezierSegment<P>,
    nodes: Seq<(P, P, P)>,
    i: int,
    offset: F,
) -> bool {
    let a = nodes[i];
    let b = nodes[segment_end(i, nodes.len())];
    &&& seg.p0 == a.0
    &&& seg.p3 == b.0
    &&& call_ensures(offset, (a.0, a.2), seg.p1)
    &&& call_ensures(offset, (b.0, b.1), seg.p2)
}

/// `snap` is the snapshot of `path` over `nodes` (which has at least two nodes).
pub open spec fn is_snapshot_of<P, F: Fn(P, P) -> P>(
    snap: SnapshotModel<P>,
    path: BezierPath,
    nodes: Seq<(P, P, P)>,
    offset: F,
) -> bool {
    &&& snap.closed == path.closed
    &&& snap.subdivisions == effective_subdivisions(path.subdivisions)
    &&& snap.segments.len() == segment_count(nodes.len(), path.closed)
    &&& forall|i: int|
        0 <= i < snap.segments.len() ==> #[trigger] is_segment_of(snap.segments[i], nodes, i, offset)
}

/// The node that follows node `i` along a path through `nodes`: the next
/// one, or the first one after the last.
pub open spec fn node_after<P>(nodes: Seq<(P, P, P)>, i: int) -> (P, P, P) {
    if i + 1 < nodes.len() {
        nodes[i + 1]
    } else {
        nodes[0]
    }
}

/// What a snapshot holds, in terms of the nodes' own parts (a node is
/// `(center, incoming, outgoing)`): an open path over `n` nodes has `n - 1`
/// segments and a closed one `n`; segment `i` starts at node `i`'s center,
/// leaves it through the tip of node `i`'s *outgoing* handle, enters the
/// following node through the tip of that node's *incoming* handle, and ends
/// at that node's center, the last segment of a closed path returning to node
/// 0; the snapshot keeps `closed` and samples with `subdivisions`, but at
/// least one.
pub proof fn lemma_snapshot_segments_follow_the_handles<P, F: Fn(P, P) -> P>(
    snap: SnapshotModel<P>,
    path: BezierPath,
    nodes: Seq<(P, P, P)>,
    offset: F,
)
    requires
        nodes.len() >= 2,
        is_snapshot_of(snap, path, nodes, offset),
    ensures
        snap.closed == path.closed,
        path.subdivisions == 0 ==> snap.subdivisions == 1,
        path.subdivisions != 0 ==> snap.subdivisions == path.subdivisions,
        path.closed ==> snap.segments.len() == nodes.len(),
        !path.closed ==> snap.segments.len() + 1 == nodes.len(),
        forall|i: int|
            0 <= i < snap.segments.len() ==> #[trigger] snap.segments[i].p0 == nodes[i].0
                && snap.segments[i].p3 == node_after(nodes, i).0
                && call_ensures(offset, (nodes[i].0, nodes[i].2), snap.segments[i].p1)
                && call_ensures(offset, (node_after(nodes, i).0, node_after(nodes, i).1), snap.segments[i].p2),
{
    let n = nodes.len();
    assert forall|i: int| 0 <= i < snap.segments.len() implies #[trigger] snap.segments[i].p0
        == nodes[i].0 && snap.segments[i].p3 == node_after(nodes, i).0 && call_ensures(
        offset,
        (nodes[i].0, nodes[i].2),
        snap.segments[i].p1,
    ) && call_ensures(offset, (node_after(nodes, i).0, node_after(nodes, i).1), snap.segments[i].p2) by {
        assert(is_segment_of(snap.segments[i], nodes, i, offset));
        if i + 1 < n {
            vstd::arithmetic::div_mod::lemma_small_mod((i + 1) as nat, n);
        } else {
            vstd::arithmetic::div_mod::lemma_mod_self_0(n as int);
        }
    }
}

/// A snapshot's segments form one continuous curve: each segment ends where
/// the next one begins, the curve starts at the first node, an open curve
/// ends at the last node, and a closed curve ends where it started.
pub proof fn lemma_snapshot_is_continuous<P, F: Fn(P, P) -> P>(
    snap: SnapshotModel<P>,
    path: BezierPath,
    nodes: Seq<(P, P, P)>,
    offset: F,
)
    requires
        nodes.len() >= 2,
        is_snapshot_of(snap, path, nodes, offset),
    ensures
        forall|i: int, j: int|
            0 <= i && j == i + 1 && j < snap.segments.len() ==> #[trigger] snap.segments[i].p3
                == #[trigger] snap.segments[j].p0,
        snap.segments[0].p0 == nodes[0].0,
        path.closed ==> snap.segments.last().p3 == snap.segments[0].p0,
        !path.closed ==> snap.segments.last().p3 == nodes.last().0,
{
    let n = nodes.len();
    assert forall|i: int, j: int|
        0 <= i && j == i + 1 && j < snap.segments.len() implies #[trigger] snap.segments[i].p3
        == #[trigger] snap.segments[j].p0 by {
        assert(is_segment_of(snap.segments[i], nodes, i, offset));
        assert(is_segment_of(snap.segments[j], nodes, j, offset));
        vstd::arithmetic::div_mod::lemma_small_mod((i + 1) as nat, n);
    }
    assert(is_segment_of(snap.segments[0], nodes, 0, offset));
    let last = snap.segments.len() - 1;
    assert(is_segment_of(snap.segments[last], nodes, last, offset));
    if path.closed {
        vstd::arithmetic::div_mod::lemma_mod_self_0(n as int);
    } else {
        vstd::arithmetic::div_mod::lemma_small_mod((last + 1) as nat, n);
    }
}

/// The shape of a snapshot does not depend on the handles: over the same
/// waypoints, whatever the handle offsets (and so whatever the nodes' types
/// made of them), two snapshots of a path have the same settings, the same
/// number of segments, and segments between the same waypoints.
pub proof fn lemma_snapshot_shape_ignores_handles<P, F: Fn(P, P) -> P>(
    first: SnapshotModel<P>,
    second: SnapshotModel<P>,
    path: BezierPath,
    first_nodes: Seq<(P, P, P)>,
    second_nodes: Seq<(P, P, P)>,
    offset: F,
)
    requires
        first_nodes.len() == second_nodes.len(),
        forall|i: int| 0 <= i < first_nodes.len() ==> #[trigger] first_nodes[i].0 == second_nodes[i].0,
        is_snapshot_of(first, path, first_nodes, offset),
        is_snapshot_of(second, path, second_nodes, offset),
    ensures
        first.closed == second.closed,
        first.subdivisions == second.subdivisions,
        first.segments.len() == second.segments.len(),
        forall|i: int|
            0 <= i < first.segments.len() ==> #[trigger] first.segments[i].p0 == second.segments[i].p0
                && first.segments[i].p3 == second.segments[i].p3,
{
    let n = first_nodes.len();
    assert forall|i: int| 0 <= i < first.segments.len() implies #[trigger] first.segments[i].p0
        == second.segments[i].p0 && first.segments[i].p3 == second.segments[i].p3 by {
        assert(is_segment_of(first.segments[i], first_nodes, i, offset));
        assert(is_segment_of(second.segments[i], second_nodes, i, offset));
        let e = segment_end(i, n);
        assert(0 <= e < n) by {
            vstd::arithmetic::div_mod::lemma_mod_bound(i + 1, n as int);
        }
        assert(first_nodes[e].0 == second_nodes[e].0);
    }
}

/// The nodes in reverse order, each with its two handles swapped: the same
/// waypoints walked the other way.
pub open spec fn reversed_nodes<P>(nodes: Seq<(P, P, P)>) -> Seq<(P, P, P)> {
    Seq::new(
        nodes.len(),
        |i: int|
            {
                let node = nodes[nodes.len() - 1 - i];
                (node.0, node.2, node.1)
            },
    )
}

/// The segment run backwards.
pub open spec fn reversed_segment<P>(seg: CubicBezierSegment<P>) -> CubicBezierSegment<P> {
    CubicBezierSegment { p0: seg.p3, p1: seg.p2, p2: seg.p1, p3: seg.p0 }
}

/// `offset` gives one result per pair of arguments.
pub open spec fn offset_is_deterministic<P, F: Fn(P, P) -> P>(offset: F) -> bool {
    forall|a: P, b: P, r: P, q: P|
        #[trigger] call_ensures(offset, (a, b), r) && #[trigger] call_ensures(offset, (a, b), q)
            ==> r == q
}

/// Walking an open path backwards gives the same curve backwards: built from
/// the reversed nodes with swapped handles, segment `k` is segment
/// `len - 1 - k` of the forward snapshot, run backwards.
pub proof fn lemma_reversed_nodes_reverse_the_snapshot<P, F: Fn(P, P) -> P>(
    forward: SnapshotModel<P>,
    backward: SnapshotModel<P>,
    path: BezierPath,
    nodes: Seq<(P, P, P)>,
    offset: F,
)
    requires
        !path.closed,
        nodes.len() >= 2,
        offset_is_deterministic(offset),
        is_snapshot_of(forward, path, nodes, offset),
        is_snapshot_of(backward, path, reversed_nodes(nodes), offset),
    ensures
        backward.segments.len() == forward.segments.len(),
        forall|k: int|
            0 <= k < forward.segments.len() ==> #[trigger] backward.segments[k] == reversed_segment(
                forward.segments[forward.segments.len() - 1 - k],
            ),
{
    let n = nodes.len();
    let rev = reversed_nodes(nodes);
    assert forall|k: int| 0 <= k < forward.segments.len() implies #[trigger] backward.segments[k]
        == reversed_segment(forward.segments[forward.segments.len() - 1 - k]) by {
        let m = n - 2 - k;
        assert(is_segment_of(forward.segments[m], nodes, m, offset));
        assert(is_segment_of(backward.segments[k], rev, k, offset));
        vstd::arithmetic::div_mod::lemma_small_mod((m + 1) as nat, n);
        vstd::arithmetic::div_mod::lemma_small_mod((k + 1) as nat, n);
        assert(rev[k] == (nodes[m + 1].0, nodes[m + 1].2, nodes[m + 1].1));
        assert(rev[k + 1] == (nodes[m].0, nodes[m].2, nodes[m].1));
    }
}

/// Builds a spline snapshot from already-collected node data.
///
/// Returns `None` when there are fewer than two nodes. `offset(point, handle)`
/// is how a handle offset is applied to its waypoint.
pub fn build_snapshot_from_node_data<P: Copy, F: Fn(P, P) -> P>(
    path: &BezierPath,
    node_data: &[(P, P, P)],
    offset: F,
) -> (snapshot: Option<BezierSplineSnapshot<P>>)
    requires
        forall|a: P, b: P| offset.requires((a, b)),
    ensures
        snapshot is None <==> node_data@.len() < 2,
        snapshot matches Some(s) ==> is_snapshot_of(s@, *path, node_data@, offset),
{
    let n = node_data.len();
    if n < 2 {
        return None;
    }
    let count = if path.closed {
        n
    } else {
        n - 1
    };
    let mut segments: Vec<CubicBezierSegment<P>> = Vec::with_capacity(count);
    for i in 0..count
        invariant
            n == node_data@.len(),
            n >= 2,
            count == segment_count(n as nat, path.closed),
            forall|a: P, b: P| offset.requires((a, b)),
            segments@.len() == i,
            forall|k: int|
                0 <= k < i ==> #[trigger] is_segment_of(segments@[k], node_data@, k, offset),
    {
        let next = (i + 1) % n;
        let (p0, _in0, out0) = node_data[i];
        let (p3, in3, _out3) = node_data[next];
        let p1 = offset(p0, out0);
        let p2 = offset(p3, in3);
        let seg = CubicBezierSegment { p0, p1, p2, p3 };
        assert(is_segment_of(seg, node_data@, i as int, offset));
        segments.push(seg);
    }
    Some(
        BezierSplineSnapshot {
            closed: path.closed,
            subdivisions: path.effective_subdivisions(),
            segments,
        },
    )
}

} // verus!
