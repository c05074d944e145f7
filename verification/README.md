# bevy_bezier_splines

Cubic Bezier spline paths for Bevy, with the spline logic verified by Verus.

## Layout

- `src/` — the verified library (Verus). It is generic over the point type `P`
  (and the scalar type `S` of drag offsets); every arithmetic operation on points
  is passed in as a closure, so the proofs fix which points are combined and where
  the results go. Entities are identified by their `u64` bits.
  - `components` — `BezierPath`, `GizmoDrawMode`, `NodeType`, `BezierPathNode` and
    the rule by which one handle follows the other.
  - `snapshot` — `build_snapshot_from_node_data`: segment `i` joins node `i` to node
    `(i + 1) % n`; `n - 1` segments for open paths, `n` for closed ones; proof that
    the segments form one continuous curve.
  - `systems` — `plan_spline_gizmos`: which curve segments, markers, handles and
    connections the gizmo draws; proof that the drawn curve is the snapshot's curve.
  - `math` — `sample_cubic_bezier`: `n + 1` samples, `n` = subdivisions but at least one.
  - `interaction` — `collect_axis_handles` (nine arrows per node, in a fixed order),
    the drag session (`AxisHandleDragState`: grab, drag, release) and `apply_axis_drag`.
  - `jackdaw` — the snapshot registry: when a path needs a re-sync, what publishing a
    snapshot does to the cache, and which change messages are emitted.
- `app/` — the Bevy side: components with `Reflect`/`Component` derives, ECS queries,
  gizmo rendering, the plugins, and all floating-point geometry (curve evaluation,
  ray/axis closest point, screen projection, nearest-arrow picking).
- `tests/` — tests of the library with `bevy::math::Vec3` points.
