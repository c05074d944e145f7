//! Cubic Bezier spline paths: the data model, the snapshot builder, the gizmo
//! drawing plan, axis-handle enumeration, the axis-drag session and the
//! snapshot registry, verified with Verus.
//!
//! The library is generic over the point type `P` (and, for drag offsets, the
//! scalar type `S`): every arithmetic operation on points is handed in by the
//! caller as a closure, so the verified code fixes *which* points are combined
//! and *where* the results go, while the caller decides how points are added.
//! Entities are identified by their `u64` bit representation.

pub mod components;
pub mod interaction;
pub mod jackdaw;
pub mod math;
pub mod snapshot;
pub mod systems;
