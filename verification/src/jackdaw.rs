//! One-way registry of the latest snapshot of every synced spline.
//!
//! Edits to a synced path are turned into immutable snapshots; the registry
//! keeps the latest one per path entity and reports every change, including
//! a removal, as a message. Nothing is written back into the spline.

use std::collections::HashMap;

use vstd::prelude::*;

use crate::snapshot::BezierSplineSnapshot;

verus! {

broadcast use vstd::std_specs::hash::group_hash_axioms;

/// Cache of the latest snapshots, keyed by spline entity bits.
pub struct JackdawSplineRegistry<P> {
    /// Current snapshots for synced spline entities.
    pub snapshots: HashMap<u64, BezierSplineSnapshot<P>>,
}

/// Emitted whenever a synced spline snapshot changed or was removed.
#[derive(Debug)]
pub struct JackdawSplineChanged<P> {
    /// The spline entity whose cached snapshot changed.
    pub entity: u64,
    /// New snapshot value; `None` indicates removal or invalid data (fewer
    /// than two nodes).
    pub snapshot: Option<BezierSplineSnapshot<P>>,
}

/// `same(a, b)` returned `r` for the cached snapshot `a` and the new one `b`.
pub open spec fn compared<P, F: Fn(&BezierSplineSnapshot<P>, &BezierSplineSnapshot<P>) -> bool>(
    same: F,
    a: BezierSplineSnapshot<P>,
    b: BezierSplineSnapshot<P>,
    r: bool,
) -> bool {
    call_ensures(same, (&a, &b), r)
}

/// What publishing `snapshot` for `entity` does to the cache `cached`: when
/// the new value matches the cached one (both absent, or both present and
/// `same` says so) nothing changes and nothing is announced; otherwise the
/// cache takes the new value (or drops the entity) and the change is
/// announced with the new value.
pub open spec fn is_publish_outcome<P, F: Fn(&BezierSplineSnapshot<P>, &BezierSplineSnapshot<P>) -> bool>(
    cached: Map<u64, BezierSplineSnapshot<P>>,
    updated: Map<u64, BezierSplineSnapshot<P>>,
    entity: u64,
    snapshot: Option<BezierSplineSnapshot<P>>,
    same: F,
    message: Option<JackdawSplineChanged<P>>,
) -> bool {
    match message {
        None => {
            &&& updated == cached
            &&& match snapshot {
                None => !cached.contains_key(entity),
                Some(s) => cached.contains_key(entity) && compared(same, cached[entity], s, true),
            }
        },
        Some(m) => {
            &&& m.entity == entity
            &&& match snapshot {
                None => {
                    &&& cached.contains_key(entity)
                    &&& m.snapshot is None
                    &&& updated == cached.remove(entity)
                },
                Some(s) => {
                    &&& !cached.contains_key(entity) || compared(same, cached[entity], s, false)
                    &&& m.snapshot matches Some(ms) && ms@ == s@
                    &&& updated == cached.insert(entity, s)
                },
            }
        },
    }
}

/// The cache follows what was published: after publishing a snapshot the
/// path's cached value is that snapshot (or one that `same` found equal to
/// it), after publishing `None` the path has no cached value, and the cached
/// values of all other paths are untouched.
pub proof fn lemma_registry_follows_published<P, F: Fn(&BezierSplineSnapshot<P>, &BezierSplineSnapshot<P>) -> bool>(
    cached: Map<u64, BezierSplineSnapshot<P>>,
    updated: Map<u64, BezierSplineSnapshot<P>>,
    entity: u64,
    snapshot: Option<BezierSplineSnapshot<P>>,
    same: F,
    message: Option<JackdawSplineChanged<P>>,
)
    requires
        is_publish_outcome(cached, updated, entity, snapshot, same, message),
    ensures
        snapshot is None ==> !updated.contains_key(entity),
        snapshot matches Some(s) ==> updated.contains_key(entity) && (updated[entity] == s
            || compared(same, updated[entity], s, true)),
        forall|other: u64|
            other != entity ==> (#[trigger] updated.contains_key(other) <==> cached.contains_key(
                other,
            )) && (updated.contains_key(other) ==> updated[other] == cached[other]),
{
}

/// What publishing announces: a message exactly when the cache changes its
/// mind about the path, naming the path and carrying (a copy of) the new
/// snapshot, or nothing when the path has no snapshot any more. A path that
/// was not cached is always announced when it gets a snapshot; dropping a
/// path's snapshot is announced exactly when one was cached; a snapshot that
/// `same` finds equal to the cached one is never announced.
pub proof fn lemma_publish_announces_changes<P, F: Fn(&BezierSplineSnapshot<P>, &BezierSplineSnapshot<P>) -> bool>(
    cached: Map<u64, BezierSplineSnapshot<P>>,
    updated: Map<u64, BezierSplineSnapshot<P>>,
    entity: u64,
    snapshot: Option<BezierSplineSnapshot<P>>,
    same: F,
    message: Option<JackdawSplineChanged<P>>,
)
    requires
        is_publish_outcome(cached, updated, entity, snapshot, same, message),
    ensures
        message matches Some(m) ==> m.entity == entity,
        message matches Some(m) ==> (m.snapshot is None <==> snapshot is None),
        message matches Some(m) ==> (snapshot matches Some(s) ==> m.snapshot->0@ == s@),
        message is None ==> updated == cached,
        snapshot is None ==> (message is Some <==> cached.contains_key(entity)),
        snapshot is Some && !cached.contains_key(entity) ==> message is Some,
        snapshot matches Some(s) ==> (cached.contains_key(entity) && message is None ==> call_ensures(
            same,
            (&cached[entity], &s),
            true,
        )),
        snapshot matches Some(s) ==> (cached.contains_key(entity) && message is Some ==> call_ensures(
            same,
            (&cached[entity], &s),
            false,
        )),
{
}

/// Publishing the same snapshot again announces nothing and changes nothing,
/// provided `same` is deterministic and finds every snapshot equal to itself.
pub proof fn lemma_republish_is_silent<P, F: Fn(&BezierSplineSnapshot<P>, &BezierSplineSnapshot<P>) -> bool>(
    first: Map<u64, BezierSplineSnapshot<P>>,
    second: Map<u64, BezierSplineSnapshot<P>>,
    third: Map<u64, BezierSplineSnapshot<P>>,
    entity: u64,
    snapshot: Option<BezierSplineSnapshot<P>>,
    same: F,
    first_message: Option<JackdawSplineChanged<P>>,
    second_message: Option<JackdawSplineChanged<P>>,
)
    requires
        forall|a: BezierSplineSnapshot<P>| !#[trigger] compared(same, a, a, false),
        forall|a: BezierSplineSnapshot<P>, b: BezierSplineSnapshot<P>|
            !(#[trigger] compared(same, a, b, true) && compared(same, a, b, false)),
        is_publish_outcome(first, second, entity, snapshot, same, first_message),
        is_publish_outcome(second, third, entity, snapshot, same, second_message),
    ensures
        second_message is None,
        third == second,
{
    if let Some(s) = snapshot {
        if first_message is None {
            assert(compared(same, second[entity], s, true));
        } else {
            assert(second[entity] == s);
        }
    }
}

impl<P> Default for JackdawSplineRegistry<P> {
    fn default() -> (registry: Self)
        ensures
            registry.snapshots@ == Map::<u64, BezierSplineSnapshot<P>>::empty(),
    {
        JackdawSplineRegistry { snapshots: HashMap::new() }
    }
}

impl<P: Copy> JackdawSplineRegistry<P> {
    /// Whether the path `entity` must be re-synced: its path or its children
    /// changed, one of its nodes changed or moved, or it has no cached
    /// snapshot yet.
    pub fn needs_sync(
        &self,
        entity: u64,
        path_changed: bool,
        children_changed: bool,
        node_changed: bool,
        node_moved: bool,
    ) -> (needed: bool)
        ensures
            needed == (path_changed || children_changed || node_changed || node_moved
                || !self.snapshots@.contains_key(entity)),
    {
        path_changed || children_changed || node_changed || node_moved
            || !self.snapshots.contains_key(&entity)
    }

    /// Publishes the freshly built `snapshot` of path `entity` (`None` when the
    /// path has fewer than two nodes). `same(cached, new)` tells whether two
    /// snapshots are equal. Returns the change message, if the cache changed.
    pub fn publish<F: Fn(&BezierSplineSnapshot<P>, &BezierSplineSnapshot<P>) -> bool>(
        &mut self,
        entity: u64,
        snapshot: Option<BezierSplineSnapshot<P>>,
        same: F,
    ) -> (message: Option<JackdawSplineChanged<P>>)
        requires
            forall|a: &BezierSplineSnapshot<P>, b: &BezierSplineSnapshot<P>| same.requires((a, b)),
        ensures
            is_publish_outcome(
                old(self).snapshots@,
                final(self).snapshots@,
                entity,
                snapshot,
                same,
                message,
            ),
    {
        let changed = match (self.snapshots.get(&entity), &snapshot) {
            (None, None) => false,
            (Some(cached), Some(fresh)) => !same(cached, fresh),
            _ => true,
        };
        if !changed {
            return None;
        }
        match snapshot {
            Some(fresh) => {
                let announced = fresh.clone();
                self.snapshots.insert(entity, fresh);
                Some(JackdawSplineChanged { entity, snapshot: Some(announced) })
            },
            None => {
                self.snapshots.remove(&entity);
                Some(JackdawSplineChanged { entity, snapshot: None })
            },
        }
    }

    /// Drops the cached snapshot of a path whose sync marker was removed.
    /// Returns the removal message when a snapshot was cached.
    pub fn remove_marker(&mut self, entity: u64) -> (message: Option<JackdawSplineChanged<P>>)
        ensures
            final(self).snapshots@ == old(self).snapshots@.remove(entity),
            message is Some <==> old(self).snapshots@.contains_key(entity),
            message matches Some(m) ==> m.entity == entity && m.snapshot is None,
    {
        match self.snapshots.remove(&entity) {
            Some(_) => Some(JackdawSplineChanged { entity, snapshot: None }),
            None => None,
        }
    }
}

} // verus!
