//! Sampling of cubic Bezier segments.

use vstd::prelude::*;

use crate::components::effective_subdivisions;

verus! {

/// Samples a segment at `n + 1` evenly spaced parameters, both endpoints
/// included, where `n` is `subdivisions` but at least one.
///
/// `eval(i, n)` evaluates the segment at parameter `i / n`; sample `i` is
/// what it returned for `(i, n)`.
pub fn sample_cubic_bezier<P, E: Fn(u32, u32) -> P>(subdivisions: u32, eval: E) -> (samples: Vec<P>)
    requires
        forall|i: u32, n: u32| eval.requires((i, n)),
    ensures
        samples@.len() == effective_subdivisions(subdivisions) + 1,
        subdivisions == 0 ==> samples@.len() == 2,
        subdivisions != 0 ==> samples@.len() == subdivisions + 1,
        samples@.len() >= 2,
        call_ensures(eval, (0u32, effective_subdivisions(subdivisions)), samples@[0]),
        call_ensures(
            eval,
            (effective_subdivisions(subdivisions), effective_subdivisions(subdivisions)),
            samples@[samples@.len() - 1],
        ),
        forall|i: int|
            0 <= i < samples@.len() ==> call_ensures(
                eval,
                (i as u32, effective_subdivisions(subdivisions)),
                #[trigger] samples@[i],
            ),
{
    let n: u32 = if subdivisions == 0 {
        1
    } else {
        subdivisions
    };
    let mut samples: Vec<P> = Vec::new();
    let mut i: u32 = 0;
    loop
        invariant_except_break
            i <= n,
            samples@.len() == i,
        invariant
            n == effective_subdivisions(subdivisions),
            forall|i: u32, n: u32| eval.requires((i, n)),
            forall|k: int|
                0 <= k < samples@.len() ==> call_ensures(eval, (k as u32, n), #[trigger] samples@[k]),
        ensures
            samples@.len() == n + 1,
            forall|k: int|
                0 <= k < samples@.len() ==> call_ensures(eval, (k as u32, n), #[trigger] samples@[k]),
        decreases n - i,
    {
        samples.push(eval(i, n));
        if i == n {
            break;
        }
        i = i + 1;
    }
    samples
}

/// A snapshot's sampling density is already effective: sampling a segment
/// with the snapshot's `subdivisions` gives as many samples, at the same
/// parameters, as sampling it with the path's own `subdivisions`.
pub proof fn lemma_snapshot_density_is_stable(subdivisions: u32)
    ensures
        effective_subdivisions(effective_subdivisions(subdivisions)) == effective_subdivisions(
            subdivisions,
        ),
        effective_subdivisions(subdivisions) >= 1,
        subdivisions == 0 ==> effective_subdivisions(subdivisions) == 1,
        subdivisions != 0 ==> effective_subdivisions(subdivisions) == subdivisions,
{
}

} // verus!
