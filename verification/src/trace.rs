//! The integrator's per-ray decision: which primitive the path continues at,
//! or whether it falls through to the miss color.
//!
//! The scan policy is deliberate and must be kept as stated: the first
//! primitive in scene order that reports a hit wins, even if a later one is
//! geometrically closer, and the primitive the ray just left is excluded by
//! identity (its index) rather than by an epsilon offset. When the bounce
//! budget is exhausted the path falls through to the miss color on the single
//! shared termination path, whatever material was hit.

use vstd::prelude::*;

verus! {

/// Primitive `i` would continue the path: it reported a hit and it is not the
/// primitive the ray just left.
pub open spec fn candidate(hits: Seq<bool>, skip: Option<usize>, i: int) -> bool {
    0 <= i < hits.len() && hits[i] && skip != Some(i as usize)
}

/// Index of the first candidate at or after `from` in scene order, if any.
pub open spec fn first_candidate_from(hits: Seq<bool>, skip: Option<usize>, from: int) -> Option<
    int,
>
    decreases hits.len() - from,
{
    if from < 0 || from >= hits.len() {
        None
    } else if hits[from] && skip != Some(from as usize) {
        Some(from)
    } else {
        first_candidate_from(hits, skip, from + 1)
    }
}

/// Index of the first candidate in scene order, if any.
pub open spec fn first_candidate(hits: Seq<bool>, skip: Option<usize>) -> Option<int> {
    first_candidate_from(hits, skip, 0)
}

/// The first candidate is a candidate, no earlier candidate exists, and a
/// `None` scan means there is no candidate at all.
pub proof fn lemma_first_candidate(hits: Seq<bool>, skip: Option<usize>, from: int)
    requires
        0 <= from <= hits.len(),
    ensures
        first_candidate_from(hits, skip, from) matches Some(i) ==> from <= i && candidate(
            hits,
            skip,
            i,
        ) && forall|j: int| from <= j < i ==> !candidate(hits, skip, j),
        first_candidate_from(hits, skip, from) is None ==> forall|j: int|
            from <= j < hits.len() ==> !candidate(hits, skip, j),
    decreases hits.len() - from,
{
    if from < hits.len() {
        lemma_first_candidate(hits, skip, from + 1);
    }
}

/// What the integrator does next with one ray.
#[derive(Clone, Copy, Debug, PartialEq, Eq, Structural)]
pub enum TraceAction {
    /// No primitive continues the path: evaluate the miss color (the sky
    /// gradient) for the ray as it reached this depth.
    Miss,
    /// Scatter off the primitive at `shape` and recurse with `remaining`
    /// bounces, excluding `shape` from the next scan.
    Bounce {
        /// Index, in scene order, of the primitive the path continues at.
        shape: usize,
        /// Bounce budget left for the continued path.
        remaining: usize,
    },
}

/// The integrator's decision as a function of the scan results and the
/// remaining bounce budget.
pub open spec fn spec_trace_step(hits: Seq<bool>, skip: Option<usize>, bounces: nat) -> TraceAction {
    if bounces == 0 {
        TraceAction::Miss
    } else {
        match first_candidate(hits, skip) {
            None => TraceAction::Miss,
            Some(i) => TraceAction::Bounce { shape: i as usize, remaining: (bounces - 1) as usize },
        }
    }
}

/// A path never continues at the primitive it just left: with `skip` set to
/// the last primitive's index, no decision bounces off that index again,
/// whatever the scan results and the budget.
pub proof fn lemma_no_immediate_self_intersection(hits: Seq<bool>, s: usize, bounces: nat)
    ensures
        !(spec_trace_step(hits, Some(s), bounces) matches TraceAction::Bounce { shape, .. }
            && shape == s),
{
    lemma_first_candidate(hits, Some(s), 0);
}

/// Decides the next step of one ray path.
///
/// `hits[i]` says whether primitive `i` of the scene reports a hit for the
/// current ray; `skip` is the index of the primitive the ray just left, if
/// any; `bounces` is the remaining bounce budget. The first candidate in
/// scene order wins; with the budget at zero every path — hit or not, and
/// whatever the material — falls through to the miss color.
pub fn trace_step(hits: &Vec<bool>, skip: Option<usize>, bounces: usize) -> (r: TraceAction)
    ensures
        r == spec_trace_step(hits@, skip, bounces as nat),
        bounces == 0 ==> r == TraceAction::Miss,
        r matches TraceAction::Bounce { shape, remaining } ==> candidate(hits@, skip, shape as int)
            && remaining == bounces - 1 && forall|j: int|
            0 <= j < shape ==> !candidate(hits@, skip, j),
        r == TraceAction::Miss ==> bounces == 0 || forall|j: int| !candidate(hits@, skip, j),
{
    proof {
        lemma_first_candidate(hits@, skip, 0);
    }
    if bounces == 0 {
        return TraceAction::Miss;
    }
    let n = hits.len();
    let mut i: usize = 0;
    while i < n
        invariant
            n == hits@.len(),
            i <= n,
            1 <= bounces,
            first_candidate(hits@, skip) == first_candidate_from(hits@, skip, i as int),
        decreases n - i,
    {
        let considered = match skip {
            Some(s) => s != i,
            None => true,
        };
        if considered && hits[i] {
            proof {
                lemma_first_candidate(hits@, skip, 0);
            }
            return TraceAction::Bounce { shape: i, remaining: bounces - 1 };
        }
        i = i + 1;
    }
    proof {
        lemma_first_candidate(hits@, skip, 0);
    }
    TraceAction::Miss
}

} // verus!
