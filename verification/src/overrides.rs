//! Authored stage settings that carry forward: a value set on one stage step
//! stays in force on the later steps until another step sets its own, and of
//! several floor spans that cover one lane the later one decides.

use crate::depth::Depth;
use vstd::prelude::*;

verus! {

/// The last index at or before `i` whose element satisfies `p`.
pub open spec fn last_match<A>(s: Seq<A>, i: int, p: spec_fn(A) -> bool) -> Option<int>
    decreases i + 1,
{
    if i < 0 {
        None
    } else if p(s[i]) {
        Some(i)
    } else {
        last_match(s, i - 1, p)
    }
}

/// An element that satisfies `p` with none after it up to `i` is the last match.
pub proof fn lemma_last_match_is_latest<A>(s: Seq<A>, i: int, p: spec_fn(A) -> bool, j: int)
    requires
        0 <= j <= i,
        p(s[j]),
        forall|k: int| j < k <= i ==> !p(#[trigger] s[k]),
    ensures
        last_match(s, i, p) == Some(j),
    decreases i - j,
{
    if i > j {
        lemma_last_match_is_latest(s, i - 1, p, j);
    }
}

/// With no element up to `i` satisfying `p` there is no match.
pub proof fn lemma_last_match_none<A>(s: Seq<A>, i: int, p: spec_fn(A) -> bool)
    requires
        forall|k: int| 0 <= k <= i ==> !p(#[trigger] s[k]),
    ensures
        last_match(s, i, p) is None,
    decreases i + 1,
{
    if i >= 0 {
        lemma_last_match_none(s, i - 1, p);
    }
}

/// A match lies in `[0, i]`, satisfies `p`, and nothing after it up to `i` does.
pub proof fn lemma_last_match_found<A>(s: Seq<A>, i: int, p: spec_fn(A) -> bool)
    ensures
        match last_match(s, i, p) {
            Some(j) => 0 <= j <= i && p(s[j]) && forall|k: int| j < k <= i ==> !p(#[trigger] s[k]),
            None => forall|k: int| 0 <= k <= i ==> !p(#[trigger] s[k]),
        },
    decreases i + 1,
{
    if i >= 0 && !p(s[i]) {
        lemma_last_match_found(s, i - 1, p);
    }
}

pub open spec fn is_set<T>() -> spec_fn(Option<T>) -> bool {
    |o: Option<T>| o is Some
}

/// The step whose override is in force at `step_index`: the last step at or
/// before it that sets one (an index past the last step reads the last step).
pub open spec fn spec_override_step<T>(overrides: Seq<Option<T>>, step_index: int) -> Option<int> {
    let last = if step_index < overrides.len() {
        step_index
    } else {
        overrides.len() - 1
    };
    last_match(overrides, last, is_set::<T>())
}

/// The value in force at `step_index`, or `fallback` where no step up to it
/// sets one.
pub open spec fn spec_effective_override<T>(overrides: Seq<Option<T>>, step_index: int, fallback: T) -> T {
    match spec_override_step(overrides, step_index) {
        Some(k) => overrides[k]->0,
        None => fallback,
    }
}

/// Finds the step whose override is in force at `step_index`.
pub fn override_step<T>(overrides: &Vec<Option<T>>, step_index: usize) -> (r: Option<usize>)
    ensures
        match r {
            Some(k) => spec_override_step(overrides@, step_index as int) == Some(k as int),
            None => spec_override_step(overrides@, step_index as int) is None,
        },
{
    if overrides.len() == 0 {
        return None;
    }
    let last: usize = if step_index < overrides.len() {
        step_index
    } else {
        overrides.len() - 1
    };
    let mut i: usize = last;
    loop
        invariant
            i <= last < overrides.len(),
            last_match(overrides@, i as int, is_set::<T>()) == spec_override_step(overrides@, step_index as int),
        decreases i,
    {
        if overrides[i].is_some() {
            return Some(i);
        }
        if i == 0 {
            assert(last_match(overrides@, -1, is_set::<T>()) is None);
            return None;
        }
        i = i - 1;
    }
}

/// The value in force at `step_index`: the override of the last step at or
/// before it that sets one, else `fallback`.
pub fn effective_override<T: Copy>(overrides: &Vec<Option<T>>, step_index: usize, fallback: T) -> (r: T)
    ensures
        r == spec_effective_override(overrides@, step_index as int, fallback),
{
    match override_step(overrides, step_index) {
        Some(k) => {
            proof {
                lemma_last_match_found(
                    overrides@,
                    if step_index < overrides.len() { step_index as int } else { overrides.len() - 1 },
                    is_set::<T>(),
                );
            }
            match overrides[k] {
                Some(v) => v,
                None => fallback,
            }
        },
        None => fallback,
    }
}

/// A step that sets an override keeps it in force on every later step up to
/// the next one that sets its own.
pub proof fn lemma_override_carries_forward<T>(overrides: Seq<Option<T>>, set_at: int, step_index: int, fallback: T)
    requires
        0 <= set_at <= step_index < overrides.len(),
        overrides[set_at] is Some,
        forall|k: int| set_at < k <= step_index ==> #[trigger] overrides[k] is None,
    ensures
        spec_override_step(overrides, step_index) == Some(set_at),
        spec_effective_override(overrides, step_index, fallback) == overrides[set_at]->0,
{
    assert forall|k: int| set_at < k <= step_index implies !(is_set::<T>())(#[trigger] overrides[k]) by {}
    lemma_last_match_is_latest(overrides, step_index, is_set::<T>(), set_at);
}

/// Where no step up to `step_index` sets an override, the fallback holds.
pub proof fn lemma_no_override_falls_back<T>(overrides: Seq<Option<T>>, step_index: int, fallback: T)
    requires
        forall|k: int| 0 <= k <= step_index && k < overrides.len() ==> #[trigger] overrides[k] is None,
    ensures
        spec_override_step(overrides, step_index) is None,
        spec_effective_override(overrides, step_index, fallback) == fallback,
{
    let last = if step_index < overrides.len() {
        step_index
    } else {
        overrides.len() - 1
    };
    assert forall|k: int| 0 <= k <= last implies !(is_set::<T>())(#[trigger] overrides[k]) by {}
    lemma_last_match_none(overrides, last, is_set::<T>());
}

/// A lane range, both ends included.
pub open spec fn span_holds(span: (Depth, Depth), depth: Depth) -> bool {
    span.0.spec_to_i8() <= depth.spec_to_i8() <= span.1.spec_to_i8()
}

pub open spec fn holds_lane(depth: Depth) -> spec_fn((Depth, Depth)) -> bool {
    |span: (Depth, Depth)| span_holds(span, depth)
}

/// The span that decides a lane: the last one whose range holds it.
pub open spec fn spec_span_in_force(spans: Seq<(Depth, Depth)>, depth: Depth) -> Option<int> {
    last_match(spans, spans.len() - 1, holds_lane(depth))
}

/// Finds the span that decides `depth`: spans apply in order, so the last
/// one whose inclusive lane range holds it wins; `None` leaves the lane on
/// its baseline.
pub fn span_in_force(spans: &Vec<(Depth, Depth)>, depth: Depth) -> (r: Option<usize>)
    ensures
        match r {
            Some(k) => spec_span_in_force(spans@, depth) == Some(k as int),
            None => spec_span_in_force(spans@, depth) is None,
        },
{
    let mut i: usize = spans.len();
    loop
        invariant
            i <= spans.len(),
            last_match(spans@, i - 1, holds_lane(depth)) == spec_span_in_force(spans@, depth),
        decreases i,
    {
        if i == 0 {
            return None;
        }
        let (low, high) = spans[i - 1];
        if low.to_i8() <= depth.to_i8() && depth.to_i8() <= high.to_i8() {
            return Some(i - 1);
        }
        i = i - 1;
    }
}

/// A later span that holds a lane overrides every earlier one.
pub proof fn lemma_later_span_wins(spans: Seq<(Depth, Depth)>, depth: Depth, j: int)
    requires
        0 <= j < spans.len(),
        span_holds(spans[j], depth),
        forall|k: int| j < k < spans.len() ==> !span_holds(#[trigger] spans[k], depth),
    ensures
        spec_span_in_force(spans, depth) == Some(j),
{
    assert forall|k: int| j < k <= spans.len() - 1 implies !(holds_lane(depth))(#[trigger] spans[k]) by {}
    lemma_last_match_is_latest(spans, spans.len() - 1, holds_lane(depth), j);
}

} // verus!
