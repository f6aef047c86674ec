//! The behaviour queue of an enemy: the steps it will perform in turn, and
//! what refills it when it runs empty. A step itself (its movement and
//! timing) is the caller's type.

use crate::depth::Depth;
use crate::enemy::{choose_mosquiton_pattern, spec_mosquiton_pattern, MosquitonPattern};
use std::collections::VecDeque;
use vstd::prelude::*;

verus! {

/// The steps an enemy will perform, front first.
pub struct EnemyBehaviors<S>(pub VecDeque<S>);

impl<S> EnemyBehaviors<S> {
    /// Takes the front step; with an empty queue the enemy gets `fallback`
    /// (an idle step) and the queue stays empty.
    pub fn next_step(&mut self, fallback: S) -> (r: S)
        ensures
            old(self).0@.len() > 0 ==> r == old(self).0@[0] && final(self).0@ == old(self).0@.drop_first(),
            old(self).0@.len() == 0 ==> r == fallback && final(self).0@ == old(self).0@,
    {
        match self.0.pop_front() {
            Some(step) => step,
            None => fallback,
        }
    }
}

/// What refills an enemy's empty behaviour queue.
#[derive(Clone, Copy, Debug, PartialEq, Eq, Structural)]
pub enum QueueRefill {
    /// The queue is left as it is.
    Keep,
    /// A Mosquiton gets the pattern its lane and last shot call for.
    Mosquiton(MosquitonPattern),
    /// A Spidey starts its behaviour loop over.
    SpideyLoop,
}

/// The refill decision for an enemy without a current behaviour: `None`
/// while it is falling to the ground (it gets no step until it lands);
/// otherwise a Mosquiton with an empty queue gets its pattern, then a Spidey
/// with a loop and an empty queue gets its loop, and anything else keeps its
/// queue.
pub open spec fn spec_behavior_refill(
    grounded_fall: bool,
    queue_empty: bool,
    is_mosquiton: bool,
    has_spidey_loop: bool,
    depth: Depth,
    last_attack_started: u64,
    now: u64,
) -> Option<QueueRefill> {
    if grounded_fall {
        None
    } else if is_mosquiton && queue_empty {
        Some(QueueRefill::Mosquiton(spec_mosquiton_pattern(depth, last_attack_started, now)))
    } else if has_spidey_loop && queue_empty {
        Some(QueueRefill::SpideyLoop)
    } else {
        Some(QueueRefill::Keep)
    }
}

/// Decides how the behaviour queue of an enemy without a current behaviour
/// is refilled before its next step is taken (times are stage-clock
/// nanoseconds).
pub fn plan_behavior_refill(
    grounded_fall: bool,
    queue_empty: bool,
    is_mosquiton: bool,
    has_spidey_loop: bool,
    depth: Depth,
    last_attack_started_ns: u64,
    now_ns: u64,
) -> (r: Option<QueueRefill>)
    ensures
        r == spec_behavior_refill(
            grounded_fall,
            queue_empty,
            is_mosquiton,
            has_spidey_loop,
            depth,
            last_attack_started_ns,
            now_ns,
        ),
{
    if grounded_fall {
        None
    } else if is_mosquiton && queue_empty {
        Some(QueueRefill::Mosquiton(choose_mosquiton_pattern(depth, last_attack_started_ns, now_ns)))
    } else if has_spidey_loop && queue_empty {
        Some(QueueRefill::SpideyLoop)
    } else {
        Some(QueueRefill::Keep)
    }
}

/// A falling enemy is given no behaviour; a queue that still holds steps is
/// never refilled.
pub proof fn lemma_refill_only_when_empty_and_grounded(
    grounded_fall: bool,
    queue_empty: bool,
    is_mosquiton: bool,
    has_spidey_loop: bool,
    depth: Depth,
    last_attack_started: u64,
    now: u64,
)
    ensures
        grounded_fall ==> spec_behavior_refill(
            grounded_fall,
            queue_empty,
            is_mosquiton,
            has_spidey_loop,
            depth,
            last_attack_started,
            now,
        ) is None,
        !grounded_fall && !queue_empty ==> spec_behavior_refill(
            grounded_fall,
            queue_empty,
            is_mosquiton,
            has_spidey_loop,
            depth,
            last_attack_started,
            now,
        ) == Some(QueueRefill::Keep),
{
}

/// An empty queue of a grounded enemy is refilled by species: a Mosquiton's
/// with the pattern its lane and last shot call for (deeper than lane six it
/// approaches), otherwise a Spidey's with its loop, otherwise not at all.
pub proof fn lemma_empty_queue_refill_by_species(
    is_mosquiton: bool,
    has_spidey_loop: bool,
    depth: Depth,
    last_attack_started: u64,
    now: u64,
)
    ensures
        ({
            let r = spec_behavior_refill(false, true, is_mosquiton, has_spidey_loop, depth, last_attack_started, now);
            &&& is_mosquiton ==> (r matches Some(QueueRefill::Mosquiton(p)) && (depth.spec_to_i8() > 6 ==> p
                == MosquitonPattern::ApproachToBand))
            &&& !is_mosquiton && has_spidey_loop ==> r == Some(QueueRefill::SpideyLoop)
            &&& !is_mosquiton && !has_spidey_loop ==> r == Some(QueueRefill::Keep)
        }),
{
}

} // verus!
