//! Part-local hit feedback: a brief blink alternating an inverted and a
//! regular phase, distinct from the longer whole-entity damage flicker.

use super::damage::{ComposedPartStates, PartEntry, PartGameplayState, PartHitBlinkState};
use crate::keyed::{find_keyed_str, first_keyed};
use vstd::prelude::*;

verus! {

/// Length of one blink phase in milliseconds.
pub const COMPOSED_PART_HIT_BLINK_PHASE_MS: u64 = 60;

/// Invert phases after the initial flash: invert, regular, invert, regular, invert.
pub const COMPOSED_PART_HIT_BLINK_INVERT_CYCLES: u8 = 2;

/// The blink at time `now`: whole phases that have elapsed are left, and the
/// blink ends after a regular phase with no invert cycles left.
pub open spec fn spec_blink_at(b: PartHitBlinkState, now: u64) -> Option<PartHitBlinkState>
    decreases now - b.phase_started_at_ms,
{
    if now < b.phase_started_at_ms + COMPOSED_PART_HIT_BLINK_PHASE_MS {
        Some(b)
    } else {
        let started = (b.phase_started_at_ms + COMPOSED_PART_HIT_BLINK_PHASE_MS) as u64;
        if b.showing_invert {
            spec_blink_at(PartHitBlinkState { phase_started_at_ms: started, showing_invert: false, ..b }, now)
        } else if b.remaining_invert_cycles == 0 {
            None
        } else {
            spec_blink_at(
                PartHitBlinkState {
                    phase_started_at_ms: started,
                    showing_invert: true,
                    remaining_invert_cycles: (b.remaining_invert_cycles - 1) as u8,
                },
                now,
            )
        }
    }
}

/// Blink times stay clear of the end of the clock.
pub open spec fn blink_time_ok(now: u64) -> bool {
    now <= u64::MAX - COMPOSED_PART_HIT_BLINK_PHASE_MS
}

/// Advances one blink to `now`.
pub fn advance_hit_blink(blink: PartHitBlinkState, now_ms: u64) -> (r: Option<PartHitBlinkState>)
    requires
        blink_time_ok(now_ms),
        blink_time_ok(blink.phase_started_at_ms),
    ensures
        r == spec_blink_at(blink, now_ms),
{
    let mut b = blink;
    loop
        invariant
            blink_time_ok(now_ms),
            blink_time_ok(b.phase_started_at_ms),
            spec_blink_at(blink, now_ms) == spec_blink_at(b, now_ms),
        decreases now_ms - b.phase_started_at_ms,
    {
        if now_ms < b.phase_started_at_ms + COMPOSED_PART_HIT_BLINK_PHASE_MS {
            return Some(b);
        }
        b.phase_started_at_ms = b.phase_started_at_ms + COMPOSED_PART_HIT_BLINK_PHASE_MS;
        if b.showing_invert {
            b.showing_invert = false;
        } else if b.remaining_invert_cycles == 0 {
            return None;
        } else {
            b.remaining_invert_cycles = b.remaining_invert_cycles - 1;
            b.showing_invert = true;
        }
    }
}

/// Every blinking part has a blink start clear of the end of the clock.
pub open spec fn blinks_time_ok(parts: Seq<PartEntry>) -> bool {
    forall|k: int|
        0 <= k < parts.len() ==> match (#[trigger] parts[k]).state.hit_blink {
            Some(b) => blink_time_ok(b.phase_started_at_ms),
            None => true,
        }
}

pub open spec fn advanced_blink(b: Option<PartHitBlinkState>, now: u64) -> Option<PartHitBlinkState> {
    match b {
        Some(x) => spec_blink_at(x, now),
        None => None,
    }
}

/// Advances every part's blink to `now`, clearing finished ones; nothing else changes.
pub fn advance_part_hit_blinks(part_states: &mut ComposedPartStates, now_ms: u64)
    requires
        blink_time_ok(now_ms),
        blinks_time_ok(old(part_states).parts@),
    ensures
        final(part_states).parts@.len() == old(part_states).parts@.len(),
        forall|k: int|
            0 <= k < old(part_states).parts@.len() ==> #[trigger] final(part_states).parts@[k]
                == (PartEntry {
                state: PartGameplayState {
                    hit_blink: advanced_blink(old(part_states).parts@[k].state.hit_blink, now_ms),
                    ..old(part_states).parts@[k].state
                },
                ..old(part_states).parts@[k]
            }),
{
    let n = part_states.parts.len();
    for i in 0..n
        invariant
            n == part_states.parts.len(),
            n == old(part_states).parts@.len(),
            blink_time_ok(now_ms),
            blinks_time_ok(old(part_states).parts@),
            forall|k: int|
                i <= k < n ==> #[trigger] part_states.parts@[k] == old(part_states).parts@[k],
            forall|k: int|
                0 <= k < i ==> #[trigger] part_states.parts@[k] == (PartEntry {
                    state: PartGameplayState {
                        hit_blink: advanced_blink(old(part_states).parts@[k].state.hit_blink, now_ms),
                        ..old(part_states).parts@[k].state
                    },
                    ..old(part_states).parts@[k]
                }),
    {
        let next = match part_states.parts[i].state.hit_blink {
            Some(b) => advance_hit_blink(b, now_ms),
            None => None,
        };
        part_states.parts[i].state.hit_blink = next;
    }
}

/// Part `e` with its blink advanced to `now`.
pub open spec fn entry_blink_advanced(e: PartEntry, now: u64) -> PartEntry {
    PartEntry {
        state: PartGameplayState { hit_blink: advanced_blink(e.state.hit_blink, now), ..e.state },
        ..e
    }
}

/// The time a composed enemy's animation is resolved at: a dying enemy stays
/// on the moment its death began, so it keeps its last pose.
pub open spec fn spec_animation_clock(dying_started_ms: Option<u64>, now_ms: u64) -> u64 {
    match dying_started_ms {
        Some(started) => started,
        None => now_ms,
    }
}

/// Starts a composed enemy's visual update: returns the time its animation
/// is resolved at, and advances its part hit blinks to `now` unless it is
/// dying (`dying_started_ms` is when its death began), when the blinks stay
/// frozen as they are.
pub fn begin_composed_visual_update(
    part_states: &mut ComposedPartStates,
    dying_started_ms: Option<u64>,
    now_ms: u64,
) -> (r: u64)
    requires
        dying_started_ms is None ==> blink_time_ok(now_ms) && blinks_time_ok(old(part_states).parts@),
    ensures
        r == spec_animation_clock(dying_started_ms, now_ms),
        final(part_states).parts@ == match dying_started_ms {
            Some(_) => old(part_states).parts@,
            None => old(part_states).parts@.map_values(|e: PartEntry| entry_blink_advanced(e, now_ms)),
        },
{
    match dying_started_ms {
        Some(started) => started,
        None => {
            advance_part_hit_blinks(part_states, now_ms);
            assert(part_states.parts@ =~= old(part_states).parts@.map_values(
                |e: PartEntry| entry_blink_advanced(e, now_ms),
            ));
            now_ms
        },
    }
}

/// The blink a fresh hit starts at `now`.
pub open spec fn fresh_blink(now: u64) -> PartHitBlinkState {
    PartHitBlinkState {
        phase_started_at_ms: now,
        showing_invert: true,
        remaining_invert_cycles: COMPOSED_PART_HIT_BLINK_INVERT_CYCLES,
    }
}

/// Starts a hit blink on `part_id` at `now`; unknown and broken parts are left
/// alone. Returns whether a blink was started.
pub fn start_part_hit_blink(part_states: &mut ComposedPartStates, part_id: &str, now_ms: u64) -> (r:
    bool)
    ensures
        match first_keyed(old(part_states).parts@, part_id@) {
            Some(i) => if old(part_states).parts@[i].state.broken {
                !r && final(part_states).parts@ == old(part_states).parts@
            } else {
                r && final(part_states).parts@ == old(part_states).parts@.update(
                    i,
                    PartEntry {
                        state: PartGameplayState {
                            hit_blink: Some(fresh_blink(now_ms)),
                            ..old(part_states).parts@[i].state
                        },
                        ..old(part_states).parts@[i]
                    },
                )
            },
            None => !r && final(part_states).parts@ == old(part_states).parts@,
        },
{
    match find_keyed_str(&part_states.parts, part_id) {
        Some(i) => {
            if part_states.parts[i].state.broken {
                return false;
            }
            part_states.parts[i].state.hit_blink = Some(
                PartHitBlinkState {
                    phase_started_at_ms: now_ms,
                    showing_invert: true,
                    remaining_invert_cycles: COMPOSED_PART_HIT_BLINK_INVERT_CYCLES,
                },
            );
            true
        },
        None => false,
    }
}

/// The blink is active and its inverted flag is `inverted`.
pub open spec fn blink_shows(o: Option<PartHitBlinkState>, inverted: bool) -> bool {
    match o {
        Some(b) => b.showing_invert == inverted,
        None => false,
    }
}

/// A fresh hit blink shows inverted for the 1st, 3rd and 5th 60 ms phase and
/// regular in between (a 300 ms window), then one regular phase, and is
/// cleared 360 ms after the hit.
pub proof fn lemma_hit_blink_window(t: u64, now: u64)
    requires
        t <= now,
        blink_time_ok(now),
    ensures
        now < t + 60 ==> blink_shows(spec_blink_at(fresh_blink(t), now), true),
        t + 60 <= now < t + 120 ==> blink_shows(spec_blink_at(fresh_blink(t), now), false),
        t + 120 <= now < t + 180 ==> blink_shows(spec_blink_at(fresh_blink(t), now), true),
        t + 180 <= now < t + 240 ==> blink_shows(spec_blink_at(fresh_blink(t), now), false),
        t + 240 <= now < t + 300 ==> blink_shows(spec_blink_at(fresh_blink(t), now), true),
        t + 300 <= now < t + 360 ==> blink_shows(spec_blink_at(fresh_blink(t), now), false),
        t + 360 <= now ==> spec_blink_at(fresh_blink(t), now) is None,
{
    reveal_with_fuel(spec_blink_at, 7);
}

} // verus!
