//! Player input resolution: raw button state to semantic player actions.
//!
//! The chord resolver tells Select+A (melee) apart from Select alone (item
//! select) with a short grace window. Times are stage-clock nanoseconds.

use vstd::prelude::*;

verus! {

/// Grace window for Select+A melee chord detection (80 ms).
pub const MELEE_GRACE_WINDOW_NS: u64 = 80_000_000;

/// Discrete actions resolved for one frame.
#[derive(Clone, Copy, Debug, PartialEq, Eq, Structural)]
pub struct PlayerIntent {
    /// The slow-movement modifier (B held).
    pub slow_modifier: bool,
    /// A pressed outside any chord context.
    pub shoot_just_pressed: bool,
    /// A held, outside any chord context.
    pub shoot_held: bool,
    /// A released, outside any chord context.
    pub shoot_just_released: bool,
    /// Select+A chord resolved: melee.
    pub melee_triggered: bool,
    /// Select resolved without A: cycle the loadout.
    pub item_select_triggered: bool,
}

/// Chord disambiguation state.
#[derive(Clone, Copy, Debug, PartialEq, Eq, Structural)]
pub enum ChordPhase {
    /// No chord in progress; A is forwarded.
    Idle,
    /// Select was pressed at `since`; waiting for A or the timeout. A is held back.
    GraceWindow { since: u64 },
    /// Melee resolved; the current A press/release cycle is swallowed.
    SuppressingA,
}

/// The chord resolver's persistent state.
#[derive(Clone, Copy, Debug, PartialEq, Eq, Structural)]
pub struct SelectChordState {
    pub phase: ChordPhase,
}

/// Raw button states of one frame.
#[derive(Clone, Copy, Debug, PartialEq, Eq, Structural)]
pub struct RawButtons {
    pub select_just_pressed: bool,
    pub a_just_pressed: bool,
    pub a_pressed: bool,
    pub a_just_released: bool,
    pub b_pressed: bool,
}

impl PlayerIntent {
    pub open spec fn spec_none() -> PlayerIntent {
        PlayerIntent {
            slow_modifier: false,
            shoot_just_pressed: false,
            shoot_held: false,
            shoot_just_released: false,
            melee_triggered: false,
            item_select_triggered: false,
        }
    }

    /// No action.
    pub fn none() -> (r: PlayerIntent)
        ensures
            r == PlayerIntent::spec_none(),
    {
        PlayerIntent {
            slow_modifier: false,
            shoot_just_pressed: false,
            shoot_held: false,
            shoot_just_released: false,
            melee_triggered: false,
            item_select_triggered: false,
        }
    }
}

impl SelectChordState {
    pub fn new() -> (r: SelectChordState)
        ensures
            r.phase == ChordPhase::Idle,
    {
        SelectChordState { phase: ChordPhase::Idle }
    }
}

/// The grace window opened at `since` has expired at `now`.
pub open spec fn grace_expired(since: u64, now: u64) -> bool {
    now > since && now - since > MELEE_GRACE_WINDOW_NS
}

/// One frame of chord resolution: the next phase and the resolved intent.
pub open spec fn spec_resolve_intent(b: RawButtons, now: u64, phase: ChordPhase) -> (ChordPhase, PlayerIntent) {
    let base = PlayerIntent { slow_modifier: b.b_pressed, ..PlayerIntent::spec_none() };
    match phase {
        ChordPhase::Idle => if b.select_just_pressed {
            if b.a_pressed {
                (ChordPhase::SuppressingA, PlayerIntent { melee_triggered: true, ..base })
            } else {
                (ChordPhase::GraceWindow { since: now }, base)
            }
        } else {
            (
                ChordPhase::Idle,
                PlayerIntent {
                    shoot_just_pressed: b.a_just_pressed,
                    shoot_held: b.a_pressed,
                    shoot_just_released: b.a_just_released,
                    ..base
                },
            )
        },
        ChordPhase::GraceWindow { since } => if b.a_just_pressed {
            (ChordPhase::SuppressingA, PlayerIntent { melee_triggered: true, ..base })
        } else if grace_expired(since, now) {
            (ChordPhase::Idle, PlayerIntent { item_select_triggered: true, ..base })
        } else {
            (phase, base)
        },
        ChordPhase::SuppressingA => {
            let next = if b.a_just_released || !b.a_pressed {
                ChordPhase::Idle
            } else {
                ChordPhase::SuppressingA
            };
            (next, PlayerIntent { melee_triggered: b.select_just_pressed && b.a_pressed, ..base })
        },
    }
}

/// Resolves one frame of raw buttons into the player's intent.
pub fn resolve_intent(buttons: RawButtons, now_ns: u64, chord: &mut SelectChordState) -> (r: PlayerIntent)
    ensures
        (final(chord).phase, r) == spec_resolve_intent(buttons, now_ns, old(chord).phase),
{
    let mut intent = PlayerIntent::none();
    intent.slow_modifier = buttons.b_pressed;
    match chord.phase {
        ChordPhase::Idle => {
            if buttons.select_just_pressed {
                if buttons.a_pressed {
                    intent.melee_triggered = true;
                    chord.phase = ChordPhase::SuppressingA;
                } else {
                    chord.phase = ChordPhase::GraceWindow { since: now_ns };
                }
            } else {
                intent.shoot_just_pressed = buttons.a_just_pressed;
                intent.shoot_held = buttons.a_pressed;
                intent.shoot_just_released = buttons.a_just_released;
            }
        },
        ChordPhase::GraceWindow { since } => {
            if buttons.a_just_pressed {
                intent.melee_triggered = true;
                chord.phase = ChordPhase::SuppressingA;
            } else if now_ns > since && now_ns - since > MELEE_GRACE_WINDOW_NS {
                intent.item_select_triggered = true;
                chord.phase = ChordPhase::Idle;
            }
        },
        ChordPhase::SuppressingA => {
            if buttons.a_just_released || !buttons.a_pressed {
                chord.phase = ChordPhase::Idle;
            }
            if buttons.select_just_pressed && buttons.a_pressed {
                intent.melee_triggered = true;
            }
        },
    }
    intent
}

/// Melee and ranged never fire from the same A press: a frame that triggers
/// melee forwards no shot, and after a melee the released A is swallowed.
pub proof fn lemma_melee_never_shoots(b: RawButtons, now: u64, phase: ChordPhase)
    ensures
        spec_resolve_intent(b, now, phase).1.melee_triggered ==> !spec_resolve_intent(
            b,
            now,
            phase,
        ).1.shoot_just_pressed && !spec_resolve_intent(b, now, phase).1.shoot_just_released
            && !spec_resolve_intent(b, now, phase).1.shoot_held,
        phase == ChordPhase::SuppressingA ==> !spec_resolve_intent(b, now, phase).1.shoot_just_released,
{
}

/// A frame never triggers both melee and item select.
pub proof fn lemma_melee_excludes_item_select(b: RawButtons, now: u64, phase: ChordPhase)
    ensures
        !(spec_resolve_intent(b, now, phase).1.melee_triggered && spec_resolve_intent(
            b,
            now,
            phase,
        ).1.item_select_triggered),
{
}

/// While the grace window is open, A is not forwarded as a shot.
pub proof fn lemma_grace_window_holds_back_a(b: RawButtons, now: u64, since: u64)
    ensures
        ({
            let i = spec_resolve_intent(b, now, ChordPhase::GraceWindow { since }).1;
            !i.shoot_just_pressed && !i.shoot_held && !i.shoot_just_released
        }),
{
}

/// Outside any chord, A reaches the attacks unchanged: with no Select press
/// in the idle phase, the phase stays idle, A's press, hold and release are
/// forwarded as they are, B is the slow modifier, and neither melee nor
/// item select fires.
pub proof fn lemma_idle_forwards_a(b: RawButtons, now: u64)
    requires
        !b.select_just_pressed,
    ensures
        ({
            let (next, i) = spec_resolve_intent(b, now, ChordPhase::Idle);
            &&& next == ChordPhase::Idle
            &&& i.shoot_just_pressed == b.a_just_pressed
            &&& i.shoot_held == b.a_pressed
            &&& i.shoot_just_released == b.a_just_released
            &&& i.slow_modifier == b.b_pressed
            &&& !i.melee_triggered
            &&& !i.item_select_triggered
        }),
{
}


/// The Select+A chord, frame by frame. From idle, Select with A already held
/// is an immediate melee that swallows A until it is let go; Select alone
/// opens an 80 ms grace window. In the window, an A press is a melee, and
/// once more than 80 ms have passed with no A the press becomes an item
/// select; nothing is forwarded as a shot meanwhile. While A is swallowed,
/// Select tapped again with A held is another melee, and releasing A ends it.
pub proof fn lemma_select_chord(b: RawButtons, now: u64, since: u64)
    ensures
        b.select_just_pressed && b.a_pressed ==> spec_resolve_intent(b, now, ChordPhase::Idle) == (
        ChordPhase::SuppressingA,
        PlayerIntent { melee_triggered: true, slow_modifier: b.b_pressed, ..PlayerIntent::spec_none() },
        ),
        b.select_just_pressed && !b.a_pressed ==> spec_resolve_intent(b, now, ChordPhase::Idle) == (
        ChordPhase::GraceWindow { since: now },
        PlayerIntent { slow_modifier: b.b_pressed, ..PlayerIntent::spec_none() },
        ),
        ({
            let (next, i) = spec_resolve_intent(b, now, ChordPhase::GraceWindow { since });
            &&& b.a_just_pressed ==> next == ChordPhase::SuppressingA && i.melee_triggered
            &&& !b.a_just_pressed && now > since + 80_000_000 ==> next == ChordPhase::Idle
                && i.item_select_triggered && !i.melee_triggered
            &&& !b.a_just_pressed && now <= since + 80_000_000 ==> next == (ChordPhase::GraceWindow {
                since,
            }) && !i.item_select_triggered && !i.melee_triggered
        }),
        ({
            let (next, i) = spec_resolve_intent(b, now, ChordPhase::SuppressingA);
            &&& (next == ChordPhase::Idle) <==> (b.a_just_released || !b.a_pressed)
            &&& next != ChordPhase::Idle ==> next == ChordPhase::SuppressingA
            &&& i.melee_triggered <==> (b.select_just_pressed && b.a_pressed)
            &&& !i.shoot_just_pressed && !i.shoot_held && !i.item_select_triggered
        }),
{
}

} // verus!
