//! The player's fire-button state machine: each frame the resolved intent
//! cycles the loadout, triggers the melee pincer, arms the fire button, and
//! fires the current attack while held or on release. Times are stage-clock
//! nanoseconds; positions, spread and throw arcs are left to the caller.

use crate::attacks::{AttackId, AttackInputPolicy, AttackLoadout, spec_input_policy, attack_definition};
use crate::intent::PlayerIntent;
use vstd::prelude::*;

verus! {

/// What the fire button has armed.
#[derive(Clone, Copy, Debug, PartialEq, Eq, Structural)]
pub struct AttackInputState {
    pub armed: bool,
    pub pressed_at_ns: u64,
    pub last_hold_fire_at_ns: Option<u64>,
    pub hold_fired: bool,
}

/// The attacks spawned this frame.
#[derive(Clone, Copy, Debug, PartialEq, Eq, Structural)]
pub struct AttackFrame {
    /// The melee pincer.
    pub melee: bool,
    /// A shot of the held attack, at the player.
    pub hold_shot: Option<AttackId>,
    /// A shot on release (a bomb flies from where the button was pressed).
    pub release_shot: Option<AttackId>,
}

pub open spec fn disarmed() -> AttackInputState {
    AttackInputState { armed: false, pressed_at_ns: 0, last_hold_fire_at_ns: None, hold_fired: false }
}

impl AttackInputState {
    pub fn new() -> (r: AttackInputState)
        ensures
            r == disarmed(),
    {
        AttackInputState { armed: false, pressed_at_ns: 0, last_hold_fire_at_ns: None, hold_fired: false }
    }

    /// Arms the button as pressed at `now_ns`, with no held shot yet.
    pub fn arm(&mut self, now_ns: u64)
        ensures
            *final(self) == armed_at(now_ns),
    {
        self.armed = true;
        self.pressed_at_ns = now_ns;
        self.last_hold_fire_at_ns = None;
        self.hold_fired = false;
    }

    /// Disarms the button and forgets the press.
    pub fn clear(&mut self)
        ensures
            *final(self) == disarmed(),
    {
        self.armed = false;
        self.last_hold_fire_at_ns = None;
        self.hold_fired = false;
        self.pressed_at_ns = 0;
    }

    /// Records a held shot fired at `now_ns`; the press stays as it was.
    pub fn mark_hold_fired(&mut self, now_ns: u64)
        ensures
            *final(self) == (AttackInputState { hold_fired: true, last_hold_fire_at_ns: Some(now_ns), ..*old(self) }),
    {
        self.hold_fired = true;
        self.last_hold_fire_at_ns = Some(now_ns);
    }
}

/// The button freshly pressed at `now`.
pub open spec fn armed_at(now: u64) -> AttackInputState {
    AttackInputState { armed: true, pressed_at_ns: now, last_hold_fire_at_ns: None, hold_fired: false }
}

/// `now` is at least `span` after `since`.
pub open spec fn at_least_after(since: u64, now: u64, span: u64) -> bool {
    now >= since && now - since >= span
}

/// Whether a held attack fires at `now`: it must be held, no attack be
/// active, the warmup be over since the press, and the interval since the
/// last held shot.
pub open spec fn hold_fires(intent: PlayerIntent, active: bool, input: AttackInputState, policy: AttackInputPolicy, now: u64) -> bool {
    match policy {
        AttackInputPolicy::Hold { warmup_ns, interval_ns } => {
            &&& intent.shoot_held
            &&& !active
            &&& at_least_after(input.pressed_at_ns, now, warmup_ns)
            &&& match input.last_hold_fire_at_ns {
                None => true,
                Some(last) => at_least_after(last, now, interval_ns),
            }
        },
        AttackInputPolicy::Release => false,
    }
}

/// One frame of the fire button, after the loadout has been cycled:
/// `current` is the selected attack. The melee chord spawns the pincer (when
/// none is active and the player exists) and disarms; otherwise a fresh
/// press arms, a held attack fires after its warmup and then at its
/// interval, and a release fires a release attack (or a held one that never
/// fired) and disarms; letting go without a release also disarms.
pub open spec fn spec_attack_step(
    intent: PlayerIntent,
    active: bool,
    has_player: bool,
    current: AttackId,
    input: AttackInputState,
    now: u64,
) -> (AttackFrame, AttackInputState) {
    let none = AttackFrame { melee: false, hold_shot: None, release_shot: None };
    if intent.melee_triggered {
        (AttackFrame { melee: !active && has_player, ..none }, disarmed())
    } else {
        let armed_input = if !input.armed && intent.shoot_just_pressed {
            armed_at(now)
        } else {
            input
        };
        if !armed_input.armed {
            (none, armed_input)
        } else {
            let policy = spec_input_policy(current);
            let held = hold_fires(intent, active, armed_input, policy, now) && has_player;
            let after_hold = if held {
                AttackInputState { hold_fired: true, last_hold_fire_at_ns: Some(now), ..armed_input }
            } else {
                armed_input
            };
            let hold_shot = if held {
                Some(current)
            } else {
                None
            };
            if intent.shoot_just_released {
                let should_fire = match policy {
                    AttackInputPolicy::Release => true,
                    AttackInputPolicy::Hold { .. } => !after_hold.hold_fired,
                };
                let release_shot = if should_fire && !active && has_player {
                    Some(current)
                } else {
                    None
                };
                (AttackFrame { melee: false, hold_shot, release_shot }, disarmed())
            } else if !intent.shoot_held {
                (AttackFrame { hold_shot, ..none }, disarmed())
            } else {
                (AttackFrame { hold_shot, ..none }, after_hold)
            }
        }
    }
}

/// The selected attack of a loadout view.
pub open spec fn selected(view: (Seq<AttackId>, int)) -> AttackId {
    view.0[view.1]
}

/// Item select reaches the fire button only when neither melee nor arming
/// leaves it idle: the loadout must hold an attack once the button is armed.
pub open spec fn needs_selection(intent: PlayerIntent, input: AttackInputState) -> bool {
    !intent.melee_triggered && (input.armed || intent.shoot_just_pressed)
}

/// Handles one frame of player attack input: item select cycles the
/// loadout first, then the fire button steps as [`spec_attack_step`] says.
pub fn step_player_attack(
    intent: &PlayerIntent,
    attack_active: bool,
    has_player: bool,
    loadout: &mut AttackLoadout,
    input: &mut AttackInputState,
    now_ns: u64,
) -> (r: AttackFrame)
    requires
        needs_selection(*intent, *old(input)) ==> old(loadout).cycle@.0.len() > 0,
    ensures
        final(loadout).cycle@.0 == old(loadout).cycle@.0,
        final(loadout).cycle@.1 == if intent.item_select_triggered && old(loadout).cycle@.0.len() > 0 {
            (old(loadout).cycle@.1 + 1) % (old(loadout).cycle@.0.len() as int)
        } else {
            old(loadout).cycle@.1
        },
        (r, *final(input)) == spec_attack_step(
            *intent,
            attack_active,
            has_player,
            selected(final(loadout).cycle@),
            *old(input),
            now_ns,
        ),
{
    if intent.item_select_triggered {
        loadout.cycle();
    }
    let none = AttackFrame { melee: false, hold_shot: None, release_shot: None };
    if intent.melee_triggered {
        input.clear();
        return AttackFrame { melee: !attack_active && has_player, ..none };
    }
    if !input.armed && intent.shoot_just_pressed {
        input.arm(now_ns);
    }
    if !input.armed {
        return none;
    }
    let current = loadout.current();
    let policy = attack_definition(current).input_policy;
    let mut hold_shot: Option<AttackId> = None;
    match policy {
        AttackInputPolicy::Hold { warmup_ns, interval_ns } => {
            let warmed = now_ns >= input.pressed_at_ns && now_ns - input.pressed_at_ns >= warmup_ns;
            let can_fire = match input.last_hold_fire_at_ns {
                None => true,
                Some(last) => now_ns >= last && now_ns - last >= interval_ns,
            };
            if intent.shoot_held && !attack_active && warmed && can_fire && has_player {
                hold_shot = Some(current);
                input.mark_hold_fired(now_ns);
            }
        },
        AttackInputPolicy::Release => {},
    }
    if intent.shoot_just_released {
        let should_fire = match policy {
            AttackInputPolicy::Release => true,
            AttackInputPolicy::Hold { .. } => !input.hold_fired,
        };
        let release_shot = if should_fire && !attack_active && has_player {
            Some(current)
        } else {
            None
        };
        input.clear();
        AttackFrame { melee: false, hold_shot, release_shot }
    } else {
        if !intent.shoot_held {
            input.clear();
        }
        AttackFrame { hold_shot, ..none }
    }
}

/// The melee chord never fires a ranged shot, and it always leaves the fire
/// button disarmed.
pub proof fn lemma_melee_frame_fires_no_shot(
    intent: PlayerIntent,
    active: bool,
    has_player: bool,
    current: AttackId,
    input: AttackInputState,
    now: u64,
)
    requires
        intent.melee_triggered,
    ensures
        ({
            let (frame, after) = spec_attack_step(intent, active, has_player, current, input, now);
            frame.hold_shot is None && frame.release_shot is None && !after.armed
        }),
{
}

/// Nothing spawns while an attack is still active.
pub proof fn lemma_no_spawn_while_active(
    intent: PlayerIntent,
    has_player: bool,
    current: AttackId,
    input: AttackInputState,
    now: u64,
)
    ensures
        ({
            let frame = spec_attack_step(intent, true, has_player, current, input, now).0;
            !frame.melee && frame.hold_shot is None && frame.release_shot is None
        }),
{
}

} // verus!
