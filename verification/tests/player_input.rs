use carcinisation::attack_input::{step_player_attack, AttackFrame, AttackInputState};
use carcinisation::attacks::{attack_definition, AttackAnimationFinish, AttackCollisionMode, AttackFrameTransition, AttackLayer, AttackRenderSpace, AttackSpriteAnchor, AttackCycle, AttackHitPolicy, AttackHitTracker, AttackId, AttackLoadout};
use carcinisation::geometry::IVec2;
use carcinisation::intent::{
    resolve_intent, ChordPhase, PlayerIntent, RawButtons, SelectChordState, MELEE_GRACE_WINDOW_NS,
};

const MS: u64 = 1_000_000;

fn no_buttons() -> RawButtons {
    RawButtons {
        select_just_pressed: false,
        a_just_pressed: false,
        a_pressed: false,
        a_just_released: false,
        b_pressed: false,
    }
}

fn select_just_pressed() -> RawButtons {
    RawButtons { select_just_pressed: true, ..no_buttons() }
}

fn a_just_pressed() -> RawButtons {
    RawButtons { a_just_pressed: true, a_pressed: true, ..no_buttons() }
}

fn a_just_released() -> RawButtons {
    RawButtons { a_just_released: true, ..no_buttons() }
}

fn a_held_select_just_pressed() -> RawButtons {
    RawButtons { select_just_pressed: true, a_pressed: true, ..no_buttons() }
}

fn resolve(buttons: RawButtons, now_ns: u64, chord: &mut SelectChordState) -> PlayerIntent {
    resolve_intent(buttons, now_ns, chord)
}

#[test]
fn a_alone_resolves_to_shoot_never_melee() {
    let mut chord = SelectChordState::new();
    let intent = resolve(a_just_pressed(), 0, &mut chord);
    assert!(intent.shoot_just_pressed);
    assert!(intent.shoot_held);
    assert!(!intent.melee_triggered);
    assert!(!intent.item_select_triggered);
}

#[test]
fn select_then_a_within_grace_resolves_to_melee() {
    let mut chord = SelectChordState::new();
    let intent = resolve(select_just_pressed(), 0, &mut chord);
    assert!(!intent.melee_triggered);
    assert!(!intent.item_select_triggered);
    assert_eq!(chord.phase, ChordPhase::GraceWindow { since: 0 });

    let intent = resolve(a_just_pressed(), 40 * MS, &mut chord);
    assert!(intent.melee_triggered);
    assert!(!intent.shoot_just_pressed);
    assert_eq!(chord.phase, ChordPhase::SuppressingA);
}

#[test]
fn select_alone_resolves_to_item_select_after_grace() {
    let mut chord = SelectChordState::new();
    resolve(select_just_pressed(), 0, &mut chord);
    let intent = resolve(no_buttons(), 100 * MS, &mut chord);
    assert!(intent.item_select_triggered);
    assert!(!intent.melee_triggered);
    assert_eq!(chord.phase, ChordPhase::Idle);
}

#[test]
fn a_held_then_select_resolves_to_immediate_melee() {
    let mut chord = SelectChordState::new();
    let intent = resolve(a_held_select_just_pressed(), 0, &mut chord);
    assert!(intent.melee_triggered);
    assert!(!intent.shoot_just_pressed);
    assert!(!intent.item_select_triggered);
    assert_eq!(chord.phase, ChordPhase::SuppressingA);
}

#[test]
fn melee_suppresses_shoot_release() {
    let mut chord = SelectChordState::new();
    let intent = resolve(a_held_select_just_pressed(), 0, &mut chord);
    assert!(intent.melee_triggered);

    let intent = resolve(a_just_released(), 16 * MS, &mut chord);
    assert!(!intent.shoot_just_released);
    assert!(!intent.shoot_just_pressed);
    assert!(!intent.melee_triggered);
    assert_eq!(chord.phase, ChordPhase::Idle);
}

#[test]
fn melee_suppresses_item_select() {
    let mut chord = SelectChordState::new();
    let intent = resolve(select_just_pressed(), 0, &mut chord);
    assert!(!intent.item_select_triggered);

    let intent = resolve(a_just_pressed(), 20 * MS, &mut chord);
    assert!(intent.melee_triggered);
    assert!(!intent.item_select_triggered);
}

#[test]
fn a_after_grace_window_is_normal_shoot() {
    let mut chord = SelectChordState::new();
    resolve(select_just_pressed(), 0, &mut chord);
    let intent = resolve(no_buttons(), 100 * MS, &mut chord);
    assert!(intent.item_select_triggered);

    let intent = resolve(a_just_pressed(), 150 * MS, &mut chord);
    assert!(intent.shoot_just_pressed);
    assert!(!intent.melee_triggered);
}

#[test]
fn b_held_sets_slow_modifier() {
    let buttons = RawButtons { b_pressed: true, ..no_buttons() };
    let mut chord = SelectChordState::new();
    let intent = resolve(buttons, 0, &mut chord);
    assert!(intent.slow_modifier);
}

#[test]
fn b_not_held_clears_slow_modifier() {
    let mut chord = SelectChordState::new();
    let intent = resolve(no_buttons(), 0, &mut chord);
    assert!(!intent.slow_modifier);
}

#[test]
fn rapid_melee_chaining_with_select_retap() {
    let mut chord = SelectChordState::new();
    let intent = resolve(a_held_select_just_pressed(), 0, &mut chord);
    assert!(intent.melee_triggered);
    assert_eq!(chord.phase, ChordPhase::SuppressingA);

    let intent = resolve(a_held_select_just_pressed(), 500 * MS, &mut chord);
    assert!(intent.melee_triggered);
}

#[test]
fn grace_window_holds_back_a_signals() {
    let mut chord = SelectChordState::new();
    resolve(select_just_pressed(), 0, &mut chord);

    let held = RawButtons { a_pressed: true, ..no_buttons() };
    let intent = resolve(held, 10 * MS, &mut chord);
    assert!(!intent.shoot_held);
    assert!(!intent.shoot_just_pressed);
}

#[test]
fn grace_window_boundary_is_exclusive() {
    let mut chord = SelectChordState::new();
    resolve(select_just_pressed(), 1_000, &mut chord);
    let intent = resolve(no_buttons(), 1_000 + MELEE_GRACE_WINDOW_NS, &mut chord);
    assert!(!intent.item_select_triggered);
    assert_eq!(chord.phase, ChordPhase::GraceWindow { since: 1_000 });
    let intent = resolve(no_buttons(), 1_001 + MELEE_GRACE_WINDOW_NS, &mut chord);
    assert!(intent.item_select_triggered);
}

#[test]
fn attack_cycle_wraps() {
    let mut cycle = AttackCycle::new(vec![AttackId::Pistol, AttackId::Bomb]);
    assert_eq!(cycle.current(), AttackId::Pistol);
    assert_eq!(cycle.cycle(), AttackId::Bomb);
    assert_eq!(cycle.cycle(), AttackId::Pistol);
}

#[test]
fn pistol_has_5_point_cross_hit_offsets() {
    let pistol = attack_definition(AttackId::Pistol);
    assert_eq!(pistol.hit_offsets.len(), 5, "pistol should have 5 hit points");
    assert!(pistol.hit_offsets.contains(&IVec2::new(0, 0)), "centre point must be included");
    assert!(pistol.hit_offsets.contains(&IVec2::new(1, 0)), "right");
    assert!(pistol.hit_offsets.contains(&IVec2::new(-1, 0)), "left");
    assert!(pistol.hit_offsets.contains(&IVec2::new(0, 1)), "up");
    assert!(pistol.hit_offsets.contains(&IVec2::new(0, -1)), "down");
}

#[test]
fn non_pistol_attacks_have_empty_offsets() {
    for id in [AttackId::Pincer, AttackId::MachineGun, AttackId::Bomb, AttackId::BombExplosion] {
        let def = attack_definition(id);
        assert!(def.hit_offsets.is_empty(), "{id:?} should have empty hit_offsets");
    }
}

#[test]
fn pistol_cross_offsets_are_adjacent_pixels() {
    let pistol = attack_definition(AttackId::Pistol);
    for offset in &pistol.hit_offsets {
        let manhattan = offset.x.abs() + offset.y.abs();
        assert!(manhattan <= 1, "offset {offset:?} should be within 1 Manhattan distance");
    }
}

#[test]
fn default_loadout_cycles_back_after_a_full_turn() {
    let mut loadout = AttackLoadout::default_loadout();
    let first = loadout.current();
    let mut seen = vec![first];
    loop {
        let next = loadout.cycle();
        if next == first {
            break;
        }
        seen.push(next);
        assert!(seen.len() < 10);
    }
    assert_eq!(loadout.current(), first);
}

const SEC: u64 = 1_000_000_000;

#[test]
fn hit_tracker_single_hits_once() {
    let mut tracker = AttackHitTracker::new();
    let target = 1;
    assert!(tracker.can_hit(target, AttackHitPolicy::Single));
    tracker.register_hit(target, AttackHitPolicy::Single);
    assert!(!tracker.can_hit(target, AttackHitPolicy::Single));
}

#[test]
fn hit_tracker_repeat_respects_cooldown() {
    let mut tracker = AttackHitTracker::new();
    let target = 2;
    let policy = AttackHitPolicy::Repeat { cooldown_ns: 500 * MS, repeat_damage: 1 };

    assert!(tracker.can_hit(target, policy));
    tracker.register_hit(target, policy);
    assert!(!tracker.can_hit(target, policy));
    tracker.tick(490 * MS);
    assert!(!tracker.can_hit(target, policy));
    tracker.tick(20 * MS);
    assert!(tracker.can_hit(target, policy));
}

#[test]
fn hit_tracker_keeps_targets_apart_and_inherits() {
    let mut tracker = AttackHitTracker::new();
    let policy = AttackHitPolicy::Repeat { cooldown_ns: 100, repeat_damage: 1 };
    tracker.register_hit(7, policy);
    assert!(tracker.has_hit(7));
    assert!(!tracker.has_hit(8));
    assert!(tracker.can_hit(8, policy));
    tracker.inherit_hit(7, 8);
    assert!(tracker.has_hit(8));
    assert!(!tracker.can_hit(8, policy));
    tracker.inherit_hit(9, 10);
    assert!(!tracker.has_hit(10));
    // A single hit never cools down.
    tracker.register_hit(11, AttackHitPolicy::Single);
    tracker.tick(u64::MAX);
    assert!(!tracker.can_hit(11, policy));
    assert!(tracker.can_hit(7, policy));
}

fn intent() -> PlayerIntent {
    PlayerIntent {
        slow_modifier: false,
        shoot_just_pressed: false,
        shoot_held: false,
        shoot_just_released: false,
        melee_triggered: false,
        item_select_triggered: false,
    }
}

#[test]
fn pistol_fires_on_release_only() {
    let mut loadout = AttackLoadout::default_loadout();
    let mut input = AttackInputState::new();

    let press = PlayerIntent { shoot_just_pressed: true, shoot_held: true, ..intent() };
    let frame = step_player_attack(&press, false, true, &mut loadout, &mut input, 0);
    assert_eq!(frame, AttackFrame { melee: false, hold_shot: None, release_shot: None });
    assert!(input.armed);

    let hold = PlayerIntent { shoot_held: true, ..intent() };
    let frame = step_player_attack(&hold, false, true, &mut loadout, &mut input, SEC);
    assert_eq!(frame.hold_shot, None);

    let release = PlayerIntent { shoot_just_released: true, ..intent() };
    let frame = step_player_attack(&release, false, true, &mut loadout, &mut input, SEC);
    assert_eq!(frame.release_shot, Some(AttackId::Pistol));
    assert!(!input.armed);
}

#[test]
fn machine_gun_fires_while_held_after_warmup_then_at_interval() {
    let mut loadout = AttackLoadout { cycle: AttackCycle::new(vec![AttackId::MachineGun]) };
    let mut input = AttackInputState::new();
    let press = PlayerIntent { shoot_just_pressed: true, shoot_held: true, ..intent() };
    let hold = PlayerIntent { shoot_held: true, ..intent() };

    assert_eq!(step_player_attack(&press, false, true, &mut loadout, &mut input, 0).hold_shot, None);
    assert_eq!(step_player_attack(&hold, false, true, &mut loadout, &mut input, 179 * MS).hold_shot, None);
    assert_eq!(step_player_attack(&hold, false, true, &mut loadout, &mut input, 180 * MS).hold_shot, Some(AttackId::MachineGun));
    assert_eq!(step_player_attack(&hold, false, true, &mut loadout, &mut input, 259 * MS).hold_shot, None);
    assert_eq!(step_player_attack(&hold, false, true, &mut loadout, &mut input, 260 * MS).hold_shot, Some(AttackId::MachineGun));
    // An active attack blocks the next shot.
    assert_eq!(step_player_attack(&hold, true, true, &mut loadout, &mut input, 400 * MS).hold_shot, None);

    // Releasing after held shots fires nothing more.
    let release = PlayerIntent { shoot_just_released: true, ..intent() };
    let frame = step_player_attack(&release, false, true, &mut loadout, &mut input, 500 * MS);
    assert_eq!(frame.release_shot, None);
    assert!(!input.armed);

    // A tap shorter than the warmup fires on release.
    step_player_attack(&press, false, true, &mut loadout, &mut input, SEC);
    let frame = step_player_attack(&release, false, true, &mut loadout, &mut input, SEC + 50 * MS);
    assert_eq!(frame.release_shot, Some(AttackId::MachineGun));
}

#[test]
fn melee_chord_spawns_pincer_and_disarms() {
    let mut loadout = AttackLoadout::default_loadout();
    let mut input = AttackInputState::new();
    let press = PlayerIntent { shoot_just_pressed: true, shoot_held: true, ..intent() };
    step_player_attack(&press, false, true, &mut loadout, &mut input, 0);

    let melee = PlayerIntent { melee_triggered: true, ..intent() };
    let frame = step_player_attack(&melee, false, true, &mut loadout, &mut input, 10);
    assert!(frame.melee);
    assert!(!input.armed);
    assert!(!step_player_attack(&melee, true, true, &mut loadout, &mut input, 20).melee);
    assert!(!step_player_attack(&melee, false, false, &mut loadout, &mut input, 30).melee);
}

#[test]
fn item_select_cycles_before_firing() {
    let mut loadout = AttackLoadout::default_loadout();
    let mut input = AttackInputState::new();
    let select = PlayerIntent { item_select_triggered: true, ..intent() };
    step_player_attack(&select, false, true, &mut loadout, &mut input, 0);
    assert_eq!(loadout.current(), AttackId::Bomb);

    let press = PlayerIntent { shoot_just_pressed: true, shoot_held: true, ..intent() };
    step_player_attack(&press, false, true, &mut loadout, &mut input, 0);
    let release = PlayerIntent { shoot_just_released: true, ..intent() };
    let frame = step_player_attack(&release, false, true, &mut loadout, &mut input, 10);
    assert_eq!(frame.release_shot, Some(AttackId::Bomb));
}

#[test]
fn attack_input_arm_mark_and_clear() {
    let mut input = AttackInputState::new();
    input.arm(40 * MS);
    assert!(input.armed);
    assert_eq!(input.pressed_at_ns, 40 * MS);
    assert_eq!(input.last_hold_fire_at_ns, None);
    assert!(!input.hold_fired);

    input.mark_hold_fired(250 * MS);
    assert!(input.hold_fired);
    assert_eq!(input.last_hold_fire_at_ns, Some(250 * MS));
    assert_eq!(input.pressed_at_ns, 40 * MS);
    assert!(input.armed);

    input.arm(300 * MS);
    assert_eq!(input.last_hold_fire_at_ns, None);
    assert!(!input.hold_fired);

    input.clear();
    assert_eq!(input, AttackInputState::new());
}

#[test]
fn attack_collision_modes_and_sprite_timings() {
    let expected = [
        (AttackId::Pincer, AttackCollisionMode::SpriteMask, 9, 500),
        (AttackId::Pistol, AttackCollisionMode::Point, 4, 80),
        (AttackId::MachineGun, AttackCollisionMode::Point, 4, 80),
        (AttackId::Bomb, AttackCollisionMode::SpriteMask, 1, 200),
        (AttackId::BombExplosion, AttackCollisionMode::Radial { radius: 5 }, 4, 500),
    ];
    for (id, collision, frames, speed_ms) in expected {
        let def = attack_definition(id);
        assert_eq!(def.collision, collision, "{id:?}");
        assert_eq!(def.sprite.frames, frames, "{id:?}");
        assert_eq!(def.sprite.speed_ms, speed_ms, "{id:?}");
    }
    assert_eq!(attack_definition(AttackId::Pincer).sprite.sprite_path, "sprites/melee_slash.px_sprite.png");
}

#[test]
fn attack_names_sounds_and_sprite_presentation() {
    let expected = [
        (AttackId::Pincer, "Pincer", Some("audio/sfx/player_melee.ogg"), AttackAnimationFinish::Despawn, AttackRenderSpace::Camera),
        (AttackId::Pistol, "Pistol", Some("audio/sfx/player_shot.ogg"), AttackAnimationFinish::Despawn, AttackRenderSpace::Camera),
        (AttackId::MachineGun, "Machine Gun", Some("audio/sfx/player_shot.ogg"), AttackAnimationFinish::Despawn, AttackRenderSpace::Camera),
        (AttackId::Bomb, "Bomb", None, AttackAnimationFinish::Loop, AttackRenderSpace::World),
        (AttackId::BombExplosion, "Bomb Explosion", Some("audio/sfx/bomb_explode.ogg"), AttackAnimationFinish::Despawn, AttackRenderSpace::World),
    ];
    for (id, name, sfx, finish, canvas) in expected {
        let def = attack_definition(id);
        assert_eq!(def.name, name);
        assert_eq!(def.sfx_path, sfx);
        assert_eq!(def.sprite.finish_behavior, finish, "{id:?}");
        assert_eq!(def.sprite.canvas, canvas, "{id:?}");
        assert_eq!(def.sprite.frame_transition, AttackFrameTransition::NoTransition);
        assert_eq!(def.sprite.anchor, AttackSpriteAnchor::Center);
        assert_eq!(def.sprite.layer, AttackLayer::Attack);
    }
    assert_eq!(attack_definition(AttackId::Bomb).sprite.sprite_path, "sprites/pickups/bomb_6.px_sprite.png");
    assert_eq!(attack_definition(AttackId::Pistol).sprite.sprite_path, "sprites/bullet_particles.px_sprite.png");
}
