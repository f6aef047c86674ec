use carcinisation::enemy::EnemyType;
use carcinisation::enemy::composed_enemy_asset_base_path;
use carcinisation::behavior::{plan_behavior_refill, EnemyBehaviors, QueueRefill};
use std::collections::VecDeque;
use carcinisation::composed::model::ComposedAnimationOverride;
use carcinisation::enemy::overrides_equal;
use carcinisation::composed::model::ComposedAnimationState;
use carcinisation::depth::Depth;
use carcinisation::enemy::{
    mosquito_animation_for, spidey_animation_for, EnemyMosquitoAnimation, EnemySpideyAnimation, EnemyStepKind,
    MosquitoClip, mosquito_starts_ranged_attack,
    apply_mosquiton_animation_state, choose_mosquiton_pattern, mosquito_attack_cooldown_ready,
    mosquito_attack_presentation_finished, mosquiton_animation_for, EnemyMosquitoAttack,
    EnemyMosquiton, EnemyMosquitonAnimation, EnemySpidey, EnemyTardigrade, MosquitonPattern,
    ENEMY_MOSQUITO_ATTACK_COOLDOWN_NS, ENEMY_MOSQUITO_DEATH_LINGER_NS,
    ENEMY_MOSQUITO_RANGED_PRESENTATION_NS, MOSQUITON_WING_PART_TAG, TAG_FALLING, TAG_IDLE_FLY,
    TAG_IDLE_STAND, TAG_MELEE_FLY, TAG_SHOOT_FLY,
};

const MS: u64 = 1_000_000;
const SEC: u64 = 1_000_000_000;

#[test]
fn mosquito_attack_waits_for_full_cooldown() {
    let cooldown = ENEMY_MOSQUITO_ATTACK_COOLDOWN_NS;
    assert!(!mosquito_attack_cooldown_ready(0, cooldown - MS));
    assert!(mosquito_attack_cooldown_ready(0, cooldown));
}

#[test]
fn mosquito_attack_uses_last_attack_timestamp_as_absolute_time() {
    let last_attack_started = 5 * SEC;
    assert!(!mosquito_attack_cooldown_ready(
        last_attack_started,
        last_attack_started + ENEMY_MOSQUITO_ATTACK_COOLDOWN_NS - MS,
    ));
    assert!(mosquito_attack_cooldown_ready(
        last_attack_started,
        last_attack_started + ENEMY_MOSQUITO_ATTACK_COOLDOWN_NS,
    ));
}

#[test]
fn mosquito_attack_waits_for_idle_entry_even_when_stage_elapsed_is_large() {
    let idle_started = 29 * SEC;
    let stage_elapsed = 30 * SEC;
    assert!(!mosquito_attack_cooldown_ready(idle_started, stage_elapsed));
    assert!(mosquito_attack_cooldown_ready(
        idle_started,
        idle_started + ENEMY_MOSQUITO_ATTACK_COOLDOWN_NS,
    ));
}

#[test]
fn mosquito_ranged_presentation_clears_after_short_hold() {
    let attack_started = 3 * SEC;
    let presentation = ENEMY_MOSQUITO_RANGED_PRESENTATION_NS;
    assert!(!mosquito_attack_presentation_finished(attack_started, attack_started + presentation - 1));
    assert!(mosquito_attack_presentation_finished(attack_started, attack_started + presentation));
}

#[test]
fn mosquito_death_linger_is_at_least_two_seconds() {
    assert!(ENEMY_MOSQUITO_DEATH_LINGER_NS >= 2 * SEC);
}

/// Patterns queued as a linear tween (approach or retreat) rather than a circle (hold).
fn is_linear_tween(pattern: MosquitonPattern) -> bool {
    matches!(pattern, MosquitonPattern::ApproachToBand | MosquitonPattern::Retreat)
}

#[test]
fn queue_empty_mosquiton_in_attack_band_chooses_hold_pattern() {
    let pattern = choose_mosquiton_pattern(Depth::Six, 0, 0);
    assert!(
        matches!(pattern, MosquitonPattern::HoldAndShoot),
        "in-band mosquitons should hold long enough to shoot"
    );
}

#[test]
fn queue_empty_mosquiton_recent_shot_deeper_than_band_still_approaches() {
    let pattern = choose_mosquiton_pattern(Depth::Seven, 4_500 * MS, 5 * SEC);
    assert!(
        is_linear_tween(pattern),
        "deep mosquitons should still approach instead of retreating farther away"
    );
}

#[test]
fn queue_empty_mosquiton_above_attack_band_chooses_approach_pattern() {
    let pattern = choose_mosquiton_pattern(Depth::Seven, 0, 0);
    assert!(
        is_linear_tween(pattern),
        "deep mosquitons should approach before they can hold/shoot"
    );
}

#[test]
fn queue_empty_mosquiton_recently_shot_at_band_edge_chooses_retreat_pattern() {
    let pattern = choose_mosquiton_pattern(Depth::Six, 3_500 * MS, 5 * SEC);
    assert!(
        is_linear_tween(pattern),
        "recently-shooting mosquitons at the band edge should retreat"
    );
}

#[test]
fn mosquitons_deeper_than_the_attack_band_approach() {
    assert_eq!(choose_mosquiton_pattern(Depth::Seven, 0, 0), MosquitonPattern::ApproachToBand);
    assert_eq!(choose_mosquiton_pattern(Depth::Eight, 0, 0), MosquitonPattern::ApproachToBand);
    assert_eq!(choose_mosquiton_pattern(Depth::Nine, 4_500 * MS, 5 * SEC), MosquitonPattern::ApproachToBand);
}

#[test]
fn mosquiton_at_the_band_edge_retreats_right_after_a_shot() {
    assert_eq!(choose_mosquiton_pattern(Depth::Six, 3_500 * MS, 5 * SEC), MosquitonPattern::Retreat);
    assert_eq!(choose_mosquiton_pattern(Depth::Six, 0, 5 * SEC), MosquitonPattern::HoldAndShoot);
    assert_eq!(choose_mosquiton_pattern(Depth::Five, 3_500 * MS, 5 * SEC), MosquitonPattern::HoldAndShoot);
}

#[test]
fn mosquiton_retreat_window_ends_after_one_point_six_seconds() {
    assert_eq!(choose_mosquiton_pattern(Depth::Six, 1 * SEC, 2_600 * MS), MosquitonPattern::Retreat);
    assert_eq!(
        choose_mosquiton_pattern(Depth::Six, 1 * SEC, 2_600 * MS + 1),
        MosquitonPattern::HoldAndShoot
    );
    assert_eq!(choose_mosquiton_pattern(Depth::Four, 1 * SEC, 2 * SEC), MosquitonPattern::HoldAndShoot);
}

#[test]
fn idle_spawn_state_requests_idle_fly() {
    let (animation, tag) = mosquiton_animation_for(false, false, true, None).expect("animation should be assigned");
    let mut state = ComposedAnimationState::new(TAG_SHOOT_FLY.to_string());
    apply_mosquiton_animation_state(&mut state, tag);
    assert_eq!(animation, EnemyMosquitonAnimation::IdleFly);
    assert_eq!(state.requested_tag, TAG_IDLE_FLY);
}

#[test]
fn ranged_attack_stays_visible_until_presentation_window_finishes() {
    let mut state = ComposedAnimationState::new(TAG_IDLE_FLY.to_string());
    let mut attack = Some(EnemyMosquitoAttack::Ranged);
    let last_attack_started = 0;

    let mut step = |now: u64, attack: &mut Option<EnemyMosquitoAttack>, state: &mut ComposedAnimationState| {
        if attack.is_some() && mosquito_attack_presentation_finished(last_attack_started, now) {
            *attack = None;
        }
        let (animation, tag) = mosquiton_animation_for(false, false, true, *attack).unwrap();
        apply_mosquiton_animation_state(state, tag);
        animation
    };

    let animation = step(0, &mut attack, &mut state);
    assert_eq!(animation, EnemyMosquitonAnimation::ShootFly);
    assert_eq!(state.requested_tag, TAG_SHOOT_FLY);

    step(SEC, &mut attack, &mut state);
    assert_eq!(state.requested_tag, TAG_SHOOT_FLY);
    assert!(matches!(attack, Some(EnemyMosquitoAttack::Ranged)));

    step(1_500 * MS, &mut attack, &mut state);
    assert_eq!(state.requested_tag, TAG_IDLE_FLY);
    assert!(attack.is_none());
}

#[test]
fn wingless_mosquiton_falls_then_stands() {
    assert_eq!(
        mosquiton_animation_for(true, false, true, Some(EnemyMosquitoAttack::Melee)),
        Some((EnemyMosquitonAnimation::Falling, TAG_FALLING))
    );
    assert_eq!(
        mosquiton_animation_for(true, true, false, None),
        Some((EnemyMosquitonAnimation::Falling, TAG_IDLE_STAND))
    );
    assert_eq!(mosquiton_animation_for(false, false, false, None), None);
    assert_eq!(
        mosquiton_animation_for(false, false, true, Some(EnemyMosquitoAttack::Melee)),
        Some((EnemyMosquitonAnimation::MeleeFly, TAG_MELEE_FLY))
    );
}

#[test]
fn flying_tags_get_the_wing_override_and_others_none() {
    let mut state = ComposedAnimationState::new(TAG_IDLE_FLY.to_string());
    apply_mosquiton_animation_state(&mut state, TAG_MELEE_FLY);
    assert_eq!(state.requested_tag, TAG_MELEE_FLY);
    assert_eq!(state.part_overrides.len(), 1);
    assert_eq!(state.part_overrides[0].tag, TAG_IDLE_FLY);
    assert_eq!(state.part_overrides[0].selector.part_tags, vec![MOSQUITON_WING_PART_TAG.to_string()]);
    assert!(state.part_overrides[0].selector.part_ids.is_empty());

    apply_mosquiton_animation_state(&mut state, TAG_FALLING);
    assert_eq!(state.requested_tag, TAG_FALLING);
    assert!(state.part_overrides.is_empty());
}

#[test]
fn kill_scores_per_species() {
    assert_eq!(EnemyMosquiton.kill_score(), 10);
    assert_eq!(EnemySpidey.kill_score(), 8);
    assert_eq!(EnemyTardigrade.kill_score(), 7);
}

#[test]
fn mosquito_animation_follows_attack_then_step() {
    assert_eq!(
        mosquito_animation_for(Some(EnemyMosquitoAttack::Melee), EnemyStepKind::Idle),
        (EnemyMosquitoAnimation::Attack, MosquitoClip::MeleeAttack)
    );
    assert_eq!(
        mosquito_animation_for(Some(EnemyMosquitoAttack::Ranged), EnemyStepKind::Circle),
        (EnemyMosquitoAnimation::Attack, MosquitoClip::Fly)
    );
    assert_eq!(mosquito_animation_for(None, EnemyStepKind::Attack), (EnemyMosquitoAnimation::Attack, MosquitoClip::Fly));
    assert_eq!(mosquito_animation_for(None, EnemyStepKind::Idle), (EnemyMosquitoAnimation::Idle, MosquitoClip::Fly));
    for step in [EnemyStepKind::Circle, EnemyStepKind::LinearTween, EnemyStepKind::Jump] {
        assert_eq!(mosquito_animation_for(None, step), (EnemyMosquitoAnimation::Fly, MosquitoClip::Fly));
    }
}

#[test]
fn spidey_jump_holds_its_last_frame_then_lands() {
    assert_eq!(spidey_animation_for(false, EnemyStepKind::Jump, true), (EnemySpideyAnimation::Jump, true));
    assert_eq!(spidey_animation_for(false, EnemyStepKind::Jump, false), (EnemySpideyAnimation::Landing, false));
    assert_eq!(spidey_animation_for(true, EnemyStepKind::Jump, true), (EnemySpideyAnimation::Shoot, false));
    assert_eq!(spidey_animation_for(false, EnemyStepKind::Idle, true), (EnemySpideyAnimation::Lounge, false));
    assert_eq!(spidey_animation_for(false, EnemyStepKind::Circle, true), (EnemySpideyAnimation::Idle, false));
}

#[test]
fn idle_mosquito_shoots_once_its_cooldown_has_passed() {
    let cooldown = ENEMY_MOSQUITO_ATTACK_COOLDOWN_NS;
    // Anchored on the later of the last attack and the behaviour start.
    assert!(!mosquito_starts_ranged_attack(false, EnemyStepKind::Idle, false, Depth::Three, 2 * SEC, 5 * SEC, 5 * SEC + cooldown - 1));
    assert!(mosquito_starts_ranged_attack(false, EnemyStepKind::Idle, false, Depth::Three, 2 * SEC, 5 * SEC, 5 * SEC + cooldown));
    assert!(mosquito_starts_ranged_attack(false, EnemyStepKind::Circle, true, Depth::Seven, 0, 0, cooldown));
    // Already attacking, moving, or a Mosquiton too deep to shoot.
    assert!(!mosquito_starts_ranged_attack(true, EnemyStepKind::Idle, false, Depth::Three, 0, 0, 10 * SEC));
    assert!(!mosquito_starts_ranged_attack(false, EnemyStepKind::LinearTween, false, Depth::Three, 0, 0, 10 * SEC));
    assert!(!mosquito_starts_ranged_attack(false, EnemyStepKind::Jump, false, Depth::Three, 0, 0, 10 * SEC));
    assert!(!mosquito_starts_ranged_attack(false, EnemyStepKind::Attack, true, Depth::Eight, 0, 0, 10 * SEC));
    assert!(mosquito_starts_ranged_attack(false, EnemyStepKind::Attack, false, Depth::Eight, 0, 0, 10 * SEC));
}

#[test]
fn override_lists_compare_by_content_and_order() {
    let wing = || ComposedAnimationOverride::for_part_tags("idle_fly".to_string(), vec!["wing".to_string()]);
    let leg = || ComposedAnimationOverride::for_part_tags("idle_fly".to_string(), vec!["leg".to_string()]);
    let sprite_only =
        || ComposedAnimationOverride::for_part_tags_sprite_only("idle_fly".to_string(), vec!["wing".to_string()]);
    assert!(overrides_equal(&vec![wing(), leg()], &vec![wing(), leg()]));
    assert!(overrides_equal(&Vec::new(), &Vec::new()));
    assert!(!overrides_equal(&vec![wing(), leg()], &vec![leg(), wing()]));
    assert!(!overrides_equal(&vec![wing()], &vec![wing(), leg()]));
    assert!(!overrides_equal(&vec![wing()], &vec![sprite_only()]));
}

/// Stand-in for a behaviour step.
#[derive(Clone, Copy, Debug, PartialEq)]
enum Step {
    Idle,
    Jump,
    Circle,
}

#[test]
fn queue_empty_non_mosquiton_still_falls_back_to_idle() {
    assert_eq!(plan_behavior_refill(false, true, false, false, Depth::Six, 0, 0), Some(QueueRefill::Keep));
    let mut behaviors = EnemyBehaviors(VecDeque::<Step>::new());
    assert_eq!(behaviors.next_step(Step::Idle), Step::Idle);
    assert!(behaviors.0.is_empty());
}

#[test]
fn next_step_takes_the_front_of_the_queue() {
    let mut behaviors = EnemyBehaviors(VecDeque::from(vec![Step::Jump, Step::Circle]));
    assert_eq!(behaviors.next_step(Step::Idle), Step::Jump);
    assert_eq!(behaviors.next_step(Step::Idle), Step::Circle);
    assert_eq!(behaviors.next_step(Step::Idle), Step::Idle);
}

#[test]
fn falling_enemy_gets_no_behaviour_until_it_lands() {
    assert_eq!(plan_behavior_refill(true, true, true, false, Depth::Six, 0, 0), None);
    assert_eq!(plan_behavior_refill(true, false, false, true, Depth::Six, 0, 0), None);
}

#[test]
fn empty_queues_refill_by_species() {
    assert_eq!(
        plan_behavior_refill(false, true, true, false, Depth::Seven, 0, 0),
        Some(QueueRefill::Mosquiton(MosquitonPattern::ApproachToBand))
    );
    assert_eq!(
        plan_behavior_refill(false, true, true, false, Depth::Six, 3_500 * MS, 5 * SEC),
        Some(QueueRefill::Mosquiton(MosquitonPattern::Retreat))
    );
    assert_eq!(plan_behavior_refill(false, true, false, true, Depth::Three, 0, 0), Some(QueueRefill::SpideyLoop));
    assert_eq!(plan_behavior_refill(false, false, true, true, Depth::Three, 0, 0), Some(QueueRefill::Keep));
}

#[test]
fn composed_asset_paths_name_species_and_lane() {
    assert_eq!(
        composed_enemy_asset_base_path(EnemyType::Mosquiton, Depth::Three),
        "sprites/enemies/mosquiton_3/atlas"
    );
    assert_eq!(composed_enemy_asset_base_path(EnemyType::Spidey, Depth::Zero), "sprites/enemies/spidey_0/atlas");
    assert_eq!(composed_enemy_asset_base_path(EnemyType::Kyle, Depth::Nine), "sprites/enemies/kyle_9/atlas");
}
