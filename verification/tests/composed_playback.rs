use carcinisation::composed::cache::CompositionAtlasCache;
use carcinisation::composed::compact::{
    CompactAnimation, CompactComposedAtlas, CompactEvent, CompactFrame, CompactGameplay,
    CompactOffset, CompactOverride, CompactPart, CompactPartGameplay, CompactPose, CompactSize,
};
use carcinisation::composed::model::{
    CachedPose, ComposedAnimationOverride, ComposedAnimationState, ComposedPartSelector,
};
use carcinisation::composed::playback::{AnimationDirection, AnimationEventKind};
use carcinisation::composed::prepare::build_runtime_cache_compact;
use carcinisation::composed::tracks::{
    requested_animation_tracks, resolve_requested_animation_frame, ComposedTrackPlaybackState,
    ResolvedAnimationFrame, TrackError,
};

fn strings(v: &[&str]) -> Vec<String> {
    v.iter().map(|s| s.to_string()).collect()
}

fn offset(x: i16, y: i16) -> CompactOffset {
    CompactOffset { x, y }
}

fn pose(p: u8, s: u8) -> CompactPose {
    CompactPose { p, s, o: offset(0, 0), fx: false, fy: false, frag: 0 }
}

fn no_gameplay() -> CompactPartGameplay {
    CompactPartGameplay {
        targetable: false,
        health_pool: None,
        armour: 0,
        durability: None,
        breakable: false,
    }
}

fn part(id: u8, parent: Option<u8>, visual: bool, draw_order: u32, tags: &[&str]) -> CompactPart {
    CompactPart {
        id,
        parent,
        visual,
        draw_order,
        pivot: offset(0, 0),
        tags: strings(tags),
        gameplay: no_gameplay(),
    }
}

fn frame(duration_ms: u32, poses: Vec<CompactPose>, events: Vec<CompactEvent>) -> CompactFrame {
    CompactFrame { duration_ms, poses, events }
}

fn animation(tag: &str, frames: Vec<CompactFrame>) -> CompactAnimation {
    CompactAnimation {
        tag: tag.to_string(),
        direction: AnimationDirection::Forward,
        repeats: None,
        frames,
        part_overrides: vec![],
    }
}

const ROOT: u8 = 0;
const BODY: u8 = 1;
const WINGS: u8 = 2;

const BODY_IDLE: u8 = 0;
const WINGS_FLAP_A: u8 = 1;
const WINGS_FLAP_B: u8 = 2;
const BODY_SHOOT: u8 = 3;
const BODY_MELEE: u8 = 4;

/// A root with a body and a wings part; idle_fly flaps the wings, shoot_fly
/// and melee_fly only author the body.
fn minimal_mixed_animation_atlas() -> CompactComposedAtlas {
    CompactComposedAtlas {
        canvas: CompactSize { w: 16, h: 16 },
        origin: offset(8, 8),
        part_names: strings(&["root", "body", "wings_visual"]),
        sprite_names: strings(&["body_idle", "wings_flap_a", "wings_flap_b", "body_shoot", "body_melee"]),
        sprite_sizes: vec![CompactSize { w: 4, h: 4 }; 5],
        parts: vec![
            part(ROOT, None, false, 99, &["root"]),
            part(BODY, Some(ROOT), true, 1, &["body"]),
            part(WINGS, Some(ROOT), true, 0, &["wings", "wing", "visual_only"]),
        ],
        animations: vec![
            animation(
                "idle_fly",
                vec![
                    frame(100, vec![pose(BODY, BODY_IDLE), pose(WINGS, WINGS_FLAP_A)], vec![]),
                    frame(100, vec![pose(BODY, BODY_IDLE), pose(WINGS, WINGS_FLAP_B)], vec![]),
                ],
            ),
            animation(
                "shoot_fly",
                vec![
                    frame(100, vec![pose(BODY, BODY_SHOOT)], vec![]),
                    frame(
                        100,
                        vec![pose(BODY, BODY_SHOOT)],
                        vec![CompactEvent {
                            kind: AnimationEventKind::ProjectileSpawn,
                            id: "blood_shot".to_string(),
                            part: Some(BODY),
                            offset: offset(2, 1),
                        }],
                    ),
                ],
            ),
            animation("melee_fly", vec![frame(180, vec![pose(BODY, BODY_MELEE)], vec![])]),
        ],
        gameplay: CompactGameplay { entity_health_pool: None, health_pools: vec![] },
    }
}

fn build_cache(atlas: &CompactComposedAtlas) -> CompositionAtlasCache {
    build_runtime_cache_compact(atlas).expect("mixed atlas should validate")
}

fn animation_mut<'a>(atlas: &'a mut CompactComposedAtlas, tag: &str) -> &'a mut CompactAnimation {
    atlas.animations.iter_mut().find(|a| a.tag == tag).expect("animation should exist")
}

fn poses<'a>(resolved: &'a ResolvedAnimationFrame, part_id: &str) -> Option<&'a Vec<CachedPose>> {
    resolved.poses.iter().find(|p| p.part_id == part_id).map(|p| &p.fragments)
}

fn resolve(
    track_states: &mut Vec<ComposedTrackPlaybackState>,
    state: &ComposedAnimationState,
    cache: &CompositionAtlasCache,
    now_ms: u64,
) -> Result<ResolvedAnimationFrame, TrackError> {
    let tracks = requested_animation_tracks(state, Some(cache));
    resolve_requested_animation_frame(track_states, &tracks, cache, now_ms)
}

fn wing_override(tag: &str, part_tags: &[&str]) -> ComposedAnimationOverride {
    ComposedAnimationOverride::for_part_tags(tag.to_string(), strings(part_tags))
}

/// Authored cue ids at each time, leaving out completion cues.
fn cue_ids_at_times(
    track_states: &mut Vec<ComposedTrackPlaybackState>,
    state: &ComposedAnimationState,
    cache: &CompositionAtlasCache,
    times_ms: &[u64],
) -> Vec<Vec<String>> {
    times_ms
        .iter()
        .map(|now_ms| {
            resolve(track_states, state, cache, *now_ms)
                .expect("frame resolution should succeed")
                .fired_cues
                .into_iter()
                .filter(|cue| cue.kind != AnimationEventKind::AnimationComplete)
                .map(|cue| cue.id)
                .collect()
        })
        .collect()
}

fn cue_kinds_at_times(
    track_states: &mut Vec<ComposedTrackPlaybackState>,
    state: &ComposedAnimationState,
    cache: &CompositionAtlasCache,
    times_ms: &[u64],
) -> Vec<Vec<AnimationEventKind>> {
    times_ms
        .iter()
        .map(|now_ms| {
            resolve(track_states, state, cache, *now_ms)
                .expect("frame resolution should succeed")
                .fired_cues
                .into_iter()
                .map(|cue| cue.kind)
                .collect()
        })
        .collect()
}

#[test]
fn monolithic_animation_resolution_remains_unchanged_without_overrides() {
    let cache = build_cache(&minimal_mixed_animation_atlas());
    let mut tracks = Vec::new();
    let state = ComposedAnimationState::new("shoot_fly".to_string());

    let resolved = resolve(&mut tracks, &state, &cache, 0).expect("single-source animation should still resolve");

    assert_eq!(poses(&resolved, "body").unwrap()[0].sprite_id, "body_shoot");
    assert!(poses(&resolved, "wings_visual").is_none());
}

#[test]
fn mixed_animation_resolution_uses_wing_override_and_action_body() {
    let cache = build_cache(&minimal_mixed_animation_atlas());
    let mut tracks = Vec::new();
    let mut state = ComposedAnimationState::new("shoot_fly".to_string());
    state.set_part_overrides(vec![wing_override("idle_fly", &["wing"])]);

    let resolved = resolve(&mut tracks, &state, &cache, 0).expect("mixed resolution should succeed");

    assert_eq!(poses(&resolved, "body").unwrap()[0].sprite_id, "body_shoot");
    assert_eq!(poses(&resolved, "wings_visual").unwrap()[0].sprite_id, "wings_flap_a");
}

#[test]
fn mixed_animation_progression_keeps_wings_independent() {
    let cache = build_cache(&minimal_mixed_animation_atlas());
    let mut tracks = Vec::new();
    let mut state = ComposedAnimationState::new("shoot_fly".to_string());
    state.set_part_overrides(vec![wing_override("idle_fly", &["wing"])]);

    let first = resolve(&mut tracks, &state, &cache, 0).expect("frame 0");
    let second = resolve(&mut tracks, &state, &cache, 100).expect("frame 1");
    let third = resolve(&mut tracks, &state, &cache, 200).expect("frame 2");

    assert_eq!(poses(&first, "body").unwrap()[0].sprite_id, "body_shoot");
    assert_eq!(poses(&second, "body").unwrap()[0].sprite_id, "body_shoot");
    assert_eq!(poses(&third, "body").unwrap()[0].sprite_id, "body_shoot");

    assert_eq!(poses(&first, "wings_visual").unwrap()[0].sprite_id, "wings_flap_a");
    assert_eq!(poses(&second, "wings_visual").unwrap()[0].sprite_id, "wings_flap_b");
    assert_eq!(poses(&third, "wings_visual").unwrap()[0].sprite_id, "wings_flap_a");
}

#[test]
fn missing_override_poses_fall_back_to_base_animation() {
    let cache = build_cache(&minimal_mixed_animation_atlas());
    let mut tracks = Vec::new();
    let mut state = ComposedAnimationState::new("idle_fly".to_string());
    state.set_part_overrides(vec![wing_override("shoot_fly", &["wing"])]);

    let resolved = resolve(&mut tracks, &state, &cache, 0).expect("fallback to base should succeed");

    assert_eq!(poses(&resolved, "body").unwrap()[0].sprite_id, "body_idle");
    assert_eq!(poses(&resolved, "wings_visual").unwrap()[0].sprite_id, "wings_flap_a");
}

#[test]
fn missing_override_tag_fails_explicitly() {
    let cache = build_cache(&minimal_mixed_animation_atlas());
    let mut track_states = Vec::new();
    let mut state = ComposedAnimationState::new("shoot_fly".to_string());
    state.set_part_overrides(vec![wing_override("missing_fly", &["wing"])]);
    let tracks = requested_animation_tracks(&state, Some(&cache));

    let error = resolve_requested_animation_frame(&mut track_states, &tracks, &cache, 0)
        .err()
        .expect("missing override tags should fail loudly");

    match error {
        TrackError::MissingAnimation { track } => assert!(tracks[track].tag.contains("missing_fly")),
        other => panic!("unexpected error {other:?}"),
    }
}

#[test]
fn animation_events_fire_when_the_authored_frame_is_entered() {
    let cache = build_cache(&minimal_mixed_animation_atlas());
    let mut tracks = Vec::new();
    let state = ComposedAnimationState::new("shoot_fly".to_string());

    let cues = cue_ids_at_times(&mut tracks, &state, &cache, &[0, 99, 100]);
    assert!(cues[0].is_empty(), "event should not fire at animation start");
    assert!(cues[1].is_empty(), "event should not fire before the authored frame");
    assert_eq!(cues[2], vec!["blood_shot".to_string()]);
}

#[test]
fn animation_events_refire_on_the_next_loop_only() {
    let cache = build_cache(&minimal_mixed_animation_atlas());
    let mut tracks = Vec::new();
    let state = ComposedAnimationState::new("shoot_fly".to_string());

    let cues = cue_ids_at_times(&mut tracks, &state, &cache, &[0, 100, 150, 200, 300]);
    assert_eq!(cues[1], vec!["blood_shot".to_string()]);
    assert!(cues[2].is_empty());
    assert!(cues[3].is_empty(), "loop restart should not refire until the authored frame is entered again");
    assert_eq!(cues[4], vec!["blood_shot".to_string()]);
}

#[test]
fn animation_events_survive_multi_frame_advances() {
    let cache = build_cache(&minimal_mixed_animation_atlas());
    let mut tracks = Vec::new();
    let state = ComposedAnimationState::new("shoot_fly".to_string());

    let cues = cue_ids_at_times(&mut tracks, &state, &cache, &[0, 250]);
    assert_eq!(cues[1], vec!["blood_shot".to_string()]);
}

#[test]
fn finite_repeat_animations_do_not_refire_after_completion() {
    let mut atlas = minimal_mixed_animation_atlas();
    animation_mut(&mut atlas, "shoot_fly").repeats = Some(1);
    let cache = build_cache(&atlas);
    let mut tracks = Vec::new();
    let state = ComposedAnimationState::new("shoot_fly".to_string());

    let cues = cue_ids_at_times(&mut tracks, &state, &cache, &[0, 100, 300, 600]);
    assert_eq!(cues[1], vec!["blood_shot".to_string()]);
    assert!(cues[2].is_empty());
    assert!(cues[3].is_empty(), "non-looping clips should not refire after completion");
}

#[test]
fn hold_last_frame_clamps_base_track_to_terminal_frame() {
    let mut atlas = minimal_mixed_animation_atlas();
    animation_mut(&mut atlas, "shoot_fly").repeats = Some(1);
    let cache = build_cache(&atlas);
    let mut track_states = Vec::new();
    let mut state = ComposedAnimationState::new("shoot_fly".to_string());
    state.set_hold_last_frame(true);
    let tracks = requested_animation_tracks(&state, Some(&cache));

    resolve_requested_animation_frame(&mut track_states, &tracks, &cache, 0).expect("frame resolution should succeed");
    let base_track = track_states.last().expect("base track should be present");
    assert_eq!(base_track.cursor.frame_index, 1);

    resolve_requested_animation_frame(&mut track_states, &tracks, &cache, 500)
        .expect("held frame should remain resolvable");
    let base_track = track_states.last().expect("base track should still be present");
    assert_eq!(base_track.cursor.frame_index, 1);
}

#[test]
fn finite_animation_fires_completion_cue() {
    let mut atlas = minimal_mixed_animation_atlas();
    animation_mut(&mut atlas, "shoot_fly").repeats = Some(1);
    let cache = build_cache(&atlas);
    let mut tracks = Vec::new();
    let state = ComposedAnimationState::new("shoot_fly".to_string());

    let kinds = cue_kinds_at_times(&mut tracks, &state, &cache, &[0, 100, 200]);
    assert!(
        kinds[2].contains(&AnimationEventKind::AnimationComplete),
        "expected AnimationComplete cue at t=200, got: {:?}",
        kinds[2],
    );
}

#[test]
fn infinite_animation_never_fires_completion_cue() {
    let cache = build_cache(&minimal_mixed_animation_atlas());
    let mut tracks = Vec::new();
    let state = ComposedAnimationState::new("idle_fly".to_string());

    let kinds = cue_kinds_at_times(&mut tracks, &state, &cache, &[0, 100, 200, 500, 1000]);
    for (i, frame_kinds) in kinds.iter().enumerate() {
        assert!(
            !frame_kinds.contains(&AnimationEventKind::AnimationComplete),
            "infinite animation should never fire AnimationComplete, but did at index {i}",
        );
    }
}

#[test]
fn completion_cue_fires_once_not_every_frame() {
    let mut atlas = minimal_mixed_animation_atlas();
    animation_mut(&mut atlas, "shoot_fly").repeats = Some(1);
    let cache = build_cache(&atlas);
    let mut tracks = Vec::new();
    let state = ComposedAnimationState::new("shoot_fly".to_string());

    let kinds = cue_kinds_at_times(&mut tracks, &state, &cache, &[0, 100, 200, 400, 800]);
    let completion_count: usize = kinds
        .iter()
        .flatten()
        .filter(|k| **k == AnimationEventKind::AnimationComplete)
        .count();
    assert_eq!(completion_count, 1, "AnimationComplete should fire exactly once, fired {completion_count} times");
}

#[test]
fn animations_without_authored_events_remain_silent() {
    let cache = build_cache(&minimal_mixed_animation_atlas());
    let mut tracks = Vec::new();
    let state = ComposedAnimationState::new("idle_fly".to_string());

    let cues = cue_ids_at_times(&mut tracks, &state, &cache, &[0, 100, 200, 300]);
    assert!(cues.into_iter().all(|events| events.is_empty()));
}

#[test]
fn metadata_part_overrides_applied_during_resolution() {
    let mut atlas = minimal_mixed_animation_atlas();
    animation_mut(&mut atlas, "shoot_fly").part_overrides.push(CompactOverride {
        source_tag: "idle_fly".to_string(),
        selector: ComposedPartSelector { part_ids: vec![], part_tags: strings(&["wings"]) },
        sprite_only: false,
    });
    let cache = build_cache(&atlas);
    let mut tracks = Vec::new();
    let state = ComposedAnimationState::new("shoot_fly".to_string());

    let resolved = resolve(&mut tracks, &state, &cache, 0).expect("metadata override should resolve");

    assert_eq!(poses(&resolved, "body").unwrap()[0].sprite_id, "body_shoot");
    assert!(poses(&resolved, "wings_visual").is_some(), "wings should be present from metadata override");
}

#[test]
fn metadata_overrides_merge_with_code_overrides() {
    let mut atlas = minimal_mixed_animation_atlas();
    animation_mut(&mut atlas, "shoot_fly").part_overrides.push(CompactOverride {
        source_tag: "idle_fly".to_string(),
        selector: ComposedPartSelector { part_ids: vec![], part_tags: strings(&["wings"]) },
        sprite_only: false,
    });
    let cache = build_cache(&atlas);
    let mut state = ComposedAnimationState::new("shoot_fly".to_string());
    state.set_part_overrides(vec![wing_override("idle_fly", &["wings"])]);

    let tracks_with_code = requested_animation_tracks(&state, Some(&cache));
    assert_eq!(tracks_with_code[0].tag, "idle_fly");
    assert!(tracks_with_code[0].selector.is_some());
    assert_eq!(tracks_with_code[1].tag, "idle_fly");
    assert_eq!(tracks_with_code[2].tag, "shoot_fly");
    assert!(tracks_with_code[2].selector.is_none());
}

#[test]
fn empty_metadata_overrides_are_no_op() {
    let cache = build_cache(&minimal_mixed_animation_atlas());
    let mut tracks = Vec::new();
    let state = ComposedAnimationState::new("shoot_fly".to_string());

    let resolved = resolve(&mut tracks, &state, &cache, 0).expect("empty overrides should resolve");

    assert_eq!(poses(&resolved, "body").unwrap()[0].sprite_id, "body_shoot");
    assert!(poses(&resolved, "wings_visual").is_none(), "wings should not appear without override");
}

#[test]
fn fired_cue_carries_part_and_offset_of_the_authored_event() {
    let cache = build_cache(&minimal_mixed_animation_atlas());
    let mut tracks = Vec::new();
    let state = ComposedAnimationState::new("shoot_fly".to_string());
    resolve(&mut tracks, &state, &cache, 0).unwrap();
    let resolved = resolve(&mut tracks, &state, &cache, 100).unwrap();
    assert_eq!(resolved.fired_cues.len(), 1);
    let cue = &resolved.fired_cues[0];
    assert_eq!(cue.tag, "shoot_fly");
    assert_eq!(cue.frame_index, 1);
    assert_eq!(cue.source_frame, 1);
    assert_eq!(cue.part_id.as_deref(), Some("body"));
    assert_eq!((cue.local_offset.x, cue.local_offset.y), (2, 1));
}

#[test]
fn no_frames_are_resolved_for_an_unknown_base_tag() {
    let cache = build_cache(&minimal_mixed_animation_atlas());
    let mut tracks = Vec::new();
    let state = ComposedAnimationState::new("walk".to_string());
    let error = resolve(&mut tracks, &state, &cache, 0).err().unwrap();
    assert_eq!(error, TrackError::MissingAnimation { track: 0 });
}
