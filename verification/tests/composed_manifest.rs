use carcinisation::composed::bindings::{build_atlas_bindings_compact, AtlasRect, AtlasRegionInfo, SpriteAtlasReport};
use carcinisation::composed::blink::{advance_part_hit_blinks, begin_composed_visual_update, COMPOSED_PART_HIT_BLINK_INVERT_CYCLES, COMPOSED_PART_HIT_BLINK_PHASE_MS};
use carcinisation::composed::cache::CompositionAtlasCache;
use carcinisation::composed::frame::update_composed_enemy_frame;
use carcinisation::composed::blink::start_part_hit_blink;
use carcinisation::composed::compact::{
    CompactAnimation, CompactAtlasError, CompactComposedAtlas, CompactFrame, CompactGameplay,
    CompactHealthPool, CompactOffset, CompactPart, CompactPartGameplay, CompactPose, CompactSize,
};
use carcinisation::composed::compose::{compose_frame, SpriteRegion};
use carcinisation::composed::damage::{
    apply_part_damage, entity_health_after_part_damage, AppliedPartDamage, ComposedHealthPools, EntityHealthOutcome, ComposedPartStates, PartDamageError,
    PartEntry, PartGameplayState, PartHitBlinkState,
};
use carcinisation::composed::model::{CachedPose, ComposedAnimationOverride, ComposedAnimationState};
use carcinisation::composed::playback::{AnimationDirection, CachedAnimationFrame};
use carcinisation::composed::prepare::{
    build_runtime_cache_compact, validate_compact_sprite_tables,
};
use carcinisation::composed::tracks::{requested_animation_tracks, resolve_requested_animation_frame};
use carcinisation::geometry::{IVec2, UVec2};

fn strings(v: &[&str]) -> Vec<String> {
    v.iter().map(|s| s.to_string()).collect()
}

fn offset(x: i16, y: i16) -> CompactOffset {
    CompactOffset { x, y }
}

fn size(w: u16, h: u16) -> CompactSize {
    CompactSize { w, h }
}

fn placed(p: u8, s: u8, x: i16, y: i16, fx: bool, frag: u32) -> CompactPose {
    CompactPose { p, s, o: offset(x, y), fx, fy: false, frag }
}

fn gameplay(targetable: bool, pool: Option<&str>, armour: u32, durability: Option<u32>, breakable: bool) -> CompactPartGameplay {
    CompactPartGameplay {
        targetable,
        health_pool: pool.map(|p| p.to_string()),
        armour,
        durability,
        breakable,
    }
}

fn plain() -> CompactPartGameplay {
    gameplay(false, None, 0, None, false)
}

fn part(id: u8, parent: Option<u8>, visual: bool, draw_order: u32, tags: &[&str], gameplay: CompactPartGameplay) -> CompactPart {
    CompactPart { id, parent, visual, draw_order, pivot: offset(0, 0), tags: strings(tags), gameplay }
}

fn idle_stand(poses: Vec<CompactPose>) -> CompactAnimation {
    CompactAnimation {
        tag: "idle_stand".to_string(),
        direction: AnimationDirection::Forward,
        repeats: None,
        frames: vec![CompactFrame { duration_ms: 100, poses, events: vec![] }],
        part_overrides: vec![],
    }
}

fn core_pool(max_health: u32) -> CompactGameplay {
    CompactGameplay {
        entity_health_pool: Some("core".to_string()),
        health_pools: vec![CompactHealthPool { id: "core".to_string(), max_health }],
    }
}

/// One targetable body on the core pool, placed by one 4x4 sprite.
fn minimal_atlas() -> CompactComposedAtlas {
    CompactComposedAtlas {
        canvas: size(16, 16),
        origin: offset(8, 8),
        part_names: strings(&["body"]),
        sprite_names: strings(&["sprite_0000"]),
        sprite_sizes: vec![size(4, 4)],
        parts: vec![part(0, None, true, 0, &["core"], gameplay(true, Some("core"), 0, None, false))],
        animations: vec![idle_stand(vec![placed(0, 0, 0, 0, false, 0)])],
        gameplay: core_pool(10),
    }
}

/// A root marker, a body, and legs split into two mirrored fragments.
fn split_atlas() -> CompactComposedAtlas {
    CompactComposedAtlas {
        canvas: size(32, 16),
        origin: offset(16, 8),
        part_names: strings(&["root", "body", "legs_visual"]),
        sprite_names: strings(&["body_s", "legs_left_s", "legs_right_s"]),
        sprite_sizes: vec![size(8, 8), size(6, 6), size(6, 6)],
        parts: vec![
            part(0, None, false, 0, &["group"], plain()),
            part(1, Some(0), true, 10, &["core"], gameplay(true, Some("core"), 0, None, false)),
            part(2, Some(0), true, 20, &["legs", "limb"], gameplay(true, Some("core"), 1, Some(2), false)),
        ],
        animations: vec![idle_stand(vec![
            placed(1, 0, 0, 0, false, 0),
            placed(2, 1, -4, 4, false, 0),
            placed(2, 2, 4, 4, true, 1),
        ])],
        gameplay: core_pool(20),
    }
}

fn build_cache(atlas: &CompactComposedAtlas) -> Result<CompositionAtlasCache, CompactAtlasError> {
    build_runtime_cache_compact(atlas)
}

fn idle_frame(cache: &CompositionAtlasCache) -> &CachedAnimationFrame {
    &cache.animations.iter().find(|a| a.tag == "idle_stand").unwrap().animation.frames[0]
}

fn fragments<'a>(frame: &'a CachedAnimationFrame, part_id: &str) -> &'a Vec<CachedPose> {
    &frame.poses.iter().find(|p| p.part_id == part_id).expect("part should be placed").fragments
}

fn regions(atlas: &CompactComposedAtlas) -> Vec<SpriteRegion> {
    atlas
        .sprite_names
        .iter()
        .enumerate()
        .map(|(i, name)| SpriteRegion { sprite_id: name.clone(), region: i as u32 })
        .collect()
}

fn has_part(cache: &CompositionAtlasCache, id: &str) -> bool {
    cache.parts.iter().any(|p| p.id == id)
}

fn pool(pools: &ComposedHealthPools, id: &str) -> Option<u32> {
    pools.get(id)
}

#[test]
fn compact_sprite_tables_reject_mismatched_lengths() {
    let mut atlas = split_atlas();
    atlas.sprite_sizes.pop();

    let error = validate_compact_sprite_tables(&atlas).err().expect("mismatched compact sprite table lengths should fail");
    assert!(matches!(error, CompactAtlasError::SpriteTableLengthMismatch { names: 3, sizes: 2 }), "got: {error:?}");
}

#[test]
fn compact_sprite_tables_reject_repeated_names() {
    let mut atlas = split_atlas();
    assert!(validate_compact_sprite_tables(&atlas).is_ok());
    atlas.sprite_names[2] = "body_s".to_string();
    let error = validate_compact_sprite_tables(&atlas).err().unwrap();
    assert!(matches!(error, CompactAtlasError::DuplicateSpriteName { ref name } if name == "body_s"));
}

#[test]
fn composes_child_offsets_hierarchically() {
    let mut atlas = minimal_atlas();
    atlas.part_names.push("head".to_string());
    atlas.parts.push(part(1, Some(0), true, 1, &["head"], plain()));
    atlas.sprite_names.push("sprite_0001".to_string());
    atlas.sprite_sizes.push(size(2, 2));
    atlas.animations[0].frames[0].poses.push(placed(1, 1, 3, -2, false, 0));

    let cache = build_cache(&atlas).expect("hierarchical atlas should validate");
    let part_states = ComposedPartStates::from_cache(&cache);
    let frame = idle_frame(&cache);
    let composed = compose_frame(&frame.poses, &cache, &regions(&atlas), &part_states).expect("frame should compose");

    assert_eq!(composed.metrics.origin, IVec2::new(0, -4));
    assert_eq!(composed.metrics.size, UVec2::new(5, 6));
    let head = composed.parts.iter().find(|p| p.part_id == "head").expect("head transform");
    assert_eq!(head.top_left, IVec2::new(3, -2));
}

#[test]
fn visual_draw_order_ignores_non_visual_parts() {
    let mut atlas = minimal_atlas();
    atlas.part_names.push("marker".to_string());
    atlas.part_names.push("head".to_string());
    atlas.parts.push(part(1, Some(0), false, 99, &["marker"], plain()));
    atlas.parts.push(part(2, Some(0), true, 5, &["head"], plain()));
    atlas.sprite_names.push("sprite_0001".to_string());
    atlas.sprite_sizes.push(size(2, 2));
    atlas.animations[0].frames[0].poses.push(placed(2, 1, 1, 1, false, 0));

    let cache = build_cache(&atlas).expect("atlas should validate");
    assert_eq!(cache.visual_parts_in_draw_order, vec!["body", "head"]);
}

#[test]
fn mirrored_sprite_reuse_preserves_semantic_parts() {
    let mut atlas = minimal_atlas();
    atlas.part_names.push("arm_l".to_string());
    atlas.part_names.push("arm_r".to_string());
    atlas.parts.push(part(1, Some(0), true, 1, &["arm", "left"], plain()));
    atlas.parts.push(part(2, Some(0), true, 2, &["arm", "right"], plain()));
    atlas.animations[0].frames[0].poses.push(placed(1, 0, -2, 0, false, 0));
    atlas.animations[0].frames[0].poses.push(placed(2, 0, 2, 0, true, 0));

    let cache = build_cache(&atlas).expect("atlas should validate");
    let frame = idle_frame(&cache);

    assert_eq!(
        fragments(frame, "arm_l")[0].sprite_id,
        fragments(frame, "arm_r")[0].sprite_id,
        "canonical sprite should be reused across semantic arm instances"
    );
    assert!(!fragments(frame, "arm_l")[0].flip_x);
    assert!(fragments(frame, "arm_r")[0].flip_x);
}

#[test]
fn compose_frame_applies_invert_filter_only_to_blinking_part() {
    let mut atlas = minimal_atlas();
    atlas.part_names.push("head".to_string());
    atlas.parts.push(part(1, Some(0), true, 1, &["head"], gameplay(true, Some("core"), 0, None, false)));
    atlas.sprite_names.push("sprite_0001".to_string());
    atlas.sprite_sizes.push(size(4, 4));
    atlas.animations[0].frames[0].poses.push(placed(1, 1, 0, 0, false, 0));

    let cache = build_cache(&atlas).expect("blink atlas should validate");
    let mut part_states = ComposedPartStates::from_cache(&cache);
    let head = part_states.find("head").unwrap();
    part_states.parts[head].state.hit_blink = Some(PartHitBlinkState {
        phase_started_at_ms: 0,
        showing_invert: true,
        remaining_invert_cycles: COMPOSED_PART_HIT_BLINK_INVERT_CYCLES,
    });

    let composed = compose_frame(&idle_frame(&cache).poses, &cache, &regions(&atlas), &part_states)
        .expect("frame should compose");

    assert_eq!(composed.parts.len(), 2);
    assert!(!composed.parts[0].fragments[0].inverted, "body should not blink");
    assert!(composed.parts[1].fragments[0].inverted, "head should blink");
}

#[test]
fn part_hit_blink_advances_and_clears() {
    let mut part_states = ComposedPartStates {
        parts: vec![PartEntry {
            id: "head".to_string(),
            state: PartGameplayState {
                current_durability: 0,
                max_durability: 0,
                breakable: false,
                broken: false,
                visible: true,
                hit_blink: Some(PartHitBlinkState {
                    phase_started_at_ms: 0,
                    showing_invert: true,
                    remaining_invert_cycles: 1,
                }),
                tags: vec![],
            },
        }],
    };
    let blink = |states: &ComposedPartStates| states.part("head").unwrap().hit_blink;

    advance_part_hit_blinks(&mut part_states, 0);
    assert!(blink(&part_states).unwrap().showing_invert);

    advance_part_hit_blinks(&mut part_states, COMPOSED_PART_HIT_BLINK_PHASE_MS);
    assert!(!blink(&part_states).unwrap().showing_invert);

    advance_part_hit_blinks(&mut part_states, COMPOSED_PART_HIT_BLINK_PHASE_MS * 2);
    assert!(blink(&part_states).unwrap().showing_invert);

    advance_part_hit_blinks(&mut part_states, COMPOSED_PART_HIT_BLINK_PHASE_MS * 4);
    assert!(blink(&part_states).is_none());
}

#[test]
fn durability_absorbs_damage_before_core_health() {
    let mut atlas = minimal_atlas();
    atlas.parts[0].gameplay.durability = Some(5);
    atlas.parts[0].gameplay.breakable = true;

    let cache = build_cache(&atlas).expect("durability atlas should validate");
    let mut health_pools = ComposedHealthPools::from_cache(&cache);
    let mut part_states = ComposedPartStates::from_cache(&cache);

    let first_hit = apply_part_damage(&cache, &mut health_pools, &mut part_states, "body", 3, None)
        .expect("durability should absorb the first hit");
    assert_eq!(
        first_hit,
        AppliedPartDamage {
            pool_id: Some("core".to_string()),
            remaining_health: None,
            remaining_durability: Some(2),
            broke_part: false,
        }
    );
    assert_eq!(pool(&health_pools, "core"), Some(10));

    let second_hit = apply_part_damage(&cache, &mut health_pools, &mut part_states, "body", 4, None)
        .expect("overflow should reach the core pool once durability is exhausted");
    assert_eq!(
        second_hit,
        AppliedPartDamage {
            pool_id: Some("core".to_string()),
            remaining_health: Some(8),
            remaining_durability: Some(0),
            broke_part: true,
        }
    );
    assert_eq!(pool(&health_pools, "core"), Some(8));
}

#[test]
fn broken_part_is_hidden_and_rejects_further_damage() {
    let mut atlas = minimal_atlas();
    atlas.parts[0].gameplay.durability = Some(2);
    atlas.parts[0].gameplay.breakable = true;

    let cache = build_cache(&atlas).expect("breakable atlas should validate");
    let mut part_states = ComposedPartStates::from_cache(&cache);
    let mut health_pools = ComposedHealthPools::from_cache(&cache);

    let damage = apply_part_damage(&cache, &mut health_pools, &mut part_states, "body", 2, None)
        .expect("damage should break the part");
    assert!(damage.broke_part);
    let state = part_states.part("body").unwrap();
    assert!(state.broken);
    assert!(!state.visible);

    let again = apply_part_damage(&cache, &mut health_pools, &mut part_states, "body", 2, None);
    assert_eq!(again.err(), Some(PartDamageError::AlreadyBroken));
    assert!(compose_frame(&idle_frame(&cache).poses, &cache, &regions(&atlas), &part_states).is_none());
}

#[test]
fn damage_errors_name_the_reason() {
    let mut atlas = split_atlas();
    atlas.part_names.push("antenna".to_string());
    atlas.parts.push(part(3, Some(1), false, 0, &[], gameplay(true, None, 0, None, false)));
    let cache = build_cache(&atlas).unwrap();
    let mut pools = ComposedHealthPools::from_cache(&cache);
    let mut states = ComposedPartStates::from_cache(&cache);

    let unknown = apply_part_damage(&cache, &mut pools, &mut states, "tail", 5, None);
    assert_eq!(unknown.err(), Some(PartDamageError::UnknownPart));
    let not_targetable = apply_part_damage(&cache, &mut pools, &mut states, "root", 5, None);
    assert_eq!(not_targetable.err(), Some(PartDamageError::NotTargetable));
    let no_pool = apply_part_damage(&cache, &mut pools, &mut states, "antenna", 5, None);
    assert_eq!(no_pool.err(), Some(PartDamageError::NoPoolOrDurability));
    assert_eq!(pool(&pools, "core"), Some(20));
}

#[test]
fn armour_reduces_damage_and_ratio_share_reaches_the_pool() {
    let cache = build_cache(&split_atlas()).unwrap();
    let mut pools = ComposedHealthPools::from_cache(&cache);
    let mut states = ComposedPartStates::from_cache(&cache);

    // Legs: armour 1, durability 2. Five damage: four after armour, two absorbed.
    let hit = apply_part_damage(&cache, &mut pools, &mut states, "legs_visual", 5, None).unwrap();
    assert_eq!(hit.remaining_durability, Some(0));
    assert_eq!(hit.remaining_health, Some(18));

    // With a ratio share the pool takes the share regardless of durability.
    let cache = build_cache(&split_atlas()).unwrap();
    let mut pools = ComposedHealthPools::from_cache(&cache);
    let mut states = ComposedPartStates::from_cache(&cache);
    let hit = apply_part_damage(&cache, &mut pools, &mut states, "legs_visual", 3, Some(1)).unwrap();
    assert_eq!(hit.remaining_durability, Some(0));
    assert_eq!(hit.remaining_health, Some(19));
}

#[test]
fn split_part_produces_one_gameplay_identity() {
    let cache = build_cache(&split_atlas()).expect("split atlas should be valid");

    assert!(has_part(&cache, "legs_visual"));
    assert!(!has_part(&cache, "leg_l"));
    assert!(!has_part(&cache, "leg_r"));

    let leg_entries: Vec<_> = cache.visual_parts_in_draw_order.iter().filter(|id| id.as_str() == "legs_visual").collect();
    assert_eq!(leg_entries.len(), 1, "exactly one visual entry for split part");

    let part_states = ComposedPartStates::from_cache(&cache);
    assert!(part_states.part("legs_visual").is_some(), "gameplay state exists for legs_visual");
}

#[test]
fn split_part_produces_multiple_render_fragments_per_frame() {
    let cache = build_cache(&split_atlas()).expect("split atlas should be valid");
    let frame = idle_frame(&cache);

    let legs = fragments(frame, "legs_visual");
    assert_eq!(legs.len(), 2, "split part should have 2 render fragments");
    assert_ne!(legs[0].sprite_id, legs[1].sprite_id, "fragments should reference different sprites");
    assert!(legs[0].flip_x || legs[1].flip_x, "at least one fragment should be flipped");
    assert_eq!(fragments(frame, "body").len(), 1);
}

#[test]
fn unordered_fragments_are_canonicalised_before_runtime_use() {
    let mut atlas = split_atlas();
    atlas.animations[0].frames[0].poses.swap(1, 2);

    let cache = build_cache(&atlas).expect("unordered fragments should canonicalise");
    let legs = fragments(idle_frame(&cache), "legs_visual");

    assert_eq!(legs.iter().map(|f| f.fragment).collect::<Vec<_>>(), vec![0, 1], "runtime cache should sort fragments by fragment index");
    assert_eq!(legs[0].local_offset, IVec2::new(-4, 4));
    assert_eq!(legs[1].local_offset, IVec2::new(4, 4));
}

#[test]
fn runtime_rejects_missing_primary_fragment_zero() {
    let mut atlas = split_atlas();
    atlas.animations[0].frames[0].poses.retain(|pose| pose.p != 2 || pose.frag != 0);

    let error = build_cache(&atlas).err().expect("missing fragment 0 should fail at runtime boundary");
    assert!(
        matches!(error, CompactAtlasError::MissingPrimaryFragment { animation: 0, frame: 0, ref part } if part == "legs_visual"),
        "got: {error:?}"
    );
}

#[test]
fn runtime_rejects_non_contiguous_fragment_indices() {
    let mut atlas = split_atlas();
    let right = atlas.animations[0].frames[0]
        .poses
        .iter_mut()
        .find(|pose| pose.p == 2 && pose.frag == 1)
        .expect("split atlas should include fragment 1");
    right.frag = 2;

    let error = build_cache(&atlas).err().expect("fragment gaps should fail at runtime boundary");
    assert!(
        matches!(error, CompactAtlasError::NonContiguousFragments { expected: 1, found: 2, ref part, .. } if part == "legs_visual"),
        "got: {error:?}"
    );
}

#[test]
fn broken_state_hides_all_split_fragments() {
    let atlas = split_atlas();
    let cache = build_cache(&atlas).expect("split atlas should be valid");
    let mut part_states = ComposedPartStates::from_cache(&cache);
    let legs = part_states.find("legs_visual").unwrap();
    part_states.parts[legs].state.visible = false;

    let result = compose_frame(&idle_frame(&cache).poses, &cache, &regions(&atlas), &part_states);
    if let Some(composed) = result {
        assert_eq!(composed.parts.len(), 1, "only body should render when legs_visual is hidden");
    }
}

#[test]
fn animation_resolution_applies_to_all_fragments() {
    let cache = build_cache(&split_atlas()).expect("split atlas should be valid");
    let legs = fragments(idle_frame(&cache), "legs_visual");
    assert!(legs.iter().all(|f| f.visible), "all fragments share visibility");
}

#[test]
fn sprite_only_override_merges_all_fragments_uniformly() {
    let mut atlas = split_atlas();
    atlas.sprite_names.push("alt_legs_left_s".to_string());
    atlas.sprite_names.push("alt_legs_right_s".to_string());
    atlas.sprite_sizes.push(size(6, 6));
    atlas.sprite_sizes.push(size(6, 6));
    atlas.animations.push(CompactAnimation {
        tag: "alt_legs".to_string(),
        direction: AnimationDirection::Forward,
        repeats: None,
        frames: vec![CompactFrame {
            duration_ms: 100,
            poses: vec![placed(2, 3, -10, 10, false, 0), placed(2, 4, 10, 10, true, 1)],
            events: vec![],
        }],
        part_overrides: vec![],
    });

    let cache = build_cache(&atlas).expect("extended split atlas should be valid");
    let mut track_states = Vec::new();
    let mut state = ComposedAnimationState::new("idle_stand".to_string());
    state.set_part_overrides(vec![ComposedAnimationOverride::for_part_tags_sprite_only(
        "alt_legs".to_string(),
        strings(&["legs"]),
    )]);

    let resolved = resolve_requested_animation_frame(
        &mut track_states,
        &requested_animation_tracks(&state, Some(&cache)),
        &cache,
        0,
    )
    .ok()
    .expect("sprite-only override on split part should resolve");

    let legs = &resolved.poses.iter().find(|p| p.part_id == "legs_visual").unwrap().fragments;
    assert_eq!(legs.len(), 2, "both fragments should be present");
    assert_eq!(legs[0].sprite_id, "alt_legs_left_s");
    assert_eq!(legs[0].local_offset, IVec2::new(-4, 4));
    assert_eq!(legs[1].sprite_id, "alt_legs_right_s");
    assert_eq!(legs[1].local_offset, IVec2::new(4, 4));
}

#[test]
fn runtime_rejects_out_of_range_references() {
    let mut atlas = minimal_atlas();
    atlas.animations[0].frames[0].poses[0].s = 7;
    assert!(matches!(build_cache(&atlas).err(), Some(CompactAtlasError::SpriteIndexOutOfRange { index: 7 })));

    let mut atlas = minimal_atlas();
    atlas.parts[0].parent = Some(9);
    assert!(matches!(build_cache(&atlas).err(), Some(CompactAtlasError::PartIndexOutOfRange { index: 9 })));

    let mut atlas = minimal_atlas();
    atlas.sprite_names.push("unsized".to_string());
    atlas.animations[0].frames[0].poses[0].s = 1;
    assert!(matches!(
        build_cache(&atlas).err(),
        Some(CompactAtlasError::MissingSpriteSize { index: 1, animation: 0, frame: 0 })
    ));
}

#[test]
fn runtime_rejects_repeated_animation_tags() {
    let mut atlas = minimal_atlas();
    atlas.animations.push(idle_stand(vec![placed(0, 0, 0, 0, false, 0)]));
    assert!(matches!(build_cache(&atlas).err(), Some(CompactAtlasError::DuplicateAnimationTag { animation: 1 })));
}

#[test]
fn runtime_rejects_a_child_placed_without_its_visual_parent() {
    let mut atlas = split_atlas();
    // Make the root visual: body and legs now need it placed in every frame.
    atlas.parts[0].visual = true;
    let error = build_cache(&atlas).err().unwrap();
    assert!(
        matches!(error, CompactAtlasError::ChildWithoutVisibleParent { ref child, ref parent, .. } if child == "body" && parent == "root"),
        "got: {error:?}"
    );

    let mut atlas = split_atlas();
    atlas.part_names.push("ghost".to_string());
    atlas.parts[1].parent = Some(3);
    let error = build_cache(&atlas).err().unwrap();
    assert!(matches!(error, CompactAtlasError::MissingParent { ref parent, .. } if parent == "ghost"), "got: {error:?}");
}

#[test]
fn runtime_rejects_parent_cycles() {
    let mut atlas = split_atlas();
    // root's parent is body, body's parent is root: the chain never ends.
    atlas.parts[0].parent = Some(1);
    let error = build_cache(&atlas).err().unwrap();
    assert!(matches!(error, CompactAtlasError::ParentCycle { ref child, .. } if child == "body"), "got: {error:?}");
}

#[test]
fn a_part_named_twice_keeps_its_last_record() {
    let mut atlas = split_atlas();
    atlas.parts.push(part(1, Some(0), true, 30, &["core", "late"], gameplay(true, Some("core"), 2, None, false)));
    let cache = build_cache(&atlas).unwrap();
    assert_eq!(cache.parts.iter().filter(|p| p.id == "body").count(), 1);
    let body = cache.parts.iter().find(|p| p.id == "body").unwrap();
    assert_eq!(body.draw_order, 30);
    assert_eq!(body.gameplay.armour, 2);
    assert_eq!(cache.visual_parts_in_draw_order, vec!["legs_visual", "body", "body"]);
}

#[test]
fn poses_naming_parts_without_records_are_rejected() {
    let mut atlas = split_atlas();
    atlas.part_names.push("unrecorded".to_string());
    assert!(build_cache(&atlas).is_ok());
    atlas.animations[0].frames[0].poses.push(placed(3, 0, 0, 0, false, 0));
    let error = build_cache(&atlas).unwrap_err();
    assert!(
        matches!(error, CompactAtlasError::UnknownPart { animation: 0, frame: 0, ref part } if part == "unrecorded"),
        "got: {error:?}"
    );
}

#[test]
fn duplicate_tag_is_reported_before_a_later_unrecorded_part() {
    let mut atlas = split_atlas();
    atlas.part_names.push("unrecorded".to_string());
    atlas.animations.push(idle_stand(vec![placed(1, 0, 0, 0, false, 0), placed(3, 0, 0, 0, false, 0)]));
    let error = build_cache(&atlas).unwrap_err();
    assert!(matches!(error, CompactAtlasError::DuplicateAnimationTag { animation: 1 }), "got: {error:?}");
}

#[test]
fn health_pools_start_full() {
    let cache = build_cache(&split_atlas()).unwrap();
    let pools = ComposedHealthPools::from_cache(&cache);
    assert_eq!(pool(&pools, "core"), Some(20));
    assert_eq!(cache.entity_health_pool.as_deref(), Some("core"));
}

fn region(x: u32, w: u32, h: u32) -> Option<AtlasRegionInfo> {
    Some(AtlasRegionInfo {
        frame_count: 1,
        frame_size: UVec2::new(w, h),
        first_frame: Some(AtlasRect { x, y: 0, w, h }),
    })
}

/// The sprite atlas of `split_atlas`: one single-frame region per sprite, in order.
fn split_report() -> SpriteAtlasReport {
    SpriteAtlasReport {
        region_count: 3,
        resolved: vec![Some(0), Some(1), Some(2)],
        regions: vec![region(0, 8, 8), region(8, 6, 6), region(14, 6, 6)],
    }
}

#[test]
fn sprites_bind_to_the_region_at_their_index() {
    let bindings = build_atlas_bindings_compact(&split_atlas(), &split_report()).expect("bindings");
    let regions: Vec<(String, u32)> = bindings.sprite_regions.iter().map(|r| (r.sprite_id.clone(), r.region)).collect();
    assert_eq!(
        regions,
        vec![("body_s".to_string(), 0), ("legs_left_s".to_string(), 1), ("legs_right_s".to_string(), 2)]
    );
    assert_eq!(bindings.sprite_rects[1].rect, AtlasRect { x: 8, y: 0, w: 6, h: 6 });
}

#[test]
fn binding_rejects_an_atlas_that_does_not_match_the_manifest() {
    let atlas = split_atlas();

    let mut report = split_report();
    report.region_count = 4;
    assert_eq!(
        build_atlas_bindings_compact(&atlas, &report).err().map(|e| format!("{e:?}")),
        Some(format!("{:?}", CompactAtlasError::RegionCountMismatch { regions: 4, sprites: 3 }))
    );

    let mut report = split_report();
    report.resolved[1] = None;
    assert!(matches!(build_atlas_bindings_compact(&atlas, &report).err(), Some(CompactAtlasError::MissingRegion { sprite: 1 })));

    let mut report = split_report();
    report.regions[2] = Some(AtlasRegionInfo { frame_count: 2, ..report.regions[2].unwrap() });
    assert!(matches!(
        build_atlas_bindings_compact(&atlas, &report).err(),
        Some(CompactAtlasError::WrongFrameCount { sprite: 2, frames: 2 })
    ));

    let mut report = split_report();
    report.regions[0] = region(0, 8, 7);
    assert!(matches!(build_atlas_bindings_compact(&atlas, &report).err(), Some(CompactAtlasError::FrameSizeMismatch { sprite: 0, .. })));

    let mut report = split_report();
    report.resolved[1] = Some(2);
    assert!(matches!(
        build_atlas_bindings_compact(&atlas, &report).err(),
        Some(CompactAtlasError::RegionMismatch { sprite: 1, region: 2 })
    ));

    let mut report = split_report();
    report.resolved[0] = Some(9);
    assert!(matches!(
        build_atlas_bindings_compact(&atlas, &report).err(),
        Some(CompactAtlasError::MissingResolvedRegion { sprite: 0, region: 9 })
    ));

    let mut bad_tables = split_atlas();
    bad_tables.sprite_sizes.pop();
    assert!(matches!(
        build_atlas_bindings_compact(&bad_tables, &split_report()).err(),
        Some(CompactAtlasError::SpriteTableLengthMismatch { .. })
    ));
}

fn blinking_head() -> ComposedPartStates {
    ComposedPartStates {
        parts: vec![PartEntry {
            id: "head".to_string(),
            state: PartGameplayState {
                current_durability: 0,
                max_durability: 0,
                breakable: false,
                broken: false,
                visible: true,
                hit_blink: Some(PartHitBlinkState {
                    phase_started_at_ms: 0,
                    showing_invert: true,
                    remaining_invert_cycles: 1,
                }),
                tags: vec![],
            },
        }],
    }
}

#[test]
fn dying_enemy_freezes_its_clock_and_blinks() {
    let mut part_states = blinking_head();
    let clock = begin_composed_visual_update(&mut part_states, Some(500), 9_000);
    assert_eq!(clock, 500);
    let blink = part_states.part("head").unwrap().hit_blink.unwrap();
    assert!(blink.showing_invert);
    assert_eq!(blink.phase_started_at_ms, 0);
}

#[test]
fn living_enemy_runs_on_the_stage_clock_and_advances_blinks() {
    let mut part_states = blinking_head();
    let clock = begin_composed_visual_update(&mut part_states, None, COMPOSED_PART_HIT_BLINK_PHASE_MS);
    assert_eq!(clock, COMPOSED_PART_HIT_BLINK_PHASE_MS);
    assert!(!part_states.part("head").unwrap().hit_blink.unwrap().showing_invert);
    begin_composed_visual_update(&mut part_states, None, COMPOSED_PART_HIT_BLINK_PHASE_MS * 4);
    assert!(part_states.part("head").unwrap().hit_blink.is_none());
}

#[test]
fn bad_sprite_index_later_in_a_frame_is_reported_before_an_unrecorded_part() {
    let mut atlas = split_atlas();
    atlas.part_names.push("unrecorded".to_string());
    atlas.animations[0].frames[0].poses.push(placed(3, 0, 0, 0, false, 0));
    atlas.animations[0].frames[0].poses.push(placed(1, 9, 0, 0, false, 1));
    let error = build_cache(&atlas).unwrap_err();
    assert!(matches!(error, CompactAtlasError::SpriteIndexOutOfRange { index: 9 }), "got: {error:?}");
}

#[test]
fn visual_update_of_a_living_enemy_runs_on_the_stage_clock() {
    let atlas = split_atlas();
    let cache = build_cache(&atlas).unwrap();
    let mut part_states = ComposedPartStates::from_cache(&cache);
    assert!(start_part_hit_blink(&mut part_states, "body", 0));
    let state = ComposedAnimationState::new("idle_stand".to_string());
    let mut tracks = Vec::new();
    let update = update_composed_enemy_frame(
        &mut tracks,
        &state,
        &cache,
        &regions(&atlas),
        &mut part_states,
        None,
        COMPOSED_PART_HIT_BLINK_PHASE_MS,
    )
    .expect("idle_stand should resolve");
    assert_eq!(update.requested_tracks.len(), 1);
    assert_eq!(update.requested_tracks[0].tag, "idle_stand");
    assert_eq!(tracks[0].cursor.frame_started_at_ms, COMPOSED_PART_HIT_BLINK_PHASE_MS);
    assert!(!part_states.part("body").unwrap().hit_blink.unwrap().showing_invert);
    let direct = compose_frame(&update.resolved.poses, &cache, &regions(&atlas), &part_states).unwrap();
    let frame = update.frame.expect("the frame should compose");
    assert_eq!(frame.metrics.origin, direct.metrics.origin);
    assert_eq!(frame.metrics.size, direct.metrics.size);
}

#[test]
fn visual_update_of_a_dying_enemy_stays_on_its_death_moment() {
    let atlas = split_atlas();
    let cache = build_cache(&atlas).unwrap();
    let mut part_states = ComposedPartStates::from_cache(&cache);
    assert!(start_part_hit_blink(&mut part_states, "body", 0));
    let state = ComposedAnimationState::new("idle_stand".to_string());
    let mut tracks = Vec::new();
    let update =
        update_composed_enemy_frame(&mut tracks, &state, &cache, &regions(&atlas), &mut part_states, Some(500), 9_000)
            .expect("idle_stand should resolve");
    assert_eq!(tracks[0].cursor.frame_started_at_ms, 500);
    let blink = part_states.part("body").unwrap().hit_blink.unwrap();
    assert!(blink.showing_invert);
    assert_eq!(blink.phase_started_at_ms, 0);
    assert!(update.frame.is_some());
}

#[test]
fn visual_update_reports_a_missing_animation() {
    let atlas = split_atlas();
    let cache = build_cache(&atlas).unwrap();
    let mut part_states = ComposedPartStates::from_cache(&cache);
    let state = ComposedAnimationState::new("absent".to_string());
    let mut tracks = Vec::new();
    let error = update_composed_enemy_frame(&mut tracks, &state, &cache, &regions(&atlas), &mut part_states, None, 0)
        .err()
        .expect("a missing tag should be rejected");
    assert!(matches!(error, carcinisation::composed::tracks::TrackError::MissingAnimation { track: 0 }));
}

#[test]
fn part_hits_on_the_entity_pool_set_health_and_kill_at_zero() {
    let cache = build_cache(&split_atlas()).unwrap();
    let hit = |pool: Option<&str>, remaining: Option<u32>| AppliedPartDamage {
        pool_id: pool.map(|p| p.to_string()),
        remaining_health: remaining,
        remaining_durability: None,
        broke_part: false,
    };
    assert_eq!(
        entity_health_after_part_damage(&cache, &hit(Some("core"), Some(12)), Some(20)),
        EntityHealthOutcome { health: Some(12), dies: false }
    );
    assert_eq!(
        entity_health_after_part_damage(&cache, &hit(Some("core"), Some(0)), Some(5)),
        EntityHealthOutcome { health: Some(0), dies: true }
    );
    assert_eq!(
        entity_health_after_part_damage(&cache, &hit(Some("core"), Some(0)), None),
        EntityHealthOutcome { health: None, dies: true }
    );
    assert_eq!(
        entity_health_after_part_damage(&cache, &hit(Some("wings"), Some(0)), Some(20)),
        EntityHealthOutcome { health: Some(20), dies: false }
    );
    assert_eq!(
        entity_health_after_part_damage(&cache, &hit(None, None), Some(20)),
        EntityHealthOutcome { health: Some(20), dies: false }
    );
}
