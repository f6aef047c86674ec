//! Turning a compact manifest into the runtime cache, rejecting malformed
//! manifests with the first defect found.

use super::compact::{
    AtlasErrorView,
    CompactAtlasError,
    CompactComposedAtlas,
    CompactAnimation,
    CompactEvent,
    CompactOverride,
    CompactPart,
    CompactPose,
    DrawEntry,
    PoseGroupView,
    animation_built,
    animation_check,
    animation_error,
    animations_error,
    atlas_error,
    cache_built,
    frame_built,
    frame_check,
    frame_error,
    frame_groups,
    frame_of,
    frames_error,
    override_built,
    pool_builder,
    pool_key,
    tag_seen_before,
    chain_check,
    chain_error,
    event_built,
    event_check,
    events_error,
    fragment_check,
    fragment_gap,
    fragments_error,
    group_add,
    group_built,
    group_chain_error,
    group_fragment_error,
    group_index,
    lemma_group_index_bounds,
    lemma_pose_groups_resolved,
    pose_built,
    pose_check,
    pose_error,
    pose_groups,
    poses_error,
    sorted_groups,
    sprites_resolved,
    first_failing,
    lemma_first_failing_none,
    lemma_first_failing_stays,
    lemma_first_failing_step,
    name_seen_before,
    opt_part_name,
    part_builder,
    part_check,
    part_in_range,
    part_key,
    part_name,
    part_record,
    part_table,
    parts_error,
    sprite_name_check,
    sprite_tables_error,
    table_draw_order,
    visual_draw_order,
    visual_entries,
};
use super::cache::{CompositionAtlasCache, TaggedAnimation};
use super::model::{
    CachedAnimationOverride,
    CachedPart,
    CachedPartGameplay,
    CachedPose,
    HealthPool,
    PartFragments,
    clone_strings,
    strings_view,
};
use super::playback::{CachedAnimation, CachedAnimationEvent, CachedAnimationFrame};
use super::playback::opt_string_view;
use crate::keyed::{
    Keyed,
    find_keyed,
    has_key,
    lemma_first_keyed,
    table_of,
    unique_keys,
    lemma_table_of_empty,
    lemma_table_of_lookup,
    lemma_table_of_step,
    upsert_keyed,
};
use crate::sort::{sort_stable_by_key, stable_sorted};
use vstd::prelude::*;

verus! {

/// Whether sprite name `j` repeats an earlier one.
fn sprite_name_seen_before(names: &Vec<String>, j: usize) -> (r: bool)
    requires
        j < names.len(),
    ensures
        r == name_seen_before(names@, j as int),
{
    for i in 0..j
        invariant
            j < names.len(),
            forall|t: int| 0 <= t < i ==> (#[trigger] names@[t])@ != names@[j as int]@,
    {
        if names[i].eq(&names[j]) {
            return true;
        }
    }
    false
}

/// Checks that every sprite name has a size and that no sprite name repeats.
pub fn validate_compact_sprite_tables(atlas: &CompactComposedAtlas) -> (r: Result<(), CompactAtlasError>)
    ensures
        match r {
            Ok(()) => sprite_tables_error(*atlas) is None,
            Err(e) => sprite_tables_error(*atlas) == Some(e@),
        },
{
    if atlas.sprite_names.len() != atlas.sprite_sizes.len() {
        return Err(
            CompactAtlasError::SpriteTableLengthMismatch {
                names: atlas.sprite_names.len(),
                sizes: atlas.sprite_sizes.len(),
            },
        );
    }
    let n = atlas.sprite_names.len();
    let ghost check = sprite_name_check(atlas.sprite_names@);
    for j in 0..n
        invariant
            n == atlas.sprite_names.len(),
            n == atlas.sprite_sizes.len(),
            check == sprite_name_check(atlas.sprite_names@),
            first_failing(check, j as int) is None,
    {
        proof {
            lemma_first_failing_step(check, j as int);
        }
        if sprite_name_seen_before(&atlas.sprite_names, j) {
            proof {
                lemma_first_failing_stays(check, j + 1, n as int);
            }
            return Err(CompactAtlasError::DuplicateSpriteName { name: atlas.sprite_names[j].clone() });
        }
    }
    Ok(())
}

/// The part name with index `idx`.
fn resolve_part_name(atlas: &CompactComposedAtlas, idx: u8) -> (r: Result<String, CompactAtlasError>)
    ensures
        match r {
            Ok(s) => part_in_range(*atlas, idx) && s@ == part_name(*atlas, idx),
            Err(e) => !part_in_range(*atlas, idx) && e@ == AtlasErrorView::PartIndexOutOfRange {
                index: idx,
            },
        },
{
    let i = idx as usize;
    if i < atlas.part_names.len() {
        Ok(atlas.part_names[i].clone())
    } else {
        Err(CompactAtlasError::PartIndexOutOfRange { index: idx })
    }
}

fn clone_opt_string(s: &Option<String>) -> (r: Option<String>)
    ensures
        opt_string_view(r) == opt_string_view(*s),
{
    match s {
        Some(v) => Some(v.clone()),
        None => None,
    }
}

/// The runtime part for one record, names resolved.
fn build_part(atlas: &CompactComposedAtlas, part: &CompactPart) -> (r: Result<CachedPart, CompactAtlasError>)
    ensures
        match r {
            Ok(c) => super::compact::part_record_error(*atlas, *part) is None && super::compact::part_built(
                *atlas,
                *part,
                c,
            ),
            Err(e) => super::compact::part_record_error(*atlas, *part) == Some(e@),
        },
{
    let id = match resolve_part_name(atlas, part.id) {
        Ok(s) => s,
        Err(e) => return Err(e),
    };
    let parent_id = match part.parent {
        Some(q) => match resolve_part_name(atlas, q) {
            Ok(s) => Some(s),
            Err(e) => return Err(e),
        },
        None => None,
    };
    Ok(
        CachedPart {
            id,
            parent_id,
            is_visual: part.visual,
            draw_order: part.draw_order,
            pivot: part.pivot.widen(),
            tags: clone_strings(&part.tags),
            gameplay: CachedPartGameplay {
                targetable: part.gameplay.targetable,
                health_pool: clone_opt_string(&part.gameplay.health_pool),
                armour: part.gameplay.armour,
                durability: part.gameplay.durability,
                breakable: part.gameplay.breakable,
            },
        },
    )
}

/// The part table: one runtime part per name, from the last record with it.
fn build_part_table(atlas: &CompactComposedAtlas) -> (r: Result<Vec<CachedPart>, CompactAtlasError>)
    ensures
        match r {
            Ok(t) => parts_error(*atlas, atlas.parts.len() as int) is None && part_table(*atlas, t@),
            Err(e) => parts_error(*atlas, atlas.parts.len() as int) == Some(e@),
        },
{
    let ghost a = *atlas;
    let mut table: Vec<CachedPart> = Vec::new();
    proof {
        lemma_table_of_empty(a.parts@, part_key(a), part_builder::<>(a));
    }
    let n = atlas.parts.len();
    for i in 0..n
        invariant
            a == *atlas,
            n == atlas.parts.len(),
            parts_error(a, i as int) is None,
            crate::keyed::table_of(table@, a.parts@, part_key(a), part_builder(a), i as int),
    {
        proof {
            lemma_first_failing_step(part_check(a), i as int);
        }
        match build_part(atlas, &atlas.parts[i]) {
            Ok(cached) => {
                proof {
                    lemma_table_of_step(table@, a.parts@, part_key(a), part_builder(a), i as int, cached);
                }
                upsert_keyed(&mut table, cached);
            },
            Err(e) => {
                proof {
                    lemma_first_failing_stays(part_check(a), i + 1, n as int);
                }
                return Err(e);
            },
        }
    }
    Ok(table)
}

/// Names of the visual parts, stably ordered by the draw order of their
/// defining records.
fn visual_parts_in_draw_order(atlas: &CompactComposedAtlas, table: &Vec<CachedPart>) -> (r: Vec<String>)
    requires
        parts_error(*atlas, atlas.parts.len() as int) is None,
        part_table(*atlas, table@),
    ensures
        strings_view(r@) == visual_draw_order(*atlas),
{
    let ghost a = *atlas;
    let n = atlas.parts.len();
    let mut entries: Vec<DrawEntry> = Vec::new();
    for i in 0..n
        invariant
            a == *atlas,
            n == atlas.parts.len(),
            parts_error(a, n as int) is None,
            part_table(a, table@),
            entries@ == visual_entries(a, i as int),
            forall|j: int| 0 <= j < entries.len() ==> part_in_range(a, (#[trigger] entries@[j]).name),
    {
        let part = &atlas.parts[i];
        if part.visual {
            proof {
                lemma_first_failing_none(part_check(a), n as int, i as int);
            }
            let name = &atlas.part_names[part.id as usize];
            let found = find_keyed(table, name);
            proof {
                lemma_table_of_lookup(table@, a.parts@, part_key(a), part_builder(a), n as int, name@);
            }
            let draw_order = match found {
                Some(k) => table[k].draw_order,
                None => 0,
            };
            proof {
                crate::keyed::lemma_last_with_key_found(a.parts@, part_key(a), name@, n as int, i as int);
                assert(part_record(a, name@) is Some);
                assert(draw_order == table_draw_order(a, part_name(a, part.id)));
            }
            entries.push(DrawEntry { draw_order, name: part.id });
        }
    }
    let ghost unsorted = entries@;
    let sorted = sort_stable_by_key(entries);
    proof {
        crate::sort::lemma_stable_sorted(unsorted);
        assert forall|t: int| 0 <= t < sorted.len() implies part_in_range(a, (#[trigger] sorted@[t]).name) by {
            assert(unsorted.contains(sorted@[t]));
        }
    }
    let ghost target = stable_sorted(unsorted).map_values(|e: DrawEntry| part_name(a, e.name));
    let mut out: Vec<String> = Vec::new();
    let m = sorted.len();
    for j in 0..m
        invariant
            a == *atlas,
            m == sorted.len(),
            sorted@ == stable_sorted(unsorted),
            target == stable_sorted(unsorted).map_values(|e: DrawEntry| part_name(a, e.name)),
            forall|t: int| 0 <= t < sorted.len() ==> part_in_range(a, (#[trigger] sorted@[t]).name),
            strings_view(out@) =~= target.take(j as int),
    {
        let ghost before = out@;
        let s = atlas.part_names[sorted[j].name as usize].clone();
        out.push(s);
        proof {
            assert(target.len() == m);
            assert(target[j as int] == part_name(a, sorted@[j as int].name));
            assert(out@ == before.push(s));
            assert(strings_view(out@) =~= strings_view(before).push(s@));
            assert(target.take(j + 1) =~= target.take(j as int).push(target[j as int]));
        }
    }
    proof {
        assert(target.take(m as int) =~= target);
    }
    out
}


/// The poses of one part within a frame, under construction.
struct PoseGroup {
    part_id: String,
    poses: Vec<CompactPose>,
}

spec fn groups_view(g: Seq<PoseGroup>) -> Seq<PoseGroupView> {
    g.map_values(|x: PoseGroup| (x.part_id@, x.poses@))
}

/// Checks the part and sprite references of a frame's poses, in order.
fn check_pose_refs(atlas: &CompactComposedAtlas, k: usize, f: usize, poses: &Vec<CompactPose>) -> (r: Result<
    (),
    CompactAtlasError,
>)
    ensures
        match r {
            Ok(()) => poses_error(*atlas, k as int, f as int, poses@, poses.len() as int) is None,
            Err(e) => poses_error(*atlas, k as int, f as int, poses@, poses.len() as int) == Some(e@),
        },
{
    let ghost a = *atlas;
    let ghost check = pose_check(a, k as int, f as int, poses@);
    let n = poses.len();
    for q in 0..n
        invariant
            a == *atlas,
            n == poses.len(),
            check == pose_check(a, k as int, f as int, poses@),
            first_failing(check, q as int) is None,
    {
        proof {
            lemma_first_failing_step(check, q as int);
        }
        let pose = poses[q];
        let failure = if (pose.p as usize) >= atlas.part_names.len() {
            Some(CompactAtlasError::PartIndexOutOfRange { index: pose.p })
        } else if (pose.s as usize) >= atlas.sprite_names.len() {
            Some(CompactAtlasError::SpriteIndexOutOfRange { index: pose.s })
        } else if (pose.s as usize) >= atlas.sprite_sizes.len() {
            Some(CompactAtlasError::MissingSpriteSize { index: pose.s, animation: k, frame: f })
        } else {
            None
        };
        match failure {
            Some(e) => {
                proof {
                    lemma_first_failing_stays(check, q + 1, n as int);
                }
                return Err(e);
            },
            None => {},
        }
    }
    Ok(())
}

proof fn lemma_group_index_is(g: Seq<PoseGroupView>, name: Seq<char>, i: int)
    requires
        0 <= i <= g.len(),
        forall|j: int| 0 <= j < i ==> (#[trigger] g[j]).0 != name,
        i < g.len() ==> g[i].0 == name,
    ensures
        group_index(g, name) == (if i < g.len() { Some(i) } else { None::<int> }),
    decreases i,
{
    if i > 0 {
        assert(g[0].0 != name);
        assert forall|j: int| 0 <= j < i - 1 implies (#[trigger] g.drop_first()[j]).0 != name by {
            assert(g.drop_first()[j] == g[j + 1]);
        }
        lemma_group_index_is(g.drop_first(), name, i - 1);
    }
}

/// Position of the group of the part called `name`.
fn find_group(groups: &Vec<PoseGroup>, name: &String) -> (r: Option<usize>)
    ensures
        match r {
            Some(i) => group_index(groups_view(groups@), name@) == Some(i as int),
            None => group_index(groups_view(groups@), name@) is None,
        },
{
    let n = groups.len();
    for i in 0..n
        invariant
            n == groups.len(),
            forall|j: int| 0 <= j < i ==> (#[trigger] groups_view(groups@)[j]).0 != name@,
    {
        if groups[i].part_id.eq(name) {
            proof {
                lemma_group_index_is(groups_view(groups@), name@, i as int);
            }
            return Some(i);
        }
    }
    proof {
        lemma_group_index_is(groups_view(groups@), name@, n as int);
    }
    None
}

/// Groups a frame's poses by part name, groups in order of first appearance.
fn group_poses(atlas: &CompactComposedAtlas, poses: &Vec<CompactPose>) -> (r: Vec<PoseGroup>)
    requires
        forall|q: int| 0 <= q < poses.len() ==> part_in_range(*atlas, (#[trigger] poses@[q]).p),
    ensures
        groups_view(r@) == pose_groups(*atlas, poses@, poses.len() as int),
{
    let ghost a = *atlas;
    let mut groups: Vec<PoseGroup> = Vec::new();
    let n = poses.len();
    for q in 0..n
        invariant
            a == *atlas,
            n == poses.len(),
            forall|t: int| 0 <= t < poses.len() ==> part_in_range(a, (#[trigger] poses@[t]).p),
            groups_view(groups@) =~= pose_groups(a, poses@, q as int),
    {
        let pose = poses[q];
        let name = atlas.part_names[pose.p as usize].clone();
        let ghost before = groups_view(groups@);
        proof {
            lemma_group_index_bounds(before, name@);
        }
        match find_group(&groups, &name) {
            Some(i) => {
                let ghost old_poses = groups@[i as int].poses@;
                groups[i].poses.push(pose);
                proof {
                    assert(groups_view(groups@) =~= group_add(before, name@, pose));
                }
            },
            None => {
                let mut fresh: Vec<CompactPose> = Vec::new();
                fresh.push(pose);
                groups.push(PoseGroup { part_id: name, poses: fresh });
                proof {
                    assert(groups_view(groups@) =~= group_add(before, name@, pose));
                }
            },
        }
    }
    groups
}

fn copy_poses(v: &Vec<CompactPose>) -> (r: Vec<CompactPose>)
    ensures
        r@ == v@,
{
    let mut out: Vec<CompactPose> = Vec::new();
    let n = v.len();
    for i in 0..n
        invariant
            n == v.len(),
            out@ =~= v@.take(i as int),
    {
        out.push(v[i]);
        assert(out@ =~= v@.take(i + 1));
    }
    assert(v@.take(n as int) =~= v@);
    out
}

/// Orders each group's poses by fragment number.
fn sort_groups(groups: &mut Vec<PoseGroup>)
    ensures
        groups_view(final(groups)@) == sorted_groups(groups_view(old(groups)@)),
{
    let ghost start = groups_view(groups@);
    let n = groups.len();
    for i in 0..n
        invariant
            n == groups.len(),
            start.len() == n,
            forall|j: int| 0 <= j < i ==> (#[trigger] groups_view(groups@)[j]) == sorted_groups(start)[j],
            forall|j: int| i <= j < n ==> (#[trigger] groups_view(groups@)[j]) == start[j],
    {
        let copy = copy_poses(&groups[i].poses);
        let sorted = crate::sort::sort_stable_by_key(copy);
        let ghost before = groups@;
        groups[i].poses = sorted;
        proof {
            assert(groups@.len() == before.len());
            assert(groups@[i as int].part_id == before[i as int].part_id);
            assert(groups_view(before)[i as int] == start[i as int]);
            assert(groups_view(groups@)[i as int] == sorted_groups(start)[i as int]);
            assert forall|j: int| 0 <= j < i implies (#[trigger] groups_view(groups@)[j]) == sorted_groups(
                start,
            )[j] by {
                assert(groups@[j] == before[j]);
                assert(groups_view(groups@)[j] == groups_view(before)[j]);
            }
            assert forall|j: int| i < j < n implies (#[trigger] groups_view(groups@)[j]) == start[j] by {
                assert(groups@[j] == before[j]);
                assert(groups_view(groups@)[j] == groups_view(before)[j]);
            }
        }
    }
    assert(groups_view(groups@) =~= sorted_groups(start));
}

/// Checks that a part's ordered fragments are numbered 0, 1, 2, ...
fn check_group_fragments(k: usize, f: usize, g: &PoseGroup) -> (r: Result<(), CompactAtlasError>)
    ensures
        match r {
            Ok(()) => group_fragment_error(k as int, f as int, (g.part_id@, g.poses@)) is None,
            Err(e) => group_fragment_error(k as int, f as int, (g.part_id@, g.poses@)) == Some(e@),
        },
{
    let n = g.poses.len();
    if n > 0 && g.poses[0].frag != 0 {
        return Err(
            CompactAtlasError::MissingPrimaryFragment {
                animation: k,
                frame: f,
                part: g.part_id.clone(),
            },
        );
    }
    let mut j: usize = 0;
    while j < n
        invariant
            n == g.poses.len(),
            j <= n,
            n > 0 ==> g.poses@[0].frag == 0,
            fragment_gap(g.poses@, 0) == fragment_gap(g.poses@, j as int),
        decreases n - j,
    {
        if g.poses[j].frag as usize != j {
            return Err(
                CompactAtlasError::NonContiguousFragments {
                    animation: k,
                    frame: f,
                    part: g.part_id.clone(),
                    expected: j,
                    found: g.poses[j].frag,
                },
            );
        }
        j = j + 1;
    }
    Ok(())
}

/// Checks fragment numbering group by group.
fn check_fragments(k: usize, f: usize, groups: &Vec<PoseGroup>) -> (r: Result<(), CompactAtlasError>)
    ensures
        match r {
            Ok(()) => fragments_error(k as int, f as int, groups_view(groups@), groups.len() as int)
                is None,
            Err(e) => fragments_error(k as int, f as int, groups_view(groups@), groups.len() as int)
                == Some(e@),
        },
{
    let ghost check = fragment_check(k as int, f as int, groups_view(groups@));
    let n = groups.len();
    for g in 0..n
        invariant
            n == groups.len(),
            check == fragment_check(k as int, f as int, groups_view(groups@)),
            first_failing(check, g as int) is None,
    {
        proof {
            lemma_first_failing_step(check, g as int);
        }
        match check_group_fragments(k, f, &groups[g]) {
            Ok(()) => {},
            Err(e) => {
                proof {
                    lemma_first_failing_stays(check, g + 1, n as int);
                }
                return Err(e);
            },
        }
    }
    Ok(())
}

/// Walks the parent chain of the part called `name`, which must itself have
/// a part record.
fn check_chain(
    atlas: &CompactComposedAtlas,
    table: &Vec<CachedPart>,
    k: usize,
    f: usize,
    groups: &Vec<PoseGroup>,
    name: &String,
) -> (r: Result<(), CompactAtlasError>)
    requires
        part_table(*atlas, table@),
        parts_error(*atlas, atlas.parts.len() as int) is None,
    ensures
        match r {
            Ok(()) => group_chain_error(*atlas, k as int, f as int, groups_view(groups@), name@) is None,
            Err(e) => group_chain_error(*atlas, k as int, f as int, groups_view(groups@), name@) == Some(
                e@,
            ),
        },
{
    let ghost a = *atlas;
    let ghost gs = groups_view(groups@);
    let ghost target = group_chain_error(a, k as int, f as int, gs, name@);
    let child = match find_keyed(table, name) {
        Some(i) => i,
        None => {
            proof {
                lemma_table_of_lookup(table@, a.parts@, part_key(a), part_builder(a), a.parts.len() as int, name@);
            }
            return Err(CompactAtlasError::UnknownPart { animation: k, frame: f, part: name.clone() });
        },
    };
    proof {
        lemma_table_of_lookup(table@, a.parts@, part_key(a), part_builder(a), a.parts.len() as int, name@);
    }
    let mut parent = clone_opt_string(&table[child].parent_id);
    let mut fuel: usize = atlas.parts.len();
    loop
        invariant
            a == *atlas,
            gs == groups_view(groups@),
            part_table(a, table@),
            target == group_chain_error(a, k as int, f as int, gs, name@),
            chain_error(a, k as int, f as int, gs, name@, opt_string_view(parent), fuel as nat) == target,
        decreases fuel,
    {
        match parent {
            None => {
                return Ok(());
            },
            Some(pn) => {
                if fuel == 0 {
                    return Err(
                        CompactAtlasError::ParentCycle { animation: k, frame: f, child: name.clone() },
                    );
                }
                proof {
                    lemma_table_of_lookup(table@, a.parts@, part_key(a), part_builder(a), a.parts.len() as int, pn@);
                }
                match find_keyed(table, &pn) {
                    None => {
                        return Err(
                            CompactAtlasError::MissingParent { animation: k, frame: f, parent: pn },
                        );
                    },
                    Some(pi) => {
                        if table[pi].is_visual && find_group(groups, &pn).is_none() {
                            return Err(
                                CompactAtlasError::ChildWithoutVisibleParent {
                                    animation: k,
                                    frame: f,
                                    child: name.clone(),
                                    parent: pn,
                                },
                            );
                        }
                        parent = clone_opt_string(&table[pi].parent_id);
                        fuel = fuel - 1;
                    },
                }
            },
        }
    }
}

/// Checks the parent chain of every placed part, group by group.
fn check_parent_chains(
    atlas: &CompactComposedAtlas,
    table: &Vec<CachedPart>,
    k: usize,
    f: usize,
    groups: &Vec<PoseGroup>,
) -> (r: Result<(), CompactAtlasError>)
    requires
        part_table(*atlas, table@),
        parts_error(*atlas, atlas.parts.len() as int) is None,
    ensures
        match r {
            Ok(()) => super::compact::chains_error(
                *atlas,
                k as int,
                f as int,
                groups_view(groups@),
                groups.len() as int,
            ) is None,
            Err(e) => super::compact::chains_error(
                *atlas,
                k as int,
                f as int,
                groups_view(groups@),
                groups.len() as int,
            ) == Some(e@),
        },
{
    let ghost a = *atlas;
    let ghost check = chain_check(a, k as int, f as int, groups_view(groups@));
    let n = groups.len();
    for g in 0..n
        invariant
            a == *atlas,
            n == groups.len(),
            part_table(a, table@),
            parts_error(a, a.parts.len() as int) is None,
            check == chain_check(a, k as int, f as int, groups_view(groups@)),
            first_failing(check, g as int) is None,
    {
        proof {
            lemma_first_failing_step(check, g as int);
        }
        match check_chain(atlas, table, k, f, groups, &groups[g].part_id) {
            Ok(()) => {},
            Err(e) => {
                proof {
                    lemma_first_failing_stays(check, g + 1, n as int);
                }
                return Err(e);
            },
        }
    }
    Ok(())
}

/// The runtime events of a frame, part names resolved.
fn build_events(atlas: &CompactComposedAtlas, events: &Vec<CompactEvent>) -> (r: Result<
    Vec<CachedAnimationEvent>,
    CompactAtlasError,
>)
    ensures
        match r {
            Ok(out) => {
                &&& events_error(*atlas, events@, events.len() as int) is None
                &&& out.len() == events.len()
                &&& forall|e: int|
                    0 <= e < events.len() ==> event_built(*atlas, events@[e], #[trigger] out@[e])
            },
            Err(err) => events_error(*atlas, events@, events.len() as int) == Some(err@),
        },
{
    let ghost a = *atlas;
    let ghost check = event_check(a, events@);
    let mut out: Vec<CachedAnimationEvent> = Vec::new();
    let n = events.len();
    for e in 0..n
        invariant
            a == *atlas,
            n == events.len(),
            check == event_check(a, events@),
            first_failing(check, e as int) is None,
            out.len() == e,
            forall|t: int| 0 <= t < e ==> event_built(a, events@[t], #[trigger] out@[t]),
    {
        proof {
            lemma_first_failing_step(check, e as int);
        }
        let event = &events[e];
        let part_id = match event.part {
            Some(q) => match resolve_part_name(atlas, q) {
                Ok(name) => Some(name),
                Err(err) => {
                    proof {
                        lemma_first_failing_stays(check, e + 1, n as int);
                    }
                    return Err(err);
                },
            },
            None => None,
        };
        out.push(
            CachedAnimationEvent {
                kind: event.kind,
                id: event.id.clone(),
                part_id,
                local_offset: event.offset.widen(),
            },
        );
    }
    Ok(out)
}

/// The runtime fragments of one part group.
fn build_group(atlas: &CompactComposedAtlas, g: &PoseGroup) -> (r: PartFragments)
    requires
        sprites_resolved(*atlas, g.poses@),
    ensures
        group_built(*atlas, (g.part_id@, g.poses@), r),
{
    let ghost a = *atlas;
    let mut fragments: Vec<CachedPose> = Vec::new();
    let n = g.poses.len();
    for j in 0..n
        invariant
            a == *atlas,
            n == g.poses.len(),
            sprites_resolved(a, g.poses@),
            fragments.len() == j,
            forall|t: int| 0 <= t < j ==> pose_built(a, g.poses@[t], #[trigger] fragments@[t]),
    {
        let pose = g.poses[j];
        let s = pose.s as usize;
        fragments.push(
            CachedPose {
                sprite_id: atlas.sprite_names[s].clone(),
                local_offset: pose.o.widen(),
                size: atlas.sprite_sizes[s].widen(),
                flip_x: pose.fx,
                flip_y: pose.fy,
                visible: true,
                fragment: pose.frag,
            },
        );
    }
    PartFragments { part_id: g.part_id.clone(), fragments }
}


/// The poses of a frame whose references check out resolve their sprites in every group.
proof fn lemma_frame_groups_resolved(a: CompactComposedAtlas, k: int, f: int)
    requires
        ({
            let fr = frame_of(a, k, f);
            poses_error(a, k, f, fr.poses@, fr.poses.len() as int) is None
        }),
    ensures
        forall|g: int|
            0 <= g < frame_groups(a, k, f).len() ==> sprites_resolved(
                a,
                (#[trigger] frame_groups(a, k, f)[g]).1,
            ),
{
    let fr = frame_of(a, k, f);
    let ps = fr.poses@;
    let n = ps.len() as int;
    assert forall|j: int| 0 <= j < ps.take(n).len() implies ((#[trigger] ps.take(n)[j]).s
        < a.sprite_names.len() && ps.take(n)[j].s < a.sprite_sizes.len()) by {
        lemma_first_failing_none(pose_check(a, k, f, ps), n, j);
        assert(ps.take(n)[j] == ps[j]);
    }
    lemma_pose_groups_resolved(a, ps, n);
    let raw = pose_groups(a, ps, n);
    assert forall|g: int| 0 <= g < frame_groups(a, k, f).len() implies sprites_resolved(
        a,
        (#[trigger] frame_groups(a, k, f)[g]).1,
    ) by {
        let members = raw[g].1;
        crate::sort::lemma_stable_sorted(members);
        let sorted = stable_sorted(members);
        assert(frame_groups(a, k, f)[g].1 == sorted);
        assert forall|j: int| 0 <= j < sorted.len() implies ((#[trigger] sorted[j]).s
            < a.sprite_names.len() && sorted[j].s < a.sprite_sizes.len()) by {
            assert(members.contains(sorted[j]));
            let t = choose|t: int| 0 <= t < members.len() && members[t] == sorted[j];
            assert(sprites_resolved(a, raw[g].1));
        }
    }
}

/// One runtime frame: references checked, poses grouped and ordered,
/// fragment numbering and parent chains checked, events resolved.
fn build_frame(atlas: &CompactComposedAtlas, table: &Vec<CachedPart>, k: usize, f: usize) -> (r: Result<
    CachedAnimationFrame,
    CompactAtlasError,
>)
    requires
        k < atlas.animations.len(),
        f < atlas.animations@[k as int].frames.len(),
        part_table(*atlas, table@),
        parts_error(*atlas, atlas.parts.len() as int) is None,
    ensures
        match r {
            Ok(c) => frame_error(*atlas, k as int, f as int) is None && frame_built(
                *atlas,
                k as int,
                f as int,
                c,
            ),
            Err(e) => frame_error(*atlas, k as int, f as int) == Some(e@),
        },
{
    let ghost a = *atlas;
    let frame = &atlas.animations[k].frames[f];
    let ghost ps = frame.poses@;
    match check_pose_refs(atlas, k, f, &frame.poses) {
        Ok(()) => {},
        Err(e) => {
            return Err(e);
        },
    }
    proof {
        assert forall|q: int| 0 <= q < ps.len() implies part_in_range(a, (#[trigger] ps[q]).p) by {
            lemma_first_failing_none(pose_check(a, k as int, f as int, ps), ps.len() as int, q);
        }
        lemma_frame_groups_resolved(a, k as int, f as int);
    }
    let mut groups = group_poses(atlas, &frame.poses);
    sort_groups(&mut groups);
    assert(groups_view(groups@) == frame_groups(a, k as int, f as int));
    match check_fragments(k, f, &groups) {
        Ok(()) => {},
        Err(e) => {
            return Err(e);
        },
    }
    match check_parent_chains(atlas, table, k, f, &groups) {
        Ok(()) => {},
        Err(e) => {
            return Err(e);
        },
    }
    let events = match build_events(atlas, &frame.events) {
        Ok(v) => v,
        Err(e) => {
            return Err(e);
        },
    };
    let mut poses: Vec<PartFragments> = Vec::new();
    let n = groups.len();
    for g in 0..n
        invariant
            a == *atlas,
            n == groups.len(),
            groups_view(groups@) == frame_groups(a, k as int, f as int),
            forall|t: int|
                0 <= t < frame_groups(a, k as int, f as int).len() ==> sprites_resolved(
                    a,
                    (#[trigger] frame_groups(a, k as int, f as int)[t]).1,
                ),
            poses.len() == g,
            forall|t: int|
                0 <= t < g ==> group_built(
                    a,
                    frame_groups(a, k as int, f as int)[t],
                    #[trigger] poses@[t],
                ),
    {
        proof {
            assert(groups_view(groups@)[g as int] == (groups@[g as int].part_id@, groups@[g as int].poses@));
            assert(sprites_resolved(a, frame_groups(a, k as int, f as int)[g as int].1));
        }
        poses.push(build_group(atlas, &groups[g]));
    }
    Ok(CachedAnimationFrame { source_frame: f, duration_ms: frame.duration_ms, events, poses })
}

fn build_override(o: &CompactOverride) -> (r: CachedAnimationOverride)
    ensures
        override_built(*o, r),
{
    CachedAnimationOverride {
        source_tag: o.source_tag.clone(),
        selector: o.selector.clone_selector(),
        sprite_only: o.sprite_only,
    }
}

/// The frames and overrides of animation `k`.
fn build_animation(atlas: &CompactComposedAtlas, table: &Vec<CachedPart>, k: usize) -> (r: Result<
    CachedAnimation,
    CompactAtlasError,
>)
    requires
        k < atlas.animations.len(),
        part_table(*atlas, table@),
        parts_error(*atlas, atlas.parts.len() as int) is None,
    ensures
        match r {
            Ok(c) => frames_error(*atlas, k as int, atlas.animations@[k as int].frames.len() as int)
                is None && animation_built(*atlas, k as int, c),
            Err(e) => frames_error(*atlas, k as int, atlas.animations@[k as int].frames.len() as int)
                == Some(e@),
        },
{
    let ghost a = *atlas;
    let animation: &CompactAnimation = &atlas.animations[k];
    let ghost check = frame_check(a, k as int);
    let n = animation.frames.len();
    let mut frames: Vec<CachedAnimationFrame> = Vec::new();
    for f in 0..n
        invariant
            a == *atlas,
            k < atlas.animations.len(),
            animation == atlas.animations@[k as int],
            n == animation.frames.len(),
            part_table(a, table@),
            parts_error(a, a.parts.len() as int) is None,
            check == frame_check(a, k as int),
            first_failing(check, f as int) is None,
            frames.len() == f,
            forall|t: int| 0 <= t < f ==> frame_built(a, k as int, t, #[trigger] frames@[t]),
    {
        proof {
            lemma_first_failing_step(check, f as int);
        }
        match build_frame(atlas, table, k, f) {
            Ok(c) => {
                frames.push(c);
            },
            Err(e) => {
                proof {
                    lemma_first_failing_stays(check, f + 1, n as int);
                }
                return Err(e);
            },
        }
    }
    let mut part_overrides: Vec<CachedAnimationOverride> = Vec::new();
    let m = animation.part_overrides.len();
    for o in 0..m
        invariant
            m == animation.part_overrides.len(),
            part_overrides.len() == o,
            forall|t: int|
                0 <= t < o ==> override_built(
                    animation.part_overrides@[t],
                    #[trigger] part_overrides@[t],
                ),
    {
        part_overrides.push(build_override(&animation.part_overrides[o]));
    }
    Ok(
        CachedAnimation {
            direction: animation.direction,
            repeats: animation.repeats,
            frames,
            part_overrides,
        },
    )
}

/// The named health pools at full health; a pool named twice keeps its last maximum.
fn build_health_pools(atlas: &CompactComposedAtlas) -> (r: Vec<HealthPool>)
    ensures
        table_of(
            r@,
            atlas.gameplay.health_pools@,
            pool_key(),
            pool_builder(),
            atlas.gameplay.health_pools.len() as int,
        ),
{
    let src = &atlas.gameplay.health_pools;
    let mut pools: Vec<HealthPool> = Vec::new();
    proof {
        lemma_table_of_empty(src@, pool_key(), pool_builder());
    }
    let n = src.len();
    for i in 0..n
        invariant
            n == src.len(),
            table_of(pools@, src@, pool_key(), pool_builder(), i as int),
    {
        let pool = HealthPool { id: src[i].id.clone(), health: src[i].max_health };
        proof {
            lemma_table_of_step(pools@, src@, pool_key(), pool_builder(), i as int, pool);
        }
        upsert_keyed(&mut pools, pool);
    }
    pools
}

/// Builds the runtime cache of a compact manifest, or reports the first
/// defect: part records, then each animation in order (a repeated tag, then
/// each frame's pose references, fragment numbering, the record and parent
/// chain of each placed part, and event references).
pub fn build_runtime_cache_compact(atlas: &CompactComposedAtlas) -> (r: Result<
    CompositionAtlasCache,
    CompactAtlasError,
>)
    ensures
        match r {
            Ok(c) => atlas_error(*atlas) is None && cache_built(*atlas, c) && c.well_formed(),
            Err(e) => atlas_error(*atlas) == Some(e@),
        },
{
    let ghost a = *atlas;
    let table = match build_part_table(atlas) {
        Ok(t) => t,
        Err(e) => {
            return Err(e);
        },
    };
    let visual_parts_in_draw_order = visual_parts_in_draw_order(atlas, &table);
    let ghost check = animation_check(a);
    let n = atlas.animations.len();
    let mut animations: Vec<TaggedAnimation> = Vec::new();
    for k in 0..n
        invariant
            a == *atlas,
            n == atlas.animations.len(),
            part_table(a, table@),
            parts_error(a, a.parts.len() as int) is None,
            check == animation_check(a),
            first_failing(check, k as int) is None,
            animations.len() == k,
            unique_keys(animations@),
            forall|t: int|
                0 <= t < k ==> {
                    &&& (#[trigger] animations@[t]).tag@ == a.animations@[t].tag@
                    &&& animation_built(a, t, animations@[t].animation)
                },
    {
        proof {
            lemma_first_failing_step(check, k as int);
        }
        let tag = &atlas.animations[k].tag;
        let seen = find_keyed(&animations, tag);
        proof {
            lemma_first_keyed(animations@, tag@);
            if seen is Some {
                let j = seen->0 as int;
                assert(a.animations@[j].tag@ == a.animations@[k as int].tag@);
                assert(tag_seen_before(a, k as int));
            } else {
                assert(!tag_seen_before(a, k as int)) by {
                    if tag_seen_before(a, k as int) {
                        let j = choose|j: int|
                            0 <= j < k && (#[trigger] a.animations@[j]).tag@ == a.animations@[k as int].tag@;
                        assert(animations@[j].tag@ == tag@);
                        assert(has_key(animations@, tag@));
                    }
                }
            }
        }
        if seen.is_some() {
            proof {
                lemma_first_failing_stays(check, k + 1, n as int);
            }
            return Err(CompactAtlasError::DuplicateAnimationTag { animation: k });
        }
        let animation = match build_animation(atlas, &table, k) {
            Ok(c) => c,
            Err(e) => {
                proof {
                    lemma_first_failing_stays(check, k + 1, n as int);
                }
                return Err(e);
            },
        };
        let entry = TaggedAnimation { tag: tag.clone(), animation };
        proof {
            assert(!has_key(animations@, tag@));
            assert forall|i: int, j: int|
                0 <= i < animations@.push(entry).len() && 0 <= j < animations@.push(entry).len() && i
                    != j implies (#[trigger] animations@.push(entry)[i]).key_view() != (
            #[trigger] animations@.push(entry)[j]).key_view() by {
                if i == k {
                    assert(animations@[j].key_view() != tag@);
                } else if j == k {
                    assert(animations@[i].key_view() != tag@);
                } else {
                    assert(animations@[i].key_view() != animations@[j].key_view());
                }
            }
        }
        animations.push(entry);
    }
    let health_pools = build_health_pools(atlas);
    let entity_health_pool = clone_opt_string(&atlas.gameplay.entity_health_pool);
    Ok(
        CompositionAtlasCache {
            visual_parts_in_draw_order,
            parts: table,
            animations,
            entity_health_pool,
            health_pools,
        },
    )
}

} // verus!
