//! One visual update of a composed enemy: its clock, hit blinks, animation
//! tracks, resolved poses and composed image, in that order.

use super::blink::{begin_composed_visual_update, blink_time_ok, blinks_time_ok, entry_blink_advanced, spec_animation_clock};
use super::cache::CompositionAtlasCache;
use super::compose::{compose_frame, frame_composed, ComposedFrame, SpriteRegion};
use super::damage::{ComposedPartStates, PartEntry};
use super::model::ComposedAnimationState;
use super::playback::{cues_view, CueView};
use super::tracks::{
    requested_animation_tracks,
    requests_view,
    resolve_requested_animation_frame,
    resolved_view,
    spec_requested_tracks,
    spec_resolve_parts_upto,
    spec_sync_upto,
    tracks_in_range,
    tracks_view,
    ComposedTrackPlaybackState,
    PoseView,
    RequestedAnimationTrack,
    ResolvedAnimationFrame,
    TrackError,
};
use vstd::prelude::*;

verus! {

/// What one visual update of a composed enemy produced.
pub struct ComposedEnemyFrame {
    /// The animation tracks requested, in priority order.
    pub requested_tracks: Vec<RequestedAnimationTrack>,
    /// The poses resolved from them and the cues they fired.
    pub resolved: ResolvedAnimationFrame,
    /// The composed image, if anything is drawn.
    pub frame: Option<ComposedFrame>,
}

/// Part states after a visual update: frozen for a dying enemy, blinks
/// advanced to `now` for a living one.
pub open spec fn parts_after_update(parts: Seq<PartEntry>, dying_started_ms: Option<u64>, now_ms: u64) -> Seq<
    PartEntry,
> {
    match dying_started_ms {
        Some(_) => parts,
        None => parts.map_values(|e: PartEntry| entry_blink_advanced(e, now_ms)),
    }
}

/// Updates a composed enemy for the stage time `now_ms`. A dying enemy
/// (`dying_started_ms` is when its death began) animates at the moment its
/// death began and keeps its hit blinks as they are; a living one animates
/// at `now_ms` and has its blinks advanced. The requested tracks are synced
/// to that time, the visual parts resolved from them and then composed.
pub fn update_composed_enemy_frame(
    track_states: &mut Vec<ComposedTrackPlaybackState>,
    animation_state: &ComposedAnimationState,
    cache: &CompositionAtlasCache,
    regions: &Vec<SpriteRegion>,
    part_states: &mut ComposedPartStates,
    dying_started_ms: Option<u64>,
    now_ms: u64,
) -> (r: Result<ComposedEnemyFrame, TrackError>)
    requires
        dying_started_ms is None ==> blink_time_ok(now_ms) && blinks_time_ok(old(part_states).parts@),
        tracks_in_range(tracks_view(old(track_states)@), cache.animations@),
    ensures
        final(part_states).parts@ == parts_after_update(old(part_states).parts@, dying_started_ms, now_ms),
        tracks_in_range(tracks_view(final(track_states)@), cache.animations@),
        ({
            let clock = spec_animation_clock(dying_started_ms, now_ms);
            let reqs = spec_requested_tracks(*animation_state, Some(cache.animations@));
            let (synced, tracks) = spec_sync_upto(
                tracks_view(old(track_states)@),
                reqs,
                cache.animations@,
                clock,
                reqs.len() as int,
            );
            let n = cache.visual_parts_in_draw_order@.len() as int;
            &&& tracks_view(final(track_states)@) == tracks
            &&& match r {
                Ok(u) => {
                    &&& requests_view(u.requested_tracks@) == reqs
                    &&& synced == Ok::<Seq<CueView>, TrackError>(
                        cues_view(u.resolved.fired_cues@),
                    )
                    &&& spec_resolve_parts_upto(*cache, u.requested_tracks@, final(track_states)@, n)
                        == Ok::<Seq<(Seq<char>, Seq<PoseView>)>, TrackError>(
                        resolved_view(u.resolved.poses@),
                    )
                    &&& frame_composed(*cache, u.resolved.poses@, final(part_states).parts@, regions@, u.frame)
                },
                Err(e) => synced == Err::<Seq<CueView>, TrackError>(e) || (synced is Ok
                    && exists|requested: Seq<RequestedAnimationTrack>|
                    requests_view(requested) == reqs && spec_resolve_parts_upto(
                        *cache,
                        requested,
                        final(track_states)@,
                        n,
                    ) == Err::<Seq<(Seq<char>, Seq<PoseView>)>, TrackError>(e)),
            }
        }),
{
    let clock = begin_composed_visual_update(part_states, dying_started_ms, now_ms);
    assert(part_states.parts@ =~= parts_after_update(old(part_states).parts@, dying_started_ms, now_ms));
    let requested_tracks = requested_animation_tracks(animation_state, Some(cache));
    let resolved = match resolve_requested_animation_frame(track_states, &requested_tracks, cache, clock) {
        Ok(resolved) => resolved,
        Err(e) => {
            return Err(e);
        },
    };
    let frame = compose_frame(&resolved.poses, cache, regions, part_states);
    Ok(ComposedEnemyFrame { requested_tracks, resolved, frame })
}

} // verus!
