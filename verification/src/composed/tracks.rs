//! Requested animation tracks and their playback states.
//!
//! Tracks are requested in priority order: code-side overrides, then overrides
//! declared in the manifest for the base tag, then the base tag itself. Each
//! track keeps its own frame clock; a track is only restarted when what it
//! requests changes.

use super::cache::{CompositionAtlasCache, TaggedAnimation};
use super::model::{CachedPart, CachedPose, PartFragments};
use crate::geometry::{IVec2, UVec2};
use super::model::{
    ComposedAnimationState, ComposedPartSelector, clone_strings, strings_equal, strings_view,
};
use super::playback::{
    AnimationDirection, CachedAnimation, CueView, FiredAnimationCue, TrackCursor,
    advance_track_playback, cues_view, cursor_in_range, fired_frame_cues, frame_cues,
    initial_frame_index, spec_initial_frame_index, spec_playback, spec_terminal_frame_index,
    terminal_frame_index,
};
use crate::keyed::{find_keyed, first_keyed};
use vstd::prelude::*;

verus! {

/// One requested animation source.
#[derive(Debug)]
pub struct RequestedAnimationTrack {
    pub tag: String,
    /// `None` for the base track, which applies to every part.
    pub selector: Option<ComposedPartSelector>,
    pub sprite_only: bool,
    pub hold_last_frame: bool,
}

/// Playback state of one requested track.
#[derive(Debug)]
pub struct ComposedTrackPlaybackState {
    pub request: RequestedAnimationTrack,
    pub cursor: TrackCursor,
}

/// Why requested tracks could not be played or resolved.
#[derive(Clone, Copy, Debug, PartialEq, Eq, Structural)]
pub enum TrackError {
    /// An override track targets neither a part id nor a tag.
    EmptyOverrideSelector,
    /// The tag of request `track` is missing from the manifest.
    MissingAnimation { track: usize },
    /// A requested animation has no frames.
    NoFrames,
    /// A track cursor points past the animation's frames.
    InvalidFrameIndex,
}

pub struct RequestView {
    pub tag: Seq<char>,
    pub selector: Option<(Seq<Seq<char>>, Seq<Seq<char>>)>,
    pub sprite_only: bool,
    pub hold_last_frame: bool,
}

pub struct TrackView {
    pub request: RequestView,
    pub cursor: TrackCursor,
}

pub open spec fn selector_view(s: ComposedPartSelector) -> (Seq<Seq<char>>, Seq<Seq<char>>) {
    (strings_view(s.part_ids@), strings_view(s.part_tags@))
}

impl View for RequestedAnimationTrack {
    type V = RequestView;

    open spec fn view(&self) -> RequestView {
        RequestView {
            tag: self.tag@,
            selector: match self.selector {
                Some(s) => Some(selector_view(s)),
                None => None,
            },
            sprite_only: self.sprite_only,
            hold_last_frame: self.hold_last_frame,
        }
    }
}

pub open spec fn requests_view(s: Seq<RequestedAnimationTrack>) -> Seq<RequestView> {
    s.map_values(|r: RequestedAnimationTrack| r@)
}

pub open spec fn tracks_view(s: Seq<ComposedTrackPlaybackState>) -> Seq<TrackView> {
    s.map_values(|t: ComposedTrackPlaybackState| TrackView { request: t.request@, cursor: t.cursor })
}

/// Requests, in priority order, for an animation state: code overrides,
/// then overrides the manifest declares for the base tag, then the base tag.
pub open spec fn spec_requested_tracks(
    state: ComposedAnimationState,
    animations: Option<Seq<TaggedAnimation>>,
) -> Seq<RequestView> {
    let code = state.part_overrides@.map_values(
        |o: super::model::ComposedAnimationOverride|
            RequestView {
                tag: o.tag@,
                selector: Some(selector_view(o.selector)),
                sprite_only: o.sprite_only,
                hold_last_frame: false,
            },
    );
    let declared = match animations {
        Some(anims) => match first_keyed(anims, state.requested_tag@) {
            Some(i) => anims[i].animation.part_overrides@.map_values(
                |o: super::model::CachedAnimationOverride|
                    RequestView {
                        tag: o.source_tag@,
                        selector: Some(selector_view(o.selector)),
                        sprite_only: o.sprite_only,
                        hold_last_frame: false,
                    },
            ),
            None => Seq::empty(),
        },
        None => Seq::empty(),
    };
    code + declared + seq![
        RequestView {
            tag: state.requested_tag@,
            selector: None,
            sprite_only: false,
            hold_last_frame: state.hold_last_frame,
        },
    ]
}

/// Builds the prioritised track list for an animation request.
pub fn requested_animation_tracks(
    animation_state: &ComposedAnimationState,
    cache: Option<&CompositionAtlasCache>,
) -> (r: Vec<RequestedAnimationTrack>)
    ensures
        requests_view(r@) == spec_requested_tracks(
            *animation_state,
            match cache {
                Some(c) => Some(c.animations@),
                None => None,
            },
        ),
{
    let ghost anims = match cache {
        Some(c) => Some(c.animations@),
        None => None,
    };
    let ghost target = spec_requested_tracks(*animation_state, anims);
    let mut tracks: Vec<RequestedAnimationTrack> = Vec::new();
    let n = animation_state.part_overrides.len();
    for i in 0..n
        invariant
            n == animation_state.part_overrides.len(),
            requests_view(tracks@) =~= target.take(i as int),
            tracks@.len() == i,
            target == spec_requested_tracks(*animation_state, anims),
    {
        let o = &animation_state.part_overrides[i];
        tracks.push(
            RequestedAnimationTrack {
                tag: o.tag.clone(),
                selector: Some(o.selector.clone_selector()),
                sprite_only: o.sprite_only,
                hold_last_frame: false,
            },
        );
        proof {
            let code = animation_state.part_overrides@.map_values(
                |o: super::model::ComposedAnimationOverride|
                    RequestView {
                        tag: o.tag@,
                        selector: Some(selector_view(o.selector)),
                        sprite_only: o.sprite_only,
                        hold_last_frame: false,
                    },
            );
            assert(target[i as int] == code[i as int]);
            assert(requests_view(tracks@)[i as int] == tracks@[i as int]@);
            assert forall|k: int| 0 <= k < i + 1 implies #[trigger] requests_view(tracks@)[k] == target.take(
                i + 1,
            )[k] by {
                if k < i {
                    assert(requests_view(tracks@)[k] == tracks@[k]@);
                }
            }
            assert(requests_view(tracks@) =~= target.take(i + 1));
        }
    }
    let mut declared_len: usize = 0;
    if let Some(c) = cache {
        if let Some(ai) = find_keyed(&c.animations, &animation_state.requested_tag) {
            let overrides = &c.animations[ai].animation.part_overrides;
            let m = overrides.len();
            for j in 0..m
                invariant
                    m == overrides.len(),
                    overrides == &c.animations@[ai as int].animation.part_overrides,
                    anims == Some(c.animations@),
                    first_keyed(c.animations@, animation_state.requested_tag@) == Some(ai as int),
                    n == animation_state.part_overrides.len(),
                    requests_view(tracks@) =~= target.take(n + j),
                    tracks@.len() == n + j,
                    ai < c.animations.len(),
                    target == spec_requested_tracks(*animation_state, anims),
            {
                let o = &overrides[j];
                tracks.push(
                    RequestedAnimationTrack {
                        tag: o.source_tag.clone(),
                        selector: Some(o.selector.clone_selector()),
                        sprite_only: o.sprite_only,
                        hold_last_frame: false,
                    },
                );
                proof {
                    let declared = overrides@.map_values(
                        |o: super::model::CachedAnimationOverride|
                            RequestView {
                                tag: o.source_tag@,
                                selector: Some(selector_view(o.selector)),
                                sprite_only: o.sprite_only,
                                hold_last_frame: false,
                            },
                    );
                    assert(target[n + j] == declared[j as int]);
                    assert(requests_view(tracks@)[n + j] == tracks@[n + j]@);
                    assert forall|k: int| 0 <= k < n + j + 1 implies #[trigger] requests_view(tracks@)[k]
                        == target.take(n + j + 1)[k] by {
                        if k < n + j {
                            assert(requests_view(tracks@)[k] == tracks@[k]@);
                        }
                    }
                    assert(requests_view(tracks@) =~= target.take(n + j + 1));
                }
            }
            declared_len = m;
        }
    }
    assert(requests_view(tracks@) =~= target.take(n + declared_len));
    assert(tracks@.len() == n + declared_len);
    assert(target.len() == n + declared_len + 1);
    let ghost before = tracks@;
    tracks.push(
        RequestedAnimationTrack {
            tag: animation_state.requested_tag.clone(),
            selector: None,
            sprite_only: false,
            hold_last_frame: animation_state.hold_last_frame,
        },
    );
    assert forall|k: int| 0 <= k < target.len() implies #[trigger] requests_view(tracks@)[k] == target[k] by {
        assert(requests_view(tracks@)[k] == tracks@[k]@);
        if k < before.len() {
            assert(tracks@[k] == before[k]);
            assert(requests_view(before)[k] == before[k]@);
        }
    }
    assert(requests_view(tracks@) =~= target);
    tracks
}


/// The cursor of a track (re)started at `now`: on its terminal frame when
/// holding, else on its initial frame.
pub open spec fn fresh_cursor(req: RequestView, anim: CachedAnimation, now: u64) -> TrackCursor {
    let count = anim.frames@.len() as int;
    TrackCursor {
        frame_index: (if req.hold_last_frame {
            spec_terminal_frame_index(anim.direction, count)
        } else {
            spec_initial_frame_index(anim.direction, count)
        }) as usize,
        frame_started_at_ms: now,
        ping_pong_forward: !(anim.direction matches AnimationDirection::PingPongReverse),
        completed_loops: 0,
        completion_fired: false,
    }
}

pub open spec fn selector_is_empty(sel: Option<(Seq<Seq<char>>, Seq<Seq<char>>)>) -> bool {
    match sel {
        Some((ids, tags)) => ids.len() == 0 && tags.len() == 0,
        None => false,
    }
}

/// Brings track `i` in line with request `req` at time `now`.
pub open spec fn spec_sync_step(
    tracks: Seq<TrackView>,
    req: RequestView,
    i: int,
    anims: Seq<TaggedAnimation>,
    now: u64,
) -> Result<(Seq<TrackView>, Seq<CueView>), TrackError> {
    if selector_is_empty(req.selector) {
        Err(TrackError::EmptyOverrideSelector)
    } else {
        match first_keyed(anims, req.tag) {
            None => Err(TrackError::MissingAnimation { track: i as usize }),
            Some(ai) => {
                let anim = anims[ai].animation;
                if i >= tracks.len() || tracks[i].request != req {
                    let c = fresh_cursor(req, anim, now);
                    let tv = TrackView { request: req, cursor: c };
                    let t2 = if i < tracks.len() {
                        tracks.update(i, tv)
                    } else {
                        tracks.push(tv)
                    };
                    Ok((t2, frame_cues(req.tag, anim.frames@, c.frame_index as int)))
                } else if req.hold_last_frame {
                    let c = TrackCursor {
                        frame_index: spec_terminal_frame_index(
                            anim.direction,
                            anim.frames@.len() as int,
                        ) as usize,
                        frame_started_at_ms: now,
                        completion_fired: false,
                        ..tracks[i].cursor
                    };
                    Ok((tracks.update(i, TrackView { cursor: c, ..tracks[i] }), Seq::empty()))
                } else {
                    let (c, cues) = spec_playback(req.tag, anim, tracks[i].cursor, now);
                    Ok((tracks.update(i, TrackView { cursor: c, ..tracks[i] }), cues))
                }
            },
        }
    }
}

/// Syncing request `i` changes only track `i`: every other track keeps its
/// request and cursor, and no track is dropped.
pub proof fn lemma_sync_step_touches_only_its_track(
    tracks: Seq<TrackView>,
    req: RequestView,
    i: int,
    anims: Seq<TaggedAnimation>,
    now: u64,
)
    requires
        0 <= i,
    ensures
        spec_sync_step(tracks, req, i, anims, now) matches Ok((t2, cues)) ==> {
            &&& t2.len() >= tracks.len()
            &&& forall|j: int| 0 <= j < tracks.len() && j != i ==> t2[j] == tracks[j]
        },
{
}

/// A track whose request is unchanged (and not held) keeps its own clock:
/// it advances from its own cursor, whatever the other tracks do.
pub proof fn lemma_unchanged_track_keeps_its_clock(
    tracks: Seq<TrackView>,
    req: RequestView,
    i: int,
    anims: Seq<TaggedAnimation>,
    now: u64,
)
    requires
        0 <= i < tracks.len(),
        tracks[i].request == req,
        !req.hold_last_frame,
        !selector_is_empty(req.selector),
        first_keyed(anims, req.tag) is Some,
    ensures
        spec_sync_step(tracks, req, i, anims, now) matches Ok((t2, cues)) && ({
            let anim = anims[first_keyed(anims, req.tag)->0].animation;
            (t2[i].cursor, cues) == spec_playback(req.tag, anim, tracks[i].cursor, now)
        }),
{
}

/// Syncs the first `n` requests in order, stopping at the first failure.
pub open spec fn spec_sync_upto(
    tracks: Seq<TrackView>,
    reqs: Seq<RequestView>,
    anims: Seq<TaggedAnimation>,
    now: u64,
    n: int,
) -> (Result<Seq<CueView>, TrackError>, Seq<TrackView>)
    decreases n,
{
    if n <= 0 {
        (Ok(Seq::empty()), if tracks.len() > reqs.len() {
            tracks.take(reqs.len() as int)
        } else {
            tracks
        })
    } else {
        let (r, t) = spec_sync_upto(tracks, reqs, anims, now, n - 1);
        match r {
            Err(e) => (Err(e), t),
            Ok(c) => match spec_sync_step(t, reqs[n - 1], n - 1, anims, now) {
                Err(e) => (Err(e), t),
                Ok((t2, c2)) => (Ok(c + c2), t2),
            },
        }
    }
}

/// Every track whose tag names an animation has its cursor on one of its frames.
pub open spec fn tracks_in_range(tracks: Seq<TrackView>, anims: Seq<TaggedAnimation>) -> bool {
    forall|k: int|
        0 <= k < tracks.len() ==> match first_keyed(anims, (#[trigger] tracks[k]).request.tag) {
            Some(ai) => cursor_in_range(tracks[k].cursor, anims[ai].animation.frames@.len() as int),
            None => true,
        }
}

impl RequestedAnimationTrack {
    pub fn clone_request(&self) -> (r: RequestedAnimationTrack)
        ensures
            r@ == self@,
    {
        RequestedAnimationTrack {
            tag: self.tag.clone(),
            selector: match &self.selector {
                Some(s) => Some(s.clone_selector()),
                None => None,
            },
            sprite_only: self.sprite_only,
            hold_last_frame: self.hold_last_frame,
        }
    }

    /// Request equality by content.
    pub fn same_as(&self, other: &RequestedAnimationTrack) -> (r: bool)
        ensures
            r == (self@ == other@),
    {
        let selectors_equal = match (&self.selector, &other.selector) {
            (Some(a), Some(b)) => {
                let e = a.same_as(b);
                proof {
                    if e {
                        assert(selector_view(*a) == selector_view(*b));
                    }
                }
                e
            },
            (None, None) => true,
            _ => false,
        };
        self.tag.eq(&other.tag) && selectors_equal && self.sprite_only == other.sprite_only
            && self.hold_last_frame == other.hold_last_frame
    }
}

/// Synchronises the playback states with the requested tracks at `now`.
///
/// Unchanged tracks keep their own clocks and advance; changed or new ones
/// restart; held tracks are pinned to their terminal frame. Extra states
/// beyond the requested tracks are dropped first. On failure, the tracks
/// synced before the failing request keep their new state.
pub fn sync_animation_track_states(
    track_states: &mut Vec<ComposedTrackPlaybackState>,
    requested_tracks: &Vec<RequestedAnimationTrack>,
    cache: &CompositionAtlasCache,
    now_ms: u64,
) -> (r: Result<Vec<FiredAnimationCue>, TrackError>)
    requires
        tracks_in_range(tracks_view(old(track_states)@), cache.animations@),
    ensures
        ({
            let (res, t) = spec_sync_upto(
                tracks_view(old(track_states)@),
                requests_view(requested_tracks@),
                cache.animations@,
                now_ms,
                requested_tracks@.len() as int,
            );
            &&& tracks_view(final(track_states)@) == t
            &&& match r {
                Ok(cues) => res == Ok::<Seq<CueView>, TrackError>(cues_view(cues@)),
                Err(e) => res == Err::<Seq<CueView>, TrackError>(e),
            }
        }),
        tracks_in_range(tracks_view(final(track_states)@), cache.animations@),
{
    let ghost t0 = tracks_view(track_states@);
    let ghost reqs = requests_view(requested_tracks@);
    let ghost anims = cache.animations@;
    if track_states.len() > requested_tracks.len() {
        track_states.truncate(requested_tracks.len());
    }
    assert(tracks_view(track_states@) =~= spec_sync_upto(t0, reqs, anims, now_ms, 0).1);
    let mut fired: Vec<FiredAnimationCue> = Vec::new();
    assert(cues_view(fired@) =~= Seq::<CueView>::empty());
    let n = requested_tracks.len();
    for index in 0..n
        invariant
            n == requested_tracks.len(),
            reqs == requests_view(requested_tracks@),
            anims == cache.animations@,
            t0 == tracks_view(old(track_states)@),
            spec_sync_upto(t0, reqs, anims, now_ms, index as int) == (
                Ok::<Seq<CueView>, TrackError>(cues_view(fired@)),
                tracks_view(track_states@),
            ),
            track_states@.len() >= index,
            tracks_in_range(tracks_view(track_states@), anims),
    {
        let request = &requested_tracks[index];
        assert(reqs[index as int] == request@);
        if let Some(selector) = &request.selector {
            if selector.is_empty() {
                proof {
                    assert(selector_is_empty(reqs[index as int].selector));
                    assert(spec_sync_upto(t0, reqs, anims, now_ms, index + 1) == (
                        Err::<Seq<CueView>, TrackError>(TrackError::EmptyOverrideSelector),
                        tracks_view(track_states@),
                    ));
                    lemma_sync_failure_sticks(t0, reqs, anims, now_ms, index + 1, n as int);
                }
                return Err(TrackError::EmptyOverrideSelector);
            }
        }
        let ai = match find_keyed(&cache.animations, &request.tag) {
            Some(ai) => ai,
            None => {
                proof {
                    assert(spec_sync_upto(t0, reqs, anims, now_ms, index + 1) == (
                        Err::<Seq<CueView>, TrackError>(TrackError::MissingAnimation { track: index }),
                        tracks_view(track_states@),
                    ));
                    lemma_sync_failure_sticks(t0, reqs, anims, now_ms, index + 1, n as int);
                }
                return Err(TrackError::MissingAnimation { track: index });
            },
        };
        let animation = &cache.animations[ai].animation;
        let frame_count = animation.frames.len();
        let needs_reset = index >= track_states.len() || !track_states[index].request.same_as(request);
        let ghost tv_before = tracks_view(track_states@);
        let ghost fired_before = fired@;
        if needs_reset {
            let frame_index = if request.hold_last_frame {
                terminal_frame_index(animation.direction, frame_count)
            } else {
                initial_frame_index(animation.direction, frame_count)
            };
            let cursor = TrackCursor {
                frame_index,
                frame_started_at_ms: now_ms,
                ping_pong_forward: !matches!(animation.direction, AnimationDirection::PingPongReverse),
                completed_loops: 0,
                completion_fired: false,
            };
            let cues = fired_frame_cues(&request.tag, &animation.frames, frame_index);
            let replacement = ComposedTrackPlaybackState { request: request.clone_request(), cursor };
            if index < track_states.len() {
                track_states.set(index, replacement);
            } else {
                track_states.push(replacement);
            }
            proof {
                assert(tracks_view(track_states@) =~= (if index < tv_before.len() {
                    tv_before.update(index as int, TrackView { request: request@, cursor })
                } else {
                    tv_before.push(TrackView { request: request@, cursor })
                }));
            }
            append_cues(&mut fired, cues);
        } else if request.hold_last_frame {
            let mut cursor = track_states[index].cursor;
            cursor.frame_index = terminal_frame_index(animation.direction, frame_count);
            cursor.frame_started_at_ms = now_ms;
            cursor.completion_fired = false;
            track_states[index].cursor = cursor;
            proof {
                assert(tracks_view(track_states@) =~= tv_before.update(
                    index as int,
                    TrackView { cursor, ..tv_before[index as int] },
                ));
                assert(cues_view(fired@) + Seq::<CueView>::empty() =~= cues_view(fired@));
            }
        } else {
            let mut cursor = track_states[index].cursor;
            assert(tv_before[index as int].request.tag == request.tag@);
            let cues = advance_track_playback(&mut cursor, &request.tag, animation, now_ms);
            track_states[index].cursor = cursor;
            proof {
                assert(tracks_view(track_states@) =~= tv_before.update(
                    index as int,
                    TrackView { cursor, ..tv_before[index as int] },
                ));
            }
            append_cues(&mut fired, cues);
        }
        proof {
            assert(forall|k: int|
                0 <= k < track_states@.len() ==> #[trigger] tracks_view(track_states@)[k]
                    == TrackView { request: track_states@[k].request@, cursor: track_states@[k].cursor });
        }
    }
    Ok(fired)
}

/// Once syncing has failed, later requests are not processed.
pub proof fn lemma_sync_failure_sticks(
    tracks: Seq<TrackView>,
    reqs: Seq<RequestView>,
    anims: Seq<TaggedAnimation>,
    now: u64,
    k: int,
    n: int,
)
    requires
        spec_sync_upto(tracks, reqs, anims, now, k).0 is Err,
        0 <= k <= n,
    ensures
        spec_sync_upto(tracks, reqs, anims, now, n) == spec_sync_upto(tracks, reqs, anims, now, k),
    decreases n - k,
{
    if k < n {
        lemma_sync_failure_sticks(tracks, reqs, anims, now, k, n - 1);
    }
}

/// Appends `more` to `fired`.
pub fn append_cues(fired: &mut Vec<FiredAnimationCue>, more: Vec<FiredAnimationCue>)
    ensures
        cues_view(final(fired)@) == cues_view(old(fired)@) + cues_view(more@),
{
    let ghost start = fired@;
    let m = more.len();
    for k in 0..m
        invariant
            m == more.len(),
            fired@.len() == start.len() + k,
            cues_view(fired@) =~= cues_view(start) + cues_view(more@).take(k as int),
    {
        let ghost prev = fired@;
        fired.push(more[k].clone_cue());
        proof {
            let target = cues_view(start) + cues_view(more@).take(k + 1);
            assert forall|j: int| 0 <= j < fired@.len() implies #[trigger] cues_view(fired@)[j]
                == target[j] by {
                assert(cues_view(fired@)[j] == fired@[j]@);
                if j < prev.len() {
                    assert(fired@[j] == prev[j]);
                    assert(cues_view(prev)[j] == prev[j]@);
                } else {
                    assert(cues_view(more@)[k as int] == more@[k as int]@);
                }
            }
            assert(cues_view(fired@) =~= target);
        }
    }
    assert(cues_view(more@).take(m as int) =~= cues_view(more@));
}


/// Contents of one render fragment.
pub struct PoseView {
    pub sprite_id: Seq<char>,
    pub local_offset: IVec2,
    pub size: UVec2,
    pub flip_x: bool,
    pub flip_y: bool,
    pub visible: bool,
    pub fragment: u32,
}

impl View for CachedPose {
    type V = PoseView;

    open spec fn view(&self) -> PoseView {
        PoseView {
            sprite_id: self.sprite_id@,
            local_offset: self.local_offset,
            size: self.size,
            flip_x: self.flip_x,
            flip_y: self.flip_y,
            visible: self.visible,
            fragment: self.fragment,
        }
    }
}

pub open spec fn poses_view(s: Seq<CachedPose>) -> Seq<PoseView> {
    s.map_values(|p: CachedPose| p@)
}

/// Sprite-only override applied over base fragments: sprite, size, flips and
/// visibility come from the override where it has a matching fragment;
/// position and fragment index always come from the base.
pub open spec fn merge_sprite_override(base: Seq<PoseView>, over: Seq<PoseView>) -> Seq<PoseView> {
    Seq::new(
        base.len(),
        |i: int|
            if i < over.len() {
                PoseView {
                    sprite_id: over[i].sprite_id,
                    size: over[i].size,
                    flip_x: over[i].flip_x,
                    flip_y: over[i].flip_y,
                    visible: over[i].visible,
                    local_offset: base[i].local_offset,
                    fragment: base[i].fragment,
                }
            } else {
                base[i]
            },
    )
}

pub open spec fn min_len(a: int, b: int) -> int {
    if a <= b {
        a
    } else {
        b
    }
}

/// Resolves the pose of `part` from tracks `k..`: the first matching
/// non-sprite-only track that authors the part wins (merged with an earlier
/// sprite-only override, if any); otherwise the last sprite-only pose seen.
pub open spec fn spec_resolve_pose_from(
    part: CachedPart,
    reqs: Seq<RequestedAnimationTrack>,
    tracks: Seq<ComposedTrackPlaybackState>,
    anims: Seq<TaggedAnimation>,
    k: int,
    sprite_override: Option<Seq<PoseView>>,
) -> Result<Option<Seq<PoseView>>, TrackError>
    decreases min_len(reqs.len() as int, tracks.len() as int) - k,
{
    if k < 0 || k >= min_len(reqs.len() as int, tracks.len() as int) {
        Ok(sprite_override)
    } else {
        let req = reqs[k];
        let selected = match req.selector {
            Some(sel) => sel.spec_matches(part.id@, part.tags@),
            None => true,
        };
        if !selected {
            spec_resolve_pose_from(part, reqs, tracks, anims, k + 1, sprite_override)
        } else {
            match first_keyed(anims, req.tag@) {
                None => Err(TrackError::MissingAnimation { track: k as usize }),
                Some(ai) => {
                    let frames = anims[ai].animation.frames@;
                    let idx = tracks[k].cursor.frame_index as int;
                    if frames.len() == 0 {
                        Err(TrackError::NoFrames)
                    } else if idx >= frames.len() {
                        Err(TrackError::InvalidFrameIndex)
                    } else {
                        match first_keyed(frames[idx].poses@, part.id@) {
                            None => spec_resolve_pose_from(part, reqs, tracks, anims, k + 1, sprite_override),
                            Some(pi) => {
                                let frags = poses_view(frames[idx].poses@[pi].fragments@);
                                if req.sprite_only {
                                    spec_resolve_pose_from(part, reqs, tracks, anims, k + 1, Some(frags))
                                } else {
                                    match sprite_override {
                                        Some(over) => Ok(Some(merge_sprite_override(frags, over))),
                                        None => Ok(Some(frags)),
                                    }
                                }
                            },
                        }
                    }
                },
            }
        }
    }
}

impl CachedPose {
    pub fn clone_pose(&self) -> (r: CachedPose)
        ensures
            r@ == self@,
    {
        CachedPose {
            sprite_id: self.sprite_id.clone(),
            local_offset: self.local_offset,
            size: self.size,
            flip_x: self.flip_x,
            flip_y: self.flip_y,
            visible: self.visible,
            fragment: self.fragment,
        }
    }
}

/// Copies a fragment list.
pub fn clone_poses(v: &Vec<CachedPose>) -> (r: Vec<CachedPose>)
    ensures
        poses_view(r@) == poses_view(v@),
{
    let mut out: Vec<CachedPose> = Vec::new();
    let n = v.len();
    for i in 0..n
        invariant
            n == v.len(),
            out@.len() == i,
            forall|j: int| 0 <= j < i ==> (#[trigger] out@[j])@ == v@[j]@,
    {
        out.push(v[i].clone_pose());
    }
    assert(poses_view(out@) =~= poses_view(v@));
    out
}

/// Sprite-only override merged over base fragments.
pub fn merge_sprite_only(base: &Vec<CachedPose>, over: &Vec<CachedPose>) -> (r: Vec<CachedPose>)
    ensures
        poses_view(r@) == merge_sprite_override(poses_view(base@), poses_view(over@)),
{
    let mut out: Vec<CachedPose> = Vec::new();
    let n = base.len();
    let ghost target = merge_sprite_override(poses_view(base@), poses_view(over@));
    for i in 0..n
        invariant
            n == base.len(),
            target == merge_sprite_override(poses_view(base@), poses_view(over@)),
            out@.len() == i,
            forall|j: int| 0 <= j < i ==> (#[trigger] out@[j])@ == target[j],
    {
        let b = &base[i];
        if i < over.len() {
            let o = &over[i];
            out.push(
                CachedPose {
                    sprite_id: o.sprite_id.clone(),
                    size: o.size,
                    flip_x: o.flip_x,
                    flip_y: o.flip_y,
                    visible: o.visible,
                    local_offset: b.local_offset,
                    fragment: b.fragment,
                },
            );
        } else {
            out.push(b.clone_pose());
        }
    }
    assert(poses_view(out@) =~= target);
    out
}

/// Resolves the fragments of one part from the requested tracks.
pub fn resolve_part_pose_from_tracks(
    part: &CachedPart,
    requested_tracks: &Vec<RequestedAnimationTrack>,
    track_states: &Vec<ComposedTrackPlaybackState>,
    cache: &CompositionAtlasCache,
) -> (r: Result<Option<Vec<CachedPose>>, TrackError>)
    ensures
        match r {
            Ok(Some(v)) => spec_resolve_pose_from(*part, requested_tracks@, track_states@, cache.animations@, 0, None)
                == Ok::<Option<Seq<PoseView>>, TrackError>(Some(poses_view(v@))),
            Ok(None) => spec_resolve_pose_from(*part, requested_tracks@, track_states@, cache.animations@, 0, None)
                == Ok::<Option<Seq<PoseView>>, TrackError>(None),
            Err(e) => spec_resolve_pose_from(*part, requested_tracks@, track_states@, cache.animations@, 0, None)
                == Err::<Option<Seq<PoseView>>, TrackError>(e),
        },
{
    let ghost reqs = requested_tracks@;
    let ghost tracks = track_states@;
    let ghost anims = cache.animations@;
    let mut sprite_override: Option<Vec<CachedPose>> = None;
    let n = if requested_tracks.len() <= track_states.len() {
        requested_tracks.len()
    } else {
        track_states.len()
    };
    for k in 0..n
        invariant
            n == min_len(reqs.len() as int, tracks.len() as int),
            reqs == requested_tracks@,
            tracks == track_states@,
            anims == cache.animations@,
            spec_resolve_pose_from(*part, reqs, tracks, anims, 0, None) == spec_resolve_pose_from(
                *part,
                reqs,
                tracks,
                anims,
                k as int,
                match sprite_override {
                    Some(v) => Some(poses_view(v@)),
                    None => None,
                },
            ),
    {
        let request = &requested_tracks[k];
        let selected = match &request.selector {
            Some(selector) => selector.matches(part),
            None => true,
        };
        if selected {
            let ai = match find_keyed(&cache.animations, &request.tag) {
                Some(ai) => ai,
                None => return Err(TrackError::MissingAnimation { track: k }),
            };
            let animation = &cache.animations[ai].animation;
            if animation.frames.len() == 0 {
                return Err(TrackError::NoFrames);
            }
            let idx = track_states[k].cursor.frame_index;
            if idx >= animation.frames.len() {
                return Err(TrackError::InvalidFrameIndex);
            }
            if let Some(pi) = find_keyed(&animation.frames[idx].poses, &part.id) {
                let fragments = &animation.frames[idx].poses[pi].fragments;
                if request.sprite_only {
                    sprite_override = Some(clone_poses(fragments));
                } else {
                    match &sprite_override {
                        Some(over) => {
                            return Ok(Some(merge_sprite_only(fragments, over)));
                        },
                        None => {
                            return Ok(Some(clone_poses(fragments)));
                        },
                    }
                }
            }
        }
    }
    Ok(sprite_override)
}

/// The resolved fragments of every visual part that some track places.
pub struct ResolvedAnimationFrame {
    pub poses: Vec<PartFragments>,
    pub fired_cues: Vec<FiredAnimationCue>,
}

pub open spec fn resolved_view(s: Seq<PartFragments>) -> Seq<(Seq<char>, Seq<PoseView>)> {
    s.map_values(|p: PartFragments| (p.part_id@, poses_view(p.fragments@)))
}

/// Resolves the visual parts in draw order, skipping ids without a part and
/// parts no track places; the first failure aborts.
pub open spec fn spec_resolve_parts_upto(
    cache: CompositionAtlasCache,
    reqs: Seq<RequestedAnimationTrack>,
    tracks: Seq<ComposedTrackPlaybackState>,
    n: int,
) -> Result<Seq<(Seq<char>, Seq<PoseView>)>, TrackError>
    decreases n,
{
    if n <= 0 {
        Ok(Seq::empty())
    } else {
        match spec_resolve_parts_upto(cache, reqs, tracks, n - 1) {
            Err(e) => Err(e),
            Ok(acc) => match first_keyed(cache.parts@, cache.visual_parts_in_draw_order@[n - 1]@) {
                None => Ok(acc),
                Some(pi) => {
                    let part = cache.parts@[pi];
                    match spec_resolve_pose_from(part, reqs, tracks, cache.animations@, 0, None) {
                        Err(e) => Err(e),
                        Ok(None) => Ok(acc),
                        Ok(Some(p)) => Ok(acc.push((part.id@, p))),
                    }
                },
            },
        }
    }
}

proof fn lemma_resolve_failure_sticks(
    cache: CompositionAtlasCache,
    reqs: Seq<RequestedAnimationTrack>,
    tracks: Seq<ComposedTrackPlaybackState>,
    k: int,
    n: int,
)
    requires
        spec_resolve_parts_upto(cache, reqs, tracks, k) is Err,
        0 <= k <= n,
    ensures
        spec_resolve_parts_upto(cache, reqs, tracks, n) == spec_resolve_parts_upto(cache, reqs, tracks, k),
    decreases n - k,
{
    if k < n {
        lemma_resolve_failure_sticks(cache, reqs, tracks, k, n - 1);
    }
}

/// Resolves the fragments of all visual parts from the current track states.
pub fn resolve_parts_from_tracks(
    requested_tracks: &Vec<RequestedAnimationTrack>,
    track_states: &Vec<ComposedTrackPlaybackState>,
    cache: &CompositionAtlasCache,
) -> (r: Result<Vec<PartFragments>, TrackError>)
    ensures
        match r {
            Ok(v) => spec_resolve_parts_upto(
                *cache,
                requested_tracks@,
                track_states@,
                cache.visual_parts_in_draw_order@.len() as int,
            ) == Ok::<Seq<(Seq<char>, Seq<PoseView>)>, TrackError>(resolved_view(v@)),
            Err(e) => spec_resolve_parts_upto(
                *cache,
                requested_tracks@,
                track_states@,
                cache.visual_parts_in_draw_order@.len() as int,
            ) == Err::<Seq<(Seq<char>, Seq<PoseView>)>, TrackError>(e),
        },
{
    let mut out: Vec<PartFragments> = Vec::new();
    let n = cache.visual_parts_in_draw_order.len();
    assert(resolved_view(out@) =~= Seq::<(Seq<char>, Seq<PoseView>)>::empty());
    for i in 0..n
        invariant
            n == cache.visual_parts_in_draw_order.len(),
            spec_resolve_parts_upto(*cache, requested_tracks@, track_states@, i as int) == Ok::<
                Seq<(Seq<char>, Seq<PoseView>)>,
                TrackError,
            >(resolved_view(out@)),
    {
        let part_id = &cache.visual_parts_in_draw_order[i];
        if let Some(pi) = find_keyed(&cache.parts, part_id) {
            let part = &cache.parts[pi];
            match resolve_part_pose_from_tracks(part, requested_tracks, track_states, cache) {
                Err(e) => {
                    proof {
                        lemma_resolve_failure_sticks(*cache, requested_tracks@, track_states@, i + 1, n as int);
                    }
                    return Err(e);
                },
                Ok(None) => {},
                Ok(Some(fragments)) => {
                    let ghost before = out@;
                    out.push(PartFragments { part_id: part.id.clone(), fragments });
                    proof {
                        let last = (part.id@, poses_view(out@[out@.len() - 1].fragments@));
                        assert forall|j: int| 0 <= j < out@.len() implies #[trigger] resolved_view(out@)[j]
                            == resolved_view(before).push(last)[j] by {
                            if j < before.len() {
                                assert(out@[j] == before[j]);
                            }
                        }
                        assert(resolved_view(out@) =~= resolved_view(before).push(
                            (part.id@, poses_view(out@[out@.len() - 1].fragments@)),
                        ));
                    }
                },
            }
        }
    }
    Ok(out)
}


/// Resolves the composed frame at `now` from the requested tracks: the track
/// states are synced first (firing cues), then every visual part is placed
/// from the highest-priority track that authors it.
pub fn resolve_requested_animation_frame(
    track_states: &mut Vec<ComposedTrackPlaybackState>,
    requested_tracks: &Vec<RequestedAnimationTrack>,
    cache: &CompositionAtlasCache,
    now_ms: u64,
) -> (r: Result<ResolvedAnimationFrame, TrackError>)
    requires
        tracks_in_range(tracks_view(old(track_states)@), cache.animations@),
    ensures
        ({
            let (res, t) = spec_sync_upto(
                tracks_view(old(track_states)@),
                requests_view(requested_tracks@),
                cache.animations@,
                now_ms,
                requested_tracks@.len() as int,
            );
            &&& tracks_view(final(track_states)@) == t
            &&& match r {
                Ok(frame) => res == Ok::<Seq<CueView>, TrackError>(cues_view(frame.fired_cues@))
                    && spec_resolve_parts_upto(
                    *cache,
                    requested_tracks@,
                    final(track_states)@,
                    cache.visual_parts_in_draw_order@.len() as int,
                ) == Ok::<Seq<(Seq<char>, Seq<PoseView>)>, TrackError>(resolved_view(frame.poses@)),
                Err(e) => res == Err::<Seq<CueView>, TrackError>(e) || (res is Ok && spec_resolve_parts_upto(
                    *cache,
                    requested_tracks@,
                    final(track_states)@,
                    cache.visual_parts_in_draw_order@.len() as int,
                ) == Err::<Seq<(Seq<char>, Seq<PoseView>)>, TrackError>(e)),
            }
        }),
        tracks_in_range(tracks_view(final(track_states)@), cache.animations@),
{
    let fired_cues = match sync_animation_track_states(track_states, requested_tracks, cache, now_ms) {
        Ok(c) => c,
        Err(e) => return Err(e),
    };
    let poses = match resolve_parts_from_tracks(requested_tracks, track_states, cache) {
        Ok(p) => p,
        Err(e) => return Err(e),
    };
    Ok(ResolvedAnimationFrame { poses, fired_cues })
}

} // verus!
