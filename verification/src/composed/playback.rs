//! Frame cursors for composed animation tracks.
//!
//! Each requested animation source keeps its own cursor so that, for example,
//! a wing loop keeps flapping while the body track switches between actions.

use super::model::{CachedAnimationOverride, PartFragments};
use crate::geometry::IVec2;
use vstd::prelude::*;

verus! {

/// Playback direction authored for an animation tag.
#[derive(Clone, Copy, Debug, PartialEq, Eq, Structural)]
pub enum AnimationDirection {
    Forward,
    Reverse,
    PingPong,
    PingPongReverse,
}

/// Frame the cursor starts on when a track (re)starts.
pub open spec fn spec_initial_frame_index(direction: AnimationDirection, frame_count: int) -> int {
    if frame_count <= 0 {
        0
    } else {
        match direction {
            AnimationDirection::Reverse | AnimationDirection::PingPongReverse => frame_count - 1,
            AnimationDirection::Forward | AnimationDirection::PingPong => 0,
        }
    }
}

/// Frame a finite playback ends on (and the frame a held track is frozen on).
pub open spec fn spec_terminal_frame_index(direction: AnimationDirection, frame_count: int) -> int {
    if frame_count <= 0 {
        0
    } else {
        match direction {
            AnimationDirection::Forward | AnimationDirection::PingPong => frame_count - 1,
            AnimationDirection::Reverse | AnimationDirection::PingPongReverse => 0,
        }
    }
}

/// The frame entered after `current`, and the ping-pong heading afterwards.
pub open spec fn spec_next_frame(
    direction: AnimationDirection,
    current: int,
    frame_count: int,
    forward: bool,
) -> (int, bool) {
    if frame_count <= 1 {
        (0, forward)
    } else {
        match direction {
            AnimationDirection::Reverse => {
                if current == 0 {
                    (frame_count - 1, forward)
                } else {
                    (current - 1, forward)
                }
            },
            AnimationDirection::Forward => {
                if current + 1 >= frame_count {
                    (0, forward)
                } else {
                    (current + 1, forward)
                }
            },
            AnimationDirection::PingPong | AnimationDirection::PingPongReverse => {
                if forward {
                    if current + 1 >= frame_count {
                        (if current >= 1 { current - 1 } else { 0 }, false)
                    } else {
                        (current + 1, true)
                    }
                } else if current == 0 {
                    (1, true)
                } else {
                    (current - 1, false)
                }
            },
        }
    }
}

/// Whether a finished loop may start another one: `None` and `Some(0)` repeat
/// forever, `Some(n)` plays `n` times in total.
pub open spec fn spec_can_restart(repeats: Option<u32>, completed_loops: u32) -> bool {
    match repeats {
        None => true,
        Some(total) => total == 0 || completed_loops + 1 < total,
    }
}

/// Returns the first frame of a track for the given direction.
pub fn initial_frame_index(direction: AnimationDirection, frame_count: usize) -> (r: usize)
    ensures
        r == spec_initial_frame_index(direction, frame_count as int),
        frame_count > 0 ==> r < frame_count,
{
    if frame_count == 0 {
        return 0;
    }
    match direction {
        AnimationDirection::Reverse | AnimationDirection::PingPongReverse => frame_count - 1,
        AnimationDirection::Forward | AnimationDirection::PingPong => 0,
    }
}

/// Returns the last frame of a finite playback for the given direction.
pub fn terminal_frame_index(direction: AnimationDirection, frame_count: usize) -> (r: usize)
    ensures
        r == spec_terminal_frame_index(direction, frame_count as int),
        frame_count > 0 ==> r < frame_count,
{
    if frame_count == 0 {
        return 0;
    }
    match direction {
        AnimationDirection::Forward | AnimationDirection::PingPong => frame_count - 1,
        AnimationDirection::Reverse | AnimationDirection::PingPongReverse => 0,
    }
}

/// Computes the next frame index, flipping the ping-pong heading at either end.
pub fn next_frame_index(
    direction: AnimationDirection,
    current: usize,
    frame_count: usize,
    ping_pong_forward: &mut bool,
) -> (r: usize)
    requires
        current < frame_count || frame_count == 0,
    ensures
        (r as int, *final(ping_pong_forward)) == spec_next_frame(
            direction,
            current as int,
            frame_count as int,
            *old(ping_pong_forward),
        ),
        frame_count > 0 ==> r < frame_count,
{
    if frame_count <= 1 {
        return 0;
    }
    match direction {
        AnimationDirection::Reverse => {
            if current == 0 {
                frame_count - 1
            } else {
                current - 1
            }
        },
        AnimationDirection::PingPong | AnimationDirection::PingPongReverse => {
            if *ping_pong_forward {
                if current + 1 >= frame_count {
                    *ping_pong_forward = false;
                    current.saturating_sub(1)
                } else {
                    current + 1
                }
            } else if current == 0 {
                *ping_pong_forward = true;
                1
            } else {
                current - 1
            }
        },
        AnimationDirection::Forward => {
            if current + 1 >= frame_count {
                0
            } else {
                current + 1
            }
        },
    }
}

/// Whether a track that just finished a loop may start another one.
pub fn can_restart_playback(repeats: Option<u32>, completed_loops: u32) -> (r: bool)
    ensures
        r == spec_can_restart(repeats, completed_loops),
{
    match repeats {
        None => true,
        Some(total_plays) => total_plays == 0 || completed_loops < total_plays - 1,
    }
}


/// Kind of an authored (or runtime-synthesised) animation cue.
#[derive(Clone, Copy, Debug, PartialEq, Eq, Structural)]
pub enum AnimationEventKind {
    ProjectileSpawn,
    AnimationComplete,
}

/// An event authored on one animation frame; it fires when the frame is entered.
#[derive(Debug)]
pub struct CachedAnimationEvent {
    pub kind: AnimationEventKind,
    pub id: String,
    pub part_id: Option<String>,
    pub local_offset: IVec2,
}

/// Timing, events and part placements of one animation frame.
#[derive(Debug)]
pub struct CachedAnimationFrame {
    pub source_frame: usize,
    pub duration_ms: u32,
    pub events: Vec<CachedAnimationEvent>,
    /// Per-part fragment lists placing the visual parts in this frame.
    pub poses: Vec<PartFragments>,
}

/// A cue emitted while a track plays.
#[derive(Debug)]
pub struct FiredAnimationCue {
    pub tag: String,
    pub frame_index: usize,
    pub source_frame: usize,
    pub kind: AnimationEventKind,
    pub id: String,
    pub part_id: Option<String>,
    pub local_offset: IVec2,
}

/// Mathematical content of a fired cue.
pub struct CueView {
    pub tag: Seq<char>,
    pub frame_index: int,
    pub source_frame: int,
    pub kind: AnimationEventKind,
    pub id: Seq<char>,
    pub part_id: Option<Seq<char>>,
    pub local_offset: IVec2,
}

pub open spec fn opt_string_view(s: Option<String>) -> Option<Seq<char>> {
    match s {
        Some(v) => Some(v@),
        None => None,
    }
}

impl View for FiredAnimationCue {
    type V = CueView;

    open spec fn view(&self) -> CueView {
        CueView {
            tag: self.tag@,
            frame_index: self.frame_index as int,
            source_frame: self.source_frame as int,
            kind: self.kind,
            id: self.id@,
            part_id: opt_string_view(self.part_id),
            local_offset: self.local_offset,
        }
    }
}

pub open spec fn cues_view(cues: Seq<FiredAnimationCue>) -> Seq<CueView> {
    cues.map_values(|c: FiredAnimationCue| c@)
}

/// The cue fired for `event` when frame `frame_index` of track `tag` is entered.
pub open spec fn event_cue(
    tag: Seq<char>,
    frame_index: int,
    source_frame: int,
    event: CachedAnimationEvent,
) -> CueView {
    CueView {
        tag,
        frame_index,
        source_frame,
        kind: event.kind,
        id: event.id@,
        part_id: opt_string_view(event.part_id),
        local_offset: event.local_offset,
    }
}

/// All cues authored on frame `frame_index`, in authored order; none for a
/// frame index outside the animation.
pub open spec fn frame_cues(tag: Seq<char>, frames: Seq<CachedAnimationFrame>, frame_index: int) -> Seq<
    CueView,
> {
    if 0 <= frame_index < frames.len() {
        frames[frame_index].events@.map_values(
            |e: CachedAnimationEvent| event_cue(tag, frame_index, frames[frame_index].source_frame as int, e),
        )
    } else {
        Seq::empty()
    }
}

/// The completion cue of a finite track that ends on `frame_index`.
pub open spec fn completion_cue(tag: Seq<char>, frames: Seq<CachedAnimationFrame>, frame_index: int) -> CueView {
    CueView {
        tag,
        frame_index,
        source_frame: frames[frame_index].source_frame as int,
        kind: AnimationEventKind::AnimationComplete,
        id: Seq::empty(),
        part_id: None,
        local_offset: IVec2 { x: 0, y: 0 },
    }
}

fn clone_opt_string(s: &Option<String>) -> (r: Option<String>)
    ensures
        opt_string_view(r) == opt_string_view(*s),
{
    match s {
        Some(v) => Some(v.clone()),
        None => None,
    }
}

/// Emits the cues authored on `frame_index` (none when the index is out of range).
pub fn fired_frame_cues(tag: &String, frames: &Vec<CachedAnimationFrame>, frame_index: usize) -> (r: Vec<
    FiredAnimationCue,
>)
    ensures
        cues_view(r@) == frame_cues(tag@, frames@, frame_index as int),
{
    if frame_index >= frames.len() {
        let r: Vec<FiredAnimationCue> = Vec::new();
        assert(cues_view(r@) =~= frame_cues(tag@, frames@, frame_index as int));
        return r;
    }
    let frame = &frames[frame_index];
    let mut out: Vec<FiredAnimationCue> = Vec::new();
    let n = frame.events.len();
    for i in 0..n
        invariant
            n == frame.events.len(),
            frame == frames@[frame_index as int],
            frame_index < frames.len(),
            out.len() == i,
            cues_view(out@) =~= frame_cues(tag@, frames@, frame_index as int).take(i as int),
    {
        let event = &frame.events[i];
        out.push(
            FiredAnimationCue {
                tag: tag.clone(),
                frame_index,
                source_frame: frame.source_frame,
                kind: event.kind,
                id: event.id.clone(),
                part_id: clone_opt_string(&event.part_id),
                local_offset: event.local_offset,
            },
        );
        let ghost fc = frame_cues(tag@, frames@, frame_index as int);
        assert(out@[i as int]@ == fc[i as int]);
        assert(cues_view(out@) =~= fc.take(i + 1)) by {
            assert forall|j: int| 0 <= j < i + 1 implies cues_view(out@)[j] == fc.take(i + 1)[j] by {
                if j < i {
                    assert(cues_view(out@)[j] == out@[j]@);
                }
            }
        }
    }
    assert(frame_cues(tag@, frames@, frame_index as int).take(n as int) =~= frame_cues(
        tag@,
        frames@,
        frame_index as int,
    ));
    out
}


/// Position of one track's playback cursor.
#[derive(Clone, Copy, Debug)]
pub struct TrackCursor {
    pub frame_index: usize,
    pub frame_started_at_ms: u64,
    pub ping_pong_forward: bool,
    pub completed_loops: u32,
    /// Set once when a finite animation exhausts its repeats, so that the
    /// completion cue fires exactly once.
    pub completion_fired: bool,
}

/// One authored animation: direction, repeats, frames and declared overrides.
#[derive(Debug)]
pub struct CachedAnimation {
    pub direction: AnimationDirection,
    pub repeats: Option<u32>,
    pub frames: Vec<CachedAnimationFrame>,
    /// Part-scoped overrides declared in the manifest for this tag.
    pub part_overrides: Vec<CachedAnimationOverride>,
}

pub open spec fn saturating_inc(x: u32) -> u32 {
    if x == u32::MAX {
        x
    } else {
        (x + 1) as u32
    }
}

/// One playback step: the newly entered frame (or `None` once a finite track
/// is exhausted) and the cursor afterwards. The start time is untouched.
pub open spec fn spec_advance_to_next_frame(
    direction: AnimationDirection,
    repeats: Option<u32>,
    frame_count: int,
    c: TrackCursor,
) -> (Option<int>, TrackCursor) {
    if frame_count <= 0 {
        (None, c)
    } else if frame_count == 1 {
        if spec_can_restart(repeats, c.completed_loops) {
            (Some(0), TrackCursor { completed_loops: saturating_inc(c.completed_loops), ..c })
        } else {
            (None, c)
        }
    } else {
        let (next, forward) = spec_next_frame(
            direction,
            c.frame_index as int,
            frame_count,
            c.ping_pong_forward,
        );
        let wrapped = match direction {
            AnimationDirection::Forward | AnimationDirection::Reverse => c.frame_index as int
                == spec_terminal_frame_index(direction, frame_count) && next
                == spec_initial_frame_index(direction, frame_count),
            _ => false,
        };
        if wrapped && !spec_can_restart(repeats, c.completed_loops) {
            (None, TrackCursor { ping_pong_forward: forward, ..c })
        } else {
            (
                Some(next),
                TrackCursor {
                    frame_index: next as usize,
                    ping_pong_forward: forward,
                    completed_loops: if wrapped {
                        saturating_inc(c.completed_loops)
                    } else {
                        c.completed_loops
                    },
                    ..c
                },
            )
        }
    }
}

/// A cursor is valid for an animation when it points at one of its frames.
pub open spec fn cursor_in_range(c: TrackCursor, frame_count: int) -> bool {
    frame_count == 0 || c.frame_index < frame_count
}

/// Advances one playback step and reports the newly entered frame.
///
/// `None` means playback has reached its finite terminal frame and stays
/// clamped there.
pub fn advance_track_to_next_frame(
    cursor: &mut TrackCursor,
    direction: AnimationDirection,
    repeats: Option<u32>,
    frame_count: usize,
) -> (r: Option<usize>)
    requires
        cursor_in_range(*old(cursor), frame_count as int),
    ensures
        (match r {
            Some(i) => Some(i as int),
            None => None,
        }, *final(cursor)) == spec_advance_to_next_frame(direction, repeats, frame_count as int, *old(cursor)),
        cursor_in_range(*final(cursor), frame_count as int),
        r matches Some(i) ==> i < frame_count,
{
    if frame_count == 0 {
        return None;
    }
    if frame_count == 1 {
        if can_restart_playback(repeats, cursor.completed_loops) {
            cursor.completed_loops = cursor.completed_loops.saturating_add(1);
            return Some(0);
        }
        return None;
    }
    let next = next_frame_index(direction, cursor.frame_index, frame_count, &mut cursor.ping_pong_forward);
    let wrapped = match direction {
        AnimationDirection::Forward | AnimationDirection::Reverse => {
            cursor.frame_index == terminal_frame_index(direction, frame_count) && next
                == initial_frame_index(direction, frame_count)
        },
        AnimationDirection::PingPong | AnimationDirection::PingPongReverse => false,
    };
    if wrapped && !can_restart_playback(repeats, cursor.completed_loops) {
        return None;
    }
    if wrapped {
        cursor.completed_loops = cursor.completed_loops.saturating_add(1);
    }
    cursor.frame_index = next;
    Some(next)
}

pub open spec fn frame_duration(frames: Seq<CachedAnimationFrame>, i: int) -> int {
    let d = frames[i].duration_ms;
    if d == 0 {
        1
    } else {
        d as int
    }
}

/// Plays a track forward to `now`: every frame whose duration has elapsed is
/// left and the next one entered (firing its cues); once a finite track is
/// exhausted a single completion cue fires and the cursor stays on its frame.
pub open spec fn spec_playback(tag: Seq<char>, anim: CachedAnimation, c: TrackCursor, now: u64) -> (
    TrackCursor,
    Seq<CueView>,
)
    decreases now - c.frame_started_at_ms,
{
    let frames = anim.frames@;
    if frames.len() == 0 {
        (c, Seq::empty())
    } else {
        let d = frame_duration(frames, c.frame_index as int);
        if now < c.frame_started_at_ms || now - c.frame_started_at_ms < d {
            (c, Seq::empty())
        } else {
            let (entered, c1) = spec_advance_to_next_frame(
                anim.direction,
                anim.repeats,
                frames.len() as int,
                c,
            );
            match entered {
                None => {
                    let cues = if c.completion_fired {
                        Seq::empty()
                    } else {
                        seq![completion_cue(tag, frames, c1.frame_index as int)]
                    };
                    (TrackCursor { completion_fired: true, frame_started_at_ms: now, ..c1 }, cues)
                },
                Some(next) => {
                    let c2 = TrackCursor {
                        frame_started_at_ms: (c.frame_started_at_ms + d) as u64,
                        ..c1
                    };
                    let rest = spec_playback(tag, anim, c2, now);
                    (rest.0, frame_cues(tag, frames, next) + rest.1)
                },
            }
        }
    }
}

/// Advances a track's cursor to `now`, returning the cues fired on the way.
pub fn advance_track_playback(
    cursor: &mut TrackCursor,
    tag: &String,
    animation: &CachedAnimation,
    now_ms: u64,
) -> (r: Vec<FiredAnimationCue>)
    requires
        cursor_in_range(*old(cursor), animation.frames.len() as int),
    ensures
        (*final(cursor), cues_view(r@)) == spec_playback(tag@, *animation, *old(cursor), now_ms),
        cursor_in_range(*final(cursor), animation.frames.len() as int),
{
    let mut fired: Vec<FiredAnimationCue> = Vec::new();
    let frame_count = animation.frames.len();
    if frame_count == 0 {
        assert(cues_view(fired@) =~= Seq::<CueView>::empty());
        return fired;
    }
    let ghost start = *cursor;
    loop
        invariant
            frame_count == animation.frames.len(),
            frame_count > 0,
            cursor.frame_index < frame_count,
            spec_playback(tag@, *animation, start, now_ms).0 == spec_playback(tag@, *animation, *cursor, now_ms).0,
            spec_playback(tag@, *animation, start, now_ms).1 == cues_view(fired@) + spec_playback(
                tag@,
                *animation,
                *cursor,
                now_ms,
            ).1,
        ensures
            cursor.frame_index < frame_count,
            spec_playback(tag@, *animation, start, now_ms).0 == *cursor,
            spec_playback(tag@, *animation, start, now_ms).1 == cues_view(fired@),
        decreases now_ms - cursor.frame_started_at_ms,
    {
        let ghost before = *cursor;
        let ghost before_fired = fired@;
        let raw = animation.frames[cursor.frame_index].duration_ms;
        let frame_duration: u64 = if raw == 0 { 1 } else { raw as u64 };
        if now_ms < cursor.frame_started_at_ms || now_ms - cursor.frame_started_at_ms < frame_duration {
            assert(cues_view(fired@) + Seq::<CueView>::empty() =~= cues_view(fired@));
            break;
        }
        let entered = advance_track_to_next_frame(cursor, animation.direction, animation.repeats, frame_count);
        match entered {
            None => {
                if !cursor.completion_fired {
                    cursor.completion_fired = true;
                    let frame = &animation.frames[cursor.frame_index];
                    fired.push(
                        FiredAnimationCue {
                            tag: tag.clone(),
                            frame_index: cursor.frame_index,
                            source_frame: frame.source_frame,
                            kind: AnimationEventKind::AnimationComplete,
                            id: String::new(),
                            part_id: None,
                            local_offset: IVec2 { x: 0, y: 0 },
                        },
                    );
                    proof {
                        assert(fired@[fired.len() - 1]@ == completion_cue(
                            tag@,
                            animation.frames@,
                            cursor.frame_index as int,
                        ));
                        assert(cues_view(fired@) =~= cues_view(before_fired) + seq![
                            completion_cue(tag@, animation.frames@, cursor.frame_index as int),
                        ]) by {
                            assert forall|j: int| 0 <= j < before_fired.len() implies cues_view(
                                fired@,
                            )[j] == cues_view(before_fired)[j] by {
                                assert(fired@[j] == before_fired[j]);
                            }
                        }
                    }
                } else {
                    assert(cues_view(fired@) + Seq::<CueView>::empty() =~= cues_view(fired@));
                }
                cursor.frame_started_at_ms = now_ms;
                break;
            },
            Some(next_frame_index) => {
                cursor.frame_started_at_ms = cursor.frame_started_at_ms + frame_duration;
                let cues = fired_frame_cues(tag, &animation.frames, next_frame_index);
                let mut k: usize = 0;
                let ghost mid = fired@;
                while k < cues.len()
                    invariant
                        k <= cues.len(),
                        fired@.len() == mid.len() + k,
                        cues_view(fired@) =~= cues_view(mid) + cues_view(cues@).take(k as int),
                    decreases cues.len() - k,
                {
                    let ghost prev = fired@;
                    fired.push(cues[k].clone_cue());
                    proof {
                        let target = cues_view(mid) + cues_view(cues@).take(k + 1);
                        assert forall|j: int| 0 <= j < fired@.len() implies #[trigger] cues_view(fired@)[j]
                            == target[j] by {
                            assert(cues_view(fired@)[j] == fired@[j]@);
                            if j < prev.len() {
                                assert(fired@[j] == prev[j]);
                                assert(cues_view(prev)[j] == prev[j]@);
                            } else {
                                assert(cues_view(cues@)[k as int] == cues@[k as int]@);
                            }
                        }
                        assert(cues_view(fired@) =~= target);
                    }
                    k = k + 1;
                }
                proof {
                    assert(cues_view(cues@).take(cues.len() as int) =~= cues_view(cues@));
                    assert(cues_view(before_fired) + (frame_cues(tag@, animation.frames@, next_frame_index as int)
                        + spec_playback(tag@, *animation, *cursor, now_ms).1) =~= cues_view(fired@)
                        + spec_playback(tag@, *animation, *cursor, now_ms).1);
                }
            },
        }
    }
    fired
}

impl FiredAnimationCue {
    /// Copies a cue, keeping every field.
    pub fn clone_cue(&self) -> (r: FiredAnimationCue)
        ensures
            r@ == self@,
    {
        FiredAnimationCue {
            tag: self.tag.clone(),
            frame_index: self.frame_index,
            source_frame: self.source_frame,
            kind: self.kind,
            id: self.id.clone(),
            part_id: clone_opt_string(&self.part_id),
            local_offset: self.local_offset,
        }
    }
}


/// No authored frame event uses the completion kind (completion cues are
/// synthesised by the runtime only).
pub open spec fn no_authored_completion(frames: Seq<CachedAnimationFrame>) -> bool {
    forall|i: int, j: int|
        0 <= i < frames.len() && 0 <= j < frames[i].events@.len() ==> !(
        #[trigger] frames[i].events@[j]).kind.is_complete()
}

impl AnimationEventKind {
    pub open spec fn is_complete(self) -> bool {
        self matches AnimationEventKind::AnimationComplete
    }
}

pub open spec fn no_completion_cue(cues: Seq<CueView>) -> bool {
    forall|k: int| 0 <= k < cues.len() ==> !(#[trigger] cues[k]).kind.is_complete()
}

pub open spec fn infinite_repeats(repeats: Option<u32>) -> bool {
    match repeats {
        None => true,
        Some(n) => n == 0,
    }
}

proof fn lemma_frame_cues_not_complete(tag: Seq<char>, frames: Seq<CachedAnimationFrame>, i: int)
    requires
        no_authored_completion(frames),
    ensures
        no_completion_cue(frame_cues(tag, frames, i)),
{
    if 0 <= i < frames.len() {
        assert forall|k: int| 0 <= k < frame_cues(tag, frames, i).len() implies !(#[trigger] frame_cues(
            tag,
            frames,
            i,
        )[k]).kind.is_complete() by {
            assert(frames[i].events@[k].kind == frame_cues(tag, frames, i)[k].kind);
        }
    }
}

/// Once a finite track has fired its completion cue, further playback never
/// fires it again: the track stays completed and emits no completion cue.
pub proof fn lemma_completion_fires_once(tag: Seq<char>, anim: CachedAnimation, c: TrackCursor, now: u64)
    requires
        c.completion_fired,
        no_authored_completion(anim.frames@),
    ensures
        spec_playback(tag, anim, c, now).0.completion_fired,
        no_completion_cue(spec_playback(tag, anim, c, now).1),
    decreases now - c.frame_started_at_ms,
{
    let frames = anim.frames@;
    if frames.len() != 0 {
        let d = frame_duration(frames, c.frame_index as int);
        if !(now < c.frame_started_at_ms || now - c.frame_started_at_ms < d) {
            let (entered, c1) = spec_advance_to_next_frame(
                anim.direction,
                anim.repeats,
                frames.len() as int,
                c,
            );
            if let Some(next) = entered {
                let c2 = TrackCursor { frame_started_at_ms: (c.frame_started_at_ms + d) as u64, ..c1 };
                lemma_completion_fires_once(tag, anim, c2, now);
                lemma_frame_cues_not_complete(tag, frames, next);
                let rest = spec_playback(tag, anim, c2, now);
                assert forall|k: int| 0 <= k < (frame_cues(tag, frames, next) + rest.1).len() implies !(
                #[trigger] (frame_cues(tag, frames, next) + rest.1)[k]).kind.is_complete() by {
                    if k >= frame_cues(tag, frames, next).len() {
                        assert((frame_cues(tag, frames, next) + rest.1)[k] == rest.1[k - frame_cues(
                            tag,
                            frames,
                            next,
                        ).len()]);
                    }
                }
            }
        }
    }
}

/// A track that repeats forever never completes: it fires no completion cue
/// and its completion flag is left as it was.
pub proof fn lemma_infinite_track_never_completes(
    tag: Seq<char>,
    anim: CachedAnimation,
    c: TrackCursor,
    now: u64,
)
    requires
        infinite_repeats(anim.repeats),
        no_authored_completion(anim.frames@),
    ensures
        spec_playback(tag, anim, c, now).0.completion_fired == c.completion_fired,
        no_completion_cue(spec_playback(tag, anim, c, now).1),
    decreases now - c.frame_started_at_ms,
{
    let frames = anim.frames@;
    if frames.len() != 0 {
        let d = frame_duration(frames, c.frame_index as int);
        if !(now < c.frame_started_at_ms || now - c.frame_started_at_ms < d) {
            let (entered, c1) = spec_advance_to_next_frame(
                anim.direction,
                anim.repeats,
                frames.len() as int,
                c,
            );
            assert(entered is Some);
            let next = entered->0;
            let c2 = TrackCursor { frame_started_at_ms: (c.frame_started_at_ms + d) as u64, ..c1 };
            lemma_infinite_track_never_completes(tag, anim, c2, now);
            lemma_frame_cues_not_complete(tag, frames, next);
            let rest = spec_playback(tag, anim, c2, now);
            assert forall|k: int| 0 <= k < (frame_cues(tag, frames, next) + rest.1).len() implies !(
            #[trigger] (frame_cues(tag, frames, next) + rest.1)[k]).kind.is_complete() by {
                if k >= frame_cues(tag, frames, next).len() {
                    assert((frame_cues(tag, frames, next) + rest.1)[k] == rest.1[k - frame_cues(
                        tag,
                        frames,
                        next,
                    ).len()]);
                }
            }
        }
    }
}

/// A finite animation authored to play `n` times (`Some(n)`, `n >= 1`):
/// on its last frame, a forward track starts over on its first frame,
/// counting one more completed loop, exactly while fewer than `n - 1` loops
/// are completed; otherwise it stays where it is. So from a fresh start the
/// first frame is entered `n` times in all before the track completes.
pub proof fn lemma_finite_track_plays_n_times(n: u32, frame_count: int, c: TrackCursor)
    requires
        n >= 1,
        frame_count >= 1,
        c.frame_index == frame_count - 1,
    ensures
        ({
            let (entered, after) = spec_advance_to_next_frame(
                AnimationDirection::Forward,
                Some(n),
                frame_count,
                c,
            );
            &&& (entered is Some <==> c.completed_loops + 1 < n)
            &&& entered is Some ==> entered == Some(0int) && after.frame_index == 0 && after.completed_loops
                == c.completed_loops + 1
            &&& entered is None ==> after.frame_index == c.frame_index && after.completed_loops
                == c.completed_loops
        }),
{
}


/// Frame steps by direction, on an animation of two or more frames: forward
/// moves to the next frame and wraps to the first, reverse moves to the
/// previous frame and wraps to the last, and ping-pong always moves to a
/// neighbouring frame, heading on in the direction it moved.
pub proof fn lemma_frame_step_by_direction(
    direction: AnimationDirection,
    current: int,
    frame_count: int,
    forward: bool,
)
    requires
        frame_count >= 2,
        0 <= current < frame_count,
    ensures
        ({
            let (next, heading) = spec_next_frame(direction, current, frame_count, forward);
            &&& direction == AnimationDirection::Forward ==> next == (current + 1) % frame_count
            &&& direction == AnimationDirection::Reverse ==> next == (current + frame_count - 1) % frame_count
            &&& (direction == AnimationDirection::PingPong || direction == AnimationDirection::PingPongReverse)
                ==> 0 <= next < frame_count && (next == current + 1 || next == current - 1) && (heading
                <==> next > current) && (forward && current + 1 < frame_count ==> next == current + 1) && (
            !forward && current > 0 ==> next == current - 1)
        }),
{
    if direction == AnimationDirection::Forward {
        if current + 1 < frame_count {
            vstd::arithmetic::div_mod::lemma_small_mod((current + 1) as nat, frame_count as nat);
        } else {
            vstd::arithmetic::div_mod::lemma_mod_self_0(frame_count);
        }
    }
    if direction == AnimationDirection::Reverse {
        if current == 0 {
            vstd::arithmetic::div_mod::lemma_small_mod((frame_count - 1) as nat, frame_count as nat);
        } else {
            vstd::arithmetic::div_mod::lemma_mod_add_multiples_vanish(current - 1, frame_count);
            vstd::arithmetic::div_mod::lemma_small_mod((current - 1) as nat, frame_count as nat);
        }
    }
}

} // verus!
