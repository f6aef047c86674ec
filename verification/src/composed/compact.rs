//! The compact composed-enemy manifest as authored, and the statement of what
//! a valid manifest is and which runtime cache it stands for.
//!
//! Parts, sprites and events name parts and sprites by their index into the
//! manifest's name tables. Validation walks the manifest in authored order and
//! reports the first defect it meets.

use super::cache::CompositionAtlasCache;
use super::model::{CachedPart, CachedPose, ComposedPartSelector, HealthPool, PartFragments, strings_view};
use super::model::CachedAnimationOverride;
use super::playback::{
    AnimationDirection,
    AnimationEventKind,
    CachedAnimation,
    CachedAnimationEvent,
    CachedAnimationFrame,
    opt_string_view,
};
use crate::geometry::{IVec2, UVec2};
use crate::keyed::{last_with_key, table_of};
use crate::sort::{SortKeyed, stable_sorted};
use vstd::prelude::*;

verus! {

/// An authored pixel offset (top-left origin, Y down).
#[derive(Clone, Copy, Debug, PartialEq, Eq, Structural)]
pub struct CompactOffset {
    pub x: i16,
    pub y: i16,
}

/// An authored pixel size.
#[derive(Clone, Copy, Debug, PartialEq, Eq, Structural)]
pub struct CompactSize {
    pub w: u16,
    pub h: u16,
}

impl CompactOffset {
    pub open spec fn widened(self) -> IVec2 {
        IVec2 { x: self.x as i32, y: self.y as i32 }
    }

    pub fn widen(self) -> (r: IVec2)
        ensures
            r == self.widened(),
    {
        IVec2 { x: self.x as i32, y: self.y as i32 }
    }
}

impl CompactSize {
    pub open spec fn widened(self) -> UVec2 {
        UVec2 { x: self.w as u32, y: self.h as u32 }
    }

    pub fn widen(self) -> (r: UVec2)
        ensures
            r == self.widened(),
    {
        UVec2 { x: self.w as u32, y: self.h as u32 }
    }
}

/// One fragment placement: part index `p`, sprite index `s`, offset, flips
/// and fragment number.
#[derive(Clone, Copy, Debug, PartialEq, Eq, Structural)]
pub struct CompactPose {
    pub p: u8,
    pub s: u8,
    pub o: CompactOffset,
    pub fx: bool,
    pub fy: bool,
    pub frag: u32,
}

impl SortKeyed for CompactPose {
    open spec fn sort_key(&self) -> int {
        self.frag as int
    }

    fn key_value(&self) -> (r: u32) {
        self.frag
    }
}

/// An authored frame event, optionally anchored to a part.
#[derive(Debug)]
pub struct CompactEvent {
    pub kind: AnimationEventKind,
    pub id: String,
    pub part: Option<u8>,
    pub offset: CompactOffset,
}

#[derive(Debug)]
pub struct CompactFrame {
    pub duration_ms: u32,
    pub poses: Vec<CompactPose>,
    pub events: Vec<CompactEvent>,
}

/// An override track declared by the manifest for an animation.
#[derive(Debug)]
pub struct CompactOverride {
    pub source_tag: String,
    pub selector: ComposedPartSelector,
    pub sprite_only: bool,
}

#[derive(Debug)]
pub struct CompactAnimation {
    pub tag: String,
    pub direction: AnimationDirection,
    pub repeats: Option<u32>,
    pub frames: Vec<CompactFrame>,
    pub part_overrides: Vec<CompactOverride>,
}

#[derive(Debug)]
pub struct CompactPartGameplay {
    pub targetable: bool,
    pub health_pool: Option<String>,
    pub armour: u32,
    pub durability: Option<u32>,
    pub breakable: bool,
}

/// A semantic part: its name index, optional parent name index and metadata.
#[derive(Debug)]
pub struct CompactPart {
    pub id: u8,
    pub parent: Option<u8>,
    pub visual: bool,
    pub draw_order: u32,
    pub pivot: CompactOffset,
    pub tags: Vec<String>,
    pub gameplay: CompactPartGameplay,
}

#[derive(Debug)]
pub struct CompactHealthPool {
    pub id: String,
    pub max_health: u32,
}

#[derive(Debug)]
pub struct CompactGameplay {
    pub entity_health_pool: Option<String>,
    pub health_pools: Vec<CompactHealthPool>,
}

/// The compact manifest of one composed enemy at one depth.
#[derive(Debug)]
pub struct CompactComposedAtlas {
    /// Size of the authoring canvas.
    pub canvas: CompactSize,
    /// Composition origin on the canvas.
    pub origin: CompactOffset,
    pub part_names: Vec<String>,
    pub sprite_names: Vec<String>,
    pub sprite_sizes: Vec<CompactSize>,
    pub parts: Vec<CompactPart>,
    pub animations: Vec<CompactAnimation>,
    pub gameplay: CompactGameplay,
}

/// Why a compact manifest was rejected. Animations and frames are named by
/// their index in the manifest.
#[derive(Debug)]
pub enum CompactAtlasError {
    SpriteTableLengthMismatch { names: usize, sizes: usize },
    DuplicateSpriteName { name: String },
    PartIndexOutOfRange { index: u8 },
    SpriteIndexOutOfRange { index: u8 },
    MissingSpriteSize { index: u8, animation: usize, frame: usize },
    DuplicateAnimationTag { animation: usize },
    MissingPrimaryFragment { animation: usize, frame: usize, part: String },
    NonContiguousFragments {
        animation: usize,
        frame: usize,
        part: String,
        expected: usize,
        found: u32,
    },
    MissingParent { animation: usize, frame: usize, parent: String },
    ChildWithoutVisibleParent { animation: usize, frame: usize, child: String, parent: String },
    /// The parent chain is longer than the part table, so it revisits a part.
    ParentCycle { animation: usize, frame: usize, child: String },
    /// A pose places a part that has a name but no part record.
    UnknownPart { animation: usize, frame: usize, part: String },
    /// The sprite atlas has another number of regions than the manifest has sprites.
    RegionCountMismatch { regions: usize, sprites: usize },
    /// Sprite `sprite` has no region id in 32 bits.
    SpriteIndexTooLarge { sprite: usize },
    /// The sprite atlas has no region named like sprite `sprite`.
    MissingRegion { sprite: usize },
    /// The sprite atlas has no region at the index of sprite `sprite`.
    MissingExpectedRegion { sprite: usize },
    /// The region that sprite `sprite` resolved to does not exist.
    MissingResolvedRegion { sprite: usize, region: u32 },
    /// The region of sprite `sprite` has `frames` frames instead of one.
    WrongFrameCount { sprite: usize, frames: usize },
    /// The region of sprite `sprite` has another frame size than the sprite.
    FrameSizeMismatch { sprite: usize, frame_size: UVec2 },
    /// The region of sprite `sprite` has no first frame rectangle.
    MissingFirstFrame { sprite: usize },
    /// The region at the index of sprite `sprite` has no first frame rectangle.
    MissingExpectedFirstFrame { sprite: usize },
    /// Sprite `sprite` resolved to another region, or rectangle, than the one at its index.
    RegionMismatch { sprite: usize, region: u32 },
}

/// Mathematical content of a [`CompactAtlasError`].
pub enum AtlasErrorView {
    SpriteTableLengthMismatch { names: usize, sizes: usize },
    DuplicateSpriteName { name: Seq<char> },
    PartIndexOutOfRange { index: u8 },
    SpriteIndexOutOfRange { index: u8 },
    MissingSpriteSize { index: u8, animation: usize, frame: usize },
    DuplicateAnimationTag { animation: usize },
    MissingPrimaryFragment { animation: usize, frame: usize, part: Seq<char> },
    NonContiguousFragments {
        animation: usize,
        frame: usize,
        part: Seq<char>,
        expected: usize,
        found: u32,
    },
    MissingParent { animation: usize, frame: usize, parent: Seq<char> },
    ChildWithoutVisibleParent {
        animation: usize,
        frame: usize,
        child: Seq<char>,
        parent: Seq<char>,
    },
    ParentCycle { animation: usize, frame: usize, child: Seq<char> },
    UnknownPart { animation: usize, frame: usize, part: Seq<char> },
    RegionCountMismatch { regions: usize, sprites: usize },
    SpriteIndexTooLarge { sprite: usize },
    MissingRegion { sprite: usize },
    MissingExpectedRegion { sprite: usize },
    MissingResolvedRegion { sprite: usize, region: u32 },
    WrongFrameCount { sprite: usize, frames: usize },
    FrameSizeMismatch { sprite: usize, frame_size: UVec2 },
    MissingFirstFrame { sprite: usize },
    MissingExpectedFirstFrame { sprite: usize },
    RegionMismatch { sprite: usize, region: u32 },
}

impl View for CompactAtlasError {
    type V = AtlasErrorView;

    open spec fn view(&self) -> AtlasErrorView {
        match self {
            CompactAtlasError::SpriteTableLengthMismatch { names, sizes } => {
                AtlasErrorView::SpriteTableLengthMismatch { names: *names, sizes: *sizes }
            },
            CompactAtlasError::DuplicateSpriteName { name } => AtlasErrorView::DuplicateSpriteName {
                name: name@,
            },
            CompactAtlasError::PartIndexOutOfRange { index } => AtlasErrorView::PartIndexOutOfRange {
                index: *index,
            },
            CompactAtlasError::SpriteIndexOutOfRange { index } => {
                AtlasErrorView::SpriteIndexOutOfRange { index: *index }
            },
            CompactAtlasError::MissingSpriteSize { index, animation, frame } => {
                AtlasErrorView::MissingSpriteSize {
                    index: *index,
                    animation: *animation,
                    frame: *frame,
                }
            },
            CompactAtlasError::DuplicateAnimationTag { animation } => {
                AtlasErrorView::DuplicateAnimationTag { animation: *animation }
            },
            CompactAtlasError::MissingPrimaryFragment { animation, frame, part } => {
                AtlasErrorView::MissingPrimaryFragment {
                    animation: *animation,
                    frame: *frame,
                    part: part@,
                }
            },
            CompactAtlasError::NonContiguousFragments { animation, frame, part, expected, found } => {
                AtlasErrorView::NonContiguousFragments {
                    animation: *animation,
                    frame: *frame,
                    part: part@,
                    expected: *expected,
                    found: *found,
                }
            },
            CompactAtlasError::MissingParent { animation, frame, parent } => {
                AtlasErrorView::MissingParent {
                    animation: *animation,
                    frame: *frame,
                    parent: parent@,
                }
            },
            CompactAtlasError::ChildWithoutVisibleParent { animation, frame, child, parent } => {
                AtlasErrorView::ChildWithoutVisibleParent {
                    animation: *animation,
                    frame: *frame,
                    child: child@,
                    parent: parent@,
                }
            },
            CompactAtlasError::ParentCycle { animation, frame, child } => {
                AtlasErrorView::ParentCycle { animation: *animation, frame: *frame, child: child@ }
            },
            CompactAtlasError::UnknownPart { animation, frame, part } => {
                AtlasErrorView::UnknownPart { animation: *animation, frame: *frame, part: part@ }
            },
            CompactAtlasError::RegionCountMismatch { regions, sprites } => {
                AtlasErrorView::RegionCountMismatch { regions: *regions, sprites: *sprites }
            },
            CompactAtlasError::SpriteIndexTooLarge { sprite } => AtlasErrorView::SpriteIndexTooLarge {
                sprite: *sprite,
            },
            CompactAtlasError::MissingRegion { sprite } => AtlasErrorView::MissingRegion { sprite: *sprite },
            CompactAtlasError::MissingExpectedRegion { sprite } => {
                AtlasErrorView::MissingExpectedRegion { sprite: *sprite }
            },
            CompactAtlasError::MissingResolvedRegion { sprite, region } => {
                AtlasErrorView::MissingResolvedRegion { sprite: *sprite, region: *region }
            },
            CompactAtlasError::WrongFrameCount { sprite, frames } => AtlasErrorView::WrongFrameCount {
                sprite: *sprite,
                frames: *frames,
            },
            CompactAtlasError::FrameSizeMismatch { sprite, frame_size } => {
                AtlasErrorView::FrameSizeMismatch { sprite: *sprite, frame_size: *frame_size }
            },
            CompactAtlasError::MissingFirstFrame { sprite } => AtlasErrorView::MissingFirstFrame {
                sprite: *sprite,
            },
            CompactAtlasError::MissingExpectedFirstFrame { sprite } => {
                AtlasErrorView::MissingExpectedFirstFrame { sprite: *sprite }
            },
            CompactAtlasError::RegionMismatch { sprite, region } => AtlasErrorView::RegionMismatch {
                sprite: *sprite,
                region: *region,
            },
        }
    }
}

/// The first of two checks that fails.
pub open spec fn first_failure(first: Option<AtlasErrorView>, then: Option<AtlasErrorView>) -> Option<
    AtlasErrorView,
> {
    match first {
        Some(e) => Some(e),
        None => then,
    }
}

/// The failure of the first of checks `0 .. n` that fails.
pub open spec fn first_failing(check: spec_fn(int) -> Option<AtlasErrorView>, n: int) -> Option<
    AtlasErrorView,
>
    decreases n,
{
    if n <= 0 {
        None
    } else {
        first_failure(first_failing(check, n - 1), check(n - 1))
    }
}

/// Once a check has failed, later checks do not change the reported failure.
pub proof fn lemma_first_failing_stays(check: spec_fn(int) -> Option<AtlasErrorView>, m: int, n: int)
    requires
        0 <= m <= n,
        first_failing(check, m) is Some,
    ensures
        first_failing(check, n) == first_failing(check, m),
    decreases n - m,
{
    if m < n {
        lemma_first_failing_stays(check, m, n - 1);
    }
}

/// When none of checks `0 .. n` fails, each of them passes.
pub proof fn lemma_first_failing_none(check: spec_fn(int) -> Option<AtlasErrorView>, n: int, i: int)
    requires
        0 <= i < n,
        first_failing(check, n) is None,
    ensures
        check(i) is None,
    decreases n,
{
    if i < n - 1 {
        lemma_first_failing_none(check, n - 1, i);
    }
}

/// While no check has failed, the next check decides.
pub proof fn lemma_first_failing_step(check: spec_fn(int) -> Option<AtlasErrorView>, i: int)
    requires
        0 <= i,
        first_failing(check, i) is None,
    ensures
        first_failing(check, i + 1) == check(i),
{
}

// ---------------------------------------------------------------------------
// Sprite tables
// ---------------------------------------------------------------------------

/// Sprite name `j` repeats an earlier one.
pub open spec fn name_seen_before(names: Seq<String>, j: int) -> bool {
    exists|i: int| 0 <= i < j && (#[trigger] names[i])@ == names[j]@
}

pub open spec fn sprite_name_check(names: Seq<String>) -> spec_fn(int) -> Option<AtlasErrorView> {
    |j: int|
        if name_seen_before(names, j) {
            Some(AtlasErrorView::DuplicateSpriteName { name: names[j]@ })
        } else {
            None
        }
}

/// Defect of the sprite tables: length mismatch first, then the first repeated name.
pub open spec fn sprite_tables_error(a: CompactComposedAtlas) -> Option<AtlasErrorView> {
    if a.sprite_names.len() != a.sprite_sizes.len() {
        Some(
            AtlasErrorView::SpriteTableLengthMismatch {
                names: a.sprite_names.len(),
                sizes: a.sprite_sizes.len(),
            },
        )
    } else {
        first_failing(sprite_name_check(a.sprite_names@), a.sprite_names.len() as int)
    }
}

// ---------------------------------------------------------------------------
// Part table
// ---------------------------------------------------------------------------

pub open spec fn part_in_range(a: CompactComposedAtlas, i: u8) -> bool {
    (i as int) < a.part_names.len()
}

pub open spec fn part_name(a: CompactComposedAtlas, i: u8) -> Seq<char> {
    a.part_names@[i as int]@
}

pub open spec fn opt_part_name(a: CompactComposedAtlas, o: Option<u8>) -> Option<Seq<char>> {
    match o {
        Some(i) => Some(part_name(a, i)),
        None => None,
    }
}

pub open spec fn part_record_error(a: CompactComposedAtlas, p: CompactPart) -> Option<AtlasErrorView> {
    if !part_in_range(a, p.id) {
        Some(AtlasErrorView::PartIndexOutOfRange { index: p.id })
    } else {
        match p.parent {
            Some(q) => if !part_in_range(a, q) {
                Some(AtlasErrorView::PartIndexOutOfRange { index: q })
            } else {
                None
            },
            None => None,
        }
    }
}

pub open spec fn part_check(a: CompactComposedAtlas) -> spec_fn(int) -> Option<AtlasErrorView> {
    |i: int| part_record_error(a, a.parts@[i])
}

/// First defect among the first `n` part records.
pub open spec fn parts_error(a: CompactComposedAtlas, n: int) -> Option<AtlasErrorView> {
    first_failing(part_check(a), n)
}

pub open spec fn part_key(a: CompactComposedAtlas) -> spec_fn(CompactPart) -> Seq<char> {
    |p: CompactPart| part_name(a, p.id)
}

/// The runtime part `c` carries exactly the record `p`, names resolved.
pub open spec fn part_built(a: CompactComposedAtlas, p: CompactPart, c: CachedPart) -> bool {
    &&& c.id@ == part_name(a, p.id)
    &&& opt_string_view(c.parent_id) == opt_part_name(a, p.parent)
    &&& c.is_visual == p.visual
    &&& c.draw_order == p.draw_order
    &&& c.pivot == p.pivot.widened()
    &&& c.tags@ == p.tags@
    &&& c.gameplay.targetable == p.gameplay.targetable
    &&& opt_string_view(c.gameplay.health_pool) == opt_string_view(p.gameplay.health_pool)
    &&& c.gameplay.armour == p.gameplay.armour
    &&& c.gameplay.durability == p.gameplay.durability
    &&& c.gameplay.breakable == p.gameplay.breakable
}

pub open spec fn part_builder(a: CompactComposedAtlas) -> spec_fn(CompactPart, CachedPart) -> bool {
    |p: CompactPart, c: CachedPart| part_built(a, p, c)
}

/// One runtime part per part name; a name given twice keeps its last record.
pub open spec fn part_table(a: CompactComposedAtlas, t: Seq<CachedPart>) -> bool {
    table_of(t, a.parts@, part_key(a), part_builder(a), a.parts.len() as int)
}

/// The record that defines the part called `name`: the last one with that name.
pub open spec fn part_record(a: CompactComposedAtlas, name: Seq<char>) -> Option<int> {
    last_with_key(a.parts@, part_key(a), name, a.parts.len() as int)
}

/// A visual part awaiting ordering: its draw order and its name index.
#[derive(Clone, Copy, Debug)]
pub struct DrawEntry {
    pub draw_order: u32,
    pub name: u8,
}

impl SortKeyed for DrawEntry {
    open spec fn sort_key(&self) -> int {
        self.draw_order as int
    }

    fn key_value(&self) -> (r: u32) {
        self.draw_order
    }
}

/// Draw order of the part called `name`, as its defining record gives it.
pub open spec fn table_draw_order(a: CompactComposedAtlas, name: Seq<char>) -> u32 {
    a.parts@[part_record(a, name)->0].draw_order
}

/// The visual records among the first `n`, in authored order.
pub open spec fn visual_entries(a: CompactComposedAtlas, n: int) -> Seq<DrawEntry>
    decreases n,
{
    if n <= 0 {
        Seq::empty()
    } else {
        let p = a.parts@[n - 1];
        let before = visual_entries(a, n - 1);
        if p.visual {
            before.push(
                DrawEntry { draw_order: table_draw_order(a, part_name(a, p.id)), name: p.id },
            )
        } else {
            before
        }
    }
}

/// Names of the visual parts, stably ordered by draw order.
pub open spec fn visual_draw_order(a: CompactComposedAtlas) -> Seq<Seq<char>> {
    stable_sorted(visual_entries(a, a.parts.len() as int)).map_values(
        |e: DrawEntry| part_name(a, e.name),
    )
}

// ---------------------------------------------------------------------------
// Frames
// ---------------------------------------------------------------------------

pub open spec fn frame_of(a: CompactComposedAtlas, k: int, f: int) -> CompactFrame {
    a.animations@[k].frames@[f]
}

pub open spec fn pose_error(a: CompactComposedAtlas, k: int, f: int, p: CompactPose) -> Option<AtlasErrorView> {
    if !part_in_range(a, p.p) {
        Some(AtlasErrorView::PartIndexOutOfRange { index: p.p })
    } else if p.s as int >= a.sprite_names.len() {
        Some(AtlasErrorView::SpriteIndexOutOfRange { index: p.s })
    } else if p.s as int >= a.sprite_sizes.len() {
        Some(
            AtlasErrorView::MissingSpriteSize {
                index: p.s,
                animation: k as usize,
                frame: f as usize,
            },
        )
    } else {
        None
    }
}

pub open spec fn pose_check(a: CompactComposedAtlas, k: int, f: int, ps: Seq<CompactPose>) -> spec_fn(
    int,
) -> Option<AtlasErrorView> {
    |q: int| pose_error(a, k, f, ps[q])
}

/// First defect among the first `n` poses of a frame.
pub open spec fn poses_error(a: CompactComposedAtlas, k: int, f: int, ps: Seq<CompactPose>, n: int) -> Option<
    AtlasErrorView,
> {
    first_failing(pose_check(a, k, f, ps), n)
}

/// The poses of one part within a frame.
pub type PoseGroupView = (Seq<char>, Seq<CompactPose>);

/// Position of the group of the part called `name`.
pub open spec fn group_index(g: Seq<PoseGroupView>, name: Seq<char>) -> Option<int>
    decreases g.len(),
{
    if g.len() == 0 {
        None
    } else if g[0].0 == name {
        Some(0)
    } else {
        match group_index(g.drop_first(), name) {
            Some(i) => Some(i + 1),
            None => None,
        }
    }
}

pub open spec fn group_add(g: Seq<PoseGroupView>, name: Seq<char>, p: CompactPose) -> Seq<PoseGroupView> {
    match group_index(g, name) {
        Some(i) => g.update(i, (name, g[i].1.push(p))),
        None => g.push((name, seq![p])),
    }
}

/// The first `n` poses grouped by part name, groups in order of first appearance.
pub open spec fn pose_groups(a: CompactComposedAtlas, ps: Seq<CompactPose>, n: int) -> Seq<PoseGroupView>
    decreases n,
{
    if n <= 0 {
        Seq::empty()
    } else {
        group_add(pose_groups(a, ps, n - 1), part_name(a, ps[n - 1].p), ps[n - 1])
    }
}

/// Every pose of `s` names a sprite that has a name and a size.
pub open spec fn sprites_resolved(a: CompactComposedAtlas, s: Seq<CompactPose>) -> bool {
    forall|j: int|
        0 <= j < s.len() ==> (#[trigger] s[j]).s < a.sprite_names.len() && s[j].s < a.sprite_sizes.len()
}

pub proof fn lemma_group_index_bounds(g: Seq<PoseGroupView>, name: Seq<char>)
    ensures
        group_index(g, name) matches Some(i) ==> 0 <= i < g.len() && g[i].0 == name,
    decreases g.len(),
{
    if g.len() > 0 && g[0].0 != name {
        lemma_group_index_bounds(g.drop_first(), name);
    }
}

/// Grouping keeps every pose whose sprite resolves resolved.
pub proof fn lemma_pose_groups_resolved(a: CompactComposedAtlas, ps: Seq<CompactPose>, n: int)
    requires
        0 <= n <= ps.len(),
        sprites_resolved(a, ps.take(n)),
    ensures
        forall|g: int|
            0 <= g < pose_groups(a, ps, n).len() ==> sprites_resolved(
                a,
                (#[trigger] pose_groups(a, ps, n)[g]).1,
            ),
    decreases n,
{
    if n > 0 {
        assert(ps.take(n - 1) =~= ps.take(n).take(n - 1));
        assert forall|j: int| 0 <= j < ps.take(n - 1).len() implies ((#[trigger] ps.take(n - 1)[j]).s
            < a.sprite_names.len() && ps.take(n - 1)[j].s < a.sprite_sizes.len()) by {
            assert(ps.take(n - 1)[j] == ps.take(n)[j]);
        }
        lemma_pose_groups_resolved(a, ps, n - 1);
        let before = pose_groups(a, ps, n - 1);
        let name = part_name(a, ps[n - 1].p);
        assert(ps.take(n)[n - 1] == ps[n - 1]);
        lemma_group_index_bounds(before, name);
        let after = pose_groups(a, ps, n);
        assert forall|g: int| 0 <= g < after.len() implies sprites_resolved(a, (#[trigger] after[g]).1) by {
            match group_index(before, name) {
                Some(i) => {
                    if g == i {
                        let s = before[i].1.push(ps[n - 1]);
                        assert(after[g].1 == s);
                        assert forall|j: int| 0 <= j < s.len() implies ((#[trigger] s[j]).s
                            < a.sprite_names.len() && s[j].s < a.sprite_sizes.len()) by {
                            if j < before[i].1.len() {
                                assert(s[j] == before[i].1[j]);
                            }
                        }
                    } else {
                        assert(after[g] == before[g]);
                    }
                },
                None => {
                    if g < before.len() {
                        assert(after[g] == before[g]);
                    }
                },
            }
        }
    }
}

/// Each group's poses in fragment order.
pub open spec fn sorted_groups(g: Seq<PoseGroupView>) -> Seq<PoseGroupView> {
    g.map_values(|x: PoseGroupView| (x.0, stable_sorted(x.1)))
}

/// The per-part fragment lists of frame `f` of animation `k`.
pub open spec fn frame_groups(a: CompactComposedAtlas, k: int, f: int) -> Seq<PoseGroupView> {
    let fr = frame_of(a, k, f);
    sorted_groups(pose_groups(a, fr.poses@, fr.poses.len() as int))
}

/// First position from `j` on whose fragment number is not its position.
pub open spec fn fragment_gap(s: Seq<CompactPose>, j: int) -> Option<int>
    decreases s.len() - j,
{
    if j < 0 || j >= s.len() {
        None
    } else if s[j].frag != j {
        Some(j)
    } else {
        fragment_gap(s, j + 1)
    }
}

/// A part's ordered fragments must be numbered 0, 1, 2, ...
pub open spec fn group_fragment_error(k: int, f: int, g: PoseGroupView) -> Option<AtlasErrorView> {
    if g.1.len() > 0 && g.1[0].frag != 0 {
        Some(
            AtlasErrorView::MissingPrimaryFragment {
                animation: k as usize,
                frame: f as usize,
                part: g.0,
            },
        )
    } else {
        match fragment_gap(g.1, 0) {
            Some(j) => Some(
                AtlasErrorView::NonContiguousFragments {
                    animation: k as usize,
                    frame: f as usize,
                    part: g.0,
                    expected: j as usize,
                    found: g.1[j].frag,
                },
            ),
            None => None,
        }
    }
}

pub open spec fn fragment_check(k: int, f: int, gs: Seq<PoseGroupView>) -> spec_fn(int) -> Option<
    AtlasErrorView,
> {
    |g: int| group_fragment_error(k, f, gs[g])
}

pub open spec fn fragments_error(k: int, f: int, gs: Seq<PoseGroupView>, n: int) -> Option<AtlasErrorView> {
    first_failing(fragment_check(k, f, gs), n)
}

/// Walks the parents of `child` from `parent` on: each must be a known part,
/// and each visual one must be placed in the frame. After `fuel` steps the
/// chain has revisited a part.
pub open spec fn chain_error(
    a: CompactComposedAtlas,
    k: int,
    f: int,
    gs: Seq<PoseGroupView>,
    child: Seq<char>,
    parent: Option<Seq<char>>,
    fuel: nat,
) -> Option<AtlasErrorView>
    decreases fuel,
{
    match parent {
        None => None,
        Some(pn) => if fuel == 0 {
            Some(
                AtlasErrorView::ParentCycle { animation: k as usize, frame: f as usize, child },
            )
        } else {
            match part_record(a, pn) {
                None => Some(
                    AtlasErrorView::MissingParent {
                        animation: k as usize,
                        frame: f as usize,
                        parent: pn,
                    },
                ),
                Some(i) => if a.parts@[i].visual && group_index(gs, pn) is None {
                    Some(
                        AtlasErrorView::ChildWithoutVisibleParent {
                            animation: k as usize,
                            frame: f as usize,
                            child,
                            parent: pn,
                        },
                    )
                } else {
                    chain_error(
                        a,
                        k,
                        f,
                        gs,
                        child,
                        opt_part_name(a, a.parts@[i].parent),
                        (fuel - 1) as nat,
                    )
                },
            }
        },
    }
}

pub open spec fn group_chain_error(
    a: CompactComposedAtlas,
    k: int,
    f: int,
    gs: Seq<PoseGroupView>,
    name: Seq<char>,
) -> Option<AtlasErrorView> {
    match part_record(a, name) {
        Some(i) => chain_error(
            a,
            k,
            f,
            gs,
            name,
            opt_part_name(a, a.parts@[i].parent),
            a.parts.len() as nat,
        ),
        None => Some(
            AtlasErrorView::UnknownPart { animation: k as usize, frame: f as usize, part: name },
        ),
    }
}

pub open spec fn chain_check(a: CompactComposedAtlas, k: int, f: int, gs: Seq<PoseGroupView>) -> spec_fn(
    int,
) -> Option<AtlasErrorView> {
    |g: int| group_chain_error(a, k, f, gs, gs[g].0)
}

pub open spec fn chains_error(a: CompactComposedAtlas, k: int, f: int, gs: Seq<PoseGroupView>, n: int) -> Option<
    AtlasErrorView,
> {
    first_failing(chain_check(a, k, f, gs), n)
}

pub open spec fn event_error(a: CompactComposedAtlas, e: CompactEvent) -> Option<AtlasErrorView> {
    match e.part {
        Some(q) => if !part_in_range(a, q) {
            Some(AtlasErrorView::PartIndexOutOfRange { index: q })
        } else {
            None
        },
        None => None,
    }
}

pub open spec fn event_check(a: CompactComposedAtlas, es: Seq<CompactEvent>) -> spec_fn(int) -> Option<
    AtlasErrorView,
> {
    |e: int| event_error(a, es[e])
}

pub open spec fn events_error(a: CompactComposedAtlas, es: Seq<CompactEvent>, n: int) -> Option<AtlasErrorView> {
    first_failing(event_check(a, es), n)
}

/// Defect of frame `f` of animation `k`: pose references, then fragment
/// numbering per part, then per part its record and parent chain, then event
/// references.
pub open spec fn frame_error(a: CompactComposedAtlas, k: int, f: int) -> Option<AtlasErrorView> {
    let fr = frame_of(a, k, f);
    let gs = frame_groups(a, k, f);
    first_failure(
        poses_error(a, k, f, fr.poses@, fr.poses.len() as int),
        first_failure(
            fragments_error(k, f, gs, gs.len() as int),
            first_failure(
                chains_error(a, k, f, gs, gs.len() as int),
                events_error(a, fr.events@, fr.events.len() as int),
            ),
        ),
    )
}

pub open spec fn frame_check(a: CompactComposedAtlas, k: int) -> spec_fn(int) -> Option<AtlasErrorView> {
    |f: int| frame_error(a, k, f)
}

pub open spec fn frames_error(a: CompactComposedAtlas, k: int, n: int) -> Option<AtlasErrorView> {
    first_failing(frame_check(a, k), n)
}

pub open spec fn tag_seen_before(a: CompactComposedAtlas, k: int) -> bool {
    exists|j: int| 0 <= j < k && (#[trigger] a.animations@[j]).tag@ == a.animations@[k].tag@
}

/// Defect of animation `k`: a tag used before, then its frames in order.
pub open spec fn animation_error(a: CompactComposedAtlas, k: int) -> Option<AtlasErrorView> {
    if tag_seen_before(a, k) {
        Some(AtlasErrorView::DuplicateAnimationTag { animation: k as usize })
    } else {
        frames_error(a, k, a.animations@[k].frames.len() as int)
    }
}

pub open spec fn animation_check(a: CompactComposedAtlas) -> spec_fn(int) -> Option<AtlasErrorView> {
    |k: int| animation_error(a, k)
}

pub open spec fn animations_error(a: CompactComposedAtlas, n: int) -> Option<AtlasErrorView> {
    first_failing(animation_check(a), n)
}

/// The defect reported for a manifest: part records first, then animations in order.
pub open spec fn atlas_error(a: CompactComposedAtlas) -> Option<AtlasErrorView> {
    first_failure(
        parts_error(a, a.parts.len() as int),
        animations_error(a, a.animations.len() as int),
    )
}

// ---------------------------------------------------------------------------
// The cache a valid manifest stands for
// ---------------------------------------------------------------------------

pub open spec fn pose_built(a: CompactComposedAtlas, p: CompactPose, c: CachedPose) -> bool {
    &&& c.sprite_id@ == a.sprite_names@[p.s as int]@
    &&& c.local_offset == p.o.widened()
    &&& c.size == a.sprite_sizes@[p.s as int].widened()
    &&& c.flip_x == p.fx
    &&& c.flip_y == p.fy
    &&& c.visible
    &&& c.fragment == p.frag
}

pub open spec fn group_built(a: CompactComposedAtlas, g: PoseGroupView, c: PartFragments) -> bool {
    &&& c.part_id@ == g.0
    &&& c.fragments.len() == g.1.len()
    &&& forall|j: int| 0 <= j < g.1.len() ==> pose_built(a, g.1[j], #[trigger] c.fragments@[j])
}

pub open spec fn event_built(a: CompactComposedAtlas, e: CompactEvent, c: CachedAnimationEvent) -> bool {
    &&& c.kind == e.kind
    &&& c.id@ == e.id@
    &&& opt_string_view(c.part_id) == opt_part_name(a, e.part)
    &&& c.local_offset == e.offset.widened()
}

pub open spec fn frame_built(a: CompactComposedAtlas, k: int, f: int, c: CachedAnimationFrame) -> bool {
    let fr = frame_of(a, k, f);
    let gs = frame_groups(a, k, f);
    &&& c.source_frame == f
    &&& c.duration_ms == fr.duration_ms
    &&& c.events.len() == fr.events.len()
    &&& forall|e: int| 0 <= e < fr.events.len() ==> event_built(a, fr.events@[e], #[trigger] c.events@[e])
    &&& c.poses.len() == gs.len()
    &&& forall|g: int| 0 <= g < gs.len() ==> group_built(a, gs[g], #[trigger] c.poses@[g])
}

pub open spec fn override_built(o: CompactOverride, c: CachedAnimationOverride) -> bool {
    &&& c.source_tag@ == o.source_tag@
    &&& c.selector.part_ids@ == o.selector.part_ids@
    &&& c.selector.part_tags@ == o.selector.part_tags@
    &&& c.sprite_only == o.sprite_only
}

pub open spec fn animation_built(a: CompactComposedAtlas, k: int, c: CachedAnimation) -> bool {
    let src = a.animations@[k];
    &&& c.direction == src.direction
    &&& c.repeats == src.repeats
    &&& c.frames.len() == src.frames.len()
    &&& forall|f: int| 0 <= f < src.frames.len() ==> frame_built(a, k, f, #[trigger] c.frames@[f])
    &&& c.part_overrides.len() == src.part_overrides.len()
    &&& forall|o: int|
        0 <= o < src.part_overrides.len() ==> override_built(
            src.part_overrides@[o],
            #[trigger] c.part_overrides@[o],
        )
}

pub open spec fn pool_key() -> spec_fn(CompactHealthPool) -> Seq<char> {
    |p: CompactHealthPool| p.id@
}

pub open spec fn pool_builder() -> spec_fn(CompactHealthPool, HealthPool) -> bool {
    |p: CompactHealthPool, h: HealthPool| h.id@ == p.id@ && h.health == p.max_health
}

/// The runtime cache `c` is the one manifest `a` stands for.
pub open spec fn cache_built(a: CompactComposedAtlas, c: CompositionAtlasCache) -> bool {
    &&& part_table(a, c.parts@)
    &&& strings_view(c.visual_parts_in_draw_order@) == visual_draw_order(a)
    &&& c.animations.len() == a.animations.len()
    &&& forall|k: int|
        0 <= k < a.animations.len() ==> {
            &&& (#[trigger] c.animations@[k]).tag@ == a.animations@[k].tag@
            &&& animation_built(a, k, c.animations@[k].animation)
        }
    &&& opt_string_view(c.entity_health_pool) == opt_string_view(a.gameplay.entity_health_pool)
    &&& table_of(
        c.health_pools@,
        a.gameplay.health_pools@,
        pool_key(),
        pool_builder(),
        a.gameplay.health_pools.len() as int,
    )
}


// ---------------------------------------------------------------------------
// What a valid manifest guarantees
// ---------------------------------------------------------------------------

proof fn lemma_fragment_gap_none(s: Seq<CompactPose>, i: int, j: int)
    requires
        0 <= i <= j < s.len(),
        fragment_gap(s, i) is None,
    ensures
        s[j].frag == j,
    decreases j - i,
{
    if i < j {
        lemma_fragment_gap_none(s, i + 1, j);
    }
}

/// A valid manifest passes every check of frame `f` of animation `k`.
pub proof fn lemma_valid_frame(a: CompactComposedAtlas, k: int, f: int)
    requires
        atlas_error(a) is None,
        0 <= k < a.animations.len(),
        0 <= f < a.animations@[k].frames.len(),
    ensures
        frame_error(a, k, f) is None,
{
    lemma_first_failing_none(animation_check(a), a.animations.len() as int, k);
    lemma_first_failing_none(frame_check(a, k), a.animations@[k].frames.len() as int, f);
}

/// In a frame of a valid manifest, each placed part's fragments are
/// numbered 0, 1, 2, ... in order.
pub proof fn lemma_valid_fragments_numbered(a: CompactComposedAtlas, k: int, f: int, g: int, j: int)
    requires
        atlas_error(a) is None,
        0 <= k < a.animations.len(),
        0 <= f < a.animations@[k].frames.len(),
        0 <= g < frame_groups(a, k, f).len(),
        0 <= j < frame_groups(a, k, f)[g].1.len(),
    ensures
        frame_groups(a, k, f)[g].1[j].frag == j,
{
    lemma_valid_frame(a, k, f);
    let fr = frame_of(a, k, f);
    let gs = frame_groups(a, k, f);
    lemma_first_failing_none(fragment_check(k, f, gs), gs.len() as int, g);
    lemma_fragment_gap_none(gs[g].1, 0, j);
}

/// In a frame of a valid manifest, every placed part has a defining record,
/// and that record either has no parent, or its parent is a known part that
/// is placed too unless it is not visual.
pub proof fn lemma_valid_parent_placed(a: CompactComposedAtlas, k: int, f: int, g: int)
    requires
        atlas_error(a) is None,
        0 <= k < a.animations.len(),
        0 <= f < a.animations@[k].frames.len(),
        0 <= g < frame_groups(a, k, f).len(),
    ensures
        part_record(a, frame_groups(a, k, f)[g].0) is Some,
        ({
            let gs = frame_groups(a, k, f);
            let rec = a.parts@[part_record(a, gs[g].0)->0];
            match opt_part_name(a, rec.parent) {
                None => true,
                Some(pn) => part_record(a, pn) is Some && (a.parts@[part_record(a, pn)->0].visual
                    ==> group_index(gs, pn) is Some),
            }
        }),
{
    lemma_valid_frame(a, k, f);
    let gs = frame_groups(a, k, f);
    lemma_first_failing_none(chain_check(a, k, f, gs), gs.len() as int, g);
}

} // verus!
