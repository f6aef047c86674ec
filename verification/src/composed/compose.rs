//! Composition of a resolved animation frame into positioned render fragments.
//!
//! Pivots are resolved through the part hierarchy: a part's pivot is its
//! nearest visual ancestor's pivot plus its own authored offset (non-visual
//! ancestors are transparent). Fragments are placed relative to the part
//! pivot in authored top-left/Y-down space and emitted with bottom-left
//! offsets for rendering. Geometry is computed exactly; a frame whose
//! geometry does not fit in 32-bit pixel coordinates is not composed.

use super::cache::CompositionAtlasCache;
use super::damage::{ComposedPartStates, PartEntry};
use super::model::{CachedPart, CachedPose, PartFragments};
use crate::geometry::{IVec2, UVec2};
use crate::keyed::{Keyed, find_keyed, first_keyed};
use vstd::prelude::*;

verus! {

/// Atlas region bound to a sprite id.
#[derive(Debug)]
pub struct SpriteRegion {
    pub sprite_id: String,
    pub region: u32,
}

impl Keyed for SpriteRegion {
    open spec fn key_view(&self) -> Seq<char> {
        self.sprite_id@
    }

    fn key(&self) -> (r: &String) {
        &self.sprite_id
    }
}

/// One positioned render fragment.
#[derive(Debug)]
pub struct FragmentRender {
    pub sprite_id: String,
    pub region: u32,
    pub fragment: u32,
    /// Authored top-left/Y-down position relative to the composite root.
    pub top_left: IVec2,
    pub size: UVec2,
    /// Offset used for rendering: bottom-left corner, Y up.
    pub bottom_left_offset: IVec2,
    pub flip_x: bool,
    pub flip_y: bool,
    /// Drawn with the invert filter (part hit blink).
    pub inverted: bool,
}

/// One composed visual part: its pivot, logical bounds over all fragments,
/// and its fragments in authored order.
#[derive(Debug)]
pub struct PartRender {
    pub part_id: String,
    pub draw_order: u32,
    pub pivot: IVec2,
    pub top_left: IVec2,
    pub size: UVec2,
    pub fragments: Vec<FragmentRender>,
}

pub open spec fn in_i32(v: int) -> bool {
    i32::MIN <= v <= i32::MAX
}

pub open spec fn vec_in_i32(v: (int, int)) -> bool {
    in_i32(v.0) && in_i32(v.1)
}

/// Fragments authored for `part_id` in the resolved frame.
pub open spec fn poses_of(poses: Seq<PartFragments>, part_id: Seq<char>) -> Option<Seq<CachedPose>> {
    match first_keyed(poses, part_id) {
        Some(i) => Some(poses[i].fragments@),
        None => None,
    }
}

/// Pivot of `part`: its primary fragment's offset, added to the pivot of its
/// nearest visual ancestor. `None` when the part has no primary fragment, an
/// ancestor is missing or unplaced, the chain is longer than `fuel`, or a
/// coordinate leaves the 32-bit range.
pub open spec fn spec_pivot(
    parts: Seq<CachedPart>,
    poses: Seq<PartFragments>,
    part: CachedPart,
    fuel: nat,
) -> Option<(int, int)>
    decreases fuel, 1nat,
{
    match poses_of(poses, part.id@) {
        None => None,
        Some(frags) => if frags.len() == 0 {
            None
        } else {
            let off = frags[0].local_offset;
            match part.parent_id {
                None => Some((off.x as int, off.y as int)),
                Some(_) => match spec_parent_pivot(parts, poses, part.parent_id, fuel) {
                    None => None,
                    Some(pp) => {
                        let v = (pp.0 + off.x, pp.1 + off.y);
                        if vec_in_i32(v) {
                            Some(v)
                        } else {
                            None
                        }
                    },
                },
            }
        },
    }
}

/// Pivot contributed by the ancestors starting at `parent_id`: the pivot of
/// the nearest visual one (which must be placed), or the origin when there
/// is none.
pub open spec fn spec_parent_pivot(
    parts: Seq<CachedPart>,
    poses: Seq<PartFragments>,
    parent_id: Option<String>,
    fuel: nat,
) -> Option<(int, int)>
    decreases fuel, 0nat,
{
    match parent_id {
        None => Some((0, 0)),
        Some(pid) => if fuel == 0 {
            None
        } else {
            match first_keyed(parts, pid@) {
                None => None,
                Some(i) => {
                    let p = parts[i];
                    if p.is_visual {
                        if poses_of(poses, p.id@) is Some {
                            spec_pivot(parts, poses, p, (fuel - 1) as nat)
                        } else {
                            None
                        }
                    } else {
                        spec_parent_pivot(parts, poses, p.parent_id, (fuel - 1) as nat)
                    }
                },
            }
        },
    }
}

fn checked_vec(x: i64, y: i64) -> (r: Option<IVec2>)
    ensures
        match r {
            Some(v) => vec_in_i32((x as int, y as int)) && v.x == x && v.y == y,
            None => !vec_in_i32((x as int, y as int)),
        },
{
    if x >= i32::MIN as i64 && x <= i32::MAX as i64 && y >= i32::MIN as i64 && y <= i32::MAX as i64 {
        Some(IVec2 { x: x as i32, y: y as i32 })
    } else {
        None
    }
}

fn poses_lookup<'a>(poses: &'a Vec<PartFragments>, part_id: &String) -> (r: Option<&'a Vec<CachedPose>>)
    ensures
        match r {
            Some(v) => poses_of(poses@, part_id@) == Some(v@),
            None => poses_of(poses@, part_id@) is None,
        },
{
    match find_keyed(poses, part_id) {
        Some(i) => Some(&poses[i].fragments),
        None => None,
    }
}

/// Resolves the pivot of `part` (see [`spec_pivot`]).
pub fn resolve_pivot(
    parts: &Vec<CachedPart>,
    poses: &Vec<PartFragments>,
    part: &CachedPart,
    fuel: u64,
) -> (r: Option<IVec2>)
    ensures
        match r {
            Some(v) => spec_pivot(parts@, poses@, *part, fuel as nat) == Some((v.x as int, v.y as int)),
            None => spec_pivot(parts@, poses@, *part, fuel as nat) is None,
        },
    decreases fuel, 1nat,
{
    let frags = match poses_lookup(poses, &part.id) {
        Some(f) => f,
        None => return None,
    };
    if frags.len() == 0 {
        return None;
    }
    let off = frags[0].local_offset;
    match &part.parent_id {
        None => Some(off),
        Some(_) => match resolve_parent_pivot(parts, poses, &part.parent_id, fuel) {
            None => None,
            Some(pp) => checked_vec(pp.x as i64 + off.x as i64, pp.y as i64 + off.y as i64),
        },
    }
}

/// Resolves the pivot contributed by the ancestors starting at `parent_id`.
pub fn resolve_parent_pivot(
    parts: &Vec<CachedPart>,
    poses: &Vec<PartFragments>,
    parent_id: &Option<String>,
    fuel: u64,
) -> (r: Option<IVec2>)
    ensures
        match r {
            Some(v) => spec_parent_pivot(parts@, poses@, *parent_id, fuel as nat) == Some(
                (v.x as int, v.y as int),
            ),
            None => spec_parent_pivot(parts@, poses@, *parent_id, fuel as nat) is None,
        },
    decreases fuel, 0nat,
{
    match parent_id {
        None => Some(IVec2 { x: 0, y: 0 }),
        Some(pid) => {
            if fuel == 0 {
                return None;
            }
            match find_keyed(parts, pid) {
                None => None,
                Some(i) => {
                    let p = &parts[i];
                    if p.is_visual {
                        if poses_lookup(poses, &p.id).is_some() {
                            resolve_pivot(parts, poses, p, fuel - 1)
                        } else {
                            None
                        }
                    } else {
                        resolve_parent_pivot(parts, poses, &p.parent_id, fuel - 1)
                    }
                },
            }
        },
    }
}

/// Contents of a positioned fragment.
pub struct FragView {
    pub sprite_id: Seq<char>,
    pub region: u32,
    pub fragment: u32,
    pub top_left: (int, int),
    pub size: UVec2,
    pub bottom_left_offset: (int, int),
    pub flip_x: bool,
    pub flip_y: bool,
    pub inverted: bool,
}

impl View for FragmentRender {
    type V = FragView;

    open spec fn view(&self) -> FragView {
        FragView {
            sprite_id: self.sprite_id@,
            region: self.region,
            fragment: self.fragment,
            top_left: (self.top_left.x as int, self.top_left.y as int),
            size: self.size,
            bottom_left_offset: (self.bottom_left_offset.x as int, self.bottom_left_offset.y as int),
            flip_x: self.flip_x,
            flip_y: self.flip_y,
            inverted: self.inverted,
        }
    }
}

pub open spec fn frags_view(s: Seq<FragmentRender>) -> Seq<FragView> {
    s.map_values(|f: FragmentRender| f@)
}

/// A fragment whose pivot is `pivot`, placed against the part pivot.
pub open spec fn place_fragment(
    part: CachedPart,
    pose: CachedPose,
    pivot: (int, int),
    region: u32,
    inverted: bool,
) -> FragView {
    let tl = (pivot.0 - part.pivot.x, pivot.1 - part.pivot.y);
    FragView {
        sprite_id: pose.sprite_id@,
        region,
        fragment: pose.fragment,
        top_left: tl,
        size: pose.size,
        bottom_left_offset: (tl.0, -(tl.1 + pose.size.y)),
        flip_x: pose.flip_x,
        flip_y: pose.flip_y,
        inverted,
    }
}

/// All coordinates of a fragment, including its far corner, are 32-bit.
pub open spec fn fragment_fits(f: FragView) -> bool {
    &&& vec_in_i32(f.top_left)
    &&& vec_in_i32(f.bottom_left_offset)
    &&& f.size.x <= i32::MAX && f.size.y <= i32::MAX
    &&& vec_in_i32((f.top_left.0 + f.size.x, f.top_left.1 + f.size.y))
    &&& vec_in_i32((f.bottom_left_offset.0 + f.size.x, f.bottom_left_offset.1 + f.size.y))
}

/// The fragments of a part, placed: the primary at the part pivot, others at
/// the parent pivot (or the root) plus their own offsets.
pub open spec fn spec_place_fragments(
    regions: Seq<SpriteRegion>,
    part: CachedPart,
    frags: Seq<CachedPose>,
    pivot: (int, int),
    parent_pivot: Option<(int, int)>,
    inverted: bool,
    n: int,
) -> Option<Seq<FragView>>
    decreases n,
{
    if n <= 0 {
        Some(Seq::empty())
    } else {
        match spec_place_fragments(regions, part, frags, pivot, parent_pivot, inverted, n - 1) {
            None => None,
            Some(acc) => {
                let pose = frags[n - 1];
                let fp = if n - 1 == 0 {
                    Some(pivot)
                } else if part.parent_id is Some {
                    match parent_pivot {
                        Some(pp) => Some((pp.0 + pose.local_offset.x, pp.1 + pose.local_offset.y)),
                        None => None,
                    }
                } else {
                    Some((pose.local_offset.x as int, pose.local_offset.y as int))
                };
                match (first_keyed(regions, pose.sprite_id@), fp) {
                    (Some(ri), Some(p)) => {
                        let f = place_fragment(part, pose, p, regions[ri].region, inverted);
                        if vec_in_i32(p) && fragment_fits(f) {
                            Some(acc.push(f))
                        } else {
                            None
                        }
                    },
                    _ => None,
                }
            },
        }
    }
}

pub open spec fn min_int(a: int, b: int) -> int {
    if a <= b {
        a
    } else {
        b
    }
}

pub open spec fn max_int(a: int, b: int) -> int {
    if a >= b {
        a
    } else {
        b
    }
}

/// Componentwise minimum of the fragments' top-left corners.
pub open spec fn bounds_min(fs: Seq<FragView>) -> (int, int)
    decreases fs.len(),
{
    if fs.len() <= 1 {
        if fs.len() == 1 {
            fs[0].top_left
        } else {
            (0, 0)
        }
    } else {
        let m = bounds_min(fs.drop_last());
        (min_int(m.0, fs.last().top_left.0), min_int(m.1, fs.last().top_left.1))
    }
}

/// Componentwise maximum of the fragments' far corners.
pub open spec fn bounds_max(fs: Seq<FragView>) -> (int, int)
    decreases fs.len(),
{
    if fs.len() <= 1 {
        if fs.len() == 1 {
            (fs[0].top_left.0 + fs[0].size.x, fs[0].top_left.1 + fs[0].size.y)
        } else {
            (0, 0)
        }
    } else {
        let m = bounds_max(fs.drop_last());
        let l = fs.last();
        (max_int(m.0, l.top_left.0 + l.size.x), max_int(m.1, l.top_left.1 + l.size.y))
    }
}


/// Places the fragments of one part (see [`spec_place_fragments`]).
pub fn place_fragments(
    regions: &Vec<SpriteRegion>,
    part: &CachedPart,
    frags: &Vec<CachedPose>,
    pivot: IVec2,
    parent_pivot: Option<IVec2>,
    inverted: bool,
) -> (r: Option<Vec<FragmentRender>>)
    ensures
        ({
            let pp = match parent_pivot {
                Some(v) => Some((v.x as int, v.y as int)),
                None => None,
            };
            match r {
                Some(v) => spec_place_fragments(
                    regions@,
                    *part,
                    frags@,
                    (pivot.x as int, pivot.y as int),
                    pp,
                    inverted,
                    frags@.len() as int,
                ) == Some(frags_view(v@)),
                None => spec_place_fragments(
                    regions@,
                    *part,
                    frags@,
                    (pivot.x as int, pivot.y as int),
                    pp,
                    inverted,
                    frags@.len() as int,
                ) is None,
            }
        }),
{
    let ghost pv = (pivot.x as int, pivot.y as int);
    let ghost pp = match parent_pivot {
        Some(v) => Some((v.x as int, v.y as int)),
        None => None,
    };
    let mut out: Vec<FragmentRender> = Vec::new();
    let n = frags.len();
    assert(frags_view(out@) =~= Seq::<FragView>::empty());
    for k in 0..n
        invariant
            n == frags.len(),
            spec_place_fragments(regions@, *part, frags@, pv, pp, inverted, k as int) == Some(
                frags_view(out@),
            ),
            out@.len() == k,
            pv == (pivot.x as int, pivot.y as int),
            pp == match parent_pivot {
                Some(v) => Some((v.x as int, v.y as int)),
                None => None::<(int, int)>,
            },
    {
        let pose = &frags[k];
        let fp: IVec2 = if k == 0 {
            pivot
        } else if part.parent_id.is_some() {
            match parent_pivot {
                Some(pp_v) => match checked_vec(
                    pp_v.x as i64 + pose.local_offset.x as i64,
                    pp_v.y as i64 + pose.local_offset.y as i64,
                ) {
                    Some(v) => v,
                    None => {
                        proof {
                            lemma_place_failure_sticks(regions@, *part, frags@, pv, pp, inverted, k + 1, n as int);
                        }
                        return None;
                    },
                },
                None => {
                    proof {
                        lemma_place_failure_sticks(regions@, *part, frags@, pv, pp, inverted, k + 1, n as int);
                    }
                    return None;
                },
            }
        } else {
            pose.local_offset
        };
        let ri = match find_keyed(regions, &pose.sprite_id) {
            Some(ri) => ri,
            None => {
                proof {
                    lemma_place_failure_sticks(regions@, *part, frags@, pv, pp, inverted, k + 1, n as int);
                }
                return None;
            },
        };
        let tlx: i64 = fp.x as i64 - part.pivot.x as i64;
        let tly: i64 = fp.y as i64 - part.pivot.y as i64;
        let sx: i64 = pose.size.x as i64;
        let sy: i64 = pose.size.y as i64;
        let ghost f = place_fragment(*part, *pose, (fp.x as int, fp.y as int), regions@[ri as int].region, inverted);
        let fits = tlx >= i32::MIN as i64 && tlx <= i32::MAX as i64 && tly >= i32::MIN as i64 && tly
            <= i32::MAX as i64 && sx <= i32::MAX as i64 && sy <= i32::MAX as i64 && tlx + sx <= i32::MAX as i64
            && tly + sy <= i32::MAX as i64 && -(tly + sy) >= i32::MIN as i64 && -(tly + sy) <= i32::MAX as i64
            && -(tly + sy) + sy >= i32::MIN as i64 && -(tly + sy) + sy <= i32::MAX as i64;
        if !fits {
            proof {
                assert(!fragment_fits(f));
                lemma_place_failure_sticks(regions@, *part, frags@, pv, pp, inverted, k + 1, n as int);
            }
            return None;
        }
        let ghost before = out@;
        out.push(
            FragmentRender {
                sprite_id: pose.sprite_id.clone(),
                region: regions[ri].region,
                fragment: pose.fragment,
                top_left: IVec2 { x: tlx as i32, y: tly as i32 },
                size: pose.size,
                bottom_left_offset: IVec2 { x: tlx as i32, y: (-(tly + sy)) as i32 },
                flip_x: pose.flip_x,
                flip_y: pose.flip_y,
                inverted,
            },
        );
        proof {
            assert(out@[k as int]@ == f);
            assert forall|j: int| 0 <= j < k + 1 implies #[trigger] frags_view(out@)[j] == frags_view(before).push(
                f,
            )[j] by {
                if j < k {
                    assert(out@[j] == before[j]);
                }
            }
            assert(frags_view(out@) =~= frags_view(before).push(f));
        }
    }
    Some(out)
}

proof fn lemma_place_failure_sticks(
    regions: Seq<SpriteRegion>,
    part: CachedPart,
    frags: Seq<CachedPose>,
    pivot: (int, int),
    parent_pivot: Option<(int, int)>,
    inverted: bool,
    k: int,
    n: int,
)
    requires
        spec_place_fragments(regions, part, frags, pivot, parent_pivot, inverted, k) is None,
        0 <= k <= n,
    ensures
        spec_place_fragments(regions, part, frags, pivot, parent_pivot, inverted, n) is None,
    decreases n - k,
{
    if k < n {
        lemma_place_failure_sticks(regions, part, frags, pivot, parent_pivot, inverted, k, n - 1);
    }
}


/// Contents of a composed part.
pub struct PartRenderView {
    pub part_id: Seq<char>,
    pub draw_order: u32,
    pub pivot: (int, int),
    pub top_left: (int, int),
    pub size: (int, int),
    pub fragments: Seq<FragView>,
}

impl View for PartRender {
    type V = PartRenderView;

    open spec fn view(&self) -> PartRenderView {
        PartRenderView {
            part_id: self.part_id@,
            draw_order: self.draw_order,
            pivot: (self.pivot.x as int, self.pivot.y as int),
            top_left: (self.top_left.x as int, self.top_left.y as int),
            size: (self.size.x as int, self.size.y as int),
            fragments: frags_view(self.fragments@),
        }
    }
}

pub open spec fn renders_view(s: Seq<PartRender>) -> Seq<PartRenderView> {
    s.map_values(|p: PartRender| p@)
}

/// The part shows the inverted phase of a hit blink.
pub open spec fn part_inverted(states: Seq<PartEntry>, part_id: Seq<char>) -> bool {
    match first_keyed(states, part_id) {
        Some(i) => match states[i].state.hit_blink {
            Some(b) => b.showing_invert,
            None => false,
        },
        None => false,
    }
}

/// The part's runtime state hides it.
pub open spec fn part_hidden(states: Seq<PartEntry>, part_id: Seq<char>) -> bool {
    match first_keyed(states, part_id) {
        Some(i) => !states[i].state.visible,
        None => false,
    }
}

/// Composition of one visual part: `Some(None)` when the part is not drawn
/// (no pose, invisible pose, hidden by runtime state), `None` when the whole
/// frame cannot be composed (empty pose, unresolvable pivot, missing atlas
/// region, coordinates out of range).
pub open spec fn spec_compose_part(
    parts: Seq<CachedPart>,
    poses: Seq<PartFragments>,
    states: Seq<PartEntry>,
    regions: Seq<SpriteRegion>,
    part: CachedPart,
    fuel: nat,
) -> Option<Option<PartRenderView>> {
    match poses_of(poses, part.id@) {
        None => Some(None),
        Some(frags) => if frags.len() == 0 {
            None
        } else if !frags[0].visible || part_hidden(states, part.id@) {
            Some(None)
        } else {
            match spec_pivot(parts, poses, part, fuel) {
                None => None,
                Some(pv) => {
                    let pp = spec_parent_pivot(parts, poses, part.parent_id, fuel);
                    match spec_place_fragments(
                        regions,
                        part,
                        frags,
                        pv,
                        pp,
                        part_inverted(states, part.id@),
                        frags.len() as int,
                    ) {
                        None => None,
                        Some(fs) => {
                            let tl = bounds_min(fs);
                            let br = bounds_max(fs);
                            Some(
                                Some(
                                    PartRenderView {
                                        part_id: part.id@,
                                        draw_order: part.draw_order,
                                        pivot: pv,
                                        top_left: tl,
                                        size: (max_int(0, br.0 - tl.0), max_int(0, br.1 - tl.1)),
                                        fragments: fs,
                                    },
                                ),
                            )
                        },
                    }
                },
            }
        },
    }
}

/// Computes the logical bounds of placed fragments.
fn fragment_bounds(fs: &Vec<FragmentRender>) -> (r: (IVec2, UVec2))
    requires
        fs@.len() >= 1,
        forall|i: int| 0 <= i < fs@.len() ==> fragment_fits(#[trigger] fs@[i]@),
    ensures
        (r.0.x as int, r.0.y as int) == bounds_min(frags_view(fs@)),
        (r.1.x as int, r.1.y as int) == ({
            let tl = bounds_min(frags_view(fs@));
            let br = bounds_max(frags_view(fs@));
            (max_int(0, br.0 - tl.0), max_int(0, br.1 - tl.1))
        }),
{
    let ghost v = frags_view(fs@);
    let mut min_x: i64 = fs[0].top_left.x as i64;
    let mut min_y: i64 = fs[0].top_left.y as i64;
    let mut max_x: i64 = fs[0].top_left.x as i64 + fs[0].size.x as i64;
    let mut max_y: i64 = fs[0].top_left.y as i64 + fs[0].size.y as i64;
    let n = fs.len();
    assert(v.take(1).drop_last() =~= Seq::<FragView>::empty());
    assert(v.take(1)[0] == fs@[0]@);
    for k in 1..n
        invariant
            n == fs@.len(),
            n >= 1,
            v == frags_view(fs@),
            forall|i: int| 0 <= i < fs@.len() ==> fragment_fits(#[trigger] fs@[i]@),
            (min_x as int, min_y as int) == bounds_min(v.take(k as int)),
            (max_x as int, max_y as int) == bounds_max(v.take(k as int)),
            in_i32(min_x as int) && in_i32(min_y as int) && in_i32(max_x as int) && in_i32(max_y as int),
    {
        let f = &fs[k];
        assert(v.take(k + 1).drop_last() =~= v.take(k as int));
        assert(v.take(k + 1).last() == f@);
        assert(fragment_fits(f@));
        let tx = f.top_left.x as i64;
        let ty = f.top_left.y as i64;
        let bx = tx + f.size.x as i64;
        let by = ty + f.size.y as i64;
        if tx < min_x {
            min_x = tx;
        }
        if ty < min_y {
            min_y = ty;
        }
        if bx > max_x {
            max_x = bx;
        }
        if by > max_y {
            max_y = by;
        }
    }
    assert(v.take(n as int) =~= v);
    let sx: i64 = if max_x - min_x > 0 { max_x - min_x } else { 0 };
    let sy: i64 = if max_y - min_y > 0 { max_y - min_y } else { 0 };
    (IVec2 { x: min_x as i32, y: min_y as i32 }, UVec2 { x: sx as u32, y: sy as u32 })
}

/// Composes one visual part (see [`spec_compose_part`]).
pub fn compose_part(
    cache: &CompositionAtlasCache,
    poses: &Vec<PartFragments>,
    part_states: &ComposedPartStates,
    regions: &Vec<SpriteRegion>,
    part: &CachedPart,
    fuel: u64,
) -> (r: Option<Option<PartRender>>)
    ensures
        match r {
            None => spec_compose_part(cache.parts@, poses@, part_states.parts@, regions@, *part, fuel as nat)
                is None,
            Some(None) => spec_compose_part(
                cache.parts@,
                poses@,
                part_states.parts@,
                regions@,
                *part,
                fuel as nat,
            ) == Some(None::<PartRenderView>),
            Some(Some(pr)) => spec_compose_part(
                cache.parts@,
                poses@,
                part_states.parts@,
                regions@,
                *part,
                fuel as nat,
            ) == Some(Some(pr@)),
        },
        r matches Some(Some(pr)) ==> forall|j: int|
            0 <= j < pr.fragments@.len() ==> fragment_fits(#[trigger] pr.fragments@[j]@),
{
    let frags = match poses_lookup(poses, &part.id) {
        Some(f) => f,
        None => return Some(None),
    };
    if frags.len() == 0 {
        return None;
    }
    let si = find_keyed(&part_states.parts, &part.id);
    let hidden = match si {
        Some(i) => !part_states.parts[i].state.visible,
        None => false,
    };
    if !frags[0].visible || hidden {
        return Some(None);
    }
    let pivot = match resolve_pivot(&cache.parts, poses, part, fuel) {
        Some(p) => p,
        None => return None,
    };
    let parent_pivot = resolve_parent_pivot(&cache.parts, poses, &part.parent_id, fuel);
    let inverted = match si {
        Some(i) => match part_states.parts[i].state.hit_blink {
            Some(b) => b.showing_invert,
            None => false,
        },
        None => false,
    };
    let placed = match place_fragments(regions, part, frags, pivot, parent_pivot, inverted) {
        Some(p) => p,
        None => return None,
    };
    proof {
        let pv = (pivot.x as int, pivot.y as int);
        let pp = spec_parent_pivot(cache.parts@, poses@, part.parent_id, fuel as nat);
        lemma_placed_fit(regions@, *part, frags@, pv, pp, inverted, frags@.len() as int);
        assert(frags_view(placed@).len() == placed@.len());
        assert forall|i: int| 0 <= i < placed@.len() implies fragment_fits(#[trigger] placed@[i]@) by {
            assert(frags_view(placed@)[i] == placed@[i]@);
        }
    }
    let (top_left, size) = fragment_bounds(&placed);
    Some(
        Some(
            PartRender {
                part_id: part.id.clone(),
                draw_order: part.draw_order,
                pivot,
                top_left,
                size,
                fragments: placed,
            },
        ),
    )
}

proof fn lemma_placed_fit(
    regions: Seq<SpriteRegion>,
    part: CachedPart,
    frags: Seq<CachedPose>,
    pivot: (int, int),
    parent_pivot: Option<(int, int)>,
    inverted: bool,
    n: int,
)
    requires
        spec_place_fragments(regions, part, frags, pivot, parent_pivot, inverted, n) is Some,
    ensures
        ({
            let fs = spec_place_fragments(regions, part, frags, pivot, parent_pivot, inverted, n)->0;
            &&& fs.len() == if n <= 0 {
                0
            } else {
                n
            }
            &&& forall|i: int| 0 <= i < fs.len() ==> fragment_fits(#[trigger] fs[i])
        }),
    decreases n,
{
    if n > 0 {
        lemma_placed_fit(regions, part, frags, pivot, parent_pivot, inverted, n - 1);
    }
}


/// A rendered rectangle: bottom-left offset and size.
#[derive(Clone, Copy, Debug)]
pub struct Placement {
    pub offset: IVec2,
    pub size: UVec2,
}

/// Bounding box of the composite: its origin and size.
#[derive(Clone, Copy, Debug)]
pub struct CachedCompositeMetrics {
    pub origin: IVec2,
    pub size: UVec2,
}

/// The far corner of a placement fits in 32 bits.
pub open spec fn placement_fits(p: Placement) -> bool {
    vec_in_i32((p.offset.x + p.size.x, p.offset.y + p.size.y))
}

pub open spec fn placements_min(s: Seq<Placement>) -> (int, int)
    decreases s.len(),
{
    if s.len() == 0 {
        (0, 0)
    } else if s.len() == 1 {
        (s[0].offset.x as int, s[0].offset.y as int)
    } else {
        let m = placements_min(s.drop_last());
        (min_int(m.0, s.last().offset.x as int), min_int(m.1, s.last().offset.y as int))
    }
}

pub open spec fn placements_max(s: Seq<Placement>) -> (int, int)
    decreases s.len(),
{
    if s.len() == 0 {
        (0, 0)
    } else if s.len() == 1 {
        (s[0].offset.x + s[0].size.x, s[0].offset.y + s[0].size.y)
    } else {
        let m = placements_max(s.drop_last());
        let l = s.last();
        (max_int(m.0, l.offset.x + l.size.x), max_int(m.1, l.offset.y + l.size.y))
    }
}

/// Bounding box over all placements; `None` when there are none.
pub fn compute_composite_metrics(placements: &Vec<Placement>) -> (r: Option<CachedCompositeMetrics>)
    requires
        forall|i: int| 0 <= i < placements@.len() ==> placement_fits(#[trigger] placements@[i]),
    ensures
        match r {
            None => placements@.len() == 0,
            Some(m) => placements@.len() > 0 && (m.origin.x as int, m.origin.y as int) == placements_min(
                placements@,
            ) && (m.size.x as int, m.size.y as int) == ({
                let lo = placements_min(placements@);
                let hi = placements_max(placements@);
                (max_int(0, hi.0 - lo.0), max_int(0, hi.1 - lo.1))
            }),
        },
{
    let n = placements.len();
    if n == 0 {
        return None;
    }
    let ghost v = placements@;
    let mut min_x: i64 = placements[0].offset.x as i64;
    let mut min_y: i64 = placements[0].offset.y as i64;
    let mut max_x: i64 = placements[0].offset.x as i64 + placements[0].size.x as i64;
    let mut max_y: i64 = placements[0].offset.y as i64 + placements[0].size.y as i64;
    assert(v.take(1).drop_last() =~= Seq::<Placement>::empty());
    assert(v.take(1)[0] == v[0]);
    assert(placement_fits(v[0]));
    for k in 1..n
        invariant
            n == placements@.len(),
            n >= 1,
            v == placements@,
            forall|i: int| 0 <= i < v.len() ==> placement_fits(#[trigger] v[i]),
            (min_x as int, min_y as int) == placements_min(v.take(k as int)),
            (max_x as int, max_y as int) == placements_max(v.take(k as int)),
            in_i32(min_x as int) && in_i32(min_y as int) && in_i32(max_x as int) && in_i32(max_y as int),
    {
        let p = placements[k];
        assert(v.take(k + 1).drop_last() =~= v.take(k as int));
        assert(v.take(k + 1).last() == p);
        assert(placement_fits(v[k as int]));
        let ox = p.offset.x as i64;
        let oy = p.offset.y as i64;
        let bx = ox + p.size.x as i64;
        let by = oy + p.size.y as i64;
        if ox < min_x {
            min_x = ox;
        }
        if oy < min_y {
            min_y = oy;
        }
        if bx > max_x {
            max_x = bx;
        }
        if by > max_y {
            max_y = by;
        }
    }
    assert(v.take(n as int) =~= v);
    let sx: i64 = if max_x - min_x > 0 { max_x - min_x } else { 0 };
    let sy: i64 = if max_y - min_y > 0 { max_y - min_y } else { 0 };
    Some(
        CachedCompositeMetrics {
            origin: IVec2 { x: min_x as i32, y: min_y as i32 },
            size: UVec2 { x: sx as u32, y: sy as u32 },
        },
    )
}

/// Composition of the visual parts in draw order (ids naming no part are
/// skipped); `None` when any part makes the frame uncomposable.
pub open spec fn spec_compose_upto(
    cache: CompositionAtlasCache,
    poses: Seq<PartFragments>,
    states: Seq<PartEntry>,
    regions: Seq<SpriteRegion>,
    fuel: nat,
    n: int,
) -> Option<Seq<PartRenderView>>
    decreases n,
{
    if n <= 0 {
        Some(Seq::empty())
    } else {
        match spec_compose_upto(cache, poses, states, regions, fuel, n - 1) {
            None => None,
            Some(acc) => match first_keyed(cache.parts@, cache.visual_parts_in_draw_order@[n - 1]@) {
                None => Some(acc),
                Some(pi) => match spec_compose_part(cache.parts@, poses, states, regions, cache.parts@[pi], fuel) {
                    None => None,
                    Some(None) => Some(acc),
                    Some(Some(pr)) => Some(acc.push(pr)),
                },
            },
        }
    }
}

/// Rendered rectangles of all fragments, parts in order, fragments in order.
pub open spec fn spec_placements(ps: Seq<PartRenderView>) -> Seq<Placement>
    decreases ps.len(),
{
    if ps.len() == 0 {
        Seq::empty()
    } else {
        spec_placements(ps.drop_last()) + ps.last().fragments.map_values(
            |f: FragView|
                Placement {
                    offset: IVec2 { x: f.bottom_left_offset.0 as i32, y: f.bottom_left_offset.1 as i32 },
                    size: f.size,
                },
        )
    }
}

/// A composed frame: its parts in draw order and the composite bounding box.
#[derive(Debug)]
pub struct ComposedFrame {
    pub parts: Vec<PartRender>,
    pub metrics: CachedCompositeMetrics,
}

proof fn lemma_compose_failure_sticks(
    cache: CompositionAtlasCache,
    poses: Seq<PartFragments>,
    states: Seq<PartEntry>,
    regions: Seq<SpriteRegion>,
    fuel: nat,
    k: int,
    n: int,
)
    requires
        spec_compose_upto(cache, poses, states, regions, fuel, k) is None,
        0 <= k <= n,
    ensures
        spec_compose_upto(cache, poses, states, regions, fuel, n) is None,
    decreases n - k,
{
    if k < n {
        lemma_compose_failure_sticks(cache, poses, states, regions, fuel, k, n - 1);
    }
}

/// `r` is the composition of `poses`: the visual parts in draw order with
/// their placements and the box that bounds them, or `None` when the frame
/// cannot be composed or nothing is drawn.
pub open spec fn frame_composed(
    cache: CompositionAtlasCache,
    poses: Seq<PartFragments>,
    states: Seq<PartEntry>,
    regions: Seq<SpriteRegion>,
    r: Option<ComposedFrame>,
) -> bool {
    let fuel = cache.parts@.len() as nat;
    let composed = spec_compose_upto(
        cache,
        poses,
        states,
        regions,
        fuel,
        cache.visual_parts_in_draw_order@.len() as int,
    );
    match r {
        Some(frame) => composed == Some(renders_view(frame.parts@)) && spec_placements(
            renders_view(frame.parts@),
        ).len() > 0 && ({
            let pl = spec_placements(renders_view(frame.parts@));
            let lo = placements_min(pl);
            let hi = placements_max(pl);
            &&& (frame.metrics.origin.x as int, frame.metrics.origin.y as int) == lo
            &&& (frame.metrics.size.x as int, frame.metrics.size.y as int) == (
                max_int(0, hi.0 - lo.0),
                max_int(0, hi.1 - lo.1),
            )
        }),
        None => composed is None || spec_placements(composed->0).len() == 0,
    }
}

/// Composes the visual parts of a resolved frame in draw order.
///
/// Returns `None` when the frame cannot be composed or nothing is drawn.
pub fn compose_frame(
    poses: &Vec<PartFragments>,
    cache: &CompositionAtlasCache,
    regions: &Vec<SpriteRegion>,
    part_states: &ComposedPartStates,
) -> (r: Option<ComposedFrame>)
    ensures
        frame_composed(*cache, poses@, part_states.parts@, regions@, r),
{
    let fuel = cache.parts.len() as u64;
    let ghost gf = cache.parts@.len() as nat;
    let mut out: Vec<PartRender> = Vec::new();
    let mut placements: Vec<Placement> = Vec::new();
    let n = cache.visual_parts_in_draw_order.len();
    assert(renders_view(out@) =~= Seq::<PartRenderView>::empty());
    for i in 0..n
        invariant
            n == cache.visual_parts_in_draw_order.len(),
            fuel as nat == gf,
            gf == cache.parts@.len() as nat,
            spec_compose_upto(*cache, poses@, part_states.parts@, regions@, gf, i as int) == Some(
                renders_view(out@),
            ),
            placements@ == spec_placements(renders_view(out@)),
            forall|j: int| 0 <= j < placements@.len() ==> placement_fits(#[trigger] placements@[j]),
    {
        let part_id = &cache.visual_parts_in_draw_order[i];
        if let Some(pi) = find_keyed(&cache.parts, part_id) {
            match compose_part(cache, poses, part_states, regions, &cache.parts[pi], fuel) {
                None => {
                    proof {
                        lemma_compose_failure_sticks(
                            *cache,
                            poses@,
                            part_states.parts@,
                            regions@,
                            gf,
                            i + 1,
                            n as int,
                        );
                    }
                    return None;
                },
                Some(None) => {},
                Some(Some(pr)) => {
                    let ghost before = out@;
                    let ghost before_pl = placements@;
                    let m = pr.fragments.len();
                    for k in 0..m
                        invariant
                            m == pr.fragments.len(),
                            forall|j: int| 0 <= j < pr.fragments@.len() ==> fragment_fits(#[trigger] pr.fragments@[j]@),
                            placements@ == before_pl + frags_view(pr.fragments@).take(k as int).map_values(
                                |f: FragView|
                                    Placement {
                                        offset: IVec2 {
                                            x: f.bottom_left_offset.0 as i32,
                                            y: f.bottom_left_offset.1 as i32,
                                        },
                                        size: f.size,
                                    },
                            ),
                            forall|j: int| 0 <= j < placements@.len() ==> placement_fits(#[trigger] placements@[j]),
                    {
                        let f = &pr.fragments[k];
                        assert(fragment_fits(f@));
                        let ghost prev = placements@;
                        placements.push(Placement { offset: f.bottom_left_offset, size: f.size });
                        proof {
                            let mk = |f: FragView|
                                Placement {
                                    offset: IVec2 {
                                        x: f.bottom_left_offset.0 as i32,
                                        y: f.bottom_left_offset.1 as i32,
                                    },
                                    size: f.size,
                                };
                            assert(frags_view(pr.fragments@).take(k + 1) =~= frags_view(pr.fragments@).take(
                                k as int,
                            ).push(f@));
                            assert(frags_view(pr.fragments@).take(k + 1).map_values(mk) =~= frags_view(
                                pr.fragments@,
                            ).take(k as int).map_values(mk).push(mk(f@)));
                            assert(placements@ =~= prev.push(mk(f@)));
                        }
                    }
                    proof {
                        assert(frags_view(pr.fragments@).take(m as int) =~= frags_view(pr.fragments@));
                    }
                    out.push(pr);
                    proof {
                        assert(renders_view(out@) =~= renders_view(before).push(out@[out@.len() - 1]@)) by {
                            assert forall|j: int| 0 <= j < before.len() implies #[trigger] renders_view(out@)[j]
                                == renders_view(before)[j] by {
                                assert(out@[j] == before[j]);
                            }
                        }
                        assert(renders_view(out@).drop_last() =~= renders_view(before));
                    }
                },
            }
        }
    }
    let metrics = match compute_composite_metrics(&placements) {
        Some(m) => m,
        None => return None,
    };
    Some(ComposedFrame { parts: out, metrics })
}

} // verus!
