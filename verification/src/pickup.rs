//! Health pickups, and the composite sprite of a pickup's visible parts.

use crate::composed::compact::{CompactAnimation, CompactComposedAtlas, CompactPose};
use crate::composed::model::seq_has;
use crate::geometry::{IVec2, UVec2};
use crate::keyed::{contains_string, str_eq};
use vstd::prelude::*;

verus! {

/// Player health cap.
pub const PLAYER_MAX_HEALTH: u32 = 100;

/// Health restored by a pickup.
#[derive(Clone, Copy, Debug)]
pub struct HealthRecovery(pub u32);

impl HealthRecovery {
    /// Score cost of a pickup: twice the health it restores.
    pub fn score_deduction(&self) -> (r: i32)
        requires
            self.0 <= 1_073_741_824,
        ensures
            r == -2 * self.0,
    {
        -(self.0 as i32) * 2
    }
}

/// Player health after taking a pickup: raised by the recovery, capped at
/// the maximum health.
pub fn healed_health(health: u32, recovery: &HealthRecovery) -> (r: u32)
    ensures
        r <= PLAYER_MAX_HEALTH,
        r == if health + recovery.0 <= PLAYER_MAX_HEALTH {
            health + recovery.0
        } else {
            PLAYER_MAX_HEALTH as int
        },
{
    let raised = health.saturating_add(recovery.0);
    if raised < PLAYER_MAX_HEALTH {
        raised
    } else {
        PLAYER_MAX_HEALTH
    }
}


/// One sprite of a pickup composite: its atlas region, its bottom-left offset
/// (Y up) and its flips.
#[derive(Clone, Copy, Debug, PartialEq, Eq, Structural)]
pub struct PickupCompositePart {
    pub region: u32,
    pub offset: IVec2,
    pub flip_x: bool,
    pub flip_y: bool,
}

/// A pickup composite: its parts, and the size and bottom-left origin of
/// their bounding box.
#[derive(Debug)]
pub struct PickupComposite {
    pub parts: Vec<PickupCompositePart>,
    pub size: UVec2,
    pub origin: IVec2,
}

pub open spec fn is_idle(anim: CompactAnimation) -> bool {
    anim.tag@ == "idle"@
}

/// Position of the first animation from `from` on tagged "idle".
pub open spec fn first_idle(a: CompactComposedAtlas, from: int) -> Option<int>
    decreases a.animations.len() - from,
{
    if from < 0 || from >= a.animations.len() {
        None
    } else if is_idle(a.animations@[from]) {
        Some(from)
    } else {
        first_idle(a, from + 1)
    }
}

/// The poses among the first `n` that show a visible part; `None` when one
/// of them names a missing part, part name or sprite size.
pub open spec fn pickup_scan(a: CompactComposedAtlas, ps: Seq<CompactPose>, visible: Seq<String>, n: int) -> Option<
    Seq<CompactPose>,
>
    decreases n,
{
    if n <= 0 {
        Some(Seq::empty())
    } else {
        match pickup_scan(a, ps, visible, n - 1) {
            None => None,
            Some(kept) => {
                let p = ps[n - 1];
                if p.p as int >= a.parts.len() {
                    None
                } else if !a.parts@[p.p as int].visual {
                    Some(kept)
                } else if a.parts@[p.p as int].id as int >= a.part_names.len() {
                    None
                } else if !seq_has(visible, a.part_names@[a.parts@[p.p as int].id as int]@) {
                    Some(kept)
                } else if p.s as int >= a.sprite_sizes.len() {
                    None
                } else {
                    Some(kept.push(p))
                }
            },
        }
    }
}

/// The poses a pickup composite shows: the visible parts of the first frame
/// of the "idle" animation.
pub open spec fn pickup_poses(a: CompactComposedAtlas, visible: Seq<String>) -> Option<Seq<CompactPose>> {
    match first_idle(a, 0) {
        None => None,
        Some(k) => if a.animations@[k].frames.len() == 0 {
            None
        } else {
            let ps = a.animations@[k].frames@[0].poses@;
            match pickup_scan(a, ps, visible, ps.len() as int) {
                Some(kept) => if kept.len() == 0 {
                    None
                } else {
                    Some(kept)
                },
                None => None,
            }
        },
    }
}

/// Bottom-left corner (Y up) of a pose whose top-left offset is Y down from
/// the composition origin.
pub open spec fn bottom_left(a: CompactComposedAtlas, p: CompactPose) -> IVec2 {
    IVec2 {
        x: (a.origin.x + p.o.x) as i32,
        y: ((a.canvas.h - a.origin.y) - (p.o.y + a.sprite_sizes@[p.s as int].h)) as i32,
    }
}

pub open spec fn min_left(a: CompactComposedAtlas, k: Seq<CompactPose>, n: int) -> i32
    decreases n,
{
    if n <= 0 {
        i32::MAX
    } else {
        let v = bottom_left(a, k[n - 1]).x;
        let m = min_left(a, k, n - 1);
        if v < m {
            v
        } else {
            m
        }
    }
}

pub open spec fn min_bottom(a: CompactComposedAtlas, k: Seq<CompactPose>, n: int) -> i32
    decreases n,
{
    if n <= 0 {
        i32::MAX
    } else {
        let v = bottom_left(a, k[n - 1]).y;
        let m = min_bottom(a, k, n - 1);
        if v < m {
            v
        } else {
            m
        }
    }
}

pub open spec fn max_right(a: CompactComposedAtlas, k: Seq<CompactPose>, n: int) -> i32
    decreases n,
{
    if n <= 0 {
        i32::MIN
    } else {
        let v = (bottom_left(a, k[n - 1]).x + a.sprite_sizes@[k[n - 1].s as int].w) as i32;
        let m = max_right(a, k, n - 1);
        if v > m {
            v
        } else {
            m
        }
    }
}

pub open spec fn max_top(a: CompactComposedAtlas, k: Seq<CompactPose>, n: int) -> i32
    decreases n,
{
    if n <= 0 {
        i32::MIN
    } else {
        let v = (bottom_left(a, k[n - 1]).y + a.sprite_sizes@[k[n - 1].s as int].h) as i32;
        let m = max_top(a, k, n - 1);
        if v > m {
            v
        } else {
            m
        }
    }
}

pub open spec fn at_least_one(v: int) -> int {
    if v < 1 {
        1
    } else {
        v
    }
}

/// `c` is the composite of the poses `kept`: one part per pose, in order,
/// and the bounding box of the parts (at least one pixel each way).
pub open spec fn pickup_composite_of(a: CompactComposedAtlas, kept: Seq<CompactPose>, c: PickupComposite) -> bool {
    let n = kept.len() as int;
    &&& c.parts.len() == kept.len()
    &&& forall|i: int|
        0 <= i < kept.len() ==> #[trigger] c.parts@[i] == (PickupCompositePart {
            region: kept[i].s as u32,
            offset: bottom_left(a, kept[i]),
            flip_x: kept[i].fx,
            flip_y: kept[i].fy,
        })
    &&& c.origin == (IVec2 { x: min_left(a, kept, n), y: min_bottom(a, kept, n) })
    &&& c.size.x == at_least_one(max_right(a, kept, n) - min_left(a, kept, n))
    &&& c.size.y == at_least_one(max_top(a, kept, n) - min_bottom(a, kept, n))
}

proof fn lemma_first_idle_is(a: CompactComposedAtlas, from: int, k: int)
    requires
        0 <= from <= k <= a.animations.len(),
        forall|j: int| from <= j < k ==> !is_idle(#[trigger] a.animations@[j]),
        k < a.animations.len() ==> is_idle(a.animations@[k]),
    ensures
        first_idle(a, from) == (if k < a.animations.len() { Some(k) } else { None::<int> }),
    decreases k - from,
{
    if from < k {
        lemma_first_idle_is(a, from + 1, k);
    }
}

proof fn lemma_extremes_bounded(a: CompactComposedAtlas, k: Seq<CompactPose>, n: int)
    requires
        0 < n <= k.len(),
        forall|i: int| 0 <= i < k.len() ==> ((#[trigger] k[i]).s as int) < a.sprite_sizes.len(),
    ensures
        -70000 < min_left(a, k, n) < 70000,
        -140000 < min_bottom(a, k, n) < 140000,
        -70000 < max_right(a, k, n) < 140000,
        -140000 < max_top(a, k, n) < 200000,
    decreases n,
{
    let p = k[n - 1];
    let size = a.sprite_sizes@[p.s as int];
    assert(-70000 < bottom_left(a, p).x < 70000);
    assert(-140000 < bottom_left(a, p).y < 140000);
    if n > 1 {
        lemma_extremes_bounded(a, k, n - 1);
    } else {
        assert(min_left(a, k, 0) == i32::MAX);
        assert(min_bottom(a, k, 0) == i32::MAX);
        assert(max_right(a, k, 0) == i32::MIN);
        assert(max_top(a, k, 0) == i32::MIN);
    }
}

/// Builds the composite of a pickup's visible parts from the first frame of
/// its "idle" animation. `None` when there is no such frame, when a pose
/// names a missing part, part name or sprite size, or when no part is shown.
pub fn build_pickup_composite(atlas: &CompactComposedAtlas, visible_parts: &Vec<String>) -> (r: Option<
    PickupComposite,
>)
    ensures
        match r {
            None => pickup_poses(*atlas, visible_parts@) is None,
            Some(c) => pickup_poses(*atlas, visible_parts@) matches Some(kept) && pickup_composite_of(
                *atlas,
                kept,
                c,
            ),
        },
        r matches Some(c) ==> c.parts.len() > 0 && c.size.x >= 1 && c.size.y >= 1,
{
    let ghost a = *atlas;
    let na = atlas.animations.len();
    let mut idle: usize = 0;
    while idle < na && !str_eq(atlas.animations[idle].tag.as_str(), "idle")
        invariant
            a == *atlas,
            na == atlas.animations.len(),
            idle <= na,
            forall|j: int| 0 <= j < idle ==> !is_idle(#[trigger] a.animations@[j]),
        decreases na - idle,
    {
        idle = idle + 1;
    }
    proof {
        lemma_first_idle_is(a, 0, idle as int);
    }
    if idle == na {
        return None;
    }
    let animation = &atlas.animations[idle];
    if animation.frames.len() == 0 {
        return None;
    }
    let poses = &animation.frames[0].poses;
    let ghost ps = poses@;
    let canvas_h = atlas.canvas.h as i32;
    let origin_x = atlas.origin.x as i32;
    let origin_y = atlas.origin.y as i32;
    let mut parts: Vec<PickupCompositePart> = Vec::new();
    let ghost mut kept: Seq<CompactPose> = Seq::empty();
    assert(ps == a.animations@[idle as int].frames@[0].poses@);
    let mut min_x: i32 = i32::MAX;
    let mut min_y: i32 = i32::MAX;
    let mut max_x: i32 = i32::MIN;
    let mut max_y: i32 = i32::MIN;
    let n = poses.len();
    for q in 0..n
        invariant
            a == *atlas,
            ps == poses@,
            first_idle(a, 0) == Some(idle as int),
            a.animations@[idle as int].frames.len() > 0,
            ps == a.animations@[idle as int].frames@[0].poses@,
            n == poses.len(),
            canvas_h == a.canvas.h,
            origin_x == a.origin.x,
            origin_y == a.origin.y,
            pickup_scan(a, ps, visible_parts@, q as int) == Some(kept),
            forall|i: int| 0 <= i < kept.len() ==> ((#[trigger] kept[i]).s as int) < a.sprite_sizes.len(),
            parts.len() == kept.len(),
            forall|i: int|
                0 <= i < kept.len() ==> #[trigger] parts@[i] == (PickupCompositePart {
                    region: kept[i].s as u32,
                    offset: bottom_left(a, kept[i]),
                    flip_x: kept[i].fx,
                    flip_y: kept[i].fy,
                }),
            min_x == min_left(a, kept, kept.len() as int),
            min_y == min_bottom(a, kept, kept.len() as int),
            max_x == max_right(a, kept, kept.len() as int),
            max_y == max_top(a, kept, kept.len() as int),
    {
        let pose = poses[q];
        let part_idx = pose.p as usize;
        if part_idx >= atlas.parts.len() {
            proof {
                assert(pickup_scan(a, ps, visible_parts@, q + 1) is None);
                lemma_scan_stays_none(a, ps, visible_parts@, q + 1, n as int);
            }
            return None;
        }
        let part = &atlas.parts[part_idx];
        if part.visual {
            let name_idx = part.id as usize;
            if name_idx >= atlas.part_names.len() {
                proof {
                    lemma_scan_stays_none(a, ps, visible_parts@, q + 1, n as int);
                }
                return None;
            }
            if contains_string(visible_parts, &atlas.part_names[name_idx]) {
                let sprite_idx = pose.s as usize;
                if sprite_idx >= atlas.sprite_sizes.len() {
                    proof {
                        lemma_scan_stays_none(a, ps, visible_parts@, q + 1, n as int);
                    }
                    return None;
                }
                let size = atlas.sprite_sizes[sprite_idx];
                let w = size.w as i32;
                let h = size.h as i32;
                let bl_x = origin_x + pose.o.x as i32;
                let bl_y = (canvas_h - origin_y) - (pose.o.y as i32 + h);
                let ghost before = kept;
                proof {
                    kept = kept.push(pose);
                    lemma_extremes_prefix(a, kept, before, before.len() as int);
                    lemma_extremes_bounded(a, kept, kept.len() as int);
                }
                assert(bottom_left(a, pose) == (IVec2 { x: bl_x, y: bl_y }));
                if bl_x < min_x {
                    min_x = bl_x;
                }
                if bl_y < min_y {
                    min_y = bl_y;
                }
                if bl_x + w > max_x {
                    max_x = bl_x + w;
                }
                if bl_y + h > max_y {
                    max_y = bl_y + h;
                }
                parts.push(
                    PickupCompositePart {
                        region: pose.s as u32,
                        offset: IVec2 { x: bl_x, y: bl_y },
                        flip_x: pose.fx,
                        flip_y: pose.fy,
                    },
                );
            }
        }
    }
    if parts.len() == 0 {
        return None;
    }
    proof {
        lemma_extremes_bounded(a, kept, kept.len() as int);
    }
    let width = if max_x - min_x < 1 {
        1
    } else {
        max_x - min_x
    };
    let height = if max_y - min_y < 1 {
        1
    } else {
        max_y - min_y
    };
    Some(
        PickupComposite {
            parts,
            size: UVec2 { x: width as u32, y: height as u32 },
            origin: IVec2 { x: min_x, y: min_y },
        },
    )
}

proof fn lemma_scan_stays_none(a: CompactComposedAtlas, ps: Seq<CompactPose>, visible: Seq<String>, m: int, n: int)
    requires
        0 <= m <= n,
        pickup_scan(a, ps, visible, m) is None,
    ensures
        pickup_scan(a, ps, visible, n) is None,
    decreases n - m,
{
    if m < n {
        lemma_scan_stays_none(a, ps, visible, m, n - 1);
    }
}

/// The extremes over the first `n` poses only look at those poses.
proof fn lemma_extremes_prefix(a: CompactComposedAtlas, k1: Seq<CompactPose>, k2: Seq<CompactPose>, n: int)
    requires
        0 <= n <= k1.len(),
        n <= k2.len(),
        forall|i: int| 0 <= i < n ==> k1[i] == k2[i],
    ensures
        min_left(a, k1, n) == min_left(a, k2, n),
        min_bottom(a, k1, n) == min_bottom(a, k2, n),
        max_right(a, k1, n) == max_right(a, k2, n),
        max_top(a, k1, n) == max_top(a, k2, n),
    decreases n,
{
    if n > 0 {
        lemma_extremes_prefix(a, k1, k2, n - 1);
    }
}

} // verus!
