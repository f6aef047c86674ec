//! Binding the sprites of a compact manifest to the regions of its sprite
//! atlas: sprite `i` must be the atlas region with index `i`, hold exactly
//! one frame, and have the sprite's size.

use super::compact::{
    AtlasErrorView,
    CompactAtlasError,
    CompactComposedAtlas,
    first_failing,
    first_failure,
    lemma_first_failing_stays,
    lemma_first_failing_step,
    sprite_tables_error,
};
use super::compose::SpriteRegion;
use super::prepare::validate_compact_sprite_tables;
use crate::geometry::UVec2;
use vstd::prelude::*;

verus! {

/// A frame rectangle within the atlas image.
#[derive(Clone, Copy, Debug, PartialEq, Eq, Structural)]
pub struct AtlasRect {
    pub x: u32,
    pub y: u32,
    pub w: u32,
    pub h: u32,
}

/// What the sprite atlas reports of one region.
#[derive(Clone, Copy, Debug, PartialEq, Eq, Structural)]
pub struct AtlasRegionInfo {
    pub frame_count: usize,
    pub frame_size: UVec2,
    pub first_frame: Option<AtlasRect>,
}

/// What the sprite atlas reports: its number of regions, the region id each
/// manifest sprite name resolves to (in sprite order), and the regions by id.
#[derive(Debug)]
pub struct SpriteAtlasReport {
    pub region_count: usize,
    pub resolved: Vec<Option<u32>>,
    pub regions: Vec<Option<AtlasRegionInfo>>,
}

/// The frame rectangle bound to a sprite id.
#[derive(Debug)]
pub struct SpriteRect {
    pub sprite_id: String,
    pub rect: AtlasRect,
}

/// Sprite ids bound to atlas regions and frame rectangles, in sprite order.
#[derive(Debug)]
pub struct ComposedAtlasBindings {
    pub sprite_regions: Vec<SpriteRegion>,
    pub sprite_rects: Vec<SpriteRect>,
}

/// The region with id `id`, when the atlas has one.
pub open spec fn region_at(r: SpriteAtlasReport, id: int) -> Option<AtlasRegionInfo> {
    if 0 <= id < r.regions.len() {
        r.regions@[id]
    } else {
        None
    }
}

/// The region at index `i` exists and its first frame is `rect`.
pub open spec fn first_frame_is(r: SpriteAtlasReport, i: int, rect: AtlasRect) -> bool {
    match region_at(r, i) {
        Some(region) => region.first_frame == Some(rect),
        None => false,
    }
}

/// Defect of sprite `i` against the atlas, checked in this order: a region
/// id in 32 bits, a region resolved by name, a region at the sprite's index,
/// the resolved region existing, one frame, the sprite's size, a first frame
/// on both regions, and both being the same region and rectangle.
pub open spec fn sprite_binding_error(a: CompactComposedAtlas, r: SpriteAtlasReport, i: int) -> Option<
    AtlasErrorView,
> {
    let sprite = i as usize;
    if i > u32::MAX {
        Some(AtlasErrorView::SpriteIndexTooLarge { sprite })
    } else {
        match r.resolved@[i] {
            None => Some(AtlasErrorView::MissingRegion { sprite }),
            Some(rid) => match region_at(r, i) {
                None => Some(AtlasErrorView::MissingExpectedRegion { sprite }),
                Some(expected) => match region_at(r, rid as int) {
                    None => Some(AtlasErrorView::MissingResolvedRegion { sprite, region: rid }),
                    Some(region) => if region.frame_count != 1 {
                        Some(AtlasErrorView::WrongFrameCount { sprite, frames: region.frame_count })
                    } else if region.frame_size != a.sprite_sizes@[i].widened() {
                        Some(AtlasErrorView::FrameSizeMismatch { sprite, frame_size: region.frame_size })
                    } else {
                        match region.first_frame {
                            None => Some(AtlasErrorView::MissingFirstFrame { sprite }),
                            Some(frame) => match expected.first_frame {
                                None => Some(AtlasErrorView::MissingExpectedFirstFrame { sprite }),
                                Some(expected_frame) => if rid != i || frame != expected_frame {
                                    Some(AtlasErrorView::RegionMismatch { sprite, region: rid })
                                } else {
                                    None
                                },
                            },
                        }
                    },
                },
            },
        }
    }
}

pub open spec fn binding_check(a: CompactComposedAtlas, r: SpriteAtlasReport) -> spec_fn(int) -> Option<
    AtlasErrorView,
> {
    |i: int| sprite_binding_error(a, r, i)
}

/// The defect reported when binding: the sprite tables first, then the
/// region count, then each sprite in order.
pub open spec fn bindings_error(a: CompactComposedAtlas, r: SpriteAtlasReport) -> Option<AtlasErrorView> {
    first_failure(
        sprite_tables_error(a),
        if r.region_count != a.sprite_names.len() {
            Some(
                AtlasErrorView::RegionCountMismatch {
                    regions: r.region_count,
                    sprites: a.sprite_names.len(),
                },
            )
        } else {
            first_failing(binding_check(a, r), a.sprite_names.len() as int)
        },
    )
}

/// Binds every manifest sprite to the atlas region at its index and that
/// region's first frame rectangle, or reports the first defect.
pub fn build_atlas_bindings_compact(atlas: &CompactComposedAtlas, report: &SpriteAtlasReport) -> (r: Result<
    ComposedAtlasBindings,
    CompactAtlasError,
>)
    requires
        report.resolved.len() == atlas.sprite_names.len(),
    ensures
        match r {
            Ok(b) => {
                &&& bindings_error(*atlas, *report) is None
                &&& b.sprite_regions.len() == atlas.sprite_names.len()
                &&& b.sprite_rects.len() == atlas.sprite_names.len()
                &&& forall|i: int|
                    0 <= i < atlas.sprite_names.len() ==> {
                        &&& (#[trigger] b.sprite_regions@[i]).sprite_id@ == atlas.sprite_names@[i]@
                        &&& b.sprite_regions@[i].region == i
                        &&& b.sprite_rects@[i].sprite_id@ == atlas.sprite_names@[i]@
                        &&& first_frame_is(*report, i, b.sprite_rects@[i].rect)
                    }
            },
            Err(e) => bindings_error(*atlas, *report) == Some(e@),
        },
{
    let ghost a = *atlas;
    let ghost rep = *report;
    match validate_compact_sprite_tables(atlas) {
        Ok(()) => {},
        Err(e) => {
            return Err(e);
        },
    }
    let n = atlas.sprite_names.len();
    if report.region_count != n {
        return Err(CompactAtlasError::RegionCountMismatch { regions: report.region_count, sprites: n });
    }
    let ghost check = binding_check(a, rep);
    let mut sprite_regions: Vec<SpriteRegion> = Vec::new();
    let mut sprite_rects: Vec<SpriteRect> = Vec::new();
    for i in 0..n
        invariant
            a == *atlas,
            rep == *report,
            n == atlas.sprite_names.len(),
            report.resolved.len() == n,
            sprite_tables_error(a) is None,
            report.region_count == n,
            check == binding_check(a, rep),
            first_failing(check, i as int) is None,
            sprite_regions.len() == i,
            sprite_rects.len() == i,
            forall|t: int|
                0 <= t < i ==> {
                    &&& (#[trigger] sprite_regions@[t]).sprite_id@ == atlas.sprite_names@[t]@
                    &&& sprite_regions@[t].region == t
                    &&& sprite_rects@[t].sprite_id@ == atlas.sprite_names@[t]@
                    &&& first_frame_is(rep, t, sprite_rects@[t].rect)
                },
    {
        proof {
            lemma_first_failing_step(check, i as int);
        }
        let failure = match binding_of(atlas, report, i) {
            Ok(rect) => {
                sprite_regions.push(SpriteRegion { sprite_id: atlas.sprite_names[i].clone(), region: i as u32 });
                sprite_rects.push(SpriteRect { sprite_id: atlas.sprite_names[i].clone(), rect });
                None
            },
            Err(e) => Some(e),
        };
        match failure {
            Some(e) => {
                proof {
                    lemma_first_failing_stays(check, i + 1, n as int);
                }
                return Err(e);
            },
            None => {},
        }
    }
    Ok(ComposedAtlasBindings { sprite_regions, sprite_rects })
}

fn region_info(report: &SpriteAtlasReport, id: usize) -> (r: Option<AtlasRegionInfo>)
    ensures
        r == region_at(*report, id as int),
{
    if id < report.regions.len() {
        report.regions[id]
    } else {
        None
    }
}

/// The frame rectangle sprite `i` binds to, or its defect.
fn binding_of(atlas: &CompactComposedAtlas, report: &SpriteAtlasReport, i: usize) -> (r: Result<
    AtlasRect,
    CompactAtlasError,
>)
    requires
        i < atlas.sprite_names.len(),
        i < report.resolved.len(),
        atlas.sprite_names.len() == atlas.sprite_sizes.len(),
    ensures
        match r {
            Ok(rect) => sprite_binding_error(*atlas, *report, i as int) is None && first_frame_is(
                *report,
                i as int,
                rect,
            ),
            Err(e) => sprite_binding_error(*atlas, *report, i as int) == Some(e@),
        },
{
    if i > 4294967295usize {
        return Err(CompactAtlasError::SpriteIndexTooLarge { sprite: i });
    }
    let rid = match report.resolved[i] {
        Some(rid) => rid,
        None => {
            return Err(CompactAtlasError::MissingRegion { sprite: i });
        },
    };
    let expected = match region_info(report, i) {
        Some(info) => info,
        None => {
            return Err(CompactAtlasError::MissingExpectedRegion { sprite: i });
        },
    };
    let region = match region_info(report, rid as usize) {
        Some(info) => info,
        None => {
            return Err(CompactAtlasError::MissingResolvedRegion { sprite: i, region: rid });
        },
    };
    if region.frame_count != 1 {
        return Err(CompactAtlasError::WrongFrameCount { sprite: i, frames: region.frame_count });
    }
    let size = atlas.sprite_sizes[i].widen();
    if region.frame_size != size {
        return Err(CompactAtlasError::FrameSizeMismatch { sprite: i, frame_size: region.frame_size });
    }
    let frame = match region.first_frame {
        Some(f) => f,
        None => {
            return Err(CompactAtlasError::MissingFirstFrame { sprite: i });
        },
    };
    let expected_frame = match expected.first_frame {
        Some(f) => f,
        None => {
            return Err(CompactAtlasError::MissingExpectedFirstFrame { sprite: i });
        },
    };
    if rid as usize != i || frame != expected_frame {
        return Err(CompactAtlasError::RegionMismatch { sprite: i, region: rid });
    }
    Ok(frame)
}

} // verus!
