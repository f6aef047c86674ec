//! The runtime cache built from a validated composed manifest.

use super::model::{CachedPart, HealthPool};
use super::playback::CachedAnimation;
use crate::keyed::{Keyed, unique_keys};
use vstd::prelude::*;

verus! {

/// An animation together with the tag it is requested by.
#[derive(Debug)]
pub struct TaggedAnimation {
    pub tag: String,
    pub animation: CachedAnimation,
}

impl Keyed for TaggedAnimation {
    open spec fn key_view(&self) -> Seq<char> {
        self.tag@
    }

    fn key(&self) -> (r: &String) {
        &self.tag
    }
}

/// Runtime cache derived from a validated manifest.
///
/// Stable semantic ids are kept apart from the visual draw order used by
/// rendering and collision resolution.
#[derive(Debug)]
pub struct CompositionAtlasCache {
    pub visual_parts_in_draw_order: Vec<String>,
    pub parts: Vec<CachedPart>,
    pub animations: Vec<TaggedAnimation>,
    pub entity_health_pool: Option<String>,
    pub health_pools: Vec<HealthPool>,
}

impl CompositionAtlasCache {
    /// Part ids, animation tags and pool ids are each unique.
    pub open spec fn well_formed(&self) -> bool {
        &&& unique_keys(self.parts@)
        &&& unique_keys(self.animations@)
        &&& unique_keys(self.health_pools@)
    }
}

} // verus!
