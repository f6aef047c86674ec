//! Runtime view of a validated composed-enemy manifest: semantic parts, their
//! gameplay metadata, and the animation sources that place them.

use crate::geometry::{IVec2, UVec2};
use crate::keyed::{Keyed, contains_string};
use vstd::prelude::*;

verus! {

/// Semantic selector routing an override track to a subset of parts.
///
/// A selector matches when the semantic part id is listed in `part_ids`, or
/// any merged semantic tag of the part is listed in `part_tags`.
#[derive(Debug)]
pub struct ComposedPartSelector {
    pub part_ids: Vec<String>,
    pub part_tags: Vec<String>,
}

/// A higher-priority animation source applied only to matching parts.
#[derive(Debug)]
pub struct ComposedAnimationOverride {
    pub tag: String,
    pub selector: ComposedPartSelector,
    /// When true, only the sprite is taken from the override animation while
    /// the position is kept from the base animation.
    pub sprite_only: bool,
}

/// Animation request of a composed enemy: a base tag plus part-scoped overrides.
#[derive(Debug)]
pub struct ComposedAnimationState {
    pub requested_tag: String,
    /// Immediate terminal-frame freeze for pose states.
    pub hold_last_frame: bool,
    pub part_overrides: Vec<ComposedAnimationOverride>,
}

/// Gameplay metadata of one semantic part after definition/instance merge.
#[derive(Debug)]
pub struct CachedPartGameplay {
    pub targetable: bool,
    pub health_pool: Option<String>,
    pub armour: u32,
    pub durability: Option<u32>,
    pub breakable: bool,
}

/// Runtime view of one semantic part.
#[derive(Debug)]
pub struct CachedPart {
    pub id: String,
    pub parent_id: Option<String>,
    pub is_visual: bool,
    pub draw_order: u32,
    pub pivot: IVec2,
    pub tags: Vec<String>,
    pub gameplay: CachedPartGameplay,
}

/// One render fragment of a part in one animation frame.
#[derive(Debug)]
pub struct CachedPose {
    pub sprite_id: String,
    pub local_offset: IVec2,
    pub size: UVec2,
    pub flip_x: bool,
    pub flip_y: bool,
    pub visible: bool,
    pub fragment: u32,
}

/// The fragments placing one part in one frame (split parts have several).
#[derive(Debug)]
pub struct PartFragments {
    pub part_id: String,
    pub fragments: Vec<CachedPose>,
}

/// An override track declared in the manifest for one animation tag.
#[derive(Debug)]
pub struct CachedAnimationOverride {
    pub source_tag: String,
    pub selector: ComposedPartSelector,
    pub sprite_only: bool,
}

/// A named health pool with its maximum (or current) health.
#[derive(Debug)]
pub struct HealthPool {
    pub id: String,
    pub health: u32,
}

impl Keyed for CachedPart {
    open spec fn key_view(&self) -> Seq<char> {
        self.id@
    }

    fn key(&self) -> (r: &String) {
        &self.id
    }
}

impl Keyed for PartFragments {
    open spec fn key_view(&self) -> Seq<char> {
        self.part_id@
    }

    fn key(&self) -> (r: &String) {
        &self.part_id
    }
}

impl Keyed for HealthPool {
    open spec fn key_view(&self) -> Seq<char> {
        self.id@
    }

    fn key(&self) -> (r: &String) {
        &self.id
    }
}

pub open spec fn strings_view(s: Seq<String>) -> Seq<Seq<char>> {
    s.map_values(|x: String| x@)
}

pub open spec fn seq_has(s: Seq<String>, v: Seq<char>) -> bool {
    exists|i: int| 0 <= i < s.len() && (#[trigger] s[i])@ == v
}

/// Whether any tag in `wanted` occurs in `have`.
pub open spec fn shares_tag(wanted: Seq<String>, have: Seq<String>) -> bool {
    exists|i: int| 0 <= i < wanted.len() && seq_has(have, (#[trigger] wanted[i])@)
}

/// Copies a list of strings, keeping contents and order.
pub fn clone_strings(v: &Vec<String>) -> (r: Vec<String>)
    ensures
        r@ == v@,
{
    let mut out: Vec<String> = Vec::new();
    let n = v.len();
    for i in 0..n
        invariant
            n == v.len(),
            out@ =~= v@.take(i as int),
    {
        out.push(v[i].clone());
        assert(out@ =~= v@.take(i + 1));
    }
    assert(v@.take(n as int) =~= v@);
    out
}

/// Whether any of `wanted` is among `have`.
pub fn any_shared(wanted: &Vec<String>, have: &Vec<String>) -> (r: bool)
    ensures
        r == shares_tag(wanted@, have@),
{
    let n = wanted.len();
    for i in 0..n
        invariant
            n == wanted.len(),
            forall|j: int| 0 <= j < i ==> !seq_has(have@, (#[trigger] wanted@[j])@),
    {
        if contains_string(have, &wanted[i]) {
            return true;
        }
    }
    false
}

impl ComposedPartSelector {
    pub open spec fn spec_is_empty(&self) -> bool {
        self.part_ids.len() == 0 && self.part_tags.len() == 0
    }

    /// The selector matches a part by id or by any shared semantic tag.
    pub open spec fn spec_matches(&self, part_id: Seq<char>, part_tags: Seq<String>) -> bool {
        seq_has(self.part_ids@, part_id) || shares_tag(self.part_tags@, part_tags)
    }

    /// Builds a selector over semantic tags only.
    pub fn for_tags(tags: Vec<String>) -> (r: ComposedPartSelector)
        ensures
            r.part_ids@.len() == 0,
            r.part_tags@ == tags@,
    {
        ComposedPartSelector { part_ids: Vec::new(), part_tags: tags }
    }

    pub fn is_empty(&self) -> (r: bool)
        ensures
            r == self.spec_is_empty(),
    {
        self.part_ids.len() == 0 && self.part_tags.len() == 0
    }

    pub fn matches(&self, part: &CachedPart) -> (r: bool)
        ensures
            r == self.spec_matches(part.id@, part.tags@),
    {
        contains_string(&self.part_ids, &part.id) || any_shared(&self.part_tags, &part.tags)
    }

    pub fn clone_selector(&self) -> (r: ComposedPartSelector)
        ensures
            r.part_ids@ == self.part_ids@,
            r.part_tags@ == self.part_tags@,
    {
        ComposedPartSelector {
            part_ids: clone_strings(&self.part_ids),
            part_tags: clone_strings(&self.part_tags),
        }
    }

    /// Selector equality by content.
    pub fn same_as(&self, other: &ComposedPartSelector) -> (r: bool)
        ensures
            r == (strings_view(self.part_ids@) == strings_view(other.part_ids@) && strings_view(
                self.part_tags@,
            ) == strings_view(other.part_tags@)),
    {
        strings_equal(&self.part_ids, &other.part_ids) && strings_equal(
            &self.part_tags,
            &other.part_tags,
        )
    }
}

/// Equality of two string lists by content and order.
pub fn strings_equal(a: &Vec<String>, b: &Vec<String>) -> (r: bool)
    ensures
        r == (strings_view(a@) == strings_view(b@)),
{
    if a.len() != b.len() {
        assert(strings_view(a@).len() != strings_view(b@).len());
        return false;
    }
    let n = a.len();
    for i in 0..n
        invariant
            n == a.len(),
            n == b.len(),
            forall|j: int| 0 <= j < i ==> (#[trigger] a@[j])@ == b@[j]@,
    {
        if !a[i].eq(&b[i]) {
            assert(strings_view(a@)[i as int] != strings_view(b@)[i as int]);
            return false;
        }
    }
    assert(strings_view(a@) =~= strings_view(b@));
    true
}

impl ComposedAnimationOverride {
    /// Override applying `tag` to parts carrying any of `part_tags`.
    pub fn for_part_tags(tag: String, part_tags: Vec<String>) -> (r: ComposedAnimationOverride)
        ensures
            r.tag == tag,
            r.selector.part_ids@.len() == 0,
            r.selector.part_tags@ == part_tags@,
            !r.sprite_only,
    {
        ComposedAnimationOverride {
            tag,
            selector: ComposedPartSelector::for_tags(part_tags),
            sprite_only: false,
        }
    }

    /// Override that only swaps sprites while preserving base positions.
    pub fn for_part_tags_sprite_only(tag: String, part_tags: Vec<String>) -> (r:
        ComposedAnimationOverride)
        ensures
            r.tag == tag,
            r.selector.part_ids@.len() == 0,
            r.selector.part_tags@ == part_tags@,
            r.sprite_only,
    {
        ComposedAnimationOverride {
            tag,
            selector: ComposedPartSelector::for_tags(part_tags),
            sprite_only: true,
        }
    }

    pub fn clone_override(&self) -> (r: ComposedAnimationOverride)
        ensures
            r.tag == self.tag,
            r.selector.part_ids@ == self.selector.part_ids@,
            r.selector.part_tags@ == self.selector.part_tags@,
            r.sprite_only == self.sprite_only,
    {
        ComposedAnimationOverride {
            tag: self.tag.clone(),
            selector: self.selector.clone_selector(),
            sprite_only: self.sprite_only,
        }
    }

    /// Override equality by content.
    pub fn same_as(&self, other: &ComposedAnimationOverride) -> (r: bool)
        ensures
            r == (self.tag@ == other.tag@ && strings_view(self.selector.part_ids@)
                == strings_view(other.selector.part_ids@) && strings_view(
                self.selector.part_tags@,
            ) == strings_view(other.selector.part_tags@) && self.sprite_only == other.sprite_only),
    {
        self.tag.eq(&other.tag) && self.selector.same_as(&other.selector) && self.sprite_only
            == other.sprite_only
    }
}

impl ComposedAnimationState {
    /// A request for `tag` with no overrides and no hold.
    pub fn new(tag: String) -> (r: ComposedAnimationState)
        ensures
            r.requested_tag == tag,
            !r.hold_last_frame,
            r.part_overrides@.len() == 0,
    {
        ComposedAnimationState { requested_tag: tag, hold_last_frame: false, part_overrides: Vec::new() }
    }

    /// Replaces the part-scoped override tracks resolved on top of the base tag.
    pub fn set_part_overrides(&mut self, overrides: Vec<ComposedAnimationOverride>)
        ensures
            final(self).part_overrides@ == overrides@,
            final(self).requested_tag == old(self).requested_tag,
            final(self).hold_last_frame == old(self).hold_last_frame,
    {
        self.part_overrides = overrides;
    }

    pub fn set_hold_last_frame(&mut self, hold_last_frame: bool)
        ensures
            final(self).hold_last_frame == hold_last_frame,
            final(self).requested_tag == old(self).requested_tag,
            final(self).part_overrides@ == old(self).part_overrides@,
    {
        self.hold_last_frame = hold_last_frame;
    }
}

/// Tags of a definition followed by those of an instance, first occurrence
/// kept, duplicates dropped.
pub open spec fn spec_merge_tags(tags: Seq<String>) -> Seq<Seq<char>>
    decreases tags.len(),
{
    if tags.len() == 0 {
        Seq::empty()
    } else {
        let prefix = spec_merge_tags(tags.drop_last());
        if prefix.contains(tags.last()@) {
            prefix
        } else {
            prefix.push(tags.last()@)
        }
    }
}

/// Appends `tag` unless an equal tag is already present.
fn push_unique(merged: &mut Vec<String>, tag: &String)
    ensures
        strings_view(final(merged)@) == if strings_view(old(merged)@).contains(tag@) {
            strings_view(old(merged)@)
        } else {
            strings_view(old(merged)@).push(tag@)
        },
{
    let seen = contains_string(merged, tag);
    proof {
        if seen {
            let k = choose|k: int| 0 <= k < merged.len() && (#[trigger] merged@[k])@ == tag@;
            assert(strings_view(merged@)[k] == tag@);
        } else {
            assert forall|k: int| 0 <= k < strings_view(merged@).len() implies strings_view(
                merged@,
            )[k] != tag@ by {
                assert(strings_view(merged@)[k] == merged@[k]@);
            }
        }
    }
    if !seen {
        merged.push(tag.clone());
        assert(strings_view(merged@) =~= strings_view(old(merged)@).push(tag@));
    }
}

/// Merges definition tags with instance tags, keeping the first occurrence of each.
pub fn merge_tags(definition_tags: &Vec<String>, instance_tags: &Vec<String>) -> (r: Vec<String>)
    ensures
        strings_view(r@) == spec_merge_tags(definition_tags@ + instance_tags@),
{
    let ghost all = definition_tags@ + instance_tags@;
    let mut merged: Vec<String> = Vec::new();
    let n1 = definition_tags.len();
    for i in 0..n1
        invariant
            n1 == definition_tags.len(),
            strings_view(merged@) == spec_merge_tags(definition_tags@.take(i as int)),
    {
        assert(definition_tags@.take(i + 1).drop_last() =~= definition_tags@.take(i as int));
        push_unique(&mut merged, &definition_tags[i]);
    }
    assert(definition_tags@.take(n1 as int) =~= definition_tags@);
    assert(all.take(n1 as int) =~= definition_tags@);
    let n2 = instance_tags.len();
    for j in 0..n2
        invariant
            n1 == definition_tags.len(),
            n2 == instance_tags.len(),
            all == definition_tags@ + instance_tags@,
            strings_view(merged@) == spec_merge_tags(all.take(n1 + j)),
    {
        assert(all.take(n1 + j + 1).drop_last() =~= all.take(n1 + j));
        assert(all[n1 + j] == instance_tags@[j as int]);
        push_unique(&mut merged, &instance_tags[j]);
    }
    assert(all.take(n1 + n2) =~= all);
    merged
}

} // verus!
