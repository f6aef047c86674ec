//! Enemy species: identity, scores, and the decisions of the composed
//! Mosquiton (attack band, animation requests, wing breakage).

use crate::composed::damage::{ComposedPartStates, PartEntry};
use crate::composed::model::seq_has;
use crate::composed::state::BrokenParts;
use crate::composed::model::{ComposedAnimationOverride, ComposedAnimationState, strings_view};
use crate::depth::Depth;
use crate::keyed::str_eq;
use vstd::prelude::*;
use vstd::string::StringExecFns;

verus! {

/// Enemy species.
#[derive(Clone, Copy, Debug, PartialEq, Eq, Structural)]
pub enum EnemyType {
    Mosquito,
    Mosquiton,
    Spidey,
    Tardigrade,
    Marauder,
    Spidomonsta,
    Kyle,
}

impl EnemyType {
    /// The default species.
    pub fn default_type() -> (r: EnemyType)
        ensures
            r == EnemyType::Mosquito,
    {
        EnemyType::Mosquito
    }

    /// Display name `Enemy<Species>`.
    pub fn show_type(&self) -> (r: String)
        ensures
            r@ == match *self {
                EnemyType::Mosquito => "Enemy<Mosquito>"@,
                EnemyType::Mosquiton => "Enemy<Mosquiton>"@,
                EnemyType::Spidey => "Enemy<Spidey>"@,
                EnemyType::Tardigrade => "Enemy<Tardigrade>"@,
                EnemyType::Marauder => "Enemy<Marauder>"@,
                EnemyType::Spidomonsta => "Enemy<Spidomonsta>"@,
                EnemyType::Kyle => "Enemy<Kyle>"@,
            },
    {
        let s = match self {
            EnemyType::Mosquito => "Enemy<Mosquito>",
            EnemyType::Mosquiton => "Enemy<Mosquiton>",
            EnemyType::Spidey => "Enemy<Spidey>",
            EnemyType::Tardigrade => "Enemy<Tardigrade>",
            EnemyType::Marauder => "Enemy<Marauder>",
            EnemyType::Spidomonsta => "Enemy<Spidomonsta>",
            EnemyType::Kyle => "Enemy<Kyle>",
        };
        s.to_owned()
    }

    pub open spec fn spec_sprite_base_name(&self) -> &'static str {
        match *self {
            EnemyType::Mosquito => "mosquito",
            EnemyType::Mosquiton => "mosquiton",
            EnemyType::Spidey => "spidey",
            EnemyType::Tardigrade => "tardigrade",
            EnemyType::Marauder => "marauder",
            EnemyType::Spidomonsta => "spidomonsta",
            EnemyType::Kyle => "kyle",
        }
    }

    /// Sprite base name used for this species' assets.
    pub fn sprite_base_name(&self) -> (r: &'static str)
        ensures
            r == self.spec_sprite_base_name(),
    {
        match self {
            EnemyType::Mosquito => "mosquito",
            EnemyType::Mosquiton => "mosquiton",
            EnemyType::Spidey => "spidey",
            EnemyType::Tardigrade => "tardigrade",
            EnemyType::Marauder => "marauder",
            EnemyType::Spidomonsta => "spidomonsta",
            EnemyType::Kyle => "kyle",
        }
    }

    /// Canonical authored depth of composed-animation species; `None` for the
    /// species drawn with per-depth sprites.
    pub fn composed_authored_depth(&self) -> (r: Option<Depth>)
        ensures
            r == match *self {
                EnemyType::Mosquiton | EnemyType::Spidey => Some(Depth::Three),
                _ => None::<Depth>,
            },
    {
        match self {
            EnemyType::Mosquiton | EnemyType::Spidey => Some(Depth::Three),
            _ => None,
        }
    }
}

/// Marker for the composed Mosquiton species.
#[derive(Clone, Copy, Debug)]
pub struct EnemyMosquiton;

/// Marker for the Spidey species.
#[derive(Clone, Copy, Debug)]
pub struct EnemySpidey;

/// Marker for the Tardigrade species.
#[derive(Clone, Copy, Debug)]
pub struct EnemyTardigrade;

/// Folder holding the composed-enemy assets.
pub const COMPOSED_ENEMY_ASSET_ROOT: &'static str = "sprites/enemies";

/// File stem of a composed enemy's manifest and sprite atlas.
pub const COMPOSED_ENEMY_ATLAS_BASENAME: &'static str = "atlas";

/// The decimal digit of a lane number.
pub open spec fn lane_digit(depth: Depth) -> char {
    match depth {
        Depth::Zero => '0',
        Depth::One => '1',
        Depth::Two => '2',
        Depth::Three => '3',
        Depth::Four => '4',
        Depth::Five => '5',
        Depth::Six => '6',
        Depth::Seven => '7',
        Depth::Eight => '8',
        Depth::Nine => '9',
    }
}

/// A lane number written in decimal.
fn lane_numeral(depth: Depth) -> (r: &'static str)
    ensures
        r@ == seq![lane_digit(depth)],
{
    match depth {
            Depth::Zero => {
                proof {
                    reveal_strlit("0");
                }
                "0"
            },
            Depth::One => {
                proof {
                    reveal_strlit("1");
                }
                "1"
            },
            Depth::Two => {
                proof {
                    reveal_strlit("2");
                }
                "2"
            },
            Depth::Three => {
                proof {
                    reveal_strlit("3");
                }
                "3"
            },
            Depth::Four => {
                proof {
                    reveal_strlit("4");
                }
                "4"
            },
            Depth::Five => {
                proof {
                    reveal_strlit("5");
                }
                "5"
            },
            Depth::Six => {
                proof {
                    reveal_strlit("6");
                }
                "6"
            },
            Depth::Seven => {
                proof {
                    reveal_strlit("7");
                }
                "7"
            },
            Depth::Eight => {
                proof {
                    reveal_strlit("8");
                }
                "8"
            },
            Depth::Nine => {
                proof {
                    reveal_strlit("9");
                }
                "9"
            },
    }
}

/// Asset path, without extension, of the composed assets of `enemy_type`
/// authored for lane `depth`: `sprites/enemies/<species>_<lane>/atlas`.
pub fn composed_enemy_asset_base_path(enemy_type: EnemyType, depth: Depth) -> (r: String)
    ensures
        r@ == COMPOSED_ENEMY_ASSET_ROOT@ + "/"@ + enemy_type.spec_sprite_base_name()@ + "_"@ + seq![
            lane_digit(depth),
        ] + "/"@ + COMPOSED_ENEMY_ATLAS_BASENAME@,
{
    let mut path = String::from_str(COMPOSED_ENEMY_ASSET_ROOT);
    path.append("/");
    path.append(enemy_type.sprite_base_name());
    path.append("_");
    path.append(lane_numeral(depth));
    path.append("/");
    path.append(COMPOSED_ENEMY_ATLAS_BASENAME);
    path
}

/// Deepest lane from which a Mosquiton may shoot.
pub const MOSQUITON_MAX_RANGED_DEPTH: Depth = Depth::Seven;

/// Far edge of the band a Mosquiton's behaviour patterns steer it into: from
/// deeper lanes it approaches, and at this lane it backs off after a shot.
pub const MOSQUITON_ATTACK_BAND_EDGE: Depth = Depth::Six;

impl EnemyMosquiton {
    /// Mosquitons deeper than lane 7 do not shoot.
    pub fn can_ranged_attack(depth: &Depth) -> (r: bool)
        ensures
            r == (depth.spec_to_i8() <= 7),
    {
        depth.to_i8() <= MOSQUITON_MAX_RANGED_DEPTH.to_i8()
    }

    pub fn kill_score(&self) -> (r: u32)
        ensures
            r == 10,
    {
        10
    }
}

impl EnemySpidey {
    pub fn kill_score(&self) -> (r: u32)
        ensures
            r == 8,
    {
        8
    }
}

impl EnemyTardigrade {
    pub fn kill_score(&self) -> (r: u32)
        ensures
            r == 7,
    {
        7
    }
}

/// How long after a shot a Mosquiton at the band edge retreats, in nanoseconds.
pub const MOSQUITON_RETREAT_AFTER_SHOT_WINDOW_NS: u64 = 1_600_000_000;

/// Mosquito attack cadence in nanoseconds.
pub const ENEMY_MOSQUITO_ATTACK_COOLDOWN_NS: u64 = 3_000_000_000;

/// How long the ranged-attack presentation stays up, in nanoseconds.
pub const ENEMY_MOSQUITO_RANGED_PRESENTATION_NS: u64 = 1_400_000_000;

/// How long a dead mosquito lingers before despawning, in nanoseconds.
pub const ENEMY_MOSQUITO_DEATH_LINGER_NS: u64 = 2_000_000_000;

/// A mosquito may attack again a full cooldown after `cooldown_anchor`
/// (its last attack, or its entry into idle).
pub fn mosquito_attack_cooldown_ready(cooldown_anchor_ns: u64, stage_elapsed_ns: u64) -> (r: bool)
    requires
        cooldown_anchor_ns + ENEMY_MOSQUITO_ATTACK_COOLDOWN_NS <= u64::MAX,
    ensures
        r == (stage_elapsed_ns >= cooldown_anchor_ns + ENEMY_MOSQUITO_ATTACK_COOLDOWN_NS),
{
    stage_elapsed_ns >= cooldown_anchor_ns + ENEMY_MOSQUITO_ATTACK_COOLDOWN_NS
}

/// The ranged presentation ends once it has been shown for its full length.
pub fn mosquito_attack_presentation_finished(last_attack_started_ns: u64, stage_elapsed_ns: u64) -> (r:
    bool)
    requires
        last_attack_started_ns + ENEMY_MOSQUITO_RANGED_PRESENTATION_NS <= u64::MAX,
    ensures
        r == (stage_elapsed_ns >= last_attack_started_ns + ENEMY_MOSQUITO_RANGED_PRESENTATION_NS),
{
    stage_elapsed_ns >= last_attack_started_ns + ENEMY_MOSQUITO_RANGED_PRESENTATION_NS
}

/// Behaviour pattern queued for a Mosquiton whose queue ran empty.
#[derive(Clone, Copy, Debug, PartialEq, Eq, Structural)]
pub enum MosquitonPattern {
    /// Fly forward into the attack band.
    ApproachToBand,
    /// Hold the lane and shoot.
    HoldAndShoot,
    /// Back off one lane after a recent shot.
    Retreat,
}

/// A Mosquiton retreats when it sits at the band edge (lane six) and shot
/// within the retreat window (times are stage-clock nanoseconds; a zero
/// attack time means it never shot).
pub open spec fn spec_mosquiton_should_retreat(depth: Depth, last_attack_started: u64, now: u64) -> bool {
    depth == MOSQUITON_ATTACK_BAND_EDGE && last_attack_started > 0 && (if now >= last_attack_started {
        now - last_attack_started
    } else {
        0
    }) <= MOSQUITON_RETREAT_AFTER_SHOT_WINDOW_NS
}

pub fn mosquiton_should_retreat(depth: Depth, last_attack_started_ns: u64, now_ns: u64) -> (r: bool)
    ensures
        r == spec_mosquiton_should_retreat(depth, last_attack_started_ns, now_ns),
{
    depth == MOSQUITON_ATTACK_BAND_EDGE && last_attack_started_ns > 0 && now_ns.saturating_sub(
        last_attack_started_ns,
    ) <= MOSQUITON_RETREAT_AFTER_SHOT_WINDOW_NS
}

/// Pattern for a Mosquiton with an empty behaviour queue: deeper than the
/// attack band (lanes seven to nine) it approaches; at the band edge (lane
/// six) right after a shot it retreats; otherwise it holds and shoots.
pub open spec fn spec_mosquiton_pattern(depth: Depth, last_attack_started: u64, now: u64) -> MosquitonPattern {
    if depth.spec_to_i8() > 6 {
        MosquitonPattern::ApproachToBand
    } else if spec_mosquiton_should_retreat(depth, last_attack_started, now) {
        MosquitonPattern::Retreat
    } else {
        MosquitonPattern::HoldAndShoot
    }
}

/// Chooses the pattern for a Mosquiton whose behaviour queue ran empty.
pub fn choose_mosquiton_pattern(depth: Depth, last_attack_started_ns: u64, now_ns: u64) -> (r:
    MosquitonPattern)
    ensures
        r == spec_mosquiton_pattern(depth, last_attack_started_ns, now_ns),
{
    if depth.to_i8() > MOSQUITON_ATTACK_BAND_EDGE.to_i8() {
        MosquitonPattern::ApproachToBand
    } else if mosquiton_should_retreat(depth, last_attack_started_ns, now_ns) {
        MosquitonPattern::Retreat
    } else {
        MosquitonPattern::HoldAndShoot
    }
}

/// Hovering idle used during normal airborne gameplay.
pub const TAG_IDLE_FLY: &'static str = "idle_fly";

/// Ranged-attack animation.
pub const TAG_SHOOT_FLY: &'static str = "shoot_fly";

/// Melee attack animation.
pub const TAG_MELEE_FLY: &'static str = "melee_fly";

/// One-shot death animation.
pub const TAG_DEATH_FLY: &'static str = "death_fly";

/// Falling animation used when wings are destroyed.
pub const TAG_FALLING: &'static str = "falling";

/// Grounded idle after a wingless landing.
pub const TAG_IDLE_STAND: &'static str = "idle_stand";

/// Semantic tag of the wing parts.
pub const MOSQUITON_WING_PART_TAG: &'static str = "wings";

/// Flying tags keep the wing loop sourced from `idle_fly`.
pub open spec fn spec_uses_flying_wing_override(tag: Seq<char>) -> bool {
    tag == TAG_IDLE_FLY@ || tag == TAG_SHOOT_FLY@ || tag == TAG_MELEE_FLY@
}

/// Whether `tag` is a flying tag whose wing track comes from `idle_fly`
/// (falling is excluded: the wingless animation has no wing track).
pub fn uses_flying_wing_override(tag: &str) -> (r: bool)
    ensures
        r == spec_uses_flying_wing_override(tag@),
{
    str_eq(tag, TAG_IDLE_FLY) || str_eq(tag, TAG_SHOOT_FLY) || str_eq(tag, TAG_MELEE_FLY)
}

/// The wing override applied to flying tags: `idle_fly` on parts tagged `wings`.
pub open spec fn is_wing_override(o: ComposedAnimationOverride) -> bool {
    &&& o.tag@ == TAG_IDLE_FLY@
    &&& o.selector.part_ids@.len() == 0
    &&& strings_view(o.selector.part_tags@) == seq![MOSQUITON_WING_PART_TAG@]
    &&& !o.sprite_only
}

/// Applies the canonical Mosquiton animation request for `requested_tag`:
/// flying tags get the wing override, other tags none.
pub fn apply_mosquiton_animation_state(animation_state: &mut ComposedAnimationState, requested_tag: &str)
    ensures
        final(animation_state).requested_tag@ == requested_tag@,
        final(animation_state).hold_last_frame == old(animation_state).hold_last_frame,
        if spec_uses_flying_wing_override(requested_tag@) {
            final(animation_state).part_overrides@.len() == 1 && is_wing_override(
                final(animation_state).part_overrides@[0],
            )
        } else {
            final(animation_state).part_overrides@.len() == 0
        },
{
    if !str_eq(animation_state.requested_tag.as_str(), requested_tag) {
        animation_state.requested_tag = requested_tag.to_owned();
    }
    let mut overrides: Vec<ComposedAnimationOverride> = Vec::new();
    if uses_flying_wing_override(requested_tag) {
        let mut tags: Vec<String> = Vec::new();
        tags.push(MOSQUITON_WING_PART_TAG.to_owned());
        assert(strings_view(tags@) =~= seq![MOSQUITON_WING_PART_TAG@]);
        overrides.push(ComposedAnimationOverride::for_part_tags(TAG_IDLE_FLY.to_owned(), tags));
    }
    if !overrides_equal(&animation_state.part_overrides, &overrides) {
        animation_state.set_part_overrides(overrides);
    } else {
        proof {
            if overrides@.len() == 1 {
                let cur = animation_state.part_overrides@[0];
                assert(cur.tag@ == overrides@[0].tag@);
                assert(strings_view(cur.selector.part_ids@).len() == cur.selector.part_ids@.len());
                assert(strings_view(overrides@[0].selector.part_ids@).len()
                    == overrides@[0].selector.part_ids@.len());
            }
        }
    }
}

/// Two overrides with the same tag, selector and sprite-only flag.
pub open spec fn same_override(x: ComposedAnimationOverride, y: ComposedAnimationOverride) -> bool {
    &&& x.tag@ == y.tag@
    &&& strings_view(x.selector.part_ids@) == strings_view(y.selector.part_ids@)
    &&& strings_view(x.selector.part_tags@) == strings_view(y.selector.part_tags@)
    &&& x.sprite_only == y.sprite_only
}

/// Equality of two override lists by content and order.
pub fn overrides_equal(a: &Vec<ComposedAnimationOverride>, b: &Vec<ComposedAnimationOverride>) -> (r:
    bool)
    ensures
        r == (a@.len() == b@.len() && forall|i: int|
            0 <= i < a@.len() ==> same_override(#[trigger] a@[i], b@[i])),
{
    if a.len() != b.len() {
        return false;
    }
    let n = a.len();
    for i in 0..n
        invariant
            n == a.len(),
            n == b.len(),
            forall|j: int| 0 <= j < i ==> same_override(#[trigger] a@[j], b@[j]),
    {
        if !a[i].same_as(&b[i]) {
            assert(!same_override(a@[i as int], b@[i as int]));
            return false;
        }
    }
    true
}

/// Attack a Mosquito-family enemy is currently performing.
#[derive(Clone, Copy, Debug, PartialEq, Eq, Structural)]
pub enum EnemyMosquitoAttack {
    Melee,
    Ranged,
}

/// Animation state of a Mosquiton.
#[derive(Clone, Copy, Debug, PartialEq, Eq, Structural)]
pub enum EnemyMosquitonAnimation {
    IdleFly,
    ShootFly,
    MeleeFly,
    Falling,
}

/// Animation and tag a Mosquiton requests: wingless ones stand once landed
/// and fall before; flying ones show their attack, else idle; a flying one
/// without an active behaviour keeps its current request (`None`).
pub open spec fn spec_mosquiton_animation(
    wings_broken: bool,
    grounded: bool,
    has_behavior: bool,
    attack: Option<EnemyMosquitoAttack>,
) -> Option<(EnemyMosquitonAnimation, Seq<char>)> {
    if wings_broken && grounded {
        Some((EnemyMosquitonAnimation::Falling, TAG_IDLE_STAND@))
    } else if wings_broken {
        Some((EnemyMosquitonAnimation::Falling, TAG_FALLING@))
    } else if !has_behavior {
        None
    } else {
        match attack {
            Some(EnemyMosquitoAttack::Melee) => Some((EnemyMosquitonAnimation::MeleeFly, TAG_MELEE_FLY@)),
            Some(EnemyMosquitoAttack::Ranged) => Some((EnemyMosquitonAnimation::ShootFly, TAG_SHOOT_FLY@)),
            None => Some((EnemyMosquitonAnimation::IdleFly, TAG_IDLE_FLY@)),
        }
    }
}

/// Chooses the Mosquiton animation request.
pub fn mosquiton_animation_for(
    wings_broken: bool,
    grounded: bool,
    has_behavior: bool,
    attack: Option<EnemyMosquitoAttack>,
) -> (r: Option<(EnemyMosquitonAnimation, &'static str)>)
    ensures
        match r {
            Some((a, t)) => spec_mosquiton_animation(wings_broken, grounded, has_behavior, attack)
                == Some((a, t@)),
            None => spec_mosquiton_animation(wings_broken, grounded, has_behavior, attack) is None,
        },
{
    if wings_broken && grounded {
        Some((EnemyMosquitonAnimation::Falling, TAG_IDLE_STAND))
    } else if wings_broken {
        Some((EnemyMosquitonAnimation::Falling, TAG_FALLING))
    } else if !has_behavior {
        None
    } else {
        match attack {
            Some(EnemyMosquitoAttack::Melee) => Some((EnemyMosquitonAnimation::MeleeFly, TAG_MELEE_FLY)),
            Some(EnemyMosquitoAttack::Ranged) => Some((EnemyMosquitonAnimation::ShootFly, TAG_SHOOT_FLY)),
            None => Some((EnemyMosquitonAnimation::IdleFly, TAG_IDLE_FLY)),
        }
    }
}


/// Whether a part carries the wing tag.
pub open spec fn is_wing_part(e: PartEntry) -> bool {
    seq_has(e.state.tags@, MOSQUITON_WING_PART_TAG@)
}

/// Broken parts not yet recorded in `known`, in part-state order.
pub open spec fn spec_newly_broken(entries: Seq<PartEntry>, known: Set<Seq<char>>) -> Seq<Seq<char>>
    decreases entries.len(),
{
    if entries.len() == 0 {
        Seq::empty()
    } else {
        let prefix = spec_newly_broken(entries.drop_last(), known);
        let e = entries.last();
        if e.state.broken && !known.contains(e.id@) {
            prefix.push(e.id@)
        } else {
            prefix
        }
    }
}

/// Every wing part is broken.
pub open spec fn all_wings_broken(entries: Seq<PartEntry>) -> bool {
    forall|i: int| 0 <= i < entries.len() ==> (is_wing_part(#[trigger] entries[i]) ==> entries[i].state.broken)
}

/// Some wing part broke in this scan.
pub open spec fn wing_newly_broken(entries: Seq<PartEntry>, known: Set<Seq<char>>) -> bool {
    exists|i: int|
        0 <= i < entries.len() && (#[trigger] entries[i]).state.broken && !known.contains(entries[i].id@)
            && is_wing_part(entries[i])
}

/// What a breakage scan found.
#[derive(Debug)]
pub struct BreakageReport {
    /// Parts found broken that were not recorded before, in part-state order.
    pub newly_broken: Vec<String>,
    /// The wing subsystem is now fully destroyed, and it happened in this scan:
    /// the Mosquiton starts falling.
    pub wings_fall: bool,
}

fn has_wing_tag(e: &PartEntry) -> (r: bool)
    ensures
        r == is_wing_part(*e),
{
    let key = MOSQUITON_WING_PART_TAG.to_owned();
    crate::keyed::contains_string(&e.state.tags, &key)
}

/// Records newly broken parts and reports whether the wings just finished breaking.
pub fn detect_part_breakage(part_states: &ComposedPartStates, broken_parts: &mut BrokenParts) -> (r:
    BreakageReport)
    ensures
        strings_view(r.newly_broken@) == spec_newly_broken(part_states.parts@, old(broken_parts)@),
        final(broken_parts)@ == old(broken_parts)@.union(
            spec_newly_broken(part_states.parts@, old(broken_parts)@).to_set(),
        ),
        r.wings_fall == (all_wings_broken(part_states.parts@) && wing_newly_broken(
            part_states.parts@,
            old(broken_parts)@,
        )),
{
    let ghost known = broken_parts@;
    let entries = &part_states.parts;
    let n = entries.len();
    let mut newly: Vec<String> = Vec::new();
    let mut all_wings = true;
    let mut wing_broke = false;
    for i in 0..n
        invariant
            n == entries.len(),
            known == broken_parts@,
            strings_view(newly@) == spec_newly_broken(entries@.take(i as int), known),
            all_wings == all_wings_broken(entries@.take(i as int)),
            wing_broke == wing_newly_broken(entries@.take(i as int), known),
    {
        let e = &entries[i];
        assert(entries@.take(i + 1).drop_last() =~= entries@.take(i as int));
        assert(entries@.take(i + 1).last() == *e);
        let wing = has_wing_tag(e);
        let fresh = e.state.broken && !broken_parts.is_broken(e.id.as_str());
        if fresh {
            let ghost before = newly@;
            newly.push(e.id.clone());
            assert(strings_view(newly@) =~= strings_view(before).push(e.id@));
        }
        if wing && !e.state.broken {
            all_wings = false;
        }
        if wing && fresh {
            wing_broke = true;
        }
        proof {
            let t = entries@.take(i + 1);
            assert forall|k: int| 0 <= k < i + 1 implies #[trigger] t[k] == entries@[k] by {}
            if all_wings {
                assert forall|k: int| 0 <= k < t.len() && is_wing_part(#[trigger] t[k]) implies t[k].state.broken by {
                    if k < i {
                        assert(entries@.take(i as int)[k] == t[k]);
                    }
                }
            } else {
                if !(wing && !e.state.broken) {
                    let k = choose|k: int| 0 <= k < i && !(is_wing_part(#[trigger] entries@.take(i as int)[k])
                        ==> entries@.take(i as int)[k].state.broken);
                    assert(t[k] == entries@.take(i as int)[k]);
                } else {
                    assert(t[i as int] == *e);
                }
            }
            if wing_broke {
                if !(wing && fresh) {
                    let k = choose|k: int|
                        0 <= k < i && (#[trigger] entries@.take(i as int)[k]).state.broken && !known.contains(
                            entries@.take(i as int)[k].id@,
                        ) && is_wing_part(entries@.take(i as int)[k]);
                    assert(t[k] == entries@.take(i as int)[k]);
                } else {
                    assert(t[i as int] == *e);
                }
            } else {
                assert forall|k: int| 0 <= k < t.len() implies !((#[trigger] t[k]).state.broken && !known.contains(
                    t[k].id@,
                ) && is_wing_part(t[k])) by {
                    if k < i {
                        assert(entries@.take(i as int)[k] == t[k]);
                    }
                }
            }
        }
    }
    assert(entries@.take(n as int) =~= entries@);
    let m = newly.len();
    for j in 0..m
        invariant
            m == newly.len(),
            broken_parts@ == known.union(strings_view(newly@).take(j as int).to_set()),
    {
        let ghost before = broken_parts@;
        broken_parts.mark_broken(newly[j].clone());
        proof {
            let sv = strings_view(newly@);
            sv.take(j as int).lemma_push_to_set_commute(sv[j as int]);
            assert(sv.take(j + 1) =~= sv.take(j as int).push(sv[j as int]));
            assert(broken_parts@ =~= known.union(sv.take(j + 1).to_set()));
        }
    }
    assert(strings_view(newly@).take(m as int) =~= strings_view(newly@));
    BreakageReport { newly_broken: newly, wings_fall: all_wings && wing_broke }
}


/// Kind of an enemy's current behaviour step.
#[derive(Clone, Copy, Debug, PartialEq, Eq, Structural)]
pub enum EnemyStepKind {
    Attack,
    Circle,
    Idle,
    LinearTween,
    Jump,
}

/// Animation state of a Mosquito.
#[derive(Clone, Copy, Debug, PartialEq, Eq, Structural)]
pub enum EnemyMosquitoAnimation {
    Attack,
    Fly,
    Idle,
}

/// Which authored Mosquito clip plays.
#[derive(Clone, Copy, Debug, PartialEq, Eq, Structural)]
pub enum MosquitoClip {
    MeleeAttack,
    Fly,
}

/// Animation of a Mosquito: a melee attack plays its attack clip, a ranged
/// attack or an attack step the fly clip as an attack, circling, tweening and
/// jumping fly, and idling idles on the fly clip.
pub open spec fn spec_mosquito_animation(attack: Option<EnemyMosquitoAttack>, step: EnemyStepKind) -> (
    EnemyMosquitoAnimation,
    MosquitoClip,
) {
    match attack {
        Some(EnemyMosquitoAttack::Melee) => (EnemyMosquitoAnimation::Attack, MosquitoClip::MeleeAttack),
        Some(EnemyMosquitoAttack::Ranged) => (EnemyMosquitoAnimation::Attack, MosquitoClip::Fly),
        None => match step {
            EnemyStepKind::Attack => (EnemyMosquitoAnimation::Attack, MosquitoClip::Fly),
            EnemyStepKind::Idle => (EnemyMosquitoAnimation::Idle, MosquitoClip::Fly),
            _ => (EnemyMosquitoAnimation::Fly, MosquitoClip::Fly),
        },
    }
}

pub fn mosquito_animation_for(attack: Option<EnemyMosquitoAttack>, step: EnemyStepKind) -> (r: (
    EnemyMosquitoAnimation,
    MosquitoClip,
))
    ensures
        r == spec_mosquito_animation(attack, step),
{
    match attack {
        Some(EnemyMosquitoAttack::Melee) => (EnemyMosquitoAnimation::Attack, MosquitoClip::MeleeAttack),
        Some(EnemyMosquitoAttack::Ranged) => (EnemyMosquitoAnimation::Attack, MosquitoClip::Fly),
        None => match step {
            EnemyStepKind::Attack => (EnemyMosquitoAnimation::Attack, MosquitoClip::Fly),
            EnemyStepKind::Idle => (EnemyMosquitoAnimation::Idle, MosquitoClip::Fly),
            EnemyStepKind::Circle | EnemyStepKind::LinearTween | EnemyStepKind::Jump => (
                EnemyMosquitoAnimation::Fly,
                MosquitoClip::Fly,
            ),
        },
    }
}

/// Animation state of a Spidey.
#[derive(Clone, Copy, Debug, PartialEq, Eq, Structural)]
pub enum EnemySpideyAnimation {
    Idle,
    Lounge,
    Shoot,
    Jump,
    Landing,
}

/// Animation of a Spidey and whether it holds its last frame: attacking
/// shoots; a jump shows the jump (held on its last frame) for the first half
/// of the jump and the landing after; idling lounges; other steps idle.
pub open spec fn spec_spidey_animation(attacking: bool, step: EnemyStepKind, jump_first_half: bool) -> (
    EnemySpideyAnimation,
    bool,
) {
    if attacking {
        (EnemySpideyAnimation::Shoot, false)
    } else {
        match step {
            EnemyStepKind::Jump => if jump_first_half {
                (EnemySpideyAnimation::Jump, true)
            } else {
                (EnemySpideyAnimation::Landing, false)
            },
            EnemyStepKind::Idle => (EnemySpideyAnimation::Lounge, false),
            _ => (EnemySpideyAnimation::Idle, false),
        }
    }
}

/// `jump_first_half` tells whether the jump has covered less than half of its course.
pub fn spidey_animation_for(attacking: bool, step: EnemyStepKind, jump_first_half: bool) -> (r: (
    EnemySpideyAnimation,
    bool,
))
    ensures
        r == spec_spidey_animation(attacking, step, jump_first_half),
{
    if attacking {
        (EnemySpideyAnimation::Shoot, false)
    } else {
        match step {
            EnemyStepKind::Jump => if jump_first_half {
                (EnemySpideyAnimation::Jump, true)
            } else {
                (EnemySpideyAnimation::Landing, false)
            },
            EnemyStepKind::Idle => (EnemySpideyAnimation::Lounge, false),
            EnemyStepKind::Attack | EnemyStepKind::Circle | EnemyStepKind::LinearTween => (
                EnemySpideyAnimation::Idle,
                false,
            ),
        }
    }
}


/// A mosquito in view starts a ranged attack when it is not already
/// attacking, its step is idle, attack or circle, it is not a Mosquiton too
/// deep to shoot, and a full cooldown has passed since the later of its last
/// attack and the start of its current behaviour (stage-clock nanoseconds).
pub open spec fn spec_mosquito_starts_ranged_attack(
    attacking: bool,
    step: EnemyStepKind,
    is_mosquiton: bool,
    depth: Depth,
    last_attack_started: u64,
    behavior_started: u64,
    now: u64,
) -> bool {
    let anchor = if last_attack_started >= behavior_started {
        last_attack_started
    } else {
        behavior_started
    };
    &&& !attacking
    &&& (step == EnemyStepKind::Idle || step == EnemyStepKind::Attack || step == EnemyStepKind::Circle)
    &&& !(is_mosquiton && depth.spec_to_i8() > 7)
    &&& now >= anchor + ENEMY_MOSQUITO_ATTACK_COOLDOWN_NS
}

pub fn mosquito_starts_ranged_attack(
    attacking: bool,
    step: EnemyStepKind,
    is_mosquiton: bool,
    depth: Depth,
    last_attack_started_ns: u64,
    behavior_started_ns: u64,
    now_ns: u64,
) -> (r: bool)
    requires
        last_attack_started_ns + ENEMY_MOSQUITO_ATTACK_COOLDOWN_NS <= u64::MAX,
        behavior_started_ns + ENEMY_MOSQUITO_ATTACK_COOLDOWN_NS <= u64::MAX,
    ensures
        r == spec_mosquito_starts_ranged_attack(
            attacking,
            step,
            is_mosquiton,
            depth,
            last_attack_started_ns,
            behavior_started_ns,
            now_ns,
        ),
{
    if attacking {
        return false;
    }
    match step {
        EnemyStepKind::Idle | EnemyStepKind::Attack | EnemyStepKind::Circle => {},
        EnemyStepKind::LinearTween | EnemyStepKind::Jump => {
            return false;
        },
    }
    if is_mosquiton && !EnemyMosquiton::can_ranged_attack(&depth) {
        return false;
    }
    let anchor = if last_attack_started_ns >= behavior_started_ns {
        last_attack_started_ns
    } else {
        behavior_started_ns
    };
    mosquito_attack_cooldown_ready(anchor, now_ns)
}

/// A mosquito starts a ranged attack exactly when it is not already
/// attacking, its step is idle, attack or circle, it is not a Mosquiton
/// deeper than lane seven, and three whole seconds have passed both since
/// its last attack began and since its current behaviour began.
pub proof fn lemma_ranged_attack_waits_out_cooldown(
    attacking: bool,
    step: EnemyStepKind,
    is_mosquiton: bool,
    depth: Depth,
    last_attack_started: u64,
    behavior_started: u64,
    now: u64,
)
    ensures
        spec_mosquito_starts_ranged_attack(
            attacking,
            step,
            is_mosquiton,
            depth,
            last_attack_started,
            behavior_started,
            now,
        ) <==> {
            &&& !attacking
            &&& (step == EnemyStepKind::Idle || step == EnemyStepKind::Attack || step == EnemyStepKind::Circle)
            &&& !(is_mosquiton && depth.spec_to_i8() >= 8)
            &&& now >= last_attack_started + 3_000_000_000
            &&& now >= behavior_started + 3_000_000_000
        },
{
}


/// The pattern of a Mosquiton whose queue ran empty, by lane: from lane
/// seven or deeper it approaches; at lane six it retreats exactly when it
/// has shot (a non-zero attack time) no more than 1.6 s ago; everywhere else
/// it holds and shoots.
pub proof fn lemma_mosquiton_pattern_by_lane(depth: Depth, last_attack_started: u64, now: u64)
    ensures
        (spec_mosquiton_pattern(depth, last_attack_started, now) == MosquitonPattern::ApproachToBand)
            <==> depth.spec_to_i8() >= 7,
        (spec_mosquiton_pattern(depth, last_attack_started, now) == MosquitonPattern::Retreat) <==> (
        depth.spec_to_i8() == 6 && last_attack_started > 0 && now <= last_attack_started
            + 1_600_000_000),
{
}

/// A Mosquiton with broken wings always plays its fall (standing once
/// grounded); with wings intact it gets no request without a behaviour, and
/// otherwise flies with the clip of its attack: melee, shooting, or idle.
pub proof fn lemma_mosquiton_animation_cases(
    wings_broken: bool,
    grounded: bool,
    has_behavior: bool,
    attack: Option<EnemyMosquitoAttack>,
)
    ensures
        ({
            let r = spec_mosquiton_animation(wings_broken, grounded, has_behavior, attack);
            &&& wings_broken ==> (r matches Some((a, t)) && a == EnemyMosquitonAnimation::Falling && (grounded
                ==> t == "idle_stand"@) && (!grounded ==> t == "falling"@))
            &&& !wings_broken && !has_behavior ==> r is None
            &&& !wings_broken && has_behavior ==> (r matches Some((a, t)) && match attack {
                Some(EnemyMosquitoAttack::Melee) => a == EnemyMosquitonAnimation::MeleeFly && t
                    == "melee_fly"@,
                Some(EnemyMosquitoAttack::Ranged) => a == EnemyMosquitonAnimation::ShootFly && t
                    == "shoot_fly"@,
                None => a == EnemyMosquitonAnimation::IdleFly && t == "idle_fly"@,
            })
        }),
{
}

/// A Mosquito shows its attack animation exactly while it attacks or its
/// step is an attack, the melee clip only for a melee attack; otherwise it
/// idles on an idle step and flies on any other.
pub proof fn lemma_mosquito_animation_cases(attack: Option<EnemyMosquitoAttack>, step: EnemyStepKind)
    ensures
        ({
            let (a, clip) = spec_mosquito_animation(attack, step);
            &&& (a == EnemyMosquitoAnimation::Attack) <==> (attack is Some || step == EnemyStepKind::Attack)
            &&& (clip == MosquitoClip::MeleeAttack) <==> attack == Some(EnemyMosquitoAttack::Melee)
            &&& (a == EnemyMosquitoAnimation::Idle) <==> (attack is None && step == EnemyStepKind::Idle)
        }),
{
}

/// A Spidey holds its last frame only in the first half of a jump; an
/// attacking Spidey always shoots; a jump shows the jump and then the
/// landing; an idle step lounges.
pub proof fn lemma_spidey_animation_cases(attacking: bool, step: EnemyStepKind, jump_first_half: bool)
    ensures
        ({
            let (a, hold) = spec_spidey_animation(attacking, step, jump_first_half);
            &&& hold <==> (!attacking && step == EnemyStepKind::Jump && jump_first_half)
            &&& attacking ==> a == EnemySpideyAnimation::Shoot
            &&& !attacking && step == EnemyStepKind::Jump ==> a == (if jump_first_half {
                EnemySpideyAnimation::Jump
            } else {
                EnemySpideyAnimation::Landing
            })
            &&& !attacking && step == EnemyStepKind::Idle ==> a == EnemySpideyAnimation::Lounge
        }),
{
}

} // verus!
