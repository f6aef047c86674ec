//! Player attacks: identities, the integer side of their definitions, and
//! the weapon loadout the player cycles through.

use crate::geometry::IVec2;
use std::collections::HashMap;
use vstd::prelude::*;

verus! {

/// Player attack kinds.
#[derive(Clone, Copy, Debug, PartialEq, Eq, Structural)]
pub enum AttackId {
    Pincer,
    Pistol,
    MachineGun,
    Bomb,
    BombExplosion,
}

#[derive(Clone, Copy, Debug, PartialEq, Eq, Structural)]
pub enum AttackCategory {
    Melee,
    Ranged,
}

/// How often one attack may hit the same target.
#[derive(Clone, Copy, Debug, PartialEq, Eq, Structural)]
pub enum AttackHitPolicy {
    /// At most one hit per target.
    Single,
    /// Repeated hits, `cooldown_ns` apart, each dealing `repeat_damage`.
    Repeat { cooldown_ns: u64, repeat_damage: u32 },
}

/// When the fire button shoots.
#[derive(Clone, Copy, Debug, PartialEq, Eq, Structural)]
pub enum AttackInputPolicy {
    /// On release.
    Release,
    /// While held: after `warmup_ns`, then every `interval_ns`.
    Hold { warmup_ns: u64, interval_ns: u64 },
}

/// How an attack finds what it hits.
#[derive(Clone, Copy, Debug, PartialEq, Eq, Structural)]
pub enum AttackCollisionMode {
    /// Hits nothing.
    NoCollision,
    /// Probes single pixels (see the hit offsets).
    Point,
    /// Overlaps the opaque pixels of its sprite.
    SpriteMask,
    /// Hits everything within `radius` whole pixels of its centre.
    Radial { radius: u32 },
}

/// What an attack's sprite animation does after its last frame.
#[derive(Clone, Copy, Debug, PartialEq, Eq, Structural)]
pub enum AttackAnimationFinish {
    /// The attack's sprite is removed.
    Despawn,
    /// The animation starts over.
    Loop,
}

/// How an attack's sprite moves from frame to frame.
#[derive(Clone, Copy, Debug, PartialEq, Eq, Structural)]
pub enum AttackFrameTransition {
    /// Frames are swapped with no blending.
    NoTransition,
}

/// The point of an attack's sprite placed at its position.
#[derive(Clone, Copy, Debug, PartialEq, Eq, Structural)]
pub enum AttackSpriteAnchor {
    Center,
}

/// The space an attack's sprite is drawn in.
#[derive(Clone, Copy, Debug, PartialEq, Eq, Structural)]
pub enum AttackRenderSpace {
    /// Fixed to the screen.
    Camera,
    /// Placed in the stage world, moving with the camera's pan.
    World,
}

/// The draw layer of attack sprites.
#[derive(Clone, Copy, Debug, PartialEq, Eq, Structural)]
pub enum AttackLayer {
    Attack,
}

/// The sprite an attack is drawn with: its path, frame count, the time one
/// run of its animation takes, and how it is presented.
#[derive(Clone, Copy, Debug)]
pub struct AttackSpriteDefinition {
    pub sprite_path: &'static str,
    pub frames: usize,
    pub speed_ms: u64,
    pub finish_behavior: AttackAnimationFinish,
    pub frame_transition: AttackFrameTransition,
    pub anchor: AttackSpriteAnchor,
    pub canvas: AttackRenderSpace,
    pub layer: AttackLayer,
}

/// Discrete attributes of an attack (its lifetime and aim spread, in
/// floating point, are kept by the renderer).
#[derive(Debug)]
pub struct AttackDefinition {
    pub id: AttackId,
    pub name: &'static str,
    pub category: AttackCategory,
    pub damage: u32,
    /// Pixel offsets from the attack centre tested for point collision, in
    /// order; empty means centre only.
    pub hit_offsets: Vec<IVec2>,
    pub spawn_on_expire: Option<AttackId>,
    pub detonates_on_hit: bool,
    pub input_policy: AttackInputPolicy,
    pub hit_policy: AttackHitPolicy,
    pub collision: AttackCollisionMode,
    pub sprite: AttackSpriteDefinition,
    pub sfx_path: Option<&'static str>,
    pub screen_shake: bool,
}

/// The five-point cross: centre plus the four cardinal neighbours.
pub open spec fn pistol_cross() -> Seq<IVec2> {
    seq![
        IVec2 { x: 0, y: 0 },
        IVec2 { x: 1, y: 0 },
        IVec2 { x: -1i32, y: 0 },
        IVec2 { x: 0, y: 1 },
        IVec2 { x: 0, y: -1i32 },
    ]
}

/// Authored damage of each attack.
pub open spec fn spec_attack_damage(id: AttackId) -> u32 {
    match id {
        AttackId::Pincer => 70,
        AttackId::Pistol => 30,
        AttackId::MachineGun => 20,
        AttackId::Bomb => 0,
        AttackId::BombExplosion => 60,
    }
}

/// Fire policy of each attack: the machine gun fires while held.
pub open spec fn spec_input_policy(id: AttackId) -> AttackInputPolicy {
    if id == AttackId::MachineGun {
        AttackInputPolicy::Hold { warmup_ns: 180_000_000, interval_ns: 80_000_000 }
    } else {
        AttackInputPolicy::Release
    }
}

/// Hit policy of each attack: the pincer and the bomb explosion hit repeatedly.
pub open spec fn spec_hit_policy(id: AttackId) -> AttackHitPolicy {
    match id {
        AttackId::Pincer => AttackHitPolicy::Repeat { cooldown_ns: 180_000_000, repeat_damage: 35 },
        AttackId::BombExplosion => AttackHitPolicy::Repeat { cooldown_ns: 250_000_000, repeat_damage: 25 },
        _ => AttackHitPolicy::Single,
    }
}

/// How each attack collides: the pincer and the bomb by their sprites, the
/// guns by pixel probes, the explosion within five pixels.
pub open spec fn spec_collision(id: AttackId) -> AttackCollisionMode {
    match id {
        AttackId::Pincer | AttackId::Bomb => AttackCollisionMode::SpriteMask,
        AttackId::Pistol | AttackId::MachineGun => AttackCollisionMode::Point,
        AttackId::BombExplosion => AttackCollisionMode::Radial { radius: 5 },
    }
}

/// Frame count and animation time of each attack's sprite.
pub open spec fn spec_sprite_timing(id: AttackId) -> (usize, u64) {
    match id {
        AttackId::Pincer => (9, 500),
        AttackId::Pistol | AttackId::MachineGun => (4, 80),
        AttackId::Bomb => (1, 200),
        AttackId::BombExplosion => (4, 500),
    }
}

/// Display name of each attack.
pub open spec fn spec_attack_name(id: AttackId) -> &'static str {
    match id {
        AttackId::Pincer => "Pincer",
        AttackId::Pistol => "Pistol",
        AttackId::MachineGun => "Machine Gun",
        AttackId::Bomb => "Bomb",
        AttackId::BombExplosion => "Bomb Explosion",
    }
}

/// Sprite asset of each attack.
pub open spec fn spec_sprite_path(id: AttackId) -> &'static str {
    match id {
        AttackId::Pincer => "sprites/melee_slash.px_sprite.png",
        AttackId::Bomb => "sprites/pickups/bomb_6.px_sprite.png",
        _ => "sprites/bullet_particles.px_sprite.png",
    }
}

/// Sound of each attack; the bomb throw is silent.
pub open spec fn spec_sfx_path(id: AttackId) -> Option<&'static str> {
    match id {
        AttackId::Pincer => Some("audio/sfx/player_melee.ogg"),
        AttackId::Pistol | AttackId::MachineGun => Some("audio/sfx/player_shot.ogg"),
        AttackId::Bomb => None,
        AttackId::BombExplosion => Some("audio/sfx/bomb_explode.ogg"),
    }
}

/// The sprite of each attack: the thrown bomb loops its animation, every
/// other sprite is removed after one run; the bomb and its explosion are
/// drawn in the stage world, the rest on the screen; all are centred, cut
/// from frame to frame, on the attack layer.
pub open spec fn spec_attack_sprite(id: AttackId) -> AttackSpriteDefinition {
    AttackSpriteDefinition {
        sprite_path: spec_sprite_path(id),
        frames: spec_sprite_timing(id).0,
        speed_ms: spec_sprite_timing(id).1,
        finish_behavior: if id == AttackId::Bomb {
            AttackAnimationFinish::Loop
        } else {
            AttackAnimationFinish::Despawn
        },
        frame_transition: AttackFrameTransition::NoTransition,
        anchor: AttackSpriteAnchor::Center,
        canvas: if id == AttackId::Bomb || id == AttackId::BombExplosion {
            AttackRenderSpace::World
        } else {
            AttackRenderSpace::Camera
        },
        layer: AttackLayer::Attack,
    }
}

fn attack_sprite(
    sprite_path: &'static str,
    frames: usize,
    speed_ms: u64,
    finish_behavior: AttackAnimationFinish,
    canvas: AttackRenderSpace,
) -> (r: AttackSpriteDefinition)
    ensures
        r == (AttackSpriteDefinition {
            sprite_path,
            frames,
            speed_ms,
            finish_behavior,
            frame_transition: AttackFrameTransition::NoTransition,
            anchor: AttackSpriteAnchor::Center,
            canvas,
            layer: AttackLayer::Attack,
        }),
{
    AttackSpriteDefinition {
        sprite_path,
        frames,
        speed_ms,
        finish_behavior,
        frame_transition: AttackFrameTransition::NoTransition,
        anchor: AttackSpriteAnchor::Center,
        canvas,
        layer: AttackLayer::Attack,
    }
}

/// The definition of `id`.
pub fn attack_definition(id: AttackId) -> (r: AttackDefinition)
    ensures
        r.id == id,
        r.name == spec_attack_name(id),
        r.damage == spec_attack_damage(id),
        r.hit_offsets@ == if id == AttackId::Pistol {
            pistol_cross()
        } else {
            Seq::<IVec2>::empty()
        },
        r.category == if id == AttackId::Pincer {
            AttackCategory::Melee
        } else {
            AttackCategory::Ranged
        },
        r.spawn_on_expire == if id == AttackId::Bomb {
            Some(AttackId::BombExplosion)
        } else {
            None::<AttackId>
        },
        r.detonates_on_hit == (id == AttackId::Bomb),
        r.input_policy == spec_input_policy(id),
        r.hit_policy == spec_hit_policy(id),
        r.screen_shake == (id == AttackId::Bomb),
        r.collision == spec_collision(id),
        r.sprite == spec_attack_sprite(id),
        r.sfx_path == spec_sfx_path(id),
{
    match id {
        AttackId::Pincer => AttackDefinition {
            id,
            name: "Pincer",
            category: AttackCategory::Melee,
            damage: 70,
            hit_offsets: Vec::new(),
            spawn_on_expire: None,
            detonates_on_hit: false,
            input_policy: AttackInputPolicy::Release,
            hit_policy: AttackHitPolicy::Repeat { cooldown_ns: 180_000_000, repeat_damage: 35 },
            collision: AttackCollisionMode::SpriteMask,
            sprite: attack_sprite(
                "sprites/melee_slash.px_sprite.png",
                9,
                500,
                AttackAnimationFinish::Despawn,
                AttackRenderSpace::Camera,
            ),
            sfx_path: Some("audio/sfx/player_melee.ogg"),
            screen_shake: false,
        },
        AttackId::Pistol => {
            let mut offsets: Vec<IVec2> = Vec::new();
            offsets.push(IVec2 { x: 0, y: 0 });
            offsets.push(IVec2 { x: 1, y: 0 });
            offsets.push(IVec2 { x: -1, y: 0 });
            offsets.push(IVec2 { x: 0, y: 1 });
            offsets.push(IVec2 { x: 0, y: -1 });
            assert(offsets@ =~= pistol_cross());
            AttackDefinition {
                id,
                name: "Pistol",
                category: AttackCategory::Ranged,
                damage: 30,
                hit_offsets: offsets,
                spawn_on_expire: None,
                detonates_on_hit: false,
                input_policy: AttackInputPolicy::Release,
                hit_policy: AttackHitPolicy::Single,
                collision: AttackCollisionMode::Point,
                sprite: attack_sprite(
                    "sprites/bullet_particles.px_sprite.png",
                    4,
                    80,
                    AttackAnimationFinish::Despawn,
                    AttackRenderSpace::Camera,
                ),
                sfx_path: Some("audio/sfx/player_shot.ogg"),
                screen_shake: false,
            }
        },
        AttackId::MachineGun => AttackDefinition {
            id,
            name: "Machine Gun",
            category: AttackCategory::Ranged,
            damage: 20,
            hit_offsets: Vec::new(),
            spawn_on_expire: None,
            detonates_on_hit: false,
            input_policy: AttackInputPolicy::Hold { warmup_ns: 180_000_000, interval_ns: 80_000_000 },
            hit_policy: AttackHitPolicy::Single,
            collision: AttackCollisionMode::Point,
            sprite: attack_sprite(
                "sprites/bullet_particles.px_sprite.png",
                4,
                80,
                AttackAnimationFinish::Despawn,
                AttackRenderSpace::Camera,
            ),
            sfx_path: Some("audio/sfx/player_shot.ogg"),
            screen_shake: false,
        },
        AttackId::Bomb => AttackDefinition {
            id,
            name: "Bomb",
            category: AttackCategory::Ranged,
            damage: 0,
            hit_offsets: Vec::new(),
            spawn_on_expire: Some(AttackId::BombExplosion),
            detonates_on_hit: true,
            input_policy: AttackInputPolicy::Release,
            hit_policy: AttackHitPolicy::Single,
            collision: AttackCollisionMode::SpriteMask,
            sprite: attack_sprite(
                "sprites/pickups/bomb_6.px_sprite.png",
                1,
                200,
                AttackAnimationFinish::Loop,
                AttackRenderSpace::World,
            ),
            sfx_path: None,
            screen_shake: true,
        },
        AttackId::BombExplosion => AttackDefinition {
            id,
            name: "Bomb Explosion",
            category: AttackCategory::Ranged,
            damage: 60,
            hit_offsets: Vec::new(),
            spawn_on_expire: None,
            detonates_on_hit: false,
            input_policy: AttackInputPolicy::Release,
            hit_policy: AttackHitPolicy::Repeat { cooldown_ns: 250_000_000, repeat_damage: 25 },
            collision: AttackCollisionMode::Radial { radius: 5 },
            sprite: attack_sprite(
                "sprites/bullet_particles.px_sprite.png",
                4,
                500,
                AttackAnimationFinish::Despawn,
                AttackRenderSpace::World,
            ),
            sfx_path: Some("audio/sfx/bomb_explode.ogg"),
            screen_shake: false,
        },
    }
}

/// Every hit offset is within one pixel (Manhattan) of the centre.
pub proof fn lemma_hit_offsets_adjacent(id: AttackId, offsets: Seq<IVec2>)
    requires
        offsets == (if id == AttackId::Pistol {
            pistol_cross()
        } else {
            Seq::<IVec2>::empty()
        }),
    ensures
        forall|i: int|
            0 <= i < offsets.len() ==> {
                let o = #[trigger] offsets[i];
                (if o.x >= 0 {
                    o.x as int
                } else {
                    -o.x
                }) + (if o.y >= 0 {
                    o.y as int
                } else {
                    -o.y
                }) <= 1
            },
{
}

/// An ordered set of weapons with a current selection.
#[derive(Debug)]
pub struct AttackCycle {
    options: Vec<AttackId>,
    index: usize,
}

impl View for AttackCycle {
    type V = (Seq<AttackId>, int);

    closed spec fn view(&self) -> (Seq<AttackId>, int) {
        (self.options@, self.index as int)
    }
}

impl AttackCycle {
    #[verifier::type_invariant]
    spec fn index_in_range(&self) -> bool {
        self.options.len() == 0 && self.index == 0 || self.index < self.options.len()
    }

    /// A cycle over `options`, starting at the first.
    pub fn new(options: Vec<AttackId>) -> (r: AttackCycle)
        ensures
            r@ == (options@, 0int),
    {
        AttackCycle { options, index: 0 }
    }

    /// The selected weapon (the cycle must not be empty).
    pub fn current(&self) -> (r: AttackId)
        requires
            self@.0.len() > 0,
        ensures
            r == self@.0[self@.1],
            0 <= self@.1 < self@.0.len(),
    {
        proof {
            use_type_invariant(self);
        }
        self.options[self.index]
    }

    /// Selects the next weapon, wrapping around; an empty cycle yields the pincer.
    pub fn cycle(&mut self) -> (r: AttackId)
        ensures
            final(self)@.0 == old(self)@.0,
            if old(self)@.0.len() == 0 {
                r == AttackId::Pincer && final(self)@ == old(self)@
            } else {
                &&& final(self)@.1 == (old(self)@.1 + 1) % (old(self)@.0.len() as int)
                &&& r == old(self)@.0[final(self)@.1]
            },
    {
        proof {
            use_type_invariant(&*self);
        }
        if self.options.len() == 0 {
            return AttackId::Pincer;
        }
        self.index = (self.index + 1) % self.options.len();
        self.current()
    }
}

/// The player's weapon loadout.
#[derive(Debug)]
pub struct AttackLoadout {
    pub cycle: AttackCycle,
}

impl AttackLoadout {
    /// Pistol first, then bomb.
    pub fn default_loadout() -> (r: AttackLoadout)
        ensures
            r.cycle@ == (seq![AttackId::Pistol, AttackId::Bomb], 0int),
    {
        let mut options: Vec<AttackId> = Vec::new();
        options.push(AttackId::Pistol);
        options.push(AttackId::Bomb);
        assert(options@ =~= seq![AttackId::Pistol, AttackId::Bomb]);
        AttackLoadout { cycle: AttackCycle::new(options) }
    }

    pub fn current(&self) -> (r: AttackId)
        requires
            self.cycle@.0.len() > 0,
        ensures
            r == self.cycle@.0[self.cycle@.1],
    {
        self.cycle.current()
    }

    pub fn cycle(&mut self) -> (r: AttackId)
        ensures
            final(self).cycle@.0 == old(self).cycle@.0,
            if old(self).cycle@.0.len() == 0 {
                r == AttackId::Pincer && final(self).cycle@ == old(self).cycle@
            } else {
                &&& final(self).cycle@.1 == (old(self).cycle@.1 + 1) % (old(self).cycle@.0.len() as int)
                &&& r == old(self).cycle@.0[final(self).cycle@.1]
            },
    {
        self.cycle.cycle()
    }
}

/// Cycling through a non-empty loadout as many times as it has weapons
/// comes back to the starting weapon.
pub proof fn lemma_cycle_returns_after_full_turn(len: int, start: int)
    requires
        len > 0,
        0 <= start < len,
    ensures
        ((start + len) % len) == start,
{
    vstd::arithmetic::div_mod::lemma_mod_add_multiples_vanish(start, len);
    vstd::arithmetic::div_mod::lemma_small_mod(start as nat, len as nat);
}


/// The targets one attack has hit, by target id, each with the time left
/// before the attack may hit it again (`None`: never again).
#[derive(Debug)]
pub struct AttackHitTracker {
    records: HashMap<u64, Option<u64>>,
}

/// Cooldown left after `delta` more nanoseconds.
pub open spec fn cooled(c: Option<u64>, delta: u64) -> Option<u64> {
    match c {
        Some(left) => Some(if left >= delta {
            (left - delta) as u64
        } else {
            0
        }),
        None => None,
    }
}

/// Cooldown a fresh hit leaves under `policy`.
pub open spec fn hit_cooldown(policy: AttackHitPolicy) -> Option<u64> {
    match policy {
        AttackHitPolicy::Single => None,
        AttackHitPolicy::Repeat { cooldown_ns, .. } => Some(cooldown_ns),
    }
}

/// A target may be hit when the attack never hit it, or, for repeated hits,
/// once its cooldown has run out.
pub open spec fn spec_can_hit(record: Option<Option<u64>>, policy: AttackHitPolicy) -> bool {
    match record {
        None => true,
        Some(c) => policy is Repeat && c == Some(0u64),
    }
}

impl AttackHitTracker {
    pub closed spec fn records(&self) -> Map<u64, Option<u64>> {
        self.records@
    }

    /// The record kept for `target`, if the attack hit it.
    pub open spec fn record(&self, target: u64) -> Option<Option<u64>> {
        if self.records().contains_key(target) {
            Some(self.records()[target])
        } else {
            None
        }
    }

    pub fn new() -> (r: AttackHitTracker)
        ensures
            forall|t: u64| r.record(t) is None,
    {
        AttackHitTracker { records: HashMap::new() }
    }

    /// The record kept for `target`.
    fn lookup(&self, target: u64) -> (r: Option<Option<u64>>)
        ensures
            r == self.record(target),
    {
        broadcast use vstd::std_specs::hash::group_hash_axioms;
        match self.records.get(&target) {
            Some(c) => Some(*c),
            None => None,
        }
    }

    /// Runs every cooldown down by `delta_ns`.
    pub fn tick(&mut self, delta_ns: u64)
        ensures
            forall|t: u64| #[trigger] final(self).record(t) == match old(self).record(t) {
                Some(c) => Some(cooled(c, delta_ns)),
                None => None,
            },
    {
        broadcast use vstd::std_specs::hash::group_hash_axioms;
        let ghost start = self.records@;
        let mut next: HashMap<u64, Option<u64>> = HashMap::new();
        for entry in it: self.records.iter()
            invariant
                start == self.records@,
                forall|i: int|
                    0 <= i < it.seq().len() ==> start.contains_key(*it.seq()[i].0) && start[*it.seq()[i].0]
                        == *it.seq()[i].1,
                forall|t: u64|
                    #[trigger] start.contains_key(t) ==> next@.contains_key(t) || exists|i: int|
                        it.index() <= i < it.seq().len() && *it.seq()[i].0 == t,
                forall|t: u64| #[trigger]
                    next@.contains_key(t) ==> start.contains_key(t) && next@[t] == cooled(start[t], delta_ns),
        {
            let (target, cooldown) = entry;
            let left = match *cooldown {
                Some(left) => Some(left.saturating_sub(delta_ns)),
                None => None,
            };
            next.insert(*target, left);
        }
        self.records = next;
    }

    pub fn can_hit(&self, target: u64, policy: AttackHitPolicy) -> (r: bool)
        ensures
            r == spec_can_hit(self.record(target), policy),
    {
        match self.lookup(target) {
            None => true,
            Some(cooldown_ns) => match policy {
                AttackHitPolicy::Single => false,
                AttackHitPolicy::Repeat { .. } => cooldown_ns == Some(0u64),
            },
        }
    }

    /// Whether the attack has hit `target`.
    pub fn has_hit(&self, target: u64) -> (r: bool)
        ensures
            r == self.record(target) is Some,
    {
        self.lookup(target).is_some()
    }

    /// Records a hit on `target`.
    pub fn register_hit(&mut self, target: u64, policy: AttackHitPolicy)
        ensures
            forall|t: u64| #[trigger] final(self).record(t) == if t == target {
                Some(hit_cooldown(policy))
            } else {
                old(self).record(t)
            },
    {
        broadcast use vstd::std_specs::hash::group_hash_axioms;
        let cooldown_ns = match policy {
            AttackHitPolicy::Single => None,
            AttackHitPolicy::Repeat { cooldown_ns, .. } => Some(cooldown_ns),
        };
        self.records.insert(target, cooldown_ns);
    }

    /// Lets `to` share what the attack remembers of `from` (a target that
    /// splits or hands over keeps its hit state).
    pub fn inherit_hit(&mut self, from: u64, to: u64)
        ensures
            forall|t: u64| #[trigger] final(self).record(t) == match old(self).record(from) {
                Some(c) => if t == to {
                    Some(c)
                } else {
                    old(self).record(t)
                },
                None => old(self).record(t),
            },
    {
        broadcast use vstd::std_specs::hash::group_hash_axioms;
        if let Some(cooldown_ns) = self.lookup(from) {
            self.records.insert(to, cooldown_ns);
        }
    }
}

/// The authored damage of every attack: the pincer 70, the pistol 30, the
/// machine gun 20, the thrown bomb nothing itself and its explosion 60; an
/// attack that hits the same target again deals less on each repeat than on
/// its first hit.
pub proof fn lemma_attack_damage_table(id: AttackId)
    ensures
        spec_attack_damage(id) == match id {
            AttackId::Pincer => 70u32,
            AttackId::Pistol => 30u32,
            AttackId::MachineGun => 20u32,
            AttackId::Bomb => 0u32,
            AttackId::BombExplosion => 60u32,
        },
        spec_hit_policy(id) matches AttackHitPolicy::Repeat { repeat_damage, .. } ==> 0 < repeat_damage
            < spec_attack_damage(id),
{
}


/// The fire and hit policies of every attack: only the machine gun fires
/// while held, 180 ms after the press and then every 80 ms; the pincer hits
/// a target again every 180 ms for 35, the bomb explosion every 250 ms for
/// 25, and every other attack hits a target once.
pub proof fn lemma_attack_policy_table(id: AttackId)
    ensures
        spec_input_policy(id) == if id == AttackId::MachineGun {
            AttackInputPolicy::Hold { warmup_ns: 180_000_000u64, interval_ns: 80_000_000u64 }
        } else {
            AttackInputPolicy::Release
        },
        spec_hit_policy(id) == match id {
            AttackId::Pincer => AttackHitPolicy::Repeat { cooldown_ns: 180_000_000u64, repeat_damage: 35u32 },
            AttackId::BombExplosion => AttackHitPolicy::Repeat {
                cooldown_ns: 250_000_000u64,
                repeat_damage: 25u32,
            },
            _ => AttackHitPolicy::Single,
        },
{
}

} // verus!
