//! Sprite base names of every spawnable entity: the single source of truth
//! for sprite file naming.

use crate::enemy::EnemyType;
use vstd::prelude::*;

verus! {

/// Stage scenery objects.
#[derive(Clone, Copy, Debug, PartialEq, Eq, Structural)]
pub enum ObjectType {
    BenchBig,
    BenchSmall,
    Fibertree,
    RugparkSign,
}

/// Pickups.
#[derive(Clone, Copy, Debug, PartialEq, Eq, Structural)]
pub enum PickupType {
    SmallHealthpack,
    BigHealthpack,
}

/// Destructible props.
#[derive(Clone, Copy, Debug, PartialEq, Eq, Structural)]
pub enum DestructibleType {
    Lamp,
    Trashcan,
    Crystal,
    Mushroom,
}

impl ObjectType {
    pub open spec fn spec_sprite_base_name(&self) -> &'static str {
        match *self {
            ObjectType::BenchBig => "bench_big",
            ObjectType::BenchSmall => "bench_small",
            ObjectType::Fibertree => "fiber_tree",
            ObjectType::RugparkSign => "rugpark_sign",
        }
    }

    /// Sprite base name of this object.
    pub fn sprite_base_name(&self) -> (r: &'static str)
        ensures
            r == self.spec_sprite_base_name(),
    {
        match self {
            ObjectType::BenchBig => "bench_big",
            ObjectType::BenchSmall => "bench_small",
            ObjectType::Fibertree => "fiber_tree",
            ObjectType::RugparkSign => "rugpark_sign",
        }
    }
}

impl PickupType {
    pub open spec fn spec_sprite_base_name(&self) -> &'static str {
        match *self {
            PickupType::SmallHealthpack => "health_4",
            PickupType::BigHealthpack => "health_6",
        }
    }

    /// Sprite base name of this pickup.
    pub fn sprite_base_name(&self) -> (r: &'static str)
        ensures
            r == self.spec_sprite_base_name(),
    {
        match self {
            PickupType::SmallHealthpack => "health_4",
            PickupType::BigHealthpack => "health_6",
        }
    }
}

impl DestructibleType {
    pub open spec fn spec_sprite_base_name(&self) -> &'static str {
        match *self {
            DestructibleType::Lamp => "lamp",
            DestructibleType::Trashcan => "trashcan",
            DestructibleType::Crystal => "crystal",
            DestructibleType::Mushroom => "mushroom",
        }
    }

    /// Sprite base name of this destructible.
    pub fn sprite_base_name(&self) -> (r: &'static str)
        ensures
            r == self.spec_sprite_base_name(),
    {
        match self {
            DestructibleType::Lamp => "lamp",
            DestructibleType::Trashcan => "trashcan",
            DestructibleType::Crystal => "crystal",
            DestructibleType::Mushroom => "mushroom",
        }
    }
}

/// Sprite base name mapping for an enemy.
#[derive(Debug)]
pub struct EnemySpriteName {
    pub enemy_type: EnemyType,
    pub base_name: String,
}

/// Sprite base name mapping for an object.
#[derive(Debug)]
pub struct ObjectSpriteName {
    pub object_type: ObjectType,
    pub base_name: String,
}

/// Sprite base name mapping for a pickup.
#[derive(Debug)]
pub struct PickupSpriteName {
    pub pickup_type: PickupType,
    pub base_name: String,
}

/// Sprite base name mapping for a destructible.
#[derive(Debug)]
pub struct DestructibleSpriteName {
    pub destructible_type: DestructibleType,
    pub base_name: String,
}

/// Complete sprite name registry.
#[derive(Debug)]
pub struct SpriteNameRegistry {
    pub enemies: Vec<EnemySpriteName>,
    pub objects: Vec<ObjectSpriteName>,
    pub pickups: Vec<PickupSpriteName>,
    pub destructibles: Vec<DestructibleSpriteName>,
}

fn enemy_entry(enemy_type: EnemyType) -> (r: EnemySpriteName)
    ensures
        r.enemy_type == enemy_type,
        r.base_name@ == enemy_type.spec_sprite_base_name()@,
{
    EnemySpriteName { enemy_type, base_name: enemy_type.sprite_base_name().to_owned() }
}

fn object_entry(object_type: ObjectType) -> (r: ObjectSpriteName)
    ensures
        r.object_type == object_type,
        r.base_name@ == object_type.spec_sprite_base_name()@,
{
    ObjectSpriteName { object_type, base_name: object_type.sprite_base_name().to_owned() }
}

fn pickup_entry(pickup_type: PickupType) -> (r: PickupSpriteName)
    ensures
        r.pickup_type == pickup_type,
        r.base_name@ == pickup_type.spec_sprite_base_name()@,
{
    PickupSpriteName { pickup_type, base_name: pickup_type.sprite_base_name().to_owned() }
}

fn destructible_entry(destructible_type: DestructibleType) -> (r: DestructibleSpriteName)
    ensures
        r.destructible_type == destructible_type,
        r.base_name@ == destructible_type.spec_sprite_base_name()@,
{
    DestructibleSpriteName {
        destructible_type,
        base_name: destructible_type.sprite_base_name().to_owned(),
    }
}

impl SpriteNameRegistry {
    /// The registry of all sprite base names; every entry's base name is the
    /// one its type reports.
    pub fn new() -> (r: SpriteNameRegistry)
        ensures
            r.enemies@.len() == 6,
            r.enemies@[0].enemy_type == EnemyType::Mosquito,
            r.enemies@[1].enemy_type == EnemyType::Spidey,
            r.enemies@[2].enemy_type == EnemyType::Tardigrade,
            r.enemies@[3].enemy_type == EnemyType::Marauder,
            r.enemies@[4].enemy_type == EnemyType::Spidomonsta,
            r.enemies@[5].enemy_type == EnemyType::Kyle,
            r.objects@.len() == 4,
            r.objects@[0].object_type == ObjectType::BenchBig,
            r.objects@[1].object_type == ObjectType::BenchSmall,
            r.objects@[2].object_type == ObjectType::Fibertree,
            r.objects@[3].object_type == ObjectType::RugparkSign,
            r.pickups@.len() == 2,
            r.pickups@[0].pickup_type == PickupType::SmallHealthpack,
            r.pickups@[1].pickup_type == PickupType::BigHealthpack,
            r.destructibles@.len() == 4,
            r.destructibles@[0].destructible_type == DestructibleType::Lamp,
            r.destructibles@[1].destructible_type == DestructibleType::Trashcan,
            r.destructibles@[2].destructible_type == DestructibleType::Crystal,
            r.destructibles@[3].destructible_type == DestructibleType::Mushroom,
            forall|i: int|
                0 <= i < r.enemies@.len() ==> (#[trigger] r.enemies@[i]).base_name@
                    == r.enemies@[i].enemy_type.spec_sprite_base_name()@,
            forall|i: int|
                0 <= i < r.objects@.len() ==> (#[trigger] r.objects@[i]).base_name@
                    == r.objects@[i].object_type.spec_sprite_base_name()@,
            forall|i: int|
                0 <= i < r.pickups@.len() ==> (#[trigger] r.pickups@[i]).base_name@
                    == r.pickups@[i].pickup_type.spec_sprite_base_name()@,
            forall|i: int|
                0 <= i < r.destructibles@.len() ==> (#[trigger] r.destructibles@[i]).base_name@
                    == r.destructibles@[i].destructible_type.spec_sprite_base_name()@,
    {
        let mut enemies: Vec<EnemySpriteName> = Vec::new();
        enemies.push(enemy_entry(EnemyType::Mosquito));
        enemies.push(enemy_entry(EnemyType::Spidey));
        enemies.push(enemy_entry(EnemyType::Tardigrade));
        enemies.push(enemy_entry(EnemyType::Marauder));
        enemies.push(enemy_entry(EnemyType::Spidomonsta));
        enemies.push(enemy_entry(EnemyType::Kyle));
        let mut objects: Vec<ObjectSpriteName> = Vec::new();
        objects.push(object_entry(ObjectType::BenchBig));
        objects.push(object_entry(ObjectType::BenchSmall));
        objects.push(object_entry(ObjectType::Fibertree));
        objects.push(object_entry(ObjectType::RugparkSign));
        let mut pickups: Vec<PickupSpriteName> = Vec::new();
        pickups.push(pickup_entry(PickupType::SmallHealthpack));
        pickups.push(pickup_entry(PickupType::BigHealthpack));
        let mut destructibles: Vec<DestructibleSpriteName> = Vec::new();
        destructibles.push(destructible_entry(DestructibleType::Lamp));
        destructibles.push(destructible_entry(DestructibleType::Trashcan));
        destructibles.push(destructible_entry(DestructibleType::Crystal));
        destructibles.push(destructible_entry(DestructibleType::Mushroom));
        SpriteNameRegistry { enemies, objects, pickups, destructibles }
    }

    /// Looks up the registered base name of an enemy type.
    pub fn enemy_base_name(&self, enemy_type: EnemyType) -> (r: Option<&String>)
        ensures
            match r {
                Some(s) => exists|i: int|
                    0 <= i < self.enemies@.len() && (#[trigger] self.enemies@[i]).enemy_type == enemy_type
                        && self.enemies@[i].base_name == *s,
                None => forall|i: int|
                    0 <= i < self.enemies@.len() ==> (#[trigger] self.enemies@[i]).enemy_type != enemy_type,
            },
    {
        let n = self.enemies.len();
        for i in 0..n
            invariant
                n == self.enemies.len(),
                forall|j: int| 0 <= j < i ==> (#[trigger] self.enemies@[j]).enemy_type != enemy_type,
        {
            if self.enemies[i].enemy_type == enemy_type {
                return Some(&self.enemies[i].base_name);
            }
        }
        None
    }
}

} // verus!
