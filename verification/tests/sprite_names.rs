use carcinisation::enemy::EnemyType;
use carcinisation::sprite_names::{DestructibleType, ObjectType, PickupType, SpriteNameRegistry};

#[test]
fn registry_matches_sprite_base_name_methods() {
    let registry = SpriteNameRegistry::new();

    for enemy in [
        EnemyType::Mosquito,
        EnemyType::Spidey,
        EnemyType::Tardigrade,
        EnemyType::Marauder,
        EnemyType::Spidomonsta,
        EnemyType::Kyle,
    ] {
        let entry = registry
            .enemies
            .iter()
            .find(|entry| entry.enemy_type == enemy)
            .map(|entry| entry.base_name.as_str())
            .unwrap();
        assert_eq!(enemy.sprite_base_name(), entry, "Enemy base name mismatch for {:?}", enemy);
    }

    for object in [
        ObjectType::BenchBig,
        ObjectType::BenchSmall,
        ObjectType::Fibertree,
        ObjectType::RugparkSign,
    ] {
        let entry = registry
            .objects
            .iter()
            .find(|entry| entry.object_type == object)
            .map(|entry| entry.base_name.as_str())
            .unwrap();
        assert_eq!(object.sprite_base_name(), entry, "Object base name mismatch for {:?}", object);
    }

    for pickup in [PickupType::SmallHealthpack, PickupType::BigHealthpack] {
        let entry = registry
            .pickups
            .iter()
            .find(|entry| entry.pickup_type == pickup)
            .map(|entry| entry.base_name.as_str())
            .unwrap();
        assert_eq!(pickup.sprite_base_name(), entry, "Pickup base name mismatch for {:?}", pickup);
    }

    for (destructible, expected_base) in [
        (DestructibleType::Lamp, "lamp"),
        (DestructibleType::Trashcan, "trashcan"),
        (DestructibleType::Crystal, "crystal"),
        (DestructibleType::Mushroom, "mushroom"),
    ] {
        let entry = registry
            .destructibles
            .iter()
            .find(|entry| entry.destructible_type == destructible)
            .map(|entry| entry.base_name.as_str())
            .unwrap();
        assert_eq!(expected_base, entry, "Destructible base name mismatch for {:?}", destructible);
    }
}

#[test]
fn enemy_base_name_lookup_finds_registered_species() {
    let registry = SpriteNameRegistry::new();
    assert_eq!(
        registry.enemy_base_name(EnemyType::Spidey).map(|s| s.as_str()),
        Some(EnemyType::Spidey.sprite_base_name())
    );
}
