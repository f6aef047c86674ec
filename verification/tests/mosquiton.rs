use carcinisation::depth::Depth;
use carcinisation::enemy::{uses_flying_wing_override, EnemyMosquiton};

#[test]
fn depth_7_allows_ranged_attack() {
    assert!(EnemyMosquiton::can_ranged_attack(&Depth::Seven));
}

#[test]
fn depth_8_blocks_ranged_attack() {
    assert!(!EnemyMosquiton::can_ranged_attack(&Depth::Eight));
}

#[test]
fn depth_9_blocks_ranged_attack() {
    assert!(!EnemyMosquiton::can_ranged_attack(&Depth::Nine));
}

#[test]
fn all_shallow_depths_allow_ranged_attack() {
    for d in 0..=7_i8 {
        let depth = Depth::from_i8(d).unwrap();
        assert!(
            EnemyMosquiton::can_ranged_attack(&depth),
            "depth {d} should allow ranged attack"
        );
    }
}

#[test]
fn all_deep_depths_block_ranged_attack() {
    for d in 8..=9_i8 {
        let depth = Depth::from_i8(d).unwrap();
        assert!(
            !EnemyMosquiton::can_ranged_attack(&depth),
            "depth {d} should block ranged attack"
        );
    }
}

#[test]
fn flying_tags_use_wing_override() {
    assert!(uses_flying_wing_override("idle_fly"));
    assert!(uses_flying_wing_override("shoot_fly"));
    assert!(uses_flying_wing_override("melee_fly"));
    assert!(!uses_flying_wing_override("falling"));
    assert!(!uses_flying_wing_override("death_fly"));
}
