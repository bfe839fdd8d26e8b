use volley_core::bullets::{BulletConfig, BulletGroup, BulletSystem, Enemy};
use volley_core::capsule::Capsule;
use volley_core::geom::Vec3;
use volley_core::quat::Quat;

// One fixed-point unit is 1/100 of a world unit; one tick is 1/100 second.
fn test_config() -> BulletConfig {
    BulletConfig {
        speed: 50,
        lifetime: 20,
        max_bullet_groups: 10,
        bullet_collider: Capsule::new(30, 3),
        enemy_collider: Capsule::new(40, 8),
    }
}

fn v(x: i64, y: i64, z: i64) -> Vec3 {
    Vec3::new(x, y, z)
}

fn spawn_straight(sys: &mut BulletSystem, spawn: Vec3, count: usize) -> bool {
    // All bullets head in -z with unit direction at scale 1024.
    let dirs = vec![v(0, 0, -1024); count];
    let rots = vec![Quat::from_xyzw(0, 0, 0, 1024); count];
    sys.create_bullets(spawn, &dirs, &rots)
}

#[test]
fn volley_ranges_stay_contiguous() {
    // For any sequence of spawns and frame advances, the volleys' index
    // ranges are contiguous and in spawn order.
    let mut sys = BulletSystem::new(test_config());
    let mut enemies: Vec<Enemy> = Vec::new();
    assert!(spawn_straight(&mut sys, v(0, 0, 500), 4));
    sys.update_bullets(3, &mut enemies);
    assert!(spawn_straight(&mut sys, v(0, 0, 400), 2));
    sys.update_bullets(2, &mut enemies);
    assert!(spawn_straight(&mut sys, v(0, 0, 300), 3));
    let mut expected_start: usize = 0;
    for g in sys.bullet_groups.iter() {
        assert_eq!(g.start_index, expected_start);
        expected_start += g.group_size;
    }
    assert_eq!(sys.bullet_positions.len(), expected_start);
    assert_eq!(sys.bullet_directions.len(), expected_start);
    assert_eq!(sys.bullet_rotations.len(), expected_start);
}

#[test]
fn spawn_rejected_at_capacity() {
    let mut config = test_config();
    config.max_bullet_groups = 2;
    let mut sys = BulletSystem::new(config);
    assert!(spawn_straight(&mut sys, v(0, 0, 500), 2));
    assert!(spawn_straight(&mut sys, v(0, 0, 500), 2));
    let len_before = sys.bullet_positions.len();
    let groups_before = sys.bullet_groups.len();
    // The third volley exceeds the configured maximum: rejected, nothing
    // changes.
    assert!(!spawn_straight(&mut sys, v(0, 0, 500), 2));
    assert_eq!(sys.bullet_positions.len(), len_before);
    assert_eq!(sys.bullet_groups.len(), groups_before);
}

#[test]
fn expiry_compacts_buffers_and_reindexes() {
    let mut sys = BulletSystem::new(test_config());
    let mut enemies: Vec<Enemy> = Vec::new();
    assert!(spawn_straight(&mut sys, v(0, 0, 500), 4));
    sys.update_bullets(5, &mut enemies);
    assert!(spawn_straight(&mut sys, v(0, 0, 500), 2));
    assert_eq!(sys.bullet_positions.len(), 6);
    // Advance 15 more ticks: the first volley's 20-tick lifetime runs out,
    // while the younger second volley still has 5 ticks left.
    sys.update_bullets(15, &mut enemies);
    assert_eq!(sys.bullet_groups.len(), 1);
    // The surviving volley lost exactly the expired volley's 4 bullets and
    // was shifted to the front.
    assert_eq!(sys.bullet_positions.len(), 2);
    assert_eq!(sys.bullet_groups[0].start_index, 0);
    assert_eq!(sys.bullet_groups[0].group_size, 2);
    // And after its own lifetime passes, everything is reclaimed.
    sys.update_bullets(5, &mut enemies);
    assert_eq!(sys.bullet_groups.len(), 0);
    assert_eq!(sys.bullet_positions.len(), 0);
    assert_eq!(sys.bullet_directions.len(), 0);
    assert_eq!(sys.bullet_rotations.len(), 0);
}

#[test]
fn positions_integrate_along_direction() {
    let mut sys = BulletSystem::new(test_config());
    let mut enemies: Vec<Enemy> = Vec::new();
    assert!(spawn_straight(&mut sys, v(0, 0, 500), 1));
    sys.update_bullets(2, &mut enemies);
    // Two ticks at speed 50 along -z.
    assert_eq!(sys.bullet_positions[0], v(0, 0, 400));
}

#[test]
fn group_constructor_keeps_fields() {
    let g = BulletGroup::new(3, 7, 20);
    assert_eq!(g.start_index, 3);
    assert_eq!(g.group_size, 7);
    assert_eq!(g.time_to_live, 20);
}

#[test]
fn bullet_kills_enemy_in_expected_frame() {
    // One enemy stationary at the origin (capsule 0.4 high, radius 0.08);
    // one bullet (capsule 0.3, radius 0.03) fired from z = 6.0 straight at
    // it at 0.5 units per tick.  The capsule envelopes meet when the bullet
    // center reaches z = 0.26, so the kill lands exactly on tick 12.
    let mut sys = BulletSystem::new(test_config());
    let mut enemies = vec![Enemy {
        position: v(0, 0, 0),
        direction: v(1024, 0, 0),
        is_alive: true,
    }];
    assert!(spawn_straight(&mut sys, v(0, 0, 600), 1));
    for _frame in 0..11 {
        let impacts = sys.update_bullets(1, &mut enemies);
        assert!(enemies[0].is_alive);
        assert!(impacts.is_empty());
    }
    let impacts = sys.update_bullets(1, &mut enemies);
    assert!(!enemies[0].is_alive);
    assert_eq!(impacts.len(), 1);
    assert_eq!(impacts[0], v(0, 0, 0));
}

#[test]
fn far_enemy_survives() {
    let mut sys = BulletSystem::new(test_config());
    let mut enemies = vec![Enemy {
        position: v(2000, 0, 0),
        direction: v(0, 0, 1024),
        is_alive: true,
    }];
    assert!(spawn_straight(&mut sys, v(0, 0, 600), 4));
    for _frame in 0..25 {
        let impacts = sys.update_bullets(1, &mut enemies);
        assert!(enemies[0].is_alive);
        assert!(impacts.is_empty());
    }
}

#[test]
fn dead_enemy_stays_dead_and_is_not_reported_again() {
    let mut sys = BulletSystem::new(test_config());
    let mut enemies = vec![Enemy {
        position: v(0, 0, 0),
        direction: v(1024, 0, 0),
        is_alive: false,
    }];
    assert!(spawn_straight(&mut sys, v(0, 0, 100), 1));
    let impacts = sys.update_bullets(1, &mut enemies);
    assert!(!enemies[0].is_alive);
    assert!(impacts.is_empty());
}
