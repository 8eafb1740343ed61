use combat_core::attack::{AttackTimer, HitVolume};
use combat_core::collider::{Collider, ColliderBundle, GravityScale, LockedAxes, RigidBody};
use combat_core::level::EntityInstance;
use combat_core::movement::{PlayerMovementInfo, Velocity};
use combat_core::player::{
    player_hit_volume, player_movement, PlayerStatsBundle, ATTACK_DURATION_MICROS, ATTACK_POWER,
    DAMAGE_RESISTANCE, HEALTH, HITBOX_HALF_EXTENT,
};
use combat_core::stats::{AttackPower, DamageResistance, Health};
use combat_core::vector::Vec2;

fn entity_named(identifier: &str) -> EntityInstance {
    EntityInstance { identifier: String::from(identifier), field_instances: Vec::new() }
}

const AT_REST: Velocity = Velocity { linvel: Vec2 { x: 0, y: 0 } };

#[test]
fn the_player_gets_the_players_body() {
    assert_eq!(
        ColliderBundle::from(entity_named("Player")),
        ColliderBundle {
            collider: Collider::Cuboid(7_500, 11_000),
            rigid_body: RigidBody::Dynamic,
            velocity: AT_REST,
            rotation_constraints: LockedAxes { rotation_locked: true },
            gravity_scale: GravityScale(0),
        }
    );
}

#[test]
fn an_enemy_gets_an_enemys_body() {
    assert_eq!(
        ColliderBundle::from(entity_named("Enemy")),
        ColliderBundle {
            collider: Collider::Cuboid(8_000, 6_000),
            rigid_body: RigidBody::Fixed,
            velocity: AT_REST,
            rotation_constraints: LockedAxes { rotation_locked: true },
            gravity_scale: GravityScale(0),
        }
    );
}

#[test]
fn any_other_entity_gets_the_default_body() {
    let default = ColliderBundle {
        collider: Collider::Ball(500),
        rigid_body: RigidBody::Dynamic,
        velocity: AT_REST,
        rotation_constraints: LockedAxes { rotation_locked: false },
        gravity_scale: GravityScale(1_000),
    };
    assert_eq!(ColliderBundle::default(), default);
    for identifier in ["", "player", "Enemy ", "Fence", "PlayerEnemy"] {
        assert_eq!(ColliderBundle::from(entity_named(identifier)), default);
    }
}

#[test]
fn every_player_starts_with_the_same_stats() {
    let expected = PlayerStatsBundle {
        health: Health(10_000),
        attack_power: AttackPower(10_000),
        damage_resistance: DamageResistance(10_000),
        player_movement_info: PlayerMovementInfo {
            acceleration: 800_000,
            deceleration: 700_000,
            max_speed: 200_000,
        },
        attack_duration: AttackTimer { elapsed: 0, duration: 100_000 },
    };
    assert_eq!(PlayerStatsBundle::from(entity_named("Player")), expected);
    assert_eq!(PlayerStatsBundle::from(entity_named("anything")), expected);
}

#[test]
fn the_players_defaults_are_ten_points_and_a_tenth_of_a_second() {
    assert_eq!(HEALTH, 10_000);
    assert_eq!(ATTACK_POWER, 10_000);
    assert_eq!(DAMAGE_RESISTANCE, 10_000);
    assert_eq!(ATTACK_DURATION_MICROS, 100_000);
    assert_eq!(HITBOX_HALF_EXTENT, 20_000);
    assert_eq!(
        player_hit_volume(),
        HitVolume { half_width: 20_000, half_height: 20_000, offset: Vec2 { x: 0, y: 0 } }
    );
    assert_eq!(
        player_movement(),
        PlayerMovementInfo { acceleration: 800_000, deceleration: 700_000, max_speed: 200_000 }
    );
}
