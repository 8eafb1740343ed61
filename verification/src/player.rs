//! The player's defaults.

use vstd::prelude::*;
use crate::attack::{AttackTimer, HitVolume};
use crate::level::EntityInstance;
use crate::movement::PlayerMovementInfo;
use crate::stats::{AttackPower, DamageResistance, Health};
use crate::vector::Vec2;

verus! {

/// The player's health: 10 points.
pub const HEALTH: i32 = 10_000;

/// The damage that the player's attack deals: 10 points.
pub const ATTACK_POWER: i32 = 10_000;

/// The player's resistance to damage: 10 points.
pub const DAMAGE_RESISTANCE: i32 = 10_000;

/// For how long the player's attack window is open: a tenth of a second, in
/// microseconds.
pub const ATTACK_DURATION_MICROS: u64 = 100_000;

/// The half width and the half height of the hit-volume of the player's
/// attack: 20 pixels.
pub const HITBOX_HALF_EXTENT: i32 = 20_000;

/// The player's acceleration: 800 pixels per second, per second.
pub const PLAYER_ACCELERATION: u32 = 800_000;

/// The player's deceleration: 700 pixels per second, per second.
pub const PLAYER_DECELERATION: u32 = 700_000;

/// The player's maximum speed: 200 pixels per second.
pub const PLAYER_MAX_SPEED: u32 = 200_000;

/// The hit-volume of the player's attack: 40 by 40 pixels, centred on the
/// player.
pub open spec fn spec_player_hit_volume() -> HitVolume {
    HitVolume {
        half_width: HITBOX_HALF_EXTENT,
        half_height: HITBOX_HALF_EXTENT,
        offset: Vec2 { x: 0, y: 0 },
    }
}

/// The hit-volume of the player's attack.
pub fn player_hit_volume() -> (r: HitVolume)
    ensures
        r == spec_player_hit_volume(),
{
    HitVolume {
        half_width: HITBOX_HALF_EXTENT,
        half_height: HITBOX_HALF_EXTENT,
        offset: Vec2 { x: 0, y: 0 },
    }
}

/// The player's movement profile.
pub open spec fn spec_player_movement() -> PlayerMovementInfo {
    PlayerMovementInfo {
        acceleration: PLAYER_ACCELERATION,
        deceleration: PLAYER_DECELERATION,
        max_speed: PLAYER_MAX_SPEED,
    }
}

/// The player's movement profile.
pub fn player_movement() -> (r: PlayerMovementInfo)
    ensures
        r == spec_player_movement(),
{
    PlayerMovementInfo {
        acceleration: PLAYER_ACCELERATION,
        deceleration: PLAYER_DECELERATION,
        max_speed: PLAYER_MAX_SPEED,
    }
}

/// What a player starts with.
#[derive(Clone, Copy, Debug, PartialEq, Eq, Structural)]
pub struct PlayerStatsBundle {
    pub health: Health,
    pub attack_power: AttackPower,
    pub damage_resistance: DamageResistance,
    pub player_movement_info: PlayerMovementInfo,
    pub attack_duration: AttackTimer,
}

impl PlayerStatsBundle {
    /// What every player starts with.
    pub open spec fn initial() -> PlayerStatsBundle {
        PlayerStatsBundle {
            health: Health(HEALTH),
            attack_power: AttackPower(ATTACK_POWER),
            damage_resistance: DamageResistance(DAMAGE_RESISTANCE),
            player_movement_info: spec_player_movement(),
            attack_duration: AttackTimer { elapsed: 0, duration: ATTACK_DURATION_MICROS },
        }
    }
}

impl vstd::std_specs::convert::FromSpecImpl<EntityInstance> for PlayerStatsBundle {
    open spec fn obeys_from_spec() -> bool {
        true
    }

    open spec fn from_spec(entity_instance: EntityInstance) -> PlayerStatsBundle {
        PlayerStatsBundle::initial()
    }
}

impl From<EntityInstance> for PlayerStatsBundle {
    /// The player's defaults, whatever the level says of the entity.
    fn from(entity_instance: EntityInstance) -> (r: PlayerStatsBundle) {
        PlayerStatsBundle {
            health: Health(HEALTH),
            attack_power: AttackPower(ATTACK_POWER),
            damage_resistance: DamageResistance(DAMAGE_RESISTANCE),
            player_movement_info: player_movement(),
            attack_duration: AttackTimer::new(ATTACK_DURATION_MICROS),
        }
    }
}

} // verus!
