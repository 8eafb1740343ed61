//! The physical body that an entity of a level gets, by the name of its
//! kind. Lengths and factors are fixed-point (thousandths).

use vstd::prelude::*;
use crate::level::EntityInstance;
use crate::movement::Velocity;
use crate::vector::Vec2;

verus! {

/// The shape of a body.
#[derive(Clone, Copy, Debug, PartialEq, Eq, Structural)]
pub enum Collider {
    /// A disc of this radius.
    Ball(i32),
    /// A rectangle of this half width and this half height.
    Cuboid(i32, i32),
}

/// How a body answers to forces.
#[derive(Clone, Copy, Debug, PartialEq, Eq, Structural)]
pub enum RigidBody {
    /// Moved by forces and contacts.
    Dynamic,
    /// Moved by nothing.
    Fixed,
}

/// Which movements of a body are locked.
#[derive(Clone, Copy, Debug, PartialEq, Eq, Structural)]
pub struct LockedAxes {
    /// The body cannot rotate.
    pub rotation_locked: bool,
}

/// The factor on gravity for a body.
#[derive(Clone, Copy, Debug, PartialEq, Eq, Structural)]
pub struct GravityScale(pub i32);

/// The physical body of an entity.
#[derive(Clone, Copy, Debug, PartialEq, Eq, Structural)]
pub struct ColliderBundle {
    pub collider: Collider,
    pub rigid_body: RigidBody,
    pub velocity: Velocity,
    pub rotation_constraints: LockedAxes,
    pub gravity_scale: GravityScale,
}

impl ColliderBundle {
    /// The body of the player: 15 by 22 pixels, dynamic, at rest, upright,
    /// without gravity.
    pub open spec fn player() -> ColliderBundle {
        ColliderBundle {
            collider: Collider::Cuboid(7_500, 11_000),
            rigid_body: RigidBody::Dynamic,
            velocity: Velocity { linvel: Vec2 { x: 0, y: 0 } },
            rotation_constraints: LockedAxes { rotation_locked: true },
            gravity_scale: GravityScale(0),
        }
    }

    /// The body of an enemy: 16 by 12 pixels, fixed, at rest, upright,
    /// without gravity.
    pub open spec fn enemy() -> ColliderBundle {
        ColliderBundle {
            collider: Collider::Cuboid(8_000, 6_000),
            rigid_body: RigidBody::Fixed,
            velocity: Velocity { linvel: Vec2 { x: 0, y: 0 } },
            rotation_constraints: LockedAxes { rotation_locked: true },
            gravity_scale: GravityScale(0),
        }
    }

    /// The body of an entity of any other kind: a disc of half a pixel's
    /// radius, dynamic, at rest, free to rotate, under full gravity.
    pub open spec fn spec_default() -> ColliderBundle {
        ColliderBundle {
            collider: Collider::Ball(500),
            rigid_body: RigidBody::Dynamic,
            velocity: Velocity { linvel: Vec2 { x: 0, y: 0 } },
            rotation_constraints: LockedAxes { rotation_locked: false },
            gravity_scale: GravityScale(1_000),
        }
    }

    /// The body of an entity whose kind has the name `identifier`.
    pub open spec fn of_kind(identifier: Seq<char>) -> ColliderBundle {
        if identifier == "Player"@ {
            ColliderBundle::player()
        } else if identifier == "Enemy"@ {
            ColliderBundle::enemy()
        } else {
            ColliderBundle::spec_default()
        }
    }
}

impl Default for ColliderBundle {
    fn default() -> (r: ColliderBundle)
        ensures
            r == ColliderBundle::spec_default(),
    {
        ColliderBundle {
            collider: Collider::Ball(500),
            rigid_body: RigidBody::Dynamic,
            velocity: Velocity { linvel: Vec2 { x: 0, y: 0 } },
            rotation_constraints: LockedAxes { rotation_locked: false },
            gravity_scale: GravityScale(1_000),
        }
    }
}

impl vstd::std_specs::convert::FromSpecImpl<EntityInstance> for ColliderBundle {
    open spec fn obeys_from_spec() -> bool {
        true
    }

    open spec fn from_spec(entity_instance: EntityInstance) -> ColliderBundle {
        ColliderBundle::of_kind(entity_instance.identifier@)
    }
}

impl From<EntityInstance> for ColliderBundle {
    /// The body of the entity, by the name of its kind.
    fn from(entity_instance: EntityInstance) -> (r: ColliderBundle) {
        let player_key: String = "Player".to_owned();
        let enemy_key: String = "Enemy".to_owned();
        if entity_instance.identifier == player_key {
            ColliderBundle {
                collider: Collider::Cuboid(7_500, 11_000),
                rigid_body: RigidBody::Dynamic,
                velocity: Velocity { linvel: Vec2::zero() },
                rotation_constraints: LockedAxes { rotation_locked: true },
                gravity_scale: GravityScale(0),
            }
        } else if entity_instance.identifier == enemy_key {
            ColliderBundle {
                collider: Collider::Cuboid(8_000, 6_000),
                rigid_body: RigidBody::Fixed,
                velocity: Velocity { linvel: Vec2::zero() },
                rotation_constraints: LockedAxes { rotation_locked: true },
                gravity_scale: GravityScale(0),
            }
        } else {
            ColliderBundle::default()
        }
    }
}

} // verus!
