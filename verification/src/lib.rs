//! Combat and locomotion core of a 2D action game: it moves an actor in
//! response to the directions held, times the window of a melee attack,
//! finds the hits among the collisions of a tick, and applies their damage.
//!
//! The core computes on whole numbers only. Health, damage, lengths, speeds
//! and accelerations are fixed-point, in thousandths
//! ([`fixed::UNITS_PER_WHOLE`]); time is in microseconds; entities and
//! hit-volumes are the host's handles. Every rounding step is part of the
//! contracts, so that a tick gives the same result wherever it runs.
//!
//! - [`stats`]: the combat attributes of an actor, and what a hit does to
//!   them.
//! - [`movement`]: the movement controller.
//! - [`attack`]: the attack lifecycle.
//! - [`collision`]: the collision resolver.
//! - [`level`], [`player`], [`collider`]: what an entity of a level is
//!   configured with.
//! - [`fixed`], [`vector`]: the arithmetic underneath.

pub mod fixed;
pub mod vector;
pub mod stats;
pub mod movement;
pub mod attack;
pub mod collision;
pub mod level;
pub mod player;
pub mod collider;
