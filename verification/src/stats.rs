//! The stats model: the combat attributes of an actor, and what a hit does
//! to them.
//!
//! All attributes are fixed-point (thousandths of a point).

use vstd::prelude::*;
use crate::level::{EntityInstance, FieldInstance, FieldValue};

verus! {

/// An actor's health.
#[derive(Clone, Copy, Debug, PartialEq, Eq, Structural)]
pub struct Health(pub i32);

/// The damage that an actor's attack deals.
#[derive(Clone, Copy, Debug, PartialEq, Eq, Structural)]
pub struct AttackPower(pub i32);

/// An actor's resistance to damage. It is part of the data model and is not
/// taken off incoming damage: a hit costs its full damage.
#[derive(Clone, Copy, Debug, PartialEq, Eq, Structural)]
pub struct DamageResistance(pub i32);

/// The chance that an actor strikes back when hit, between 0 and 100 points.
/// It is part of the data model; no rule reads it yet.
#[derive(Clone, Copy, Debug, PartialEq, Eq, Structural)]
pub struct AttackChance(pub i32);

/// The combat attributes of an enemy.
#[derive(Clone, Copy, Debug, PartialEq, Eq, Structural)]
pub struct EnemyStats {
    pub health: i32,
    pub attack_power: i32,
    pub attack_chance: i32,
}

/// An enemy as it was configured: its name, and the stats that it starts
/// with and comes back with. `stats.health` is its maximum health.
#[derive(Clone, Debug)]
pub struct Enemy {
    pub name: String,
    pub stats: EnemyStats,
}

/// What a hit did to its target.
#[derive(Clone, Copy, Debug, PartialEq, Eq, Structural)]
pub enum DamageOutcome {
    /// The target has health left.
    Survived,
    /// The target's health was used up; it is back at its maximum health.
    Died,
}

/// The damage that a hit of `incoming` deals: negative damage counts as
/// none, so that no hit heals.
pub open spec fn effective_damage(incoming: int) -> int {
    if incoming > 0 {
        incoming
    } else {
        0
    }
}

/// Whether a hit of `incoming` uses up the health `health`.
pub open spec fn is_fatal(health: int, incoming: int) -> bool {
    health - effective_damage(incoming) <= 0
}

/// The health after a hit of `incoming` on a target with the health `health`
/// and the maximum health `max_health`: what is left, or the maximum health
/// again where nothing is left.
pub open spec fn health_after(health: int, max_health: int, incoming: int) -> int {
    if is_fatal(health, incoming) {
        max_health
    } else {
        health - effective_damage(incoming)
    }
}

/// What a hit of `incoming` does to a target with the health `health`.
pub open spec fn outcome_of(health: int, incoming: int) -> DamageOutcome {
    if is_fatal(health, incoming) {
        DamageOutcome::Died
    } else {
        DamageOutcome::Survived
    }
}

/// Takes `incoming_damage` off the target's health. If no health is left the
/// target has died and comes back with `max_health`. Only the health
/// changes, and a health between zero and the maximum health stays there.
/// The damage is taken off in full: no resistance lessens it.
pub fn apply_damage(target_stats: &mut EnemyStats, max_health: i32, incoming_damage: i32) -> (outcome:
    DamageOutcome)
    ensures
        final(target_stats).health == health_after(
            old(target_stats).health as int,
            max_health as int,
            incoming_damage as int,
        ),
        outcome == outcome_of(old(target_stats).health as int, incoming_damage as int),
        final(target_stats).attack_power == old(target_stats).attack_power,
        final(target_stats).attack_chance == old(target_stats).attack_chance,
        0 <= max_health && old(target_stats).health <= max_health ==> 0 <= final(target_stats).health
            <= max_health,
{
    let damage: i64 = if incoming_damage > 0 {
        incoming_damage as i64
    } else {
        0
    };
    let left: i64 = target_stats.health as i64 - damage;
    if left <= 0 {
        target_stats.health = max_health;
        DamageOutcome::Died
    } else {
        target_stats.health = left as i32;
        DamageOutcome::Survived
    }
}

impl Enemy {
    /// Hits the enemy, whose current stats are `enemy_stats`, with
    /// `incoming_damage` (see [`apply_damage`]). An enemy that dies comes
    /// back with the health it was configured with.
    pub fn attack(&self, incoming_damage: i32, enemy_stats: &mut EnemyStats) -> (outcome:
        DamageOutcome)
        ensures
            final(enemy_stats).health == health_after(
                old(enemy_stats).health as int,
                self.stats.health as int,
                incoming_damage as int,
            ),
            outcome == outcome_of(old(enemy_stats).health as int, incoming_damage as int),
            final(enemy_stats).attack_power == old(enemy_stats).attack_power,
            final(enemy_stats).attack_chance == old(enemy_stats).attack_chance,
            0 <= self.stats.health && old(enemy_stats).health <= self.stats.health ==> 0
                <= final(enemy_stats).health <= self.stats.health,
    {
        apply_damage(enemy_stats, self.stats.health, incoming_damage)
    }
}

/// Gives a newly spawned enemy the stats that it was configured with.
pub fn on_enemy_spawned(enemy: &Enemy, current_stats: &mut EnemyStats)
    ensures
        *final(current_stats) == enemy.stats,
{
    current_stats.health = enemy.stats.health;
    current_stats.attack_chance = enemy.stats.attack_chance;
    current_stats.attack_power = enemy.stats.attack_power;
}

/// What an [`Enemy`] stands for.
pub struct EnemyView {
    pub name: Seq<char>,
    pub stats: EnemyStats,
}

impl View for Enemy {
    type V = EnemyView;

    open spec fn view(&self) -> EnemyView {
        EnemyView { name: self.name@, stats: self.stats }
    }
}

impl EnemyView {
    /// An enemy of which nothing is configured: no name, all stats zero.
    pub open spec fn blank() -> EnemyView {
        EnemyView {
            name: Seq::empty(),
            stats: EnemyStats { health: 0, attack_power: 0, attack_chance: 0 },
        }
    }

    /// The enemy with what the field `field` configures: a text named
    /// `Name` is the enemy's name, and the numbers named `Health`,
    /// `Attack_Power` and `Attack_Chance` are its stats. A field of another
    /// name, of another kind or without a value configures nothing.
    pub open spec fn with_field(self, field: FieldInstance) -> EnemyView {
        if field.identifier@ == "Name"@ {
            match field.value.text() {
                Some(name) => EnemyView { name, ..self },
                None => self,
            }
        } else if field.identifier@ == "Health"@ {
            match field.value.number() {
                Some(health) => EnemyView { stats: EnemyStats { health, ..self.stats }, ..self },
                None => self,
            }
        } else if field.identifier@ == "Attack_Power"@ {
            match field.value.number() {
                Some(attack_power) => EnemyView {
                    stats: EnemyStats { attack_power, ..self.stats },
                    ..self
                },
                None => self,
            }
        } else if field.identifier@ == "Attack_Chance"@ {
            match field.value.number() {
                Some(attack_chance) => EnemyView {
                    stats: EnemyStats { attack_chance, ..self.stats },
                    ..self
                },
                None => self,
            }
        } else {
            self
        }
    }

    /// The enemy that the fields `fields` configure, taken in order: where
    /// two fields configure the same thing, the later one counts.
    pub open spec fn configured(fields: Seq<FieldInstance>) -> EnemyView
        decreases fields.len(),
    {
        if fields.len() == 0 {
            EnemyView::blank()
        } else {
            EnemyView::configured(fields.drop_last()).with_field(fields.last())
        }
    }
}

impl vstd::std_specs::convert::FromSpecImpl<EntityInstance> for Enemy {
    /// The conversion is stated by its view (see `from`), not by a value.
    open spec fn obeys_from_spec() -> bool {
        false
    }

    open spec fn from_spec(entity_instance: EntityInstance) -> Enemy {
        arbitrary()
    }
}

impl From<EntityInstance> for Enemy {
    /// The enemy that the entity's fields configure.
    fn from(entity_instance: EntityInstance) -> (enemy: Enemy)
        ensures
            enemy@ == EnemyView::configured(entity_instance.field_instances@),
    {
        let name_key: String = "Name".to_owned();
        let health_key: String = "Health".to_owned();
        let power_key: String = "Attack_Power".to_owned();
        let chance_key: String = "Attack_Chance".to_owned();
        let mut enemy = Enemy {
            name: String::new(),
            stats: EnemyStats { health: 0, attack_power: 0, attack_chance: 0 },
        };
        let fields: &Vec<FieldInstance> = &entity_instance.field_instances;
        let mut i: usize = 0;
        while i < fields.len()
            invariant
                i <= fields.len(),
                fields@ == entity_instance.field_instances@,
                name_key@ == "Name"@,
                health_key@ == "Health"@,
                power_key@ == "Attack_Power"@,
                chance_key@ == "Attack_Chance"@,
                enemy@ == EnemyView::configured(fields@.take(i as int)),
            decreases fields.len() - i,
        {
            proof {
                assert(fields@.take(i + 1).drop_last() =~= fields@.take(i as int));
            }
            let field: &FieldInstance = &fields[i];
            if field.identifier == name_key {
                match &field.value {
                    FieldValue::String(Some(name)) => {
                        enemy.name = name.clone();
                    },
                    _ => {},
                }
            } else if field.identifier == health_key {
                match &field.value {
                    FieldValue::Float(Some(health)) => {
                        enemy.stats.health = *health;
                    },
                    _ => {},
                }
            } else if field.identifier == power_key {
                match &field.value {
                    FieldValue::Float(Some(power)) => {
                        enemy.stats.attack_power = *power;
                    },
                    _ => {},
                }
            } else if field.identifier == chance_key {
                match &field.value {
                    FieldValue::Float(Some(chance)) => {
                        enemy.stats.attack_chance = *chance;
                    },
                    _ => {},
                }
            }
            i += 1;
        }
        proof {
            assert(fields@.take(i as int) =~= fields@);
        }
        enemy
    }
}

} // verus!
