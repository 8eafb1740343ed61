//! The collision resolver: turns the collision events of one tick into
//! damage.
//!
//! A hit is a collision that begins between a live hit-volume and an actor
//! that carries stats and does not own that hit-volume. The target takes the
//! attack power of the hit-volume's owner as damage. Entities and
//! hit-volumes are named by the host's handles.

#![allow(non_snake_case)]

use vstd::prelude::*;
use crate::stats::{
    health_after, outcome_of, AttackPower, DamageOutcome, Enemy, EnemyStats,
};

verus! {

/// What the physics layer says of a collision event.
#[derive(Clone, Copy, Debug, PartialEq, Eq, Structural)]
pub struct CollisionEventFlags {
    /// One of the two shapes is a sensor: it reports overlap and nothing
    /// else.
    pub sensor: bool,
    /// The event comes from the removal of a shape.
    pub removed: bool,
}

/// A collision event between two entities.
#[derive(Clone, Copy, Debug, PartialEq, Eq, Structural)]
pub enum CollisionEvent {
    /// The two began to overlap.
    Started(u64, u64, CollisionEventFlags),
    /// The two stopped overlapping.
    Stopped(u64, u64, CollisionEventFlags),
}

/// An actor that can attack: its handle, the damage its attack deals, and
/// the hit-volume that its attack owns while its window is open.
#[derive(Clone, Copy, Debug, PartialEq, Eq, Structural)]
pub struct Attacker {
    pub entity: u64,
    pub attack_power: AttackPower,
    pub hitbox: Option<u64>,
}

/// An actor that can be hit: its handle, what it was configured as, and its
/// current stats.
#[derive(Clone, Debug)]
pub struct Target {
    pub entity: u64,
    pub enemy: Enemy,
    pub stats: EnemyStats,
}

/// One hit, as it is reported upward.
#[derive(Clone, Copy, Debug, PartialEq, Eq, Structural)]
pub struct HitReport {
    /// The actor that was hit.
    pub target: u64,
    /// The actor whose hit-volume hit it.
    pub attacker: u64,
    /// The damage that was dealt.
    pub damage: i32,
    /// What became of the target.
    pub outcome: DamageOutcome,
}

/// A hit between an attacker and a target, by their places in the lists.
pub struct Hit {
    pub attacker: int,
    pub target: int,
}

impl CollisionEventFlags {
    /// Whether the flags are those of a sensor's overlap, and no other.
    pub open spec fn spec_is_sensor_only(self) -> bool {
        self.sensor && !self.removed
    }

    /// Whether the flags are those of a sensor's overlap, and no other.
    pub fn is_sensor_only(&self) -> (r: bool)
        ensures
            r == self.spec_is_sensor_only(),
    {
        self.sensor && !self.removed
    }
}

/// `i` is the place of the first attacker that owns the hit-volume
/// `hitbox`.
pub open spec fn is_first_owner(attackers: Seq<Attacker>, hitbox: u64, i: int) -> bool {
    &&& 0 <= i < attackers.len()
    &&& attackers[i].hitbox == Some(hitbox)
    &&& forall|j: int| 0 <= j < i ==> attackers[j].hitbox != Some(hitbox)
}

/// The place of the first attacker that owns the hit-volume `hitbox`: the
/// hit-volume is live exactly if there is one.
pub open spec fn find_owner(attackers: Seq<Attacker>, hitbox: u64) -> Option<int> {
    if exists|i: int| is_first_owner(attackers, hitbox, i) {
        Some(choose|i: int| is_first_owner(attackers, hitbox, i))
    } else {
        None
    }
}

/// `i` is the place of the first target with the handle `entity`.
pub open spec fn is_first_target(targets: Seq<Target>, entity: u64, i: int) -> bool {
    &&& 0 <= i < targets.len()
    &&& targets[i].entity == entity
    &&& forall|j: int| 0 <= j < i ==> targets[j].entity != entity
}

/// The place of the first target with the handle `entity`: the entity
/// carries stats exactly if there is one.
pub open spec fn find_target(targets: Seq<Target>, entity: u64) -> Option<int> {
    if exists|i: int| is_first_target(targets, entity, i) {
        Some(choose|i: int| is_first_target(targets, entity, i))
    } else {
        None
    }
}

/// The hit that an overlap of the hit-volume `hitbox` with the entity
/// `other` makes: the hit-volume must be live, the entity must carry stats,
/// and the entity must not be the hit-volume's owner.
pub open spec fn pairing(attackers: Seq<Attacker>, targets: Seq<Target>, hitbox: u64, other: u64)
    -> Option<Hit> {
    match (find_owner(attackers, hitbox), find_target(targets, other)) {
        (Some(attacker), Some(target)) => if attackers[attacker].entity != other {
            Some(Hit { attacker, target })
        } else {
            None
        },
        _ => None,
    }
}

/// The hit that an event makes. Only an overlap that begins, and that a
/// sensor reports, can be a hit; either of the two entities may be the
/// hit-volume, the second is tried first.
pub open spec fn hit_of(event: CollisionEvent, attackers: Seq<Attacker>, targets: Seq<Target>)
    -> Option<Hit> {
    match event {
        CollisionEvent::Started(a, b, flags) => if flags.spec_is_sensor_only() {
            match pairing(attackers, targets, b, a) {
                Some(hit) => Some(hit),
                None => pairing(attackers, targets, a, b),
            }
        } else {
            None
        },
        CollisionEvent::Stopped(_, _, _) => None,
    }
}

/// Whether the event is a hit on the target at the place `k`.
pub open spec fn hits(
    event: CollisionEvent,
    attackers: Seq<Attacker>,
    targets: Seq<Target>,
    k: int,
) -> bool {
    match hit_of(event, attackers, targets) {
        Some(hit) => hit.target == k,
        None => false,
    }
}

/// The target `t` after a hit of `damage`.
pub open spec fn hit_target(t: Target, damage: i32) -> Target {
    Target {
        entity: t.entity,
        enemy: t.enemy,
        stats: EnemyStats {
            health: health_after(t.stats.health as int, t.enemy.stats.health as int, damage as int)
                as i32,
            attack_power: t.stats.attack_power,
            attack_chance: t.stats.attack_chance,
        },
    }
}

/// The targets after the event `event`.
pub open spec fn targets_after(
    event: CollisionEvent,
    attackers: Seq<Attacker>,
    targets: Seq<Target>,
) -> Seq<Target> {
    match hit_of(event, attackers, targets) {
        Some(hit) => targets.update(
            hit.target,
            hit_target(targets[hit.target], attackers[hit.attacker].attack_power.0),
        ),
        None => targets,
    }
}

/// What is reported of the event `event`.
pub open spec fn report_of(event: CollisionEvent, attackers: Seq<Attacker>, targets: Seq<Target>)
    -> Option<HitReport> {
    match hit_of(event, attackers, targets) {
        Some(hit) => Some(
            HitReport {
                target: targets[hit.target].entity,
                attacker: attackers[hit.attacker].entity,
                damage: attackers[hit.attacker].attack_power.0,
                outcome: outcome_of(
                    targets[hit.target].stats.health as int,
                    attackers[hit.attacker].attack_power.0 as int,
                ),
            },
        ),
        None => None,
    }
}

/// The targets after the events `events`, taken in order.
pub open spec fn targets_after_all(
    events: Seq<CollisionEvent>,
    attackers: Seq<Attacker>,
    targets: Seq<Target>,
) -> Seq<Target>
    decreases events.len(),
{
    if events.len() == 0 {
        targets
    } else {
        targets_after(
            events.last(),
            attackers,
            targets_after_all(events.drop_last(), attackers, targets),
        )
    }
}

/// What is reported of the events `events`, in their order.
pub open spec fn reports_of_all(
    events: Seq<CollisionEvent>,
    attackers: Seq<Attacker>,
    targets: Seq<Target>,
) -> Seq<HitReport>
    decreases events.len(),
{
    if events.len() == 0 {
        Seq::empty()
    } else {
        let before = reports_of_all(events.drop_last(), attackers, targets);
        match report_of(
            events.last(),
            attackers,
            targets_after_all(events.drop_last(), attackers, targets),
        ) {
            Some(report) => before.push(report),
            None => before,
        }
    }
}

/// There is at most one first owner.
pub proof fn lemma_first_owner_is(attackers: Seq<Attacker>, hitbox: u64, i: int)
    requires
        is_first_owner(attackers, hitbox, i),
    ensures
        find_owner(attackers, hitbox) == Some(i),
{
    let k = choose|k: int| is_first_owner(attackers, hitbox, k);
    assert(is_first_owner(attackers, hitbox, k));
    if k < i {
        assert(attackers[k].hitbox != Some(hitbox));
    } else if i < k {
        assert(attackers[i].hitbox != Some(hitbox));
    }
}

/// There is at most one first target.
pub proof fn lemma_first_target_is(targets: Seq<Target>, entity: u64, i: int)
    requires
        is_first_target(targets, entity, i),
    ensures
        find_target(targets, entity) == Some(i),
{
    let k = choose|k: int| is_first_target(targets, entity, k);
    assert(is_first_target(targets, entity, k));
    if k < i {
        assert(targets[k].entity != entity);
    } else if i < k {
        assert(targets[i].entity != entity);
    }
}

/// Finds the first attacker that owns the hit-volume `hitbox`.
pub fn owner_of(attackers: &Vec<Attacker>, hitbox: u64) -> (r: Option<usize>)
    ensures
        match r {
            Some(i) => find_owner(attackers@, hitbox) == Some(i as int),
            None => find_owner(attackers@, hitbox) is None,
        },
        r matches Some(i) ==> i < attackers.len() && attackers[i as int].hitbox == Some(hitbox),
{
    let mut i: usize = 0;
    while i < attackers.len()
        invariant
            i <= attackers.len(),
            forall|j: int| 0 <= j < i ==> attackers[j].hitbox != Some(hitbox),
        decreases attackers.len() - i,
    {
        let found: bool = match attackers[i].hitbox {
            Some(h) => h == hitbox,
            None => false,
        };
        if found {
            proof {
                lemma_first_owner_is(attackers@, hitbox, i as int);
            }
            return Some(i);
        }
        i += 1;
    }
    None
}

/// Finds the first target with the handle `entity`.
pub fn target_of(targets: &Vec<Target>, entity: u64) -> (r: Option<usize>)
    ensures
        match r {
            Some(i) => find_target(targets@, entity) == Some(i as int),
            None => find_target(targets@, entity) is None,
        },
        r matches Some(i) ==> i < targets.len() && targets[i as int].entity == entity,
{
    let mut i: usize = 0;
    while i < targets.len()
        invariant
            i <= targets.len(),
            forall|j: int| 0 <= j < i ==> targets[j].entity != entity,
        decreases targets.len() - i,
    {
        if targets[i].entity == entity {
            proof {
                lemma_first_target_is(targets@, entity, i as int);
            }
            return Some(i);
        }
        i += 1;
    }
    None
}

/// Finds the hit that an overlap of the hit-volume `hitbox` with the entity
/// `other` makes, as the places of the attacker and the target.
pub fn pair_up(attackers: &Vec<Attacker>, targets: &Vec<Target>, hitbox: u64, other: u64) -> (r:
    Option<(usize, usize)>)
    ensures
        match r {
            Some((attacker, target)) => pairing(attackers@, targets@, hitbox, other) == Some(
                Hit { attacker: attacker as int, target: target as int },
            ) && attacker < attackers.len() && target < targets.len(),
            None => pairing(attackers@, targets@, hitbox, other) is None,
        },
{
    match owner_of(attackers, hitbox) {
        Some(attacker) => match target_of(targets, other) {
            Some(target) => if attackers[attacker].entity != other {
                Some((attacker, target))
            } else {
                None
            },
            None => None,
        },
        None => None,
    }
}

/// Resolves one collision event: if it is a hit, the target takes the
/// attacker's attack power as damage, and the hit is reported.
pub fn resolve_collision(
    event: &CollisionEvent,
    attackers: &Vec<Attacker>,
    targets: &mut Vec<Target>,
) -> (report: Option<HitReport>)
    ensures
        final(targets)@ == targets_after(*event, attackers@, old(targets)@),
        report == report_of(*event, attackers@, old(targets)@),
{
    let hit: Option<(usize, usize)> = match event {
        CollisionEvent::Started(a, b, flags) => {
            if flags.is_sensor_only() {
                match pair_up(attackers, targets, *b, *a) {
                    Some(found) => Some(found),
                    None => pair_up(attackers, targets, *a, *b),
                }
            } else {
                None
            }
        },
        CollisionEvent::Stopped(_, _, _) => None,
    };
    match hit {
        Some((attacker, target)) => {
            let damage: i32 = attackers[attacker].attack_power.0;
            let hit_target: &mut Target = &mut targets[target];
            let outcome: DamageOutcome = hit_target.enemy.attack(damage, &mut hit_target.stats);
            let report = HitReport {
                target: hit_target.entity,
                attacker: attackers[attacker].entity,
                damage,
                outcome,
            };
            proof {
                assert(targets@ =~= targets_after(*event, attackers@, old(targets)@));
            }
            Some(report)
        },
        None => None,
    }
}

/// Resolves the collision events of one tick, in their order, and returns
/// the hits.
pub fn Attack_Collider_Handler(
    collision_events: &Vec<CollisionEvent>,
    attackers: &Vec<Attacker>,
    targets: &mut Vec<Target>,
) -> (reports: Vec<HitReport>)
    ensures
        final(targets)@ == targets_after_all(collision_events@, attackers@, old(targets)@),
        reports@ == reports_of_all(collision_events@, attackers@, old(targets)@),
{
    let mut reports: Vec<HitReport> = Vec::new();
    let mut i: usize = 0;
    while i < collision_events.len()
        invariant
            i <= collision_events.len(),
            targets@ == targets_after_all(
                collision_events@.take(i as int),
                attackers@,
                old(targets)@,
            ),
            reports@ == reports_of_all(collision_events@.take(i as int), attackers@, old(targets)@),
        decreases collision_events.len() - i,
    {
        proof {
            assert(collision_events@.take(i + 1).drop_last() =~= collision_events@.take(i as int));
        }
        match resolve_collision(&collision_events[i], attackers, targets) {
            Some(report) => {
                reports.push(report);
            },
            None => {},
        }
        i += 1;
    }
    proof {
        assert(collision_events@.take(i as int) =~= collision_events@);
    }
    reports
}

/// Whether the hit-volume `hitbox` is live and owned by the actor `entity`.
pub open spec fn owned_by(attackers: Seq<Attacker>, hitbox: u64, entity: u64) -> bool {
    match find_owner(attackers, hitbox) {
        Some(owner) => attackers[owner].entity == entity,
        None => false,
    }
}

/// Whether the event is between the actor `entity` and a hit-volume that the
/// actor owns itself.
pub open spec fn is_self_hit(event: CollisionEvent, attackers: Seq<Attacker>, entity: u64) -> bool {
    match event {
        CollisionEvent::Started(a, b, _) => (a == entity && owned_by(attackers, b, entity)) || (b
            == entity && owned_by(attackers, a, entity)),
        CollisionEvent::Stopped(a, b, _) => (a == entity && owned_by(attackers, b, entity)) || (b
            == entity && owned_by(attackers, a, entity)),
    }
}

/// A target that was found has the handle that was looked for, and is the
/// first that has it.
pub proof fn lemma_found_target(targets: Seq<Target>, entity: u64)
    ensures
        match find_target(targets, entity) {
            Some(i) => is_first_target(targets, entity, i),
            None => forall|i: int| 0 <= i < targets.len() ==> targets[i].entity != entity,
        },
{
    if find_target(targets, entity) is None {
        assert forall|i: int| 0 <= i < targets.len() implies targets[i].entity != entity by {
            if targets[i].entity == entity {
                lemma_some_target_is_first(targets, entity, i);
            }
        }
    }
}

/// Where some target has the handle, a first one has it.
proof fn lemma_some_target_is_first(targets: Seq<Target>, entity: u64, i: int)
    requires
        0 <= i < targets.len(),
        targets[i].entity == entity,
    ensures
        exists|k: int| is_first_target(targets, entity, k),
    decreases i,
{
    if forall|j: int| 0 <= j < i ==> targets[j].entity != entity {
        assert(is_first_target(targets, entity, i));
    } else {
        let j = choose|j: int| 0 <= j < i && targets[j].entity == entity;
        lemma_some_target_is_first(targets, entity, j);
    }
}

/// An event changes nothing of the targets but the health of the one that is
/// hit: the list keeps its length, each target its handle, its
/// configuration, its attack power and its attack chance, and every target
/// but the one that is hit its health too. An event that is no hit changes
/// nothing at all.
pub proof fn law_event_changes_health_only(
    event: CollisionEvent,
    attackers: Seq<Attacker>,
    targets: Seq<Target>,
)
    ensures
        targets_after(event, attackers, targets).len() == targets.len(),
        forall|k: int|
            0 <= k < targets.len() ==> {
                let after = #[trigger] targets_after(event, attackers, targets)[k];
                &&& after.entity == targets[k].entity
                &&& after.enemy == targets[k].enemy
                &&& after.stats.attack_power == targets[k].stats.attack_power
                &&& after.stats.attack_chance == targets[k].stats.attack_chance
                &&& !hits(event, attackers, targets, k) ==> after == targets[k]
            },
        hit_of(event, attackers, targets) is None ==> targets_after(event, attackers, targets)
            == targets,
{
    match hit_of(event, attackers, targets) {
        Some(hit) => {
            match event {
                CollisionEvent::Started(a, b, _) => {
                    lemma_found_target(targets, a);
                    lemma_found_target(targets, b);
                },
                CollisionEvent::Stopped(_, _, _) => {},
            }
        },
        None => {},
    }
}

/// Only an overlap that begins can hurt: an event of an overlap that stops
/// changes no target and reports nothing.
pub proof fn law_stop_events_are_ignored(
    event: CollisionEvent,
    attackers: Seq<Attacker>,
    targets: Seq<Target>,
)
    requires
        event is Stopped,
    ensures
        targets_after(event, attackers, targets) == targets,
        report_of(event, attackers, targets) is None,
{
}

/// A hit-volume never hurts its owner: an event between an actor and a
/// hit-volume that the actor owns itself leaves the actor as it was.
pub proof fn law_own_hit_volume_never_hurts(
    event: CollisionEvent,
    attackers: Seq<Attacker>,
    targets: Seq<Target>,
    k: int,
)
    requires
        0 <= k < targets.len(),
        is_self_hit(event, attackers, targets[k].entity),
    ensures
        targets_after(event, attackers, targets)[k] == targets[k],
{
    match event {
        CollisionEvent::Started(a, b, _) => {
            lemma_found_target(targets, a);
            lemma_found_target(targets, b);
        },
        CollisionEvent::Stopped(_, _, _) => {},
    }
}

/// A hit-volume never hurts its owner, over a whole tick: if every event of
/// the tick is between an actor and a hit-volume that the actor owns itself,
/// the tick leaves the actor as it was.
pub proof fn law_own_hit_volumes_never_hurt(
    events: Seq<CollisionEvent>,
    attackers: Seq<Attacker>,
    targets: Seq<Target>,
    k: int,
)
    requires
        0 <= k < targets.len(),
        forall|i: int| 0 <= i < events.len() ==> is_self_hit(events[i], attackers, targets[k].entity),
    ensures
        targets_after_all(events, attackers, targets).len() == targets.len(),
        targets_after_all(events, attackers, targets)[k] == targets[k],
    decreases events.len(),
{
    if events.len() > 0 {
        let before = targets_after_all(events.drop_last(), attackers, targets);
        law_own_hit_volumes_never_hurt(events.drop_last(), attackers, targets, k);
        law_event_changes_health_only(events.last(), attackers, before);
        law_own_hit_volume_never_hurts(events.last(), attackers, before, k);
    }
}

} // verus!
