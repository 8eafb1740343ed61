use combat_core::level::{EntityInstance, FieldInstance, FieldValue};
use combat_core::stats::{
    apply_damage, on_enemy_spawned, AttackChance, AttackPower, DamageOutcome, DamageResistance,
    Enemy, EnemyStats, Health,
};

fn enemy(max_health: i32) -> Enemy {
    Enemy {
        name: String::from("Slime"),
        stats: EnemyStats { health: max_health, attack_power: 2_000, attack_chance: 50_000 },
    }
}

fn stats(health: i32) -> EnemyStats {
    EnemyStats { health, attack_power: 2_000, attack_chance: 50_000 }
}

fn field(identifier: &str, value: FieldValue) -> FieldInstance {
    FieldInstance { identifier: String::from(identifier), value }
}

fn entity(fields: Vec<FieldInstance>) -> EntityInstance {
    EntityInstance { identifier: String::from("Enemy"), field_instances: fields }
}

#[test]
fn damage_beyond_the_health_kills_and_resets_to_the_maximum() {
    let mut current = stats(10_000);
    assert_eq!(apply_damage(&mut current, 10_000, 15_000), DamageOutcome::Died);
    assert_eq!(current.health, 10_000);

    let mut current = stats(10_000);
    assert_eq!(apply_damage(&mut current, 30_000, 15_000), DamageOutcome::Died);
    assert_eq!(current.health, 30_000);
}

#[test]
fn health_of_ten_dies_of_fifteen_damage_and_is_left_six_by_four() {
    let slime = enemy(10);
    let mut current = stats(10);
    assert_eq!(slime.attack(15, &mut current), DamageOutcome::Died);
    assert_eq!(current.health, slime.stats.health);
    assert_eq!(current.health, 10);

    let mut current = stats(10);
    assert_eq!(slime.attack(4, &mut current), DamageOutcome::Survived);
    assert_eq!(current.health, 6);

    let mut current = stats(10);
    assert_eq!(apply_damage(&mut current, 10, 15), DamageOutcome::Died);
    assert_eq!(current.health, 10);
    assert_eq!(apply_damage(&mut current, 10, 4), DamageOutcome::Survived);
    assert_eq!(current.health, 6);
}

#[test]
fn damage_below_the_health_is_taken_off() {
    let mut current = stats(10_000);
    assert_eq!(apply_damage(&mut current, 10_000, 4_000), DamageOutcome::Survived);
    assert_eq!(current.health, 6_000);
}

#[test]
fn damage_of_exactly_the_health_kills() {
    let mut current = stats(10_000);
    assert_eq!(apply_damage(&mut current, 12_000, 10_000), DamageOutcome::Died);
    assert_eq!(current.health, 12_000);
    let mut current = stats(10_000);
    assert_eq!(apply_damage(&mut current, 12_000, 9_999), DamageOutcome::Survived);
    assert_eq!(current.health, 1);
}

#[test]
fn no_damage_and_negative_damage_change_nothing() {
    let mut current = stats(10_000);
    assert_eq!(apply_damage(&mut current, 10_000, 0), DamageOutcome::Survived);
    assert_eq!(current.health, 10_000);
    assert_eq!(apply_damage(&mut current, 10_000, -4_000), DamageOutcome::Survived);
    assert_eq!(current.health, 10_000);
    assert_eq!(apply_damage(&mut current, 10_000, i32::MIN), DamageOutcome::Survived);
    assert_eq!(current.health, 10_000);
}

#[test]
fn a_target_without_health_dies_of_any_hit() {
    let mut current = stats(0);
    assert_eq!(apply_damage(&mut current, 10_000, 0), DamageOutcome::Died);
    assert_eq!(current.health, 10_000);
    let mut current = stats(i32::MIN);
    assert_eq!(apply_damage(&mut current, 10_000, i32::MAX), DamageOutcome::Died);
    assert_eq!(current.health, 10_000);
}

#[test]
fn damage_touches_the_health_only() {
    let mut current = stats(10_000);
    apply_damage(&mut current, 10_000, 4_000);
    assert_eq!(current, EnemyStats { health: 6_000, attack_power: 2_000, attack_chance: 50_000 });
    apply_damage(&mut current, 10_000, 6_000);
    assert_eq!(current, EnemyStats { health: 10_000, attack_power: 2_000, attack_chance: 50_000 });
}

#[test]
fn an_attacked_enemy_comes_back_with_its_configured_health() {
    let slime = enemy(25_000);
    let mut current = stats(10_000);
    assert_eq!(slime.attack(4_000, &mut current), DamageOutcome::Survived);
    assert_eq!(current.health, 6_000);
    assert_eq!(slime.attack(10_000, &mut current), DamageOutcome::Died);
    assert_eq!(current.health, 25_000);
    assert_eq!(slime.stats.health, 25_000);
}

#[test]
fn a_series_of_hits_wears_the_health_down_and_resets_it() {
    let slime = enemy(10_000);
    let mut current = stats(10_000);
    let outcomes: Vec<DamageOutcome> = (0..4).map(|_| slime.attack(3_000, &mut current)).collect();
    assert_eq!(
        outcomes,
        vec![
            DamageOutcome::Survived,
            DamageOutcome::Survived,
            DamageOutcome::Survived,
            DamageOutcome::Died,
        ]
    );
    assert_eq!(current.health, 10_000);
}

#[test]
fn a_spawned_enemy_gets_its_configured_stats() {
    let slime =
        Enemy { name: String::new(), stats: EnemyStats { health: 7, attack_power: 8, attack_chance: 9 } };
    let mut current = EnemyStats { health: 0, attack_power: 0, attack_chance: 0 };
    on_enemy_spawned(&slime, &mut current);
    assert_eq!(current, EnemyStats { health: 7, attack_power: 8, attack_chance: 9 });
}

#[test]
fn the_attributes_hold_their_values() {
    assert_eq!(Health(10_000).0, 10_000);
    assert_eq!(AttackPower(3).0, 3);
    assert_eq!(DamageResistance(4).0, 4);
    assert_eq!(AttackChance(100_000).0, 100_000);
}

#[test]
fn an_enemy_is_configured_by_its_fields() {
    let slime = Enemy::from(entity(vec![
        field("Name", FieldValue::String(Some(String::from("Slime")))),
        field("Health", FieldValue::Float(Some(25_000))),
        field("Attack_Power", FieldValue::Float(Some(2_500))),
        field("Attack_Chance", FieldValue::Float(Some(50_000))),
    ]));
    assert_eq!(slime.name, "Slime");
    assert_eq!(
        slime.stats,
        EnemyStats { health: 25_000, attack_power: 2_500, attack_chance: 50_000 }
    );
}

#[test]
fn an_enemy_without_fields_is_blank() {
    let nobody = Enemy::from(entity(vec![]));
    assert_eq!(nobody.name, "");
    assert_eq!(nobody.stats, EnemyStats { health: 0, attack_power: 0, attack_chance: 0 });
}

#[test]
fn a_later_field_counts_over_an_earlier_one() {
    let slime = Enemy::from(entity(vec![
        field("Health", FieldValue::Float(Some(1_000))),
        field("Name", FieldValue::String(Some(String::from("First")))),
        field("Health", FieldValue::Float(Some(2_000))),
        field("Name", FieldValue::String(Some(String::from("Second")))),
    ]));
    assert_eq!(slime.name, "Second");
    assert_eq!(slime.stats.health, 2_000);
}

#[test]
fn fields_of_other_names_kinds_or_without_a_value_configure_nothing() {
    let slime = Enemy::from(entity(vec![
        field("Name", FieldValue::String(Some(String::from("Slime")))),
        field("Health", FieldValue::Float(Some(25_000))),
        field("Name", FieldValue::String(None)),
        field("Name", FieldValue::Float(Some(1))),
        field("Name", FieldValue::Other),
        field("Health", FieldValue::Float(None)),
        field("Health", FieldValue::String(Some(String::from("9")))),
        field("health", FieldValue::Float(Some(1))),
        field("Attack_Power ", FieldValue::Float(Some(1))),
        field("AttackChance", FieldValue::Float(Some(1))),
        field("", FieldValue::Float(Some(1))),
    ]));
    assert_eq!(slime.name, "Slime");
    assert_eq!(slime.stats, EnemyStats { health: 25_000, attack_power: 0, attack_chance: 0 });
}
