use combat_core::movement::{
    accelerate, clamp_speed, classify_turn, decelerate, player_movement_system, HeldDirections,
    PlayerMovementInfo, TurnRegime, Velocity,
};
use combat_core::player::player_movement;
use combat_core::vector::Vec2;

const NONE: HeldDirections = HeldDirections { up: false, right: false, down: false, left: false };
const RIGHT: HeldDirections = HeldDirections { up: false, right: true, down: false, left: false };
const LEFT: HeldDirections = HeldDirections { up: false, right: false, down: false, left: true };
const UP: HeldDirections = HeldDirections { up: true, right: false, down: false, left: false };
const UP_RIGHT: HeldDirections = HeldDirections { up: true, right: true, down: false, left: false };

fn profile() -> PlayerMovementInfo {
    PlayerMovementInfo { acceleration: 800_000, deceleration: 700_000, max_speed: 200_000 }
}

fn velocity(x: i32, y: i32) -> Velocity {
    Velocity { linvel: Vec2 { x, y } }
}

fn tick(x: i32, y: i32, held: HeldDirections, dt_micros: u32) -> (i32, i32) {
    let mut v = velocity(x, y);
    player_movement_system(&mut v, &profile(), &held, dt_micros);
    (v.linvel.x, v.linvel.y)
}

fn squared_speed(v: Vec2) -> u64 {
    let x = v.x as i64;
    let y = v.y as i64;
    (x * x + y * y) as u64
}

/// A small deterministic generator of test inputs.
struct Sequence(u64);

impl Sequence {
    fn next(&mut self) -> u64 {
        self.0 ^= self.0 << 13;
        self.0 ^= self.0 >> 7;
        self.0 ^= self.0 << 17;
        self.0
    }

    fn held(&mut self) -> HeldDirections {
        let bits = self.next();
        HeldDirections {
            up: bits & 1 != 0,
            right: bits & 2 != 0,
            down: bits & 4 != 0,
            left: bits & 8 != 0,
        }
    }
}

#[test]
fn holding_right_for_one_second_from_rest_reaches_full_speed() {
    assert_eq!(tick(0, 0, RIGHT, 1_000_000), (200_000, 0));
}

#[test]
fn a_second_of_acceleration_800_ends_at_the_maximum_speed_of_200() {
    let movement = PlayerMovementInfo { acceleration: 800, deceleration: 700, max_speed: 200 };
    let mut v = velocity(0, 0);
    player_movement_system(&mut v, &movement, &RIGHT, 1_000_000);
    assert_eq!(v.linvel, Vec2 { x: 200, y: 0 });
    assert_eq!(squared_speed(v.linvel), 200 * 200);
}

#[test]
fn a_thousand_ticks_of_a_millisecond_reach_full_speed() {
    let mut v = velocity(0, 0);
    for _ in 0..1_000 {
        player_movement_system(&mut v, &profile(), &RIGHT, 1_000);
    }
    assert_eq!(v.linvel, Vec2 { x: 200_000, y: 0 });
}

#[test]
fn holding_right_for_sixty_frames_from_rest_reaches_full_speed() {
    let mut v = velocity(0, 0);
    let movement = player_movement();
    let mut after = Vec::new();
    for _ in 0..60 {
        player_movement_system(&mut v, &movement, &RIGHT, 16_667);
        after.push((v.linvel.x, v.linvel.y));
    }
    assert_eq!(after[0], (13_333, 0));
    assert_eq!(after[1], (26_666, 0));
    assert_eq!(after[14], (199_995, 0));
    assert_eq!(after[15], (200_000, 0));
    assert_eq!(after[59], (200_000, 0));
}

#[test]
fn a_push_from_rest_goes_straight_in_the_held_direction() {
    assert_eq!(tick(0, 0, RIGHT, 10_000), (8_000, 0));
    assert_eq!(tick(0, 0, LEFT, 10_000), (-8_000, 0));
    assert_eq!(tick(0, 0, UP, 10_000), (0, 8_000));
    let down = HeldDirections { up: false, right: false, down: true, left: false };
    assert_eq!(tick(0, 0, down, 10_000), (0, -8_000));
}

#[test]
fn a_diagonal_push_is_no_longer_than_a_straight_one() {
    assert_eq!(tick(0, 0, UP_RIGHT, 100_000), (56_568, 56_568));
    assert_eq!(tick(0, 0, UP_RIGHT, 1_000_000), (141_421, 141_421));
}

#[test]
fn a_sharp_turn_is_pushed_four_times_as_hard() {
    assert_eq!(tick(100_000, 0, LEFT, 10_000), (68_000, 0));
    assert_eq!(tick(100_000, 0, UP, 10_000), (100_000, 32_000));
}

#[test]
fn an_aligned_push_is_not_boosted() {
    assert_eq!(tick(100_000, 0, RIGHT, 10_000), (108_000, 0));
}

#[test]
fn a_shallow_turn_is_steered_against_the_velocity() {
    assert_eq!(tick(95_000, 30_000, RIGHT, 10_000), (100_612, 24_299));
}

#[test]
fn post_clamp_speed_never_exceeds_max_speed() {
    let mut inputs = Sequence(0x9e37_79b9_7f4a_7c15);
    for _ in 0..20_000 {
        let movement = PlayerMovementInfo {
            acceleration: (inputs.next() >> 32) as u32 >> (inputs.next() % 32),
            deceleration: (inputs.next() >> 32) as u32 >> (inputs.next() % 32),
            max_speed: (inputs.next() >> 32) as u32 >> (inputs.next() % 32),
        };
        let start = Vec2 {
            x: ((inputs.next() >> 32) as i32) >> (inputs.next() % 32),
            y: ((inputs.next() >> 32) as i32) >> (inputs.next() % 32),
        };
        let held = inputs.held();
        let dt = (inputs.next() >> 32) as u32 >> (inputs.next() % 32);
        let pushed = accelerate(start, &movement, &held, dt);
        let cap = movement.max_speed as u64;
        assert!(squared_speed(pushed) <= cap * cap);

        let mut v = Velocity { linvel: start };
        player_movement_system(&mut v, &movement, &held, dt);
        if squared_speed(start) <= cap * cap {
            assert!(squared_speed(v.linvel) <= cap * cap);
        }
    }
}

#[test]
fn speed_above_the_cap_is_rescaled_and_keeps_its_direction() {
    assert_eq!(clamp_speed(300_000, 400_000, 200_000), Vec2 { x: 120_000, y: 160_000 });
    assert_eq!(clamp_speed(-300_000, 400_001, 200_000), Vec2 { x: -119_999, y: 160_000 });
    assert_eq!(clamp_speed(3, 4, 5), Vec2 { x: 3, y: 4 });
    assert_eq!(clamp_speed(3, 4, 4), Vec2 { x: 2, y: 3 });
    assert_eq!(clamp_speed(3, 4, 0), Vec2 { x: 0, y: 0 });
}

#[test]
fn the_speed_cap_keeps_the_direction_up_to_rounding() {
    let mut inputs = Sequence(0x0123_4567_89ab_cdef);
    for _ in 0..20_000 {
        let x = ((inputs.next() as i64) >> 17) >> (inputs.next() % 47);
        let y = ((inputs.next() as i64) >> 17) >> (inputs.next() % 47);
        let cap = ((inputs.next() >> 33) >> (inputs.next() % 31)) as i64;
        let capped = clamp_speed(x, y, cap);
        let cross = (capped.x as i128) * (y as i128) - (capped.y as i128) * (x as i128);
        let longer = (x as i128).abs().max((y as i128).abs());
        assert!(cross.abs() <= longer);
        assert!((capped.x as i128) * (x as i128) >= 0);
        assert!((capped.y as i128) * (y as i128) >= 0);
        assert!(squared_speed(capped) as i128 <= (cap as i128) * (cap as i128));
    }
}

#[test]
fn a_speed_cap_beyond_what_a_velocity_holds_is_the_largest_velocity() {
    let movement =
        PlayerMovementInfo { acceleration: u32::MAX, deceleration: 0, max_speed: u32::MAX };
    let pushed = accelerate(Vec2 { x: i32::MAX, y: 0 }, &movement, &RIGHT, u32::MAX);
    assert_eq!(pushed, Vec2 { x: i32::MAX, y: 0 });
    let down_left = HeldDirections { up: false, right: false, down: true, left: true };
    let pushed = accelerate(Vec2 { x: i32::MIN, y: i32::MIN }, &movement, &down_left, u32::MAX);
    assert_eq!(pushed, Vec2 { x: -1_518_500_249, y: -1_518_500_249 });
}

#[test]
fn the_largest_push_against_the_largest_velocity_does_not_overflow() {
    let movement = PlayerMovementInfo { acceleration: u32::MAX, deceleration: 0, max_speed: 5 };
    let up_left = HeldDirections { up: true, right: false, down: false, left: true };
    let pushed = accelerate(Vec2 { x: i32::MAX, y: i32::MAX }, &movement, &up_left, u32::MAX);
    assert_eq!(pushed, Vec2 { x: -3, y: 3 });
}

#[test]
fn decelerating_shortens_the_velocity() {
    assert_eq!(tick(100_000, 0, NONE, 10_000), (93_000, 0));
    assert_eq!(tick(3_000, -4_000, NONE, 5_000), (900, -1_200));
    assert_eq!(tick(30_000, -40_000, NONE, 10_000), (25_800, -34_400));
    assert_eq!(tick(-30_001, 40_000, NONE, 10_000), (-25_801, 34_401));
}

#[test]
fn decelerating_stops_at_exactly_zero() {
    assert_eq!(tick(3_000, -4_000, NONE, 10_000), (0, 0));
    assert_eq!(tick(7_000, 0, NONE, 10_000), (0, 0));
    assert_eq!(tick(7_001, 0, NONE, 10_000), (1, 0));
    assert_eq!(tick(0, 0, NONE, 10_000), (0, 0));
    assert_eq!(tick(1, -1, NONE, u32::MAX), (0, 0));
}

#[test]
fn decelerating_never_overshoots_past_zero() {
    let mut inputs = Sequence(0x2545_f491_4f6c_dd1d);
    for _ in 0..20_000 {
        let start = Vec2 {
            x: ((inputs.next() >> 32) as i32) >> (inputs.next() % 32),
            y: ((inputs.next() >> 32) as i32) >> (inputs.next() % 32),
        };
        let amount = inputs.next() >> (inputs.next() % 64);
        let slowed = decelerate(start, amount);
        assert!((slowed.x as i64) * (start.x as i64) >= 0);
        assert!((slowed.y as i64) * (start.y as i64) >= 0);
        assert!((slowed.x as i64).abs() <= (start.x as i64).abs());
        assert!((slowed.y as i64).abs() <= (start.y as i64).abs());
        if (squared_speed(start) as u128) <= (amount as u128) * (amount as u128) {
            assert_eq!(slowed, Vec2 { x: 0, y: 0 });
        }
    }
}

#[test]
fn decelerating_to_rest_is_monotonic() {
    let mut v = velocity(-150_000, 80_000);
    let movement = profile();
    let mut last = squared_speed(v.linvel);
    let mut ticks = 0;
    while v.linvel != (Vec2 { x: 0, y: 0 }) {
        player_movement_system(&mut v, &movement, &NONE, 16_667);
        let now = squared_speed(v.linvel);
        assert!(now < last);
        assert!(v.linvel.x <= 0 && v.linvel.y >= 0);
        last = now;
        ticks += 1;
        assert!(ticks < 1_000);
    }
    assert_eq!(ticks, 15);
}

#[test]
fn opposite_directions_cancel() {
    let left_right = HeldDirections { up: false, right: true, down: false, left: true };
    let up_down = HeldDirections { up: true, right: false, down: true, left: false };
    let all = HeldDirections { up: true, right: true, down: true, left: true };
    for held in [left_right, up_down, all] {
        assert_eq!(tick(0, 0, held, 16_667), (0, 0));
        assert_eq!(tick(120_000, -50_000, held, 16_667), (120_000, -50_000));
        assert_eq!(tick(500_000, 500_000, held, 1_000_000), (500_000, 500_000));
    }
}

#[test]
fn opposite_directions_with_a_third_push_in_the_third() {
    let left_right_up = HeldDirections { up: true, right: true, down: false, left: true };
    assert_eq!(tick(0, 0, left_right_up, 10_000), (0, 8_000));
}

#[test]
fn no_time_changes_nothing() {
    assert_eq!(tick(5, 5, RIGHT, 0), (5, 5));
    assert_eq!(tick(5, 5, NONE, 0), (5, 5));
}

#[test]
fn similarity_of_exactly_nine_tenths_is_a_shallow_turn() {
    assert_eq!(classify_turn(9, 100, 1), TurnRegime::Shallow);
    assert_eq!(classify_turn(900, 1_000_000, 1), TurnRegime::Shallow);
    assert_eq!(classify_turn(18, 200, 2), TurnRegime::Shallow);
}

#[test]
fn similarity_just_below_nine_tenths_is_a_sharp_turn() {
    assert_eq!(classify_turn(899, 1_000_000, 1), TurnRegime::Sharp);
    assert_eq!(classify_turn(8_999_999, 100_000_000_000_000, 1), TurnRegime::Sharp);
}

#[test]
fn similarity_just_above_nine_tenths_is_a_shallow_turn() {
    assert_eq!(classify_turn(901, 1_000_000, 1), TurnRegime::Shallow);
}

#[test]
fn similarity_of_exactly_ninety_eight_hundredths_is_aligned() {
    assert_eq!(classify_turn(49, 2_500, 1), TurnRegime::Aligned);
    assert_eq!(classify_turn(980, 1_000_000, 1), TurnRegime::Aligned);
}

#[test]
fn similarity_just_below_ninety_eight_hundredths_is_a_shallow_turn() {
    assert_eq!(classify_turn(979, 1_000_000, 1), TurnRegime::Shallow);
    assert_eq!(classify_turn(9_799_999, 100_000_000_000_000, 1), TurnRegime::Shallow);
}

#[test]
fn similarity_just_above_ninety_eight_hundredths_is_aligned() {
    assert_eq!(classify_turn(981, 1_000_000, 1), TurnRegime::Aligned);
    assert_eq!(classify_turn(1, 1, 1), TurnRegime::Aligned);
}

#[test]
fn a_turn_away_is_sharp() {
    assert_eq!(classify_turn(-1, 1, 1), TurnRegime::Sharp);
    assert_eq!(classify_turn(0, 1, 1), TurnRegime::Sharp);
    assert_eq!(classify_turn(i64::MIN, u64::MAX, 255), TurnRegime::Sharp);
}

#[test]
fn no_velocity_counts_as_aligned() {
    assert_eq!(classify_turn(0, 0, 1), TurnRegime::Aligned);
    assert_eq!(classify_turn(0, 0, 2), TurnRegime::Aligned);
}

#[test]
fn the_largest_inputs_are_classified() {
    assert_eq!(classify_turn(i64::MAX, u64::MAX, 255), TurnRegime::Aligned);
    assert_eq!(classify_turn(1 << 40, u64::MAX, 255), TurnRegime::Aligned);
    assert_eq!(classify_turn((1 << 40) - 1, u64::MAX, 255), TurnRegime::Aligned);
    assert_eq!(classify_turn(1 << 31, u64::MAX, 255), TurnRegime::Sharp);
}

#[test]
fn held_directions_add_up() {
    assert!(!NONE.any());
    assert!(RIGHT.any());
    assert_eq!(UP_RIGHT.net(), Vec2 { x: 1, y: 1 });
    assert_eq!(LEFT.net(), Vec2 { x: -1, y: 0 });
    let all = HeldDirections { up: true, right: true, down: true, left: true };
    assert!(all.any());
    assert_eq!(all.net(), Vec2 { x: 0, y: 0 });
}

#[test]
fn the_speed_cap_is_the_maximum_speed_if_a_velocity_can_hold_it() {
    assert_eq!(profile().speed_cap(), 200_000);
    let fast = PlayerMovementInfo { acceleration: 0, deceleration: 0, max_speed: u32::MAX };
    assert_eq!(fast.speed_cap(), i32::MAX as i64);
}
