use combat_core::fixed::{ceil_sqrt_u128, MICROS_PER_SECOND, UNITS_PER_WHOLE};
use combat_core::vector::{magnitude, rescale, Vec2};

#[test]
fn the_square_root_is_rounded_up() {
    let expected: [(u128, u128); 12] = [
        (0, 0),
        (1, 1),
        (2, 2),
        (3, 2),
        (4, 2),
        (5, 3),
        (8, 3),
        (9, 3),
        (10, 4),
        (15, 4),
        (16, 4),
        (17, 5),
    ];
    for (n, root) in expected {
        assert_eq!(ceil_sqrt_u128(n), root);
    }
    assert_eq!(ceil_sqrt_u128(640_000_000_000), 800_000);
}

#[test]
fn the_square_root_of_the_largest_numbers_is_found() {
    assert_eq!(ceil_sqrt_u128(1 << 64), 1 << 32);
    assert_eq!(ceil_sqrt_u128((1 << 64) + 1), (1 << 32) + 1);
    assert_eq!(ceil_sqrt_u128(u128::MAX), 1 << 64);
    let root: u128 = u64::MAX as u128;
    assert_eq!(ceil_sqrt_u128(root * root), root);
    assert_eq!(ceil_sqrt_u128(root * root + 1), root + 1);
    assert_eq!(ceil_sqrt_u128(root * root - 1), root);
}

#[test]
fn the_square_root_is_the_least_number_whose_square_reaches() {
    for n in 0..5_000u128 {
        let root = ceil_sqrt_u128(n);
        assert!(root * root >= n);
        assert!(root == 0 || (root - 1) * (root - 1) < n);
    }
}

#[test]
fn a_vector_is_given_a_new_length() {
    assert_eq!(rescale(3, 4, 10), (6, 8));
    assert_eq!(rescale(1, 1, 1_000), (707, 707));
    assert_eq!(rescale(-7, 0, 3), (-3, 0));
    assert_eq!(rescale(0, 0, 9), (0, 0));
    assert_eq!(rescale(5, -12, 0), (0, 0));
    assert_eq!(rescale(1, 1, 1_000_000), (707_106, 707_106));
    assert_eq!(rescale(-1, 0, 1_000_000), (-1_000_000, 0));
}

#[test]
fn the_largest_vector_is_given_the_largest_length() {
    let limit: i64 = 1 << 47;
    let length: i64 = 1 << 32;
    assert_eq!(rescale(limit, 0, length), (length, 0));
    assert_eq!(rescale(limit, -limit, length), (3_037_000_499, -3_037_000_499));
    assert_eq!(rescale(i32::MAX as i64, i32::MIN as i64, i32::MAX as i64), (1_518_500_248, -1_518_500_249));
}

#[test]
fn a_rescaled_vector_is_never_longer_than_asked() {
    let mut state: u64 = 0x1234_5678_9abc_def1;
    let mut next = move || {
        state ^= state << 13;
        state ^= state >> 7;
        state ^= state << 17;
        state
    };
    for _ in 0..20_000 {
        let x = ((next() as i64) >> 16) >> (next() % 48);
        let y = ((next() as i64) >> 16) >> (next() % 48);
        let length = ((next() >> 32) >> (next() % 32)) as i64;
        let (rx, ry) = rescale(x, y, length);
        let squared = (rx as i128) * (rx as i128) + (ry as i128) * (ry as i128);
        assert!(squared <= (length as i128) * (length as i128));
        assert!((rx as i128) * (x as i128) >= 0 && (ry as i128) * (y as i128) >= 0);
    }
}

#[test]
fn lengths_and_products_of_vectors() {
    let v = Vec2 { x: 3, y: -4 };
    assert_eq!(v.length_squared(), 25);
    assert_eq!(v.dot(Vec2 { x: 2, y: 1 }), 2);
    assert_eq!(Vec2::zero(), Vec2 { x: 0, y: 0 });
    let far = Vec2 { x: i32::MIN, y: i32::MIN };
    assert_eq!(far.length_squared(), 1 << 63);
    assert_eq!(far.dot(far), 1 << 63);
    assert_eq!(far.dot(Vec2 { x: i32::MAX, y: i32::MAX }), -((1i128 << 63) - (1i128 << 32)));
    assert_eq!(magnitude(i64::MIN), 1 << 63);
    assert_eq!(magnitude(-5), 5);
    assert_eq!(magnitude(5), 5);
}

#[test]
fn a_whole_is_a_thousand_units_and_a_second_a_million_microseconds() {
    assert_eq!(UNITS_PER_WHOLE, 1_000);
    assert_eq!(MICROS_PER_SECOND, 1_000_000);
}
