use flock::sqrt::isqrt;
use flock::vector::{Offset, Vector, REACH};

#[test]
fn isqrt_of_small_numbers() {
    let expected: [u128; 18] = [0, 1, 1, 1, 2, 2, 2, 2, 2, 3, 3, 3, 3, 3, 3, 3, 4, 4];
    for (n, r) in expected.iter().enumerate() {
        assert_eq!(isqrt(n as u128), *r);
    }
}

#[test]
fn isqrt_around_squares() {
    assert_eq!(isqrt(999_999), 999);
    assert_eq!(isqrt(1_000_000), 1000);
    assert_eq!(isqrt(1_000_001), 1000);
    assert_eq!(isqrt(5901), 76);
    assert_eq!(isqrt(4098), 64);
}

#[test]
fn isqrt_of_the_largest_number() {
    assert_eq!(isqrt(u128::MAX), u64::MAX as u128);
    assert_eq!(isqrt(1u128 << 126), 1u128 << 63);
    assert_eq!(isqrt((1u128 << 126) - 1), (1u128 << 63) - 1);
}

#[test]
fn plus_and_minus_widen() {
    let a = Vector::new(i32::MAX, i32::MIN);
    let b = Vector::new(i32::MAX, i32::MIN);
    assert_eq!(a.plus(&b), Offset { x: 2 * (i32::MAX as i64), y: 2 * (i32::MIN as i64) });
    assert_eq!(a.plus(&b).y, -REACH);
    let c = Vector::new(i32::MIN, i32::MAX);
    assert_eq!(a.minus(&c), Offset { x: REACH - 1, y: -(REACH - 1) });
    assert_eq!(Vector::new(3, 4).minus(&Vector::new(5, 1)), Offset { x: -2, y: 3 });
}

#[test]
fn narrow_keeps_what_fits() {
    assert_eq!(Offset { x: -7, y: 9 }.narrow(), Some(Vector::new(-7, 9)));
    assert_eq!(
        Offset { x: i32::MAX as i64, y: i32::MIN as i64 }.narrow(),
        Some(Vector::new(i32::MAX, i32::MIN))
    );
    assert_eq!(Offset { x: i32::MAX as i64 + 1, y: 0 }.narrow(), None);
    assert_eq!(Offset { x: 0, y: i32::MIN as i64 - 1 }.narrow(), None);
}

#[test]
fn norm_sq_is_exact() {
    assert_eq!(Offset { x: 3, y: -4 }.norm_sq(), 25);
    assert_eq!(Offset { x: 0, y: 0 }.norm_sq(), 0);
    assert_eq!(Offset { x: REACH, y: -REACH }.norm_sq(), 1u128 << 65);
}

#[test]
fn with_length_along_a_pythagorean_vector() {
    assert_eq!(Offset { x: 3, y: 4 }.with_length(10), Vector::new(6, 8));
    assert_eq!(Offset { x: -3, y: 4 }.with_length(5), Vector::new(-3, 4));
    assert_eq!(Offset { x: -5, y: -12 }.with_length(26), Vector::new(-10, -24));
}

#[test]
fn with_length_rounds_toward_zero() {
    assert_eq!(Offset { x: 1, y: 1 }.with_length(10), Vector::new(7, 7));
    assert_eq!(Offset { x: -1, y: 1 }.with_length(10), Vector::new(-7, 7));
    assert_eq!(Offset { x: 1, y: 0 }.with_length(7), Vector::new(7, 0));
}

#[test]
fn with_length_of_zero_and_to_zero() {
    assert_eq!(Offset { x: 0, y: 0 }.with_length(10), Vector::new(0, 0));
    assert_eq!(Offset { x: 5, y: -9 }.with_length(0), Vector::new(0, 0));
}

#[test]
fn with_length_at_the_edge_of_reach() {
    let far = Offset { x: REACH, y: -REACH };
    assert_eq!(far.with_length(i32::MAX), Vector::new(1518500249, -1518500249));
}

#[test]
fn clamp_length_leaves_short_vectors() {
    assert_eq!(Offset { x: 3, y: 4 }.clamp_length(5), Vector::new(3, 4));
    assert_eq!(Offset { x: 3, y: 4 }.clamp_length(6), Vector::new(3, 4));
    assert_eq!(Offset { x: 0, y: 0 }.clamp_length(0), Vector::new(0, 0));
}

#[test]
fn clamp_length_cuts_long_vectors() {
    assert_eq!(Offset { x: 3, y: 4 }.clamp_length(4), Vector::new(2, 3));
    assert_eq!(Offset { x: 30, y: -40 }.clamp_length(5), Vector::new(3, -4));
    assert_eq!(Offset { x: 7, y: 7 }.clamp_length(0), Vector::new(0, 0));
}

#[test]
fn clamp_length_never_exceeds_the_bound() {
    for x in -40i64..=40 {
        for y in -40i64..=40 {
            for max in 0i32..=12 {
                let cut = Offset { x, y }.clamp_length(max);
                let len_sq = (cut.x as i64) * (cut.x as i64) + (cut.y as i64) * (cut.y as i64);
                assert!(len_sq <= (max as i64) * (max as i64));
                assert!(cut.x as i64 * x >= 0 && cut.y as i64 * y >= 0);
                assert!((cut.x as i64).abs() <= x.abs() && (cut.y as i64).abs() <= y.abs());
            }
        }
    }
}

#[test]
fn with_length_loses_less_than_a_unit() {
    for x in -25i64..=25 {
        for y in -25i64..=25 {
            if x == 0 && y == 0 {
                continue;
            }
            let r = Offset { x, y }.with_length(100);
            let (ax, ay) = ((r.x as i64).abs(), (r.y as i64).abs());
            assert!(ax * ax + ay * ay <= 10_000);
            assert!((ax + 1) * (ax + 1) + (ay + 1) * (ay + 1) > 10_000);
        }
    }
}

#[test]
fn zero_vectors_are_recognised() {
    assert!(Vector::zero().is_zero());
    assert!(!Vector::new(0, 1).is_zero());
    assert!(Offset { x: 0, y: 0 }.is_zero());
    assert!(!Offset { x: -1, y: 0 }.is_zero());
    assert_eq!(Vector::zero(), Vector::new(0, 0));
}
