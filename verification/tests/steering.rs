use flock::steering::{direction_to, seek, SteeringError};
use flock::vector::Vector;

#[test]
fn direction_to_a_distant_target() {
    let r = direction_to(&Vector::new(200_000, 0), &Vector::new(0, 0), 2000);
    assert_eq!(r, Ok(Vector::new(-2000, 0)));
    let r = direction_to(&Vector::new(1, 1), &Vector::new(4, 5), 10);
    assert_eq!(r, Ok(Vector::new(6, 8)));
}

#[test]
fn direction_to_the_own_position_is_degenerate() {
    let here = Vector::new(-17, 99);
    assert_eq!(direction_to(&here, &here, 2000), Err(SteeringError::DegenerateDirection));
    assert_eq!(direction_to(&here, &here, 0), Err(SteeringError::DegenerateDirection));
}

#[test]
fn seek_cuts_the_correction_to_the_force_limit() {
    let force = seek(&Vector::new(200_000, 0), &Vector::new(10_000, -10_000), &Vector::new(0, 0), 2000, 100);
    assert_eq!(force, Vector::new(-76, 64));
}

#[test]
fn seek_leaves_a_small_correction_as_it_is() {
    let force = seek(&Vector::new(0, 0), &Vector::new(1990, 30), &Vector::new(10, 0), 2000, 100);
    assert_eq!(force, Vector::new(10, -30));
}

#[test]
fn seek_from_rest() {
    let force = seek(&Vector::new(0, 0), &Vector::new(0, 0), &Vector::new(10, 0), 2000, 100);
    assert_eq!(force, Vector::new(100, 0));
}

#[test]
fn seek_at_the_desired_velocity_gives_no_force() {
    let force = seek(&Vector::new(0, 0), &Vector::new(2000, 0), &Vector::new(10, 0), 2000, 100);
    assert_eq!(force, Vector::new(0, 0));
}

#[test]
fn seek_on_the_target_gives_no_force() {
    let here = Vector::new(5, 5);
    assert_eq!(seek(&here, &Vector::new(3, -3), &here, 2000, 100), Vector::new(0, 0));
    assert_eq!(seek(&here, &Vector::new(i32::MAX, i32::MIN), &here, 2000, 100), Vector::new(0, 0));
}

#[test]
fn seek_with_no_force_allowed() {
    let force = seek(&Vector::new(0, 0), &Vector::new(5, 5), &Vector::new(10, 0), 2000, 0);
    assert_eq!(force, Vector::new(0, 0));
}

#[test]
fn seek_across_the_whole_lattice() {
    let low = Vector::new(i32::MIN, i32::MIN);
    let high = Vector::new(i32::MAX, i32::MAX);
    assert_eq!(seek(&low, &low, &high, i32::MAX, 1000), Vector::new(707, 707));
}

#[test]
fn seek_force_stays_within_the_limit() {
    let position = Vector::new(12, -7);
    for vx in [-1_000_000, -300, 0, 1, 77, 2_000_000_000] {
        for vy in [i32::MIN, -5, 0, 9, 40_000] {
            for (tx, ty) in [(12, -7), (13, -7), (-900, 4000), (i32::MAX, i32::MIN)] {
                for max_force in [0, 1, 100, 65_536] {
                    let f = seek(&position, &Vector::new(vx, vy), &Vector::new(tx, ty), 2000, max_force);
                    let len_sq = (f.x as i64) * (f.x as i64) + (f.y as i64) * (f.y as i64);
                    assert!(len_sq <= (max_force as i64) * (max_force as i64));
                }
            }
        }
    }
}
