use gridscan::direction::Direction;
use gridscan::matrix::{GridError, Matrix};
use gridscan::util::{clamp, cross, dot, intersect_lines};

#[test]
fn direction_turn_left_right_round_trip() {
    let all = [
        Direction::Right,
        Direction::DownRight,
        Direction::Down,
        Direction::DownLeft,
        Direction::Left,
        Direction::UpLeft,
        Direction::Up,
        Direction::UpRight,
    ];
    for d in all {
        assert_eq!(d.turn_left().turn_right(), d);
        assert_eq!(d.turn_right().turn_left(), d);
    }
}

#[test]
fn direction_turns_and_vectors() {
    assert_eq!(Direction::Right.turn_right(), Direction::Down);
    assert_eq!(Direction::Down.turn_right(), Direction::Left);
    assert_eq!(Direction::Right.turn_left(), Direction::Up);
    assert_eq!(Direction::Up.turn_back(), Direction::Down);
    assert_eq!(Direction::Right.turn(1), Direction::DownRight);
    assert_eq!(Direction::Right.turn(-1), Direction::UpRight);
    assert_eq!(Direction::Right.turn(8), Direction::Right);
    assert_eq!(Direction::Right.as_vector(), (1, 0));
    assert_eq!(Direction::UpLeft.as_vector(), (-1, -1));
    assert_eq!(Direction::from_vector(0, 1), Some(Direction::Down));
    assert_eq!(Direction::from_vector(2, 0), None);
    assert_eq!(Direction::Down.perpendicular(), Direction::Left);
}

#[test]
fn matrix_get_set_bounds() {
    let mut m = Matrix::new(4, 3);
    assert_eq!(m.width(), 4);
    assert_eq!(m.height(), 3);
    assert_eq!(m.get(0, 0), Some(0));
    assert_eq!(m.get(3, 2), Some(0));
    assert_eq!(m.get(4, 2), None);
    assert_eq!(m.get(-1, 0), None);
    assert!(m.set(2, 1, 7));
    assert_eq!(m.get(2, 1), Some(7));
    assert_eq!(m.get(1, 2), Some(0));
    assert!(!m.set(4, 0, 1));
    assert_eq!(m.get(4, 0), None);
}

#[test]
fn matrix_set_region_fills_exact_rectangle() {
    let mut m = Matrix::new(5, 5);
    assert_eq!(m.set_region(1, 2, 3, 2), Ok(()));
    for y in 0..5i64 {
        for x in 0..5i64 {
            let expect = (1..4).contains(&x) && (2..4).contains(&y);
            assert_eq!(m.get(x, y), Some(if expect { 1 } else { 0 }));
        }
    }
}

#[test]
fn matrix_set_region_errors() {
    let mut m = Matrix::new(5, 5);
    assert_eq!(m.set_region(0, 0, 0, 2), Err(GridError::EmptyRegion));
    assert_eq!(m.set_region(3, 3, 3, 1), Err(GridError::OutOfBounds));
    assert_eq!(m.set_region(0, 4, 1, 2), Err(GridError::OutOfBounds));
    for y in 0..5i64 {
        for x in 0..5i64 {
            assert_eq!(m.get(x, y), Some(0));
        }
    }
}

#[test]
fn util_cross_dot_clamp() {
    assert_eq!(cross(1, 0, 0, 1), 1);
    assert_eq!(cross(2, 3, 4, 6), 0);
    assert_eq!(dot(2, 3, 4, 5), 23);
    assert_eq!(clamp(7, 0, 5), 5);
    assert_eq!(clamp(-2, 0, 5), 0);
    assert_eq!(clamp(3, 0, 5), 3);
}

#[test]
fn util_line_intersection() {
    // x + y = 2 meets x - y = 0 in (1, 1).
    let p = intersect_lines(1, 1, 2, 1, -1, 0).unwrap();
    assert_eq!(p.0.num, p.0.den);
    assert_eq!(p.1.num, p.1.den);
    // Parallel lines have no intersection.
    assert!(intersect_lines(1, 1, 2, 2, 2, 7).is_none());
}
