use lifelong_sim::eye::Eye;
use lifelong_sim::geometry::{bearing_of, cos_of, isqrt, sin_of, wrap_add, Point, QUARTER, TURN};
use lifelong_sim::network::ONE;

#[test]
fn wrap_add_wraps_both_ways() {
    assert_eq!(wrap_add(u32::MAX, 1), 0);
    assert_eq!(wrap_add(5, -10), u32::MAX - 4);
    assert_eq!(wrap_add(100, 23), 123);
}

#[test]
fn whole_side_of_moves_returns_to_start() {
    let start: u32 = 123_456_789;
    let steps: Vec<i64> = vec![1 << 31, 1 << 30, -(1 << 29), 1 << 29, 1 << 30];
    assert_eq!(steps.iter().sum::<i64>(), TURN as i64);
    let mut x = start;
    for d in steps {
        x = wrap_add(x, d);
    }
    assert_eq!(x, start);
}

#[test]
fn sine_and_cosine_at_quarter_turns() {
    assert_eq!(sin_of(0), 0);
    assert_eq!(sin_of(QUARTER as u32), ONE);
    assert_eq!(sin_of(3 * QUARTER as u32), -ONE);
    assert_eq!(cos_of(0), ONE);
    assert_eq!(cos_of(2 * QUARTER as u32), -ONE);
}

#[test]
fn integer_square_root() {
    assert_eq!(isqrt(0), 0);
    assert_eq!(isqrt(15), 3);
    assert_eq!(isqrt(16), 4);
    assert_eq!(isqrt(u64::MAX), 4294967295);
}

#[test]
fn bearing_of_axes() {
    assert_eq!(bearing_of(5, 0), 0);
    assert_eq!(bearing_of(0, 5), QUARTER as u32);
    assert_eq!(bearing_of(-5, 0), 2 * QUARTER as u32);
    assert_eq!(bearing_of(0, -5), 3 * QUARTER as u32);
    assert_eq!(bearing_of(5, 5), (QUARTER / 2) as u32);
}

fn eye() -> Eye {
    // A quarter side of range, half a turn of field, four sectors.
    Eye { fov_range: 1 << 30, fov_angle: 1 << 31, cells: 4 }
}

#[test]
fn food_straight_ahead_lands_in_a_middle_sector() {
    let me = Point { x: 1000, y: 1000 };
    // Heading 0 points along +y; the food is an eighth of a side ahead.
    let food = vec![Point { x: 1000, y: 1000 + (1 << 29) }];
    let v = eye().sense_food(me, 0, &food);
    assert_eq!(v, vec![0, 0, ONE / 2, 0]);
}

#[test]
fn food_readings_accumulate() {
    let me = Point { x: 1000, y: 1000 };
    let food = vec![Point { x: 1000, y: 1000 + (1 << 29) }, Point { x: 1000, y: 1000 + (1 << 28) }];
    let v = eye().sense_food(me, 0, &food);
    assert_eq!(v, vec![0, 0, ONE / 2 + 3 * ONE / 4, 0]);
}

#[test]
fn food_out_of_range_or_behind_is_unseen() {
    let me = Point { x: 1000, y: 1000 };
    let far = Point { x: 1000, y: 1000 + (1 << 30) + 5 };
    let behind = Point { x: 1000, y: 1000u32.wrapping_sub(1 << 28) };
    let v = eye().sense_food(me, 0, &vec![far, behind]);
    assert_eq!(v, vec![0, 0, 0, 0]);
    assert!(v.iter().all(|c| *c >= 0));
}

#[test]
fn neighbour_ties_go_to_the_later_one() {
    let me = Point { x: 1000, y: 1000 };
    let a = Point { x: 1000, y: 1000 + (1 << 28) };
    let others = vec![a, me, a];
    let v = eye().sense_neighbors(me, 0, &others, 1);
    assert_eq!(v[2], (2, 3 * ONE / 4));
    assert_eq!(v[0], (0, 0));
}

#[test]
fn neighbour_sensor_keeps_the_closest_and_skips_itself() {
    let me = Point { x: 1000, y: 1000 };
    let near = Point { x: 1000, y: 1000 + (1 << 28) };
    let far = Point { x: 1000, y: 1000 + (1 << 29) };
    let v = eye().sense_neighbors(me, 0, &vec![near, far, me], 2);
    assert_eq!(v[2], (0, 3 * ONE / 4));
}
