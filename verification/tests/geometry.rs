use ball_game::constants::{ENEMY_SIZE, PLAYER_SIZE, PLAYER_SPEED, STAR_SIZE, UNIT, UNITS_PER_PIXEL};
use ball_game::direction::Direction;
use ball_game::math::{isqrt, saturate};
use ball_game::position::Position;
use ball_game::window::Window;

fn length_squared(d: &Direction) -> i64 {
    (d.x() as i64) * (d.x() as i64) + (d.y() as i64) * (d.y() as i64)
}

#[test]
fn isqrt_of_small_numbers() {
    assert_eq!(isqrt(0), 0);
    assert_eq!(isqrt(1), 1);
    assert_eq!(isqrt(2), 1);
    assert_eq!(isqrt(3), 1);
    assert_eq!(isqrt(4), 2);
    assert_eq!(isqrt(15), 3);
    assert_eq!(isqrt(16), 4);
    assert_eq!(isqrt(17), 4);
}

#[test]
fn isqrt_of_large_numbers() {
    assert_eq!(isqrt(1_000_000_000_000), 1_000_000);
    assert_eq!(isqrt(999_999_999_999), 999_999);
    assert_eq!(isqrt(500_000_000_000), 707_106);
    assert_eq!(isqrt(u64::MAX), u32::MAX);
    assert_eq!(isqrt((u32::MAX as u64) * (u32::MAX as u64)), u32::MAX);
    assert_eq!(isqrt((u32::MAX as u64) * (u32::MAX as u64) - 1), u32::MAX - 1);
}

#[test]
fn saturate_keeps_what_fits_and_clamps_the_rest() {
    assert_eq!(saturate(0), 0);
    assert_eq!(saturate(-5), -5);
    assert_eq!(saturate(i64::MAX as i128), i64::MAX);
    assert_eq!(saturate(i64::MAX as i128 + 1), i64::MAX);
    assert_eq!(saturate(i64::MIN as i128 - 1), i64::MIN);
    assert_eq!(saturate(i128::MAX), i64::MAX);
    assert_eq!(saturate(i128::MIN), i64::MIN);
}

#[test]
fn normalized_zero_vector_has_no_direction() {
    assert!(Direction::normalized(0, 0).is_none());
}

#[test]
fn normalized_axes_are_whole_units() {
    let east = Direction::normalized(1, 0).unwrap();
    assert_eq!((east.x(), east.y()), (UNIT, 0));
    let west = Direction::normalized(-7, 0).unwrap();
    assert_eq!((west.x(), west.y()), (-UNIT, 0));
    let north = Direction::normalized(0, 12345).unwrap();
    assert_eq!((north.x(), north.y()), (0, UNIT));
    let south = Direction::normalized(0, i32::MIN).unwrap();
    assert_eq!((south.x(), south.y()), (0, -UNIT));
    assert_eq!(Direction::east(), east);
}

#[test]
fn normalized_diagonal_is_unit_over_root_two() {
    let d = Direction::normalized(1, 1).unwrap();
    assert_eq!((d.x(), d.y()), (707_106, 707_106));
    let d = Direction::normalized(-1, 1).unwrap();
    assert_eq!((d.x(), d.y()), (-707_106, 707_106));
    let d = Direction::normalized(1, -1).unwrap();
    assert_eq!((d.x(), d.y()), (707_106, -707_106));
    let d = Direction::normalized(-1, -1).unwrap();
    assert_eq!((d.x(), d.y()), (-707_106, -707_106));
}

#[test]
fn normalized_three_four_five() {
    let d = Direction::normalized(3, 4).unwrap();
    assert_eq!((d.x(), d.y()), (600_000, 800_000));
    let d = Direction::normalized(-300, 400).unwrap();
    assert_eq!((d.x(), d.y()), (-600_000, 800_000));
}

#[test]
fn normalized_is_unit_on_the_grid() {
    let inputs = [
        (1, 2),
        (2, 1),
        (7, 13),
        (i32::MAX, 1),
        (i32::MAX, i32::MAX),
        (i32::MIN, i32::MIN),
        (123_456, -654_321),
        (1, i32::MAX),
        (16_777_215, 1),
    ];
    let unit = (UNIT as i64) * (UNIT as i64);
    for (x, y) in inputs {
        let d = Direction::normalized(x, y).unwrap();
        let inside = length_squared(&d);
        let ax = (d.x() as i64).abs() + 1;
        let ay = (d.y() as i64).abs() + 1;
        assert!(inside <= unit, "{} {}", x, y);
        assert!(unit < ax * ax + ay * ay, "{} {}", x, y);
        assert!((UNIT as i64 - 2) * (UNIT as i64 - 2) < inside, "{} {}", x, y);
        assert_eq!(d.x().signum(), if d.x() == 0 { 0 } else { x.signum() });
        assert_eq!(d.y().signum(), if d.y() == 0 { 0 } else { y.signum() });
    }
}

#[test]
fn reflected_negates_the_chosen_components() {
    let d = Direction::normalized(3, 4).unwrap();
    let r = d.reflected(true, false);
    assert_eq!((r.x(), r.y()), (-600_000, 800_000));
    let r = d.reflected(false, true);
    assert_eq!((r.x(), r.y()), (600_000, -800_000));
    let r = d.reflected(true, true);
    assert_eq!((r.x(), r.y()), (-600_000, -800_000));
    let r = d.reflected(false, false);
    assert_eq!(r, d);
}

#[test]
fn reflections_keep_the_length() {
    let start = Direction::normalized(5, 12).unwrap();
    let before = length_squared(&start);
    let mut d = start;
    let mut state: u32 = 0x2545_F491;
    for _ in 0..1000 {
        state ^= state << 13;
        state ^= state >> 17;
        state ^= state << 5;
        d = d.reflected(state & 1 == 1, state & 2 == 2);
        assert_eq!(length_squared(&d), before);
        assert_eq!(d.x().abs(), start.x().abs());
        assert_eq!(d.y().abs(), start.y().abs());
    }
}

#[test]
fn position_from_pixels_scales() {
    let p = Position::from_pixels(100, -3);
    assert_eq!(p.x, 100 * UNITS_PER_PIXEL);
    assert_eq!(p.y, -3 * UNITS_PER_PIXEL);
    let p = Position::from_pixels(i32::MAX, i32::MIN);
    assert_eq!(p.x, (i32::MAX as i64) * 1_000_000);
    assert_eq!(p.y, (i32::MIN as i64) * 1_000_000);
}

#[test]
fn advanced_along_an_axis_covers_speed_times_time() {
    let p = Position::from_pixels(10, 20);
    let east = Direction::east();
    let q = p.advanced(east, 500, 1_000_000);
    assert_eq!(q, Position::from_pixels(510, 20));
    let q = p.advanced(east.reflected(true, false), 200, 16_667);
    assert_eq!(q, Position { x: 10_000_000 - 200 * 16_667, y: 20_000_000 });
    let north = Direction::normalized(0, 1).unwrap();
    let q = p.advanced(north, 500, 1);
    assert_eq!(q, Position { x: 10_000_000, y: 20_000_500 });
}

#[test]
fn advanced_along_a_diagonal_rounds_toward_zero() {
    let p = Position { x: 0, y: 0 };
    let d = Direction::normalized(1, -1).unwrap();
    let q = p.advanced(d, PLAYER_SPEED, 1_000_000);
    assert_eq!(q, Position { x: 353_553_000, y: -353_553_000 });
    let q = p.advanced(d, 1, 1);
    assert_eq!(q, Position { x: 0, y: 0 });
    let q = p.advanced(d, 3, 1);
    assert_eq!(q, Position { x: 2, y: -2 });
    let d = Direction::normalized(3, 4).unwrap();
    let q = p.advanced(d, 7, 11);
    assert_eq!(q, Position { x: 46, y: 61 });
}

#[test]
fn advanced_with_no_time_or_no_speed_stays() {
    let p = Position { x: -17, y: 99 };
    let d = Direction::normalized(2, 3).unwrap();
    assert_eq!(p.advanced(d, 500, 0), p);
    assert_eq!(p.advanced(d, 0, 123_456), p);
}

#[test]
fn advanced_saturates_at_the_ends_of_the_range() {
    let east = Direction::east();
    let p = Position { x: i64::MAX - 5, y: i64::MIN + 5 };
    let q = p.advanced(east, 10, 1);
    assert_eq!(q, Position { x: i64::MAX, y: i64::MIN + 5 });
    let south_west = Direction::normalized(-1, -1).unwrap();
    let q = p.advanced(south_west, u32::MAX, u64::MAX);
    assert_eq!(q, Position { x: i64::MIN, y: i64::MIN });
    let q = Position { x: 0, y: 0 }.advanced(east, u32::MAX, u64::MAX);
    assert_eq!(q, Position { x: i64::MAX, y: 0 });
}

#[test]
fn window_new_refuses_negative_sides() {
    assert!(Window::new(-1, 10).is_none());
    assert!(Window::new(10, -1).is_none());
    assert!(Window::new(i64::MIN, i64::MIN).is_none());
    let w = Window::new(0, 0).unwrap();
    assert_eq!((w.width(), w.height()), (0, 0));
    let w = Window::new(i64::MAX, 7).unwrap();
    assert_eq!((w.width(), w.height()), (i64::MAX, 7));
}

#[test]
fn window_from_pixels_scales() {
    let w = Window::from_pixels(800, 600);
    assert_eq!((w.width(), w.height()), (800_000_000, 600_000_000));
    assert_eq!(Window::new(800_000_000, 600_000_000), Some(w));
    let w = Window::from_pixels(u32::MAX, 0);
    assert_eq!((w.width(), w.height()), (4_294_967_295_000_000, 0));
}

#[test]
fn confined_leaves_a_point_inside_alone() {
    let w = Window::from_pixels(800, 600);
    let p = Position::from_pixels(400, 300);
    assert_eq!(p.confined(&w, PLAYER_SIZE), p);
    let p = Position::from_pixels(32, 568);
    assert_eq!(p.confined(&w, PLAYER_SIZE), p);
    let p = Position::from_pixels(768, 32);
    assert_eq!(p.confined(&w, PLAYER_SIZE), p);
}

#[test]
fn confined_clamps_to_half_the_size_from_each_edge() {
    let w = Window::from_pixels(800, 600);
    let p = Position::from_pixels(-50, 700).confined(&w, PLAYER_SIZE);
    assert_eq!(p, Position::from_pixels(32, 568));
    let p = Position::from_pixels(5000, -5000).confined(&w, ENEMY_SIZE);
    assert_eq!(p, Position::from_pixels(768, 32));
    let p = Position { x: 31_999_999, y: 568_000_001 }.confined(&w, PLAYER_SIZE);
    assert_eq!(p, Position::from_pixels(32, 568));
    let p = Position::from_pixels(0, 600).confined(&w, STAR_SIZE);
    assert_eq!(p, Position::from_pixels(15, 585));
    let p = Position { x: i64::MIN, y: i64::MAX }.confined(&w, PLAYER_SIZE);
    assert_eq!(p, Position::from_pixels(32, 568));
}

#[test]
fn confined_in_a_window_as_large_as_the_body() {
    let w = Window::from_pixels(64, 64);
    for (x, y) in [(0, 0), (32, 32), (64, 64), (-5, 100)] {
        let p = Position::from_pixels(x, y).confined(&w, PLAYER_SIZE);
        assert_eq!(p, Position::from_pixels(32, 32));
    }
}

#[test]
fn confined_in_a_window_smaller_than_the_body_tests_the_lower_bound_first() {
    let w = Window::from_pixels(40, 40);
    let below = Position::from_pixels(10, 31).confined(&w, PLAYER_SIZE);
    assert_eq!(below, Position::from_pixels(32, 32));
    let above = Position::from_pixels(32, 100).confined(&w, PLAYER_SIZE);
    assert_eq!(above, Position::from_pixels(8, 8));
    let w = Window::from_pixels(0, 0);
    let p = Position::from_pixels(50, 0).confined(&w, PLAYER_SIZE);
    assert_eq!(p, Position::from_pixels(-32, 32));
}

#[test]
fn confined_with_an_odd_size_rounds_the_half_down() {
    let w = Window::new(100, 100).unwrap();
    let p = Position { x: 0, y: 1000 }.confined(&w, 7);
    assert_eq!(p, Position { x: 3, y: 97 });
    let p = Position { x: 0, y: 3_000_000_000 }.confined(&w, u32::MAX);
    assert_eq!(p, Position { x: 2_147_483_647, y: 100 - 2_147_483_647 });
}

#[test]
fn out_of_bounds_tells_each_axis_apart() {
    let w = Window::from_pixels(800, 600);
    let p = Position::from_pixels(31, 300);
    assert!(p.out_of_bounds_x(&w, ENEMY_SIZE));
    assert!(!p.out_of_bounds_y(&w, ENEMY_SIZE));
    let p = Position::from_pixels(32, 569);
    assert!(!p.out_of_bounds_x(&w, ENEMY_SIZE));
    assert!(p.out_of_bounds_y(&w, ENEMY_SIZE));
    let p = Position::from_pixels(768, 32);
    assert!(!p.out_of_bounds_x(&w, ENEMY_SIZE));
    assert!(!p.out_of_bounds_y(&w, ENEMY_SIZE));
    let p = Position { x: 768_000_001, y: 31_999_999 };
    assert!(p.out_of_bounds_x(&w, ENEMY_SIZE));
    assert!(p.out_of_bounds_y(&w, ENEMY_SIZE));
}

#[test]
fn overlaps_compares_the_distance_with_the_sum_of_the_radii() {
    let a = Position::from_pixels(100, 100);
    assert!(a.overlaps(PLAYER_SIZE, Position::from_pixels(110, 100), ENEMY_SIZE));
    assert!(!a.overlaps(PLAYER_SIZE, Position::from_pixels(200, 200), STAR_SIZE));
    assert!(a.overlaps(PLAYER_SIZE, a, STAR_SIZE));
    assert!(!a.overlaps(PLAYER_SIZE, Position::from_pixels(164, 100), ENEMY_SIZE));
    assert!(a.overlaps(PLAYER_SIZE, Position { x: 163_999_999, y: 100_000_000 }, ENEMY_SIZE));
    assert!(!a.overlaps(PLAYER_SIZE, Position::from_pixels(100, 147), STAR_SIZE));
    assert!(a.overlaps(PLAYER_SIZE, Position { x: 100_000_000, y: 53_000_001 }, STAR_SIZE));
}

#[test]
fn overlaps_along_a_diagonal() {
    let a = Position { x: 0, y: 0 };
    assert!(a.overlaps(6, Position { x: 2, y: 2 }, 0));
    assert!(!a.overlaps(6, Position { x: 3, y: 0 }, 0));
    assert!(a.overlaps(10, Position { x: 3, y: 3 }, 0));
    assert!(!a.overlaps(10, Position { x: 3, y: 4 }, 0));
    assert!(!a.overlaps(10, Position { x: -4, y: -3 }, 1));
    assert!(a.overlaps(10, Position { x: -4, y: -3 }, 2));
}

#[test]
fn overlaps_never_with_empty_bodies_or_far_points() {
    let a = Position { x: 5, y: 5 };
    assert!(!a.overlaps(0, a, 0));
    assert!(!a.overlaps(1, a, 1));
    let far = Position { x: i64::MAX, y: i64::MAX };
    let near = Position { x: i64::MIN, y: i64::MIN };
    assert!(!far.overlaps(u32::MAX, near, u32::MAX));
    assert!(far.overlaps(u32::MAX, far, u32::MAX));
    assert!(far.overlaps(u32::MAX, Position { x: i64::MAX - 4_000_000_000, y: i64::MAX }, u32::MAX));
}
