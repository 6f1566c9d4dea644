use ball_game::constants::{ENEMY_SPEED, PLAYER_SPEED};
use ball_game::direction::Direction;
use ball_game::entity::{Enemy, InputState, Player, Star};
use ball_game::identity::{find, listed, unlisted, EntityId, Identified};
use ball_game::position::Position;
use ball_game::window::Window;

fn pressed(left: bool, right: bool, up: bool, down: bool) -> InputState {
    InputState { left, right, up, down }
}

fn player_at(x: i32, y: i32) -> Player {
    Player { id: EntityId(0), position: Position::from_pixels(x, y) }
}

#[test]
fn input_none_is_idle() {
    let input = InputState::none();
    assert_eq!(input, pressed(false, false, false, false));
    assert_eq!((input.axis_x(), input.axis_y()), (0, 0));
    assert!(input.direction().is_none());
}

#[test]
fn input_axes_sum_the_directions() {
    assert_eq!(pressed(true, false, false, false).axis_x(), -1);
    assert_eq!(pressed(false, true, false, false).axis_x(), 1);
    assert_eq!(pressed(false, false, true, false).axis_y(), 1);
    assert_eq!(pressed(false, false, false, true).axis_y(), -1);
    assert_eq!(pressed(true, true, false, false).axis_x(), 0);
    assert_eq!(pressed(false, false, true, true).axis_y(), 0);
}

#[test]
fn input_opposite_directions_cancel() {
    assert!(pressed(true, true, false, false).direction().is_none());
    assert!(pressed(false, false, true, true).direction().is_none());
    assert!(pressed(true, true, true, true).direction().is_none());
    let d = pressed(true, true, true, false).direction().unwrap();
    assert_eq!((d.x(), d.y()), (0, 1_000_000));
    let d = pressed(true, false, true, true).direction().unwrap();
    assert_eq!((d.x(), d.y()), (-1_000_000, 0));
}

#[test]
fn input_from_bindings_joins_both_keys() {
    let arrows = pressed(true, false, false, false);
    let letters = pressed(false, false, true, false);
    assert_eq!(InputState::from_bindings(arrows, letters), pressed(true, false, true, false));
    assert_eq!(InputState::from_bindings(arrows, arrows), arrows);
    assert_eq!(InputState::from_bindings(InputState::none(), InputState::none()), InputState::none());
    let all = pressed(true, true, true, true);
    assert_eq!(InputState::from_bindings(letters, all), all);
}

#[test]
fn player_does_not_move_without_input() {
    let p = player_at(100, 100);
    for dt in [1u64, 16_667, 1_000_000, u64::MAX] {
        assert_eq!(p.moved(&InputState::none(), dt), p);
        assert_eq!(p.moved(&pressed(true, true, false, false), dt), p);
        assert_eq!(p.moved(&pressed(true, true, true, true), dt), p);
    }
}

#[test]
fn player_moves_along_each_axis_at_full_speed() {
    let p = player_at(100, 100);
    let second = 1_000_000;
    assert_eq!(p.moved(&pressed(true, false, false, false), second), player_at(-400, 100));
    assert_eq!(p.moved(&pressed(false, true, false, false), second), player_at(600, 100));
    assert_eq!(p.moved(&pressed(false, false, true, false), second), player_at(100, 600));
    assert_eq!(p.moved(&pressed(false, false, false, true), second), player_at(100, -400));
    let q = p.moved(&pressed(false, true, false, false), 16_667);
    assert_eq!(q.position, Position { x: 100_000_000 + 500 * 16_667, y: 100_000_000 });
}

#[test]
fn player_diagonal_is_as_fast_as_an_axis() {
    let p = Player { id: EntityId(3), position: Position { x: 0, y: 0 } };
    let dt = 1_000_000u64;
    let q = p.moved(&pressed(false, true, true, false), dt);
    assert_eq!(q.id, EntityId(3));
    assert_eq!(q.position, Position { x: 353_553_000, y: 353_553_000 });
    let distance = (PLAYER_SPEED as i128) * (dt as i128);
    let covered = 2 * (q.position.x as i128) * (q.position.x as i128);
    assert!(covered <= distance * distance);
    let short = distance - distance / 500_000 - 2;
    assert!(short * short < covered);
    let q = p.moved(&pressed(true, false, false, true), dt);
    assert_eq!(q.position, Position { x: -353_553_000, y: -353_553_000 });
}

#[test]
fn player_confined_keeps_its_identity() {
    let w = Window::from_pixels(800, 600);
    let p = Player { id: EntityId(9), position: Position::from_pixels(900, -20) };
    let q = p.confined(&w);
    assert_eq!(q, Player { id: EntityId(9), position: Position::from_pixels(768, 32) });
}

#[test]
fn enemy_moves_along_its_direction() {
    let e = Enemy {
        id: EntityId(1),
        position: Position::from_pixels(100, 100),
        direction: Direction::normalized(3, 4).unwrap(),
    };
    let m = e.moved(1_000_000);
    assert_eq!(m.id, e.id);
    assert_eq!(m.direction, e.direction);
    assert_eq!(m.position, Position::from_pixels(220, 260));
    let m = e.moved(0);
    assert_eq!(m, e);
    assert_eq!(ENEMY_SPEED, 200);
}

#[test]
fn enemy_bounces_off_each_edge() {
    let w = Window::from_pixels(800, 600);
    let d = Direction::normalized(3, 4).unwrap();
    let inside = Enemy { id: EntityId(1), position: Position::from_pixels(400, 300), direction: d };
    assert_eq!(inside.bounced(&w), inside);
    let left = Enemy { position: Position::from_pixels(31, 300), ..inside };
    assert_eq!(left.bounced(&w).direction, d.reflected(true, false));
    assert_eq!(left.bounced(&w).position, left.position);
    let right = Enemy { position: Position::from_pixels(769, 300), ..inside };
    assert_eq!(right.bounced(&w).direction, d.reflected(true, false));
    let low = Enemy { position: Position::from_pixels(400, 0), ..inside };
    assert_eq!(low.bounced(&w).direction, d.reflected(false, true));
    let high = Enemy { position: Position::from_pixels(400, 600), ..inside };
    assert_eq!(high.bounced(&w).direction, d.reflected(false, true));
    let corner = Enemy { position: Position::from_pixels(-1, 601), ..inside };
    assert_eq!(corner.bounced(&w).direction, d.reflected(true, true));
    let edge = Enemy { position: Position::from_pixels(32, 568), ..inside };
    assert_eq!(edge.bounced(&w), edge);
}

#[test]
fn enemy_confined_keeps_identity_and_direction() {
    let w = Window::from_pixels(800, 600);
    let d = Direction::normalized(-1, 1).unwrap();
    let e = Enemy { id: EntityId(5), position: Position::from_pixels(-10, 1000), direction: d };
    let c = e.confined(&w);
    assert_eq!(c, Enemy { id: EntityId(5), position: Position::from_pixels(32, 568), direction: d });
}

#[test]
fn player_hit_by_enemy_within_sixty_four_pixels() {
    let p = player_at(100, 100);
    let d = Direction::east();
    let near = Enemy { id: EntityId(1), position: Position::from_pixels(110, 100), direction: d };
    let far = Enemy { id: EntityId(2), position: Position::from_pixels(164, 100), direction: d };
    assert!(p.hit_by(&near));
    assert!(!p.hit_by(&far));
}

#[test]
fn player_reaches_star_within_forty_seven_pixels() {
    let p = player_at(100, 100);
    let far = Star { id: EntityId(1), position: Position::from_pixels(200, 200) };
    let near = Star { id: EntityId(2), position: Position::from_pixels(130, 130) };
    let edge = Star { id: EntityId(3), position: Position::from_pixels(147, 100) };
    assert!(!p.reaches(&far));
    assert!(p.reaches(&near));
    assert!(!p.reaches(&edge));
}

#[test]
fn identities_are_read_off_the_entities() {
    let p = player_at(0, 0);
    let s = Star { id: EntityId(7), position: Position::from_pixels(0, 0) };
    let e = Enemy { id: EntityId(8), position: Position::from_pixels(0, 0), direction: Direction::east() };
    assert_eq!(p.id(), EntityId(0));
    assert_eq!(s.id(), EntityId(7));
    assert_eq!(e.id(), EntityId(8));
}

#[test]
fn listed_find_and_unlisted() {
    let ids = vec![EntityId(1), EntityId(5), EntityId(5)];
    assert!(listed(&ids, EntityId(1)));
    assert!(listed(&ids, EntityId(5)));
    assert!(!listed(&ids, EntityId(2)));
    assert!(!listed(&Vec::new(), EntityId(1)));
    let stars: Vec<Star> = (0..6u64)
        .map(|i| Star { id: EntityId(i), position: Position::from_pixels(i as i32, 0) })
        .collect();
    assert!(find(&stars, EntityId(0)));
    assert!(find(&stars, EntityId(5)));
    assert!(!find(&stars, EntityId(6)));
    let kept = unlisted(&stars, &ids);
    let kept_ids: Vec<u64> = kept.iter().map(|s| s.id.0).collect();
    assert_eq!(kept_ids, vec![0, 2, 3, 4]);
    assert_eq!(unlisted(&stars, &Vec::new()), stars);
}
