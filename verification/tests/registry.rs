use ball_game::direction::Direction;
use ball_game::entity::{Enemy, Player, Star};
use ball_game::identity::EntityId;
use ball_game::position::Position;
use ball_game::registry::Registry;

fn at(x: i32, y: i32) -> Position {
    Position::from_pixels(x, y)
}

fn populated() -> Registry {
    let mut r = Registry::new();
    r.create_player(at(1, 1));
    r.create_enemy(at(2, 2), Direction::east());
    r.create_star(at(3, 3));
    r.create_enemy(at(4, 4), Direction::east());
    r.create_star(at(5, 5));
    r.create_star(at(6, 6));
    r
}

fn star_ids(r: &Registry) -> Vec<u64> {
    r.stars().iter().map(|s| s.id.0).collect()
}

fn enemy_ids(r: &Registry) -> Vec<u64> {
    r.enemies().iter().map(|e| e.id.0).collect()
}

#[test]
fn new_registry_is_empty() {
    let r = Registry::new();
    assert_eq!(r.issued(), 0);
    assert_eq!(r.player(), None);
    assert!(r.enemies().is_empty());
    assert!(r.stars().is_empty());
    assert!(!r.contains(EntityId(0)));
}

#[test]
fn create_gives_out_identities_in_turn() {
    let mut r = Registry::new();
    assert_eq!(r.create_star(at(1, 1)), Some(EntityId(0)));
    assert_eq!(r.create_enemy(at(2, 2), Direction::east()), Some(EntityId(1)));
    assert_eq!(r.create_player(at(3, 3)), Some(EntityId(2)));
    assert_eq!(r.create_star(at(4, 4)), Some(EntityId(3)));
    assert_eq!(r.issued(), 4);
    assert_eq!(r.player(), Some(Player { id: EntityId(2), position: at(3, 3) }));
    assert_eq!(
        r.enemies(),
        &vec![Enemy { id: EntityId(1), position: at(2, 2), direction: Direction::east() }]
    );
    assert_eq!(
        r.stars(),
        &vec![
            Star { id: EntityId(0), position: at(1, 1) },
            Star { id: EntityId(3), position: at(4, 4) },
        ]
    );
}

#[test]
fn create_player_refuses_a_second_player() {
    let mut r = Registry::new();
    assert_eq!(r.create_player(at(1, 1)), Some(EntityId(0)));
    assert_eq!(r.create_player(at(2, 2)), None);
    assert_eq!(r.issued(), 1);
    assert_eq!(r.player(), Some(Player { id: EntityId(0), position: at(1, 1) }));
}

#[test]
fn create_player_again_after_removal_takes_a_new_identity() {
    let mut r = Registry::new();
    assert_eq!(r.create_player(at(1, 1)), Some(EntityId(0)));
    assert!(r.despawn(EntityId(0)));
    assert_eq!(r.create_player(at(2, 2)), Some(EntityId(1)));
    assert!(!r.contains(EntityId(0)));
    assert!(r.contains(EntityId(1)));
}

#[test]
fn contains_tells_live_identities() {
    let r = populated();
    for id in 0..6 {
        assert!(r.contains(EntityId(id)));
    }
    assert!(!r.contains(EntityId(6)));
    assert!(!r.contains(EntityId(u64::MAX)));
}

#[test]
fn place_player_moves_the_player_only() {
    let mut r = populated();
    assert!(r.place_player(at(50, 60)));
    assert_eq!(r.player(), Some(Player { id: EntityId(0), position: at(50, 60) }));
    assert_eq!(enemy_ids(&r), vec![1, 3]);
    assert_eq!(star_ids(&r), vec![2, 4, 5]);
    assert_eq!(r.issued(), 6);
}

#[test]
fn place_player_without_a_player_does_nothing() {
    let mut r = Registry::new();
    r.create_star(at(1, 1));
    assert!(!r.place_player(at(50, 60)));
    assert_eq!(r.player(), None);
    assert_eq!(r.issued(), 1);
}

#[test]
fn place_enemy_changes_position_and_direction() {
    let mut r = populated();
    let north = Direction::normalized(0, 1).unwrap();
    assert!(r.place_enemy(1, at(9, 9), north));
    assert_eq!(
        r.enemies(),
        &vec![
            Enemy { id: EntityId(1), position: at(2, 2), direction: Direction::east() },
            Enemy { id: EntityId(3), position: at(9, 9), direction: north },
        ]
    );
    assert!(!r.place_enemy(2, at(0, 0), north));
    assert!(!r.place_enemy(usize::MAX, at(0, 0), north));
    assert_eq!(r.enemies().len(), 2);
}

#[test]
fn despawn_removes_one_entity_of_any_kind() {
    let mut r = populated();
    assert!(r.despawn(EntityId(4)));
    assert_eq!(star_ids(&r), vec![2, 5]);
    assert!(r.despawn(EntityId(1)));
    assert_eq!(enemy_ids(&r), vec![3]);
    assert!(r.despawn(EntityId(0)));
    assert_eq!(r.player(), None);
    assert_eq!(star_ids(&r), vec![2, 5]);
    assert_eq!(r.issued(), 6);
}

#[test]
fn despawn_of_an_unknown_identity_changes_nothing() {
    let mut r = populated();
    assert!(!r.despawn(EntityId(6)));
    assert!(r.despawn(EntityId(2)));
    assert!(!r.despawn(EntityId(2)));
    assert_eq!(star_ids(&r), vec![4, 5]);
    assert_eq!(enemy_ids(&r), vec![1, 3]);
    assert!(r.player().is_some());
}

#[test]
fn despawn_all_removes_the_listed_and_keeps_the_order() {
    let mut r = populated();
    r.despawn_all(&vec![EntityId(5), EntityId(0), EntityId(2), EntityId(77), EntityId(5)]);
    assert_eq!(r.player(), None);
    assert_eq!(star_ids(&r), vec![4]);
    assert_eq!(enemy_ids(&r), vec![1, 3]);
    r.despawn_all(&Vec::new());
    assert_eq!(star_ids(&r), vec![4]);
    assert_eq!(r.issued(), 6);
}

#[test]
fn removed_identities_are_not_given_out_again() {
    let mut r = populated();
    r.despawn_all(&vec![EntityId(2), EntityId(4), EntityId(5)]);
    assert!(r.stars().is_empty());
    assert_eq!(r.create_star(at(0, 0)), Some(EntityId(6)));
    assert_eq!(r.create_enemy(at(0, 0), Direction::east()), Some(EntityId(7)));
    for id in [2, 4, 5] {
        assert!(!r.contains(EntityId(id)));
    }
}

#[test]
fn position_finds_an_entity_of_any_kind() {
    let r = populated();
    assert_eq!(r.position(EntityId(0)), Some(at(1, 1)));
    assert_eq!(r.position(EntityId(1)), Some(at(2, 2)));
    assert_eq!(r.position(EntityId(3)), Some(at(4, 4)));
    assert_eq!(r.position(EntityId(2)), Some(at(3, 3)));
    assert_eq!(r.position(EntityId(5)), Some(at(6, 6)));
    assert_eq!(r.position(EntityId(6)), None);
    let mut r = r;
    r.despawn(EntityId(1));
    assert_eq!(r.position(EntityId(1)), None);
    assert_eq!(r.position(EntityId(3)), Some(at(4, 4)));
}
