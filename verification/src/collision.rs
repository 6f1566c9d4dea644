//! Finding what the player touches: the enemy that ends the game, and the
//! stars that it collects.

use vstd::prelude::*;
use crate::entity::{Enemy, GameOverEvent, Player, Star, StarCollectedEvent};
use crate::registry::{Registry, World};

verus! {

/// Whether `index` is the first enemy, in the order of creation, that
/// overlaps the player.
pub open spec fn is_first_hit(player: Player, enemies: Seq<Enemy>, index: int) -> bool {
    &&& 0 <= index < enemies.len()
    &&& player.spec_hit_by(enemies[index])
    &&& forall|j: int| 0 <= j < index ==> !player.spec_hit_by(#[trigger] enemies[j])
}

/// Whether some enemy overlaps the player.
pub open spec fn any_hit(player: Player, enemies: Seq<Enemy>) -> bool {
    exists|i: int| is_first_hit(player, enemies, i)
}

/// The first enemy, in the order of creation, that overlaps the player.
pub open spec fn first_hit(player: Player, enemies: Seq<Enemy>) -> int
    recommends
        any_hit(player, enemies),
{
    choose|i: int| is_first_hit(player, enemies, i)
}

/// The test that picks the stars which the player overlaps.
pub open spec fn reached_by(player: Player) -> spec_fn(Star) -> bool {
    |s: Star| player.spec_reaches(s)
}

/// The event that reports a star as collected.
pub open spec fn collection_of() -> spec_fn(Star) -> StarCollectedEvent {
    |s: Star| StarCollectedEvent { star: s.id }
}

impl World {
    /// Whether some enemy overlaps the player.
    pub open spec fn player_is_hit(self) -> bool {
        self.player matches Some(p) && exists|i: int|
            0 <= i < self.enemies.len() && p.spec_hit_by(#[trigger] self.enemies[i])
    }

    /// The event of the frame in which an enemy overlaps the player. It
    /// names the first such enemy; there is none without a player or
    /// without such an enemy.
    pub open spec fn game_over(self) -> Option<GameOverEvent> {
        match self.player {
            Some(p) => if any_hit(p, self.enemies) {
                Some(
                    GameOverEvent {
                        player: p.id,
                        enemy: self.enemies[first_hit(p, self.enemies)].id,
                    },
                )
            } else {
                None
            },
            None => None,
        }
    }

    /// The events of the stars that the player overlaps, in the order of
    /// the stars. There are none without a player.
    pub open spec fn collected(self) -> Seq<StarCollectedEvent> {
        match self.player {
            Some(p) => self.stars.filter(reached_by(p)).map_values(collection_of()),
            None => Seq::empty(),
        }
    }
}

/// Only one enemy is the first to overlap the player.
pub proof fn lemma_first_hit_unique(player: Player, enemies: Seq<Enemy>, a: int, b: int)
    requires
        is_first_hit(player, enemies, a),
        is_first_hit(player, enemies, b),
    ensures
        a == b,
{
}

/// An enemy overlaps the player exactly if the frame ends the game.
pub proof fn lemma_game_over_iff_hit(w: World)
    ensures
        w.game_over() is Some <==> w.player_is_hit(),
        w.game_over() matches Some(event) ==> w.has_player(event.player) && w.has_enemy(
            event.enemy,
        ),
{
    if let Some(p) = w.player {
        if w.player_is_hit() {
            let k = choose|i: int| 0 <= i < w.enemies.len() && p.spec_hit_by(#[trigger] w.enemies[i]);
            let first = lemma_first_hit_exists(p, w.enemies, k);
        }
        if w.game_over() is Some {
            let first = first_hit(p, w.enemies);
            assert(is_first_hit(p, w.enemies, first));
            assert(w.enemies[first].id == w.game_over().unwrap().enemy);
        }
    }
}

/// Where some enemy overlaps the player, one of them is the first.
proof fn lemma_first_hit_exists(player: Player, enemies: Seq<Enemy>, k: int) -> (first: int)
    requires
        0 <= k < enemies.len(),
        player.spec_hit_by(enemies[k]),
    ensures
        is_first_hit(player, enemies, first),
        first <= k,
    decreases k,
{
    if exists|j: int| 0 <= j < k && player.spec_hit_by(#[trigger] enemies[j]) {
        let j = choose|j: int| 0 <= j < k && player.spec_hit_by(#[trigger] enemies[j]);
        lemma_first_hit_exists(player, enemies, j)
    } else {
        k
    }
}

/// Looks for an enemy that overlaps the player: one whose centre is closer
/// to the player's than the sum of their radii. The first such enemy, in
/// the order of creation, ends the game, and the others are not looked at.
/// Without a player there is nothing to hit. The registry is not changed:
/// the event names the player that is to be removed.
pub fn enemy_hit_player(registry: &Registry) -> (r: Option<GameOverEvent>)
    ensures
        r == registry@.game_over(),
        r is Some <==> registry@.player_is_hit(),
        r matches Some(event) ==> registry@.has_player(event.player),
{
    proof {
        lemma_game_over_iff_hit(registry@);
    }
    match registry.player() {
        Some(player) => {
            let enemies = registry.enemies();
            let mut i: usize = 0;
            while i < enemies.len()
                invariant
                    i <= enemies.len(),
                    enemies@ == registry@.enemies,
                    registry@.player == Some(player),
                    forall|j: int| 0 <= j < i ==> !player.spec_hit_by(#[trigger] enemies@[j]),
                decreases enemies.len() - i,
            {
                if player.hit_by(&enemies[i]) {
                    proof {
                        assert(is_first_hit(player, registry@.enemies, i as int));
                        let first = first_hit(player, registry@.enemies);
                        lemma_first_hit_unique(player, registry@.enemies, first, i as int);
                    }
                    return Some(GameOverEvent { player: player.id, enemy: enemies[i].id });
                }
                i += 1;
            }
            proof {
                if any_hit(player, registry@.enemies) {
                    let k = first_hit(player, registry@.enemies);
                    assert(player.spec_hit_by(enemies@[k]));
                }
            }
            None
        },
        None => None,
    }
}

/// Looks for the stars that the player overlaps: those whose centre is
/// closer to the player's than the sum of their radii. Every such star is
/// collected, however many there are. Without a player there is nothing to
/// collect. The registry is not changed: every event names a star that is
/// to be removed.
pub fn player_hit_star(registry: &Registry) -> (r: Vec<StarCollectedEvent>)
    ensures
        r@ == registry@.collected(),
{
    let mut events: Vec<StarCollectedEvent> = Vec::new();
    match registry.player() {
        Some(player) => {
            let stars = registry.stars();
            let ghost reached = reached_by(player);
            let ghost event_of = collection_of();
            let mut i: usize = 0;
            proof {
                reveal(Seq::filter);
                assert(stars@.take(0).filter(reached) =~= Seq::<Star>::empty());
            }
            while i < stars.len()
                invariant
                    i <= stars.len(),
                    stars@ == registry@.stars,
                    reached == reached_by(player),
                    event_of == collection_of(),
                    events@ =~= stars@.take(i as int).filter(reached).map_values(event_of),
                decreases stars.len() - i,
            {
                let star: Star = stars[i];
                proof {
                    stars@.take(i as int).lemma_filter_push(star, reached);
                    assert(stars@.take(i as int).push(star) =~= stars@.take(i + 1));
                }
                if player.reaches(&star) {
                    events.push(StarCollectedEvent { star: star.id });
                }
                i += 1;
            }
            assert(stars@.take(stars@.len() as int) =~= stars@);
        },
        None => {},
    }
    events
}

} // verus!
