//! One frame of the game: the entities move, the enemies turn back at the
//! edges, everything is clamped into the window, and what the player
//! touches is found and removed.

use vstd::prelude::*;
use crate::boundary::{confine_enemy_movement, confine_player_movement, fits, update_enemy_direction};
use crate::collision::{enemy_hit_player, lemma_game_over_iff_hit, player_hit_star, reached_by};
use crate::constants::{ENEMY_SIZE, PLAYER_SIZE};
use crate::direction::lemma_reflected;
use crate::entity::{Enemy, GameOverEvent, InputState, Star, StarCollectedEvent};
use crate::identity::{
    carries, lemma_filter_identities, lemma_filter_keeps_all, lemma_same_identities, stays,
    EntityId,
};
use crate::movement::{enemy_movement, player_movement};
use crate::position::spec_out_of_bounds;
use crate::registry::{lemma_without, Registry, World};
use crate::window::Window;

verus! {

/// What happened in a frame.
#[derive(Debug)]
pub struct FrameEvents {
    /// The end of the game, in the frame in which an enemy hit the player.
    pub game_over: Option<GameOverEvent>,
    /// The stars that the player collected, in the order of the stars.
    pub collected: Vec<StarCollectedEvent>,
}

/// What a frame is given: the size of the window, the directions pressed
/// and the time since the frame before, in microseconds.
pub ghost struct Frame {
    pub window: Window,
    pub input: InputState,
    pub dt: u64,
}

/// The identity that a collection event names.
pub open spec fn star_of() -> spec_fn(StarCollectedEvent) -> EntityId {
    |event: StarCollectedEvent| event.star
}

/// The identities that the events of a frame ask to remove: the player
/// that was hit, then the stars that were collected.
pub open spec fn spec_removals(
    game_over: Option<GameOverEvent>,
    collected: Seq<StarCollectedEvent>,
) -> Seq<EntityId> {
    (match game_over {
        Some(event) => seq![event.player],
        None => Seq::empty(),
    }) + collected.map_values(star_of())
}

impl World {
    /// The world after the movement of a frame: the player has moved and
    /// was clamped into the window; the enemies have moved, have turned
    /// back where they had crossed an edge, and were clamped into the
    /// window.
    pub open spec fn after_movement(self, window: Window, input: InputState, dt: u64) -> World {
        self.after_player_movement(input, dt).after_confine_player(window).after_enemy_movement(
            dt,
        ).after_bounce(window).after_confine_enemies(window)
    }

    /// The identities that the collisions in this world ask to remove.
    pub open spec fn removals(self) -> Seq<EntityId> {
        spec_removals(self.game_over(), self.collected())
    }

    /// The world after a whole frame: after the movement, and without what
    /// the collisions found in the world as it stood after the movement.
    pub open spec fn after_frame(self, window: Window, input: InputState, dt: u64) -> World {
        let moved = self.after_movement(window, input, dt);
        moved.without(moved.removals().to_set())
    }

    /// The world after a series of frames, from the first to the last.
    pub open spec fn after_frames(self, frames: Seq<Frame>) -> World
        decreases frames.len(),
    {
        if frames.len() == 0 {
            self
        } else {
            self.after_frames(frames.drop_last()).after_frame(
                frames.last().window,
                frames.last().input,
                frames.last().dt,
            )
        }
    }
}

/// Lists the identities that the events of a frame ask to remove.
pub fn removals(events: &FrameEvents) -> (ids: Vec<EntityId>)
    ensures
        ids@ == spec_removals(events.game_over, events.collected@),
{
    let mut ids: Vec<EntityId> = Vec::new();
    match events.game_over {
        Some(event) => {
            ids.push(event.player);
        },
        None => {},
    }
    let ghost head = ids@;
    let mut i: usize = 0;
    while i < events.collected.len()
        invariant
            i <= events.collected.len(),
            ids@ =~= head + events.collected@.take(i as int).map_values(star_of()),
        decreases events.collected.len() - i,
    {
        ids.push(events.collected[i].star);
        i += 1;
    }
    assert(events.collected@.take(events.collected@.len() as int) =~= events.collected@);
    ids
}

/// Runs one frame. In this order: the player moves and is clamped into the
/// window; the enemies move, turn back where they have crossed an edge, and
/// are clamped into the window; the enemy that hits the player and the
/// stars that the player reaches are looked for, both in the world as it
/// stands after the movement; then the player that was hit and the stars
/// that were collected are removed. The events say what was found.
pub fn update(registry: &mut Registry, window: &Window, input: &InputState, dt: u64) -> (events:
    FrameEvents)
    ensures
        events.game_over == old(registry)@.after_movement(*window, *input, dt).game_over(),
        events.collected@ == old(registry)@.after_movement(*window, *input, dt).collected(),
        final(registry)@ == old(registry)@.after_frame(*window, *input, dt),
        final(registry)@.wf(),
{
    player_movement(registry, input, dt);
    confine_player_movement(registry, window);
    enemy_movement(registry, dt);
    update_enemy_direction(registry, window);
    confine_enemy_movement(registry, window);
    let game_over = enemy_hit_player(registry);
    let collected = player_hit_star(registry);
    let events = FrameEvents { game_over, collected };
    let ids = removals(&events);
    registry.despawn_all(&ids);
    events
}

/// The movement of a frame creates and removes nothing: the same entities
/// stand in the same order under the same identities, the stars where they
/// stood, and every enemy keeps the length of its direction.
pub proof fn lemma_movement_keeps_entities(w: World, window: Window, input: InputState, dt: u64)
    ensures
        ({
            let moved = w.after_movement(window, input, dt);
            &&& moved.issued == w.issued
            &&& moved.stars == w.stars
            &&& moved.player is Some <==> w.player is Some
            &&& moved.player matches Some(p) ==> p.id == w.player.unwrap().id
            &&& moved.enemies.len() == w.enemies.len()
            &&& forall|i: int|
                0 <= i < w.enemies.len() ==> (#[trigger] moved.enemies[i]).id == w.enemies[i].id
            &&& forall|id: EntityId| #[trigger] moved.holds(id) <==> w.holds(id)
            &&& w.wf() ==> moved.wf()
        }),
{
    let moved = w.after_movement(window, input, dt);
    assert forall|i: int| 0 <= i < w.enemies.len() implies (#[trigger] moved.enemies[i]).id
        == w.enemies[i].id by {}
    lemma_same_identities(moved.enemies, w.enemies);
    if w.wf() {
        assert forall|i: int| 0 <= i < moved.enemies.len() implies (
        #[trigger] moved.enemies[i]).direction.is_unit() by {
            assert(w.enemies[i].direction.is_unit());
            lemma_movement_keeps_unit_directions(w, window, input, dt, i);
        }
    }
}

/// Along the movement of a frame every enemy keeps the length of its
/// direction, whether it bounces or not.
pub proof fn lemma_movement_keeps_unit_directions(
    w: World,
    window: Window,
    input: InputState,
    dt: u64,
    i: int,
)
    requires
        0 <= i < w.enemies.len(),
        w.enemies[i].direction.is_unit(),
    ensures
        ({
            let moved = w.after_movement(window, input, dt);
            &&& moved.enemies[i].direction.is_unit()
            &&& moved.enemies[i].direction.length_squared()
                == w.enemies[i].direction.length_squared()
        }),
{
    let e = w.enemies[i].spec_moved(dt);
    lemma_reflected(
        e.direction,
        spec_out_of_bounds(e.position.x as int, window.spec_width(), ENEMY_SIZE),
        spec_out_of_bounds(e.position.y as int, window.spec_height(), ENEMY_SIZE),
    );
}

/// After the movement of a frame, in a window with room for them, the
/// player and every enemy lie wholly inside the window.
pub proof fn lemma_movement_confines(w: World, window: Window, input: InputState, dt: u64)
    requires
        window.is_valid(),
        fits(window, PLAYER_SIZE),
        fits(window, ENEMY_SIZE),
    ensures
        w.after_movement(window, input, dt).player_inside(window),
        w.after_movement(window, input, dt).enemies_inside(window),
{
}

/// What a frame removes: the player if an enemy hits it, the stars that
/// the player reaches, and never an enemy. All of this is judged in the
/// world as it stands after the movement.
pub proof fn lemma_frame_removes(w: World, window: Window, input: InputState, dt: u64)
    requires
        w.wf(),
    ensures
        ({
            let moved = w.after_movement(window, input, dt);
            let after = w.after_frame(window, input, dt);
            &&& after.wf()
            &&& after.issued == w.issued
            &&& after.enemies == moved.enemies
            &&& after.player == if moved.player_is_hit() {
                None
            } else {
                moved.player
            }
            &&& after.stars == match moved.player {
                Some(p) => moved.stars.filter(|s: Star| !p.spec_reaches(s)),
                None => moved.stars,
            }
        }),
{
    let moved = w.after_movement(window, input, dt);
    let after = w.after_frame(window, input, dt);
    let gone = moved.removals().to_set();
    lemma_movement_keeps_entities(w, window, input, dt);
    lemma_without(moved, gone);
    lemma_game_over_iff_hit(moved);
    lemma_removals(moved);
    assert forall|id: EntityId| #[trigger] gone.contains(id) implies !carries(moved.enemies, id) by {
        if carries_star(moved.collected(), id) {
            lemma_collected_are_reached(moved, id);
        }
    }
    assert forall|i: int| 0 <= i < moved.enemies.len() implies stays::<Enemy>(gone)(
        #[trigger] moved.enemies[i],
    ) by {
        let id = moved.enemies[i].id;
        assert(carries(moved.enemies, id));
    }
    lemma_filter_keeps_all(moved.enemies, stays::<Enemy>(gone));
    assert(after.enemies == moved.enemies);
    match moved.player {
        Some(p) => {
            if carries_star(moved.collected(), p.id) {
                lemma_collected_are_reached(moved, p.id);
            }
            assert(gone.contains(p.id) <==> moved.player_is_hit());
            assert(after.player == if moved.player_is_hit() {
                None
            } else {
                moved.player
            });
            let unreached = |s: Star| !p.spec_reaches(s);
            assert forall|i: int| 0 <= i < moved.stars.len() implies stays::<Star>(gone)(
                #[trigger] moved.stars[i],
            ) == unreached(moved.stars[i]) by {
                let star = moved.stars[i];
                assert(carries(moved.stars, star.id));
                if p.spec_reaches(star) {
                    assert(reached_by(p)(star));
                    moved.stars.lemma_filter_contains(reached_by(p), i);
                    let reached = moved.stars.filter(reached_by(p));
                    let k = choose|k: int| 0 <= k < reached.len() && reached[k] == star;
                    assert(moved.collected()[k].star == star.id);
                    assert(carries_star(moved.collected(), star.id));
                } else {
                    if gone.contains(star.id) {
                        assert(carries_star(moved.collected(), star.id));
                        let j = lemma_collected_are_reached(moved, star.id);
                        assert(j == i);
                    }
                }
            }
            lemma_filter_same(moved.stars, stays::<Star>(gone), unreached);
        },
        None => {
            assert(moved.removals() =~= Seq::<EntityId>::empty());
            assert forall|i: int| 0 <= i < moved.stars.len() implies stays::<Star>(gone)(
                #[trigger] moved.stars[i],
            ) by {}
            lemma_filter_keeps_all(moved.stars, stays::<Star>(gone));
        },
    }
}

/// After a frame, in a window with room for them, the player and every
/// enemy lie wholly inside the window.
pub proof fn lemma_frame_confines(w: World, window: Window, input: InputState, dt: u64)
    requires
        w.wf(),
        window.is_valid(),
        fits(window, PLAYER_SIZE),
        fits(window, ENEMY_SIZE),
    ensures
        w.after_frame(window, input, dt).player_inside(window),
        w.after_frame(window, input, dt).enemies_inside(window),
{
    lemma_movement_confines(w, window, input, dt);
    lemma_frame_removes(w, window, input, dt);
}

/// A frame creates nothing and brings nothing back: the stars do not grow
/// in number, every entity that lives after the frame lived before it, and
/// an identity whose entity was removed stays without one.
pub proof fn lemma_frame_retires(w: World, window: Window, input: InputState, dt: u64)
    requires
        w.wf(),
    ensures
        ({
            let after = w.after_frame(window, input, dt);
            &&& after.wf()
            &&& after.issued == w.issued
            &&& after.stars.len() <= w.stars.len()
            &&& after.enemies.len() == w.enemies.len()
            &&& forall|id: EntityId| #[trigger] after.holds(id) ==> w.holds(id)
            &&& forall|id: EntityId| #[trigger] after.has_star(id) ==> w.has_star(id)
            &&& forall|id: EntityId| #[trigger] w.retired(id) ==> after.retired(id)
        }),
{
    let moved = w.after_movement(window, input, dt);
    let after = w.after_frame(window, input, dt);
    lemma_movement_keeps_entities(w, window, input, dt);
    lemma_frame_removes(w, window, input, dt);
    lemma_without(moved, moved.removals().to_set());
    lemma_filter_identities(moved.stars, stays::<Star>(moved.removals().to_set()));
    assert forall|id: EntityId| #[trigger] after.holds(id) implies w.holds(id) by {
        assert(moved.holds(id));
    }
    assert forall|id: EntityId| #[trigger] w.retired(id) implies after.retired(id) by {
        if after.holds(id) {
            assert(w.holds(id));
        }
    }
}

/// However many frames pass, and whatever they are given, the stars never
/// grow in number and a star that was removed never comes back: every
/// entity that lives in the end lived at the start, and an identity whose
/// entity was removed stays without one.
pub proof fn lemma_frames_retire(w: World, frames: Seq<Frame>)
    requires
        w.wf(),
    ensures
        ({
            let after = w.after_frames(frames);
            &&& after.wf()
            &&& after.issued == w.issued
            &&& after.stars.len() <= w.stars.len()
            &&& after.enemies.len() == w.enemies.len()
            &&& forall|id: EntityId| #[trigger] after.holds(id) ==> w.holds(id)
            &&& forall|id: EntityId| #[trigger] after.has_star(id) ==> w.has_star(id)
            &&& forall|id: EntityId| #[trigger] w.retired(id) ==> after.retired(id)
        }),
    decreases frames.len(),
{
    if frames.len() > 0 {
        let earlier = w.after_frames(frames.drop_last());
        let after = w.after_frames(frames);
        lemma_frames_retire(w, frames.drop_last());
        lemma_frame_retires(
            earlier,
            frames.last().window,
            frames.last().input,
            frames.last().dt,
        );
        assert forall|id: EntityId| #[trigger] after.holds(id) implies w.holds(id) by {
            assert(earlier.holds(id));
        }
        assert forall|id: EntityId| #[trigger] after.has_star(id) implies w.has_star(id) by {
            assert(earlier.has_star(id));
        }
        assert forall|id: EntityId| #[trigger] w.retired(id) implies after.retired(id) by {
            assert(earlier.retired(id));
        }
    }
}

/// Whether some event of the sequence names the star `id`.
pub open spec fn carries_star(events: Seq<StarCollectedEvent>, id: EntityId) -> bool {
    exists|k: int| 0 <= k < events.len() && (#[trigger] events[k]).star == id
}

/// A star that an event names is a star that the player reaches.
proof fn lemma_collected_are_reached(w: World, id: EntityId) -> (j: int)
    requires
        carries_star(w.collected(), id),
    ensures
        w.player is Some,
        0 <= j < w.stars.len(),
        w.stars[j].id == id,
        w.player.unwrap().spec_reaches(w.stars[j]),
        w.has_star(id),
{
    let p = w.player.unwrap();
    let k = choose|k: int| 0 <= k < w.collected().len() && (#[trigger] w.collected()[k]).star == id;
    let reached = w.stars.filter(reached_by(p));
    w.stars.lemma_filter_pred(reached_by(p), k);
    assert(reached.contains(reached[k]));
    w.stars.lemma_filter_contains_rev(reached_by(p), reached[k]);
    let j = choose|j: int| 0 <= j < w.stars.len() && w.stars[j] == reached[k];
    j
}

/// The identities that the collisions ask to remove are that of the player
/// that was hit and those of the stars that were collected.
proof fn lemma_removals(w: World)
    ensures
        forall|id: EntityId| #[trigger]
            w.removals().to_set().contains(id) <==> (w.game_over() matches Some(event)
                && event.player == id) || carries_star(w.collected(), id),
{
    let ids = w.removals();
    let head: Seq<EntityId> = match w.game_over() {
        Some(event) => seq![event.player],
        None => Seq::empty(),
    };
    let stars = w.collected().map_values(star_of());
    assert(ids == head + stars);
    assert forall|id: EntityId| #[trigger] ids.to_set().contains(id) <==> (w.game_over() matches Some(
        event,
    ) && event.player == id) || carries_star(w.collected(), id) by {
        if ids.contains(id) {
            let k = choose|k: int| 0 <= k < ids.len() && ids[k] == id;
            if k >= head.len() {
                assert(stars[k - head.len()] == id);
                assert(w.collected()[k - head.len()].star == id);
            }
        }
        if w.game_over() matches Some(event) && event.player == id {
            assert(ids[0] == id);
        }
        if carries_star(w.collected(), id) {
            let k = choose|k: int|
                0 <= k < w.collected().len() && (#[trigger] w.collected()[k]).star == id;
            assert(ids[head.len() + k] == stars[k]);
        }
    }
}

/// Two tests that agree on every entity of a sequence filter it alike.
proof fn lemma_filter_same<T>(entities: Seq<T>, p: spec_fn(T) -> bool, q: spec_fn(T) -> bool)
    requires
        forall|i: int| 0 <= i < entities.len() ==> p(#[trigger] entities[i]) == q(entities[i]),
    ensures
        entities.filter(p) == entities.filter(q),
    decreases entities.len(),
{
    reveal(Seq::filter);
    if entities.len() > 0 {
        let front = entities.drop_last();
        assert forall|i: int| 0 <= i < front.len() implies p(#[trigger] front[i]) == q(
            front[i],
        ) by {
            assert(front[i] == entities[i]);
        }
        lemma_filter_same(front, p, q);
        assert(p(entities.last()) == q(entities[entities.len() - 1]));
    }
}

} // verus!
