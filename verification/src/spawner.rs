//! Creating the entities at startup: the player and the camera at the
//! centre of the window, the enemies and the stars where chance puts them.

use rand::rngs::StdRng;
use rand::RngCore;
use vstd::prelude::*;
use crate::direction::{lemma_east, lemma_normalized, Direction};
use crate::entity::{Camera, Enemy, Star};
use crate::identity::EntityId;
use crate::position::Position;
use crate::registry::{Registry, World};
use crate::window::Window;

verus! {

/// The generator `rand::rngs::StdRng`, of which nothing is known here but
/// that it can be drawn from.
#[verifier::external_type_specification]
#[verifier::external_body]
pub struct ExStdRng(StdRng);

/// Draws the next 32 bits from the generator, through
/// `rand::RngCore::next_u32` on `rand::rngs::StdRng`. The call advances the
/// generator and does not fail. Nothing is claimed of the number drawn.
#[verifier::external_body]
fn next_draw(rng: &mut StdRng) -> (draw: u32) {
    rng.next_u32()
}

/// The sample of the unit interval that a draw stands for, as the
/// numerator of a fraction over `2^24`: the upper 24 bits of the draw.
pub open spec fn spec_sample(draw: u32) -> int {
    draw as int / 256
}

/// The point of a side of the given length that a draw picks: the length
/// times the sample, rounded down.
pub open spec fn spec_pick(draw: u32, length: int) -> int {
    (spec_sample(draw) * length) / 0x100_0000
}

/// The point of the window that two draws pick, one for each axis.
pub open spec fn spec_point(window: Window, draw_x: u32, draw_y: u32) -> Position {
    Position {
        x: spec_pick(draw_x, window.spec_width()) as i64,
        y: spec_pick(draw_y, window.spec_height()) as i64,
    }
}

/// The direction that two draws pick: that of the vector of their samples,
/// or east where both samples are zero and point nowhere.
pub open spec fn spec_heading(draw_x: u32, draw_y: u32) -> Direction {
    match Direction::spec_normalized(spec_sample(draw_x), spec_sample(draw_y)) {
        Some(direction) => direction,
        None => Direction::spec_east(),
    }
}

/// The centre of the window.
pub open spec fn spec_center(window: Window) -> Position {
    Position { x: (window.spec_width() / 2) as i64, y: (window.spec_height() / 2) as i64 }
}

/// Whether the point lies in the window, its edges included.
pub open spec fn in_window(window: Window, position: Position) -> bool {
    0 <= position.x <= window.spec_width() && 0 <= position.y <= window.spec_height()
}

/// Whether the enemy stands where some four draws would have put it.
pub open spec fn is_enemy_placement(window: Window, enemy: Enemy) -> bool {
    exists|a: u32, b: u32, c: u32, d: u32|
        enemy.position == #[trigger] spec_point(window, a, b) && enemy.direction
            == #[trigger] spec_heading(c, d)
}

/// Whether the star stands where some two draws would have put it.
pub open spec fn is_star_placement(window: Window, star: Star) -> bool {
    exists|a: u32, b: u32| star.position == #[trigger] spec_point(window, a, b)
}

/// How many entities a registry can still take out of `count`.
pub open spec fn spec_granted(w: World, count: usize) -> nat {
    if count <= w.room() {
        count as nat
    } else {
        w.room()
    }
}

/// Whatever the draws, the point that they pick lies in the window and the
/// direction that they pick is a unit direction.
pub proof fn lemma_placement(window: Window, draw_x: u32, draw_y: u32, draw_dx: u32, draw_dy: u32)
    requires
        window.is_valid(),
    ensures
        in_window(window, spec_point(window, draw_x, draw_y)),
        spec_heading(draw_dx, draw_dy).is_unit(),
{
    lemma_pick(draw_x, window.spec_width());
    lemma_pick(draw_y, window.spec_height());
    lemma_normalized(spec_sample(draw_dx), spec_sample(draw_dy));
    lemma_east();
}

/// A draw picks a point between the ends of a side.
proof fn lemma_pick(draw: u32, length: int)
    requires
        0 <= length,
    ensures
        0 <= spec_pick(draw, length) <= length,
{
    let s = spec_sample(draw);
    assert(0 <= s * length <= 0x100_0000 * length) by (nonlinear_arith)
        requires
            0 <= s < 0x100_0000,
            0 <= length,
    ;
}

/// Reads the sample of the unit interval off a draw.
pub fn sample(draw: u32) -> (s: u32)
    ensures
        s == spec_sample(draw),
        s < 0x100_0000,
{
    assert(draw >> 8 == draw / 256) by (bit_vector);
    draw >> 8
}

/// Scales a side of the given length by the sample of a draw.
fn pick(draw: u32, length: i64) -> (r: i64)
    requires
        0 <= length,
    ensures
        r == spec_pick(draw, length as int),
        0 <= r <= length,
{
    let s: u32 = sample(draw);
    assert(s * length <= 0x100_0000 * length && 0 <= s * length) by (nonlinear_arith)
        requires
            0 <= s < 0x100_0000,
            0 <= length,
    ;
    let product: u128 = (s as u128) * (length as u128);
    let quotient: u128 = product / 0x100_0000;
    quotient as i64
}

/// The point of the window that two draws pick. It lies in the window.
pub fn point_at(window: &Window, draw_x: u32, draw_y: u32) -> (p: Position)
    ensures
        p == spec_point(*window, draw_x, draw_y),
        in_window(*window, p),
{
    Position { x: pick(draw_x, window.width()), y: pick(draw_y, window.height()) }
}

/// The direction that two draws pick: the vector of their samples scaled
/// to unit length. Where both samples are zero the vector points nowhere,
/// and the direction is east.
pub fn heading(draw_x: u32, draw_y: u32) -> (d: Direction)
    ensures
        d == spec_heading(draw_x, draw_y),
        d.is_unit(),
{
    match Direction::normalized(sample(draw_x) as i32, sample(draw_y) as i32) {
        Some(direction) => direction,
        None => Direction::east(),
    }
}

/// Creates the player at the centre of the window, unless there is a
/// player already or the identities have run out; the registry then stays
/// as it is.
pub fn spawn_player(registry: &mut Registry, window: &Window) -> (r: Option<EntityId>)
    ensures
        r is Some <==> old(registry)@.player is None && old(registry)@.room() > 0,
        r matches Some(id) ==> id.0 == old(registry)@.issued && final(registry)@ == old(
            registry,
        )@.with_new_player(spec_center(*window)),
        r is None ==> final(registry)@ == old(registry)@,
        final(registry)@.wf(),
{
    let center = Position { x: window.width() / 2, y: window.height() / 2 };
    registry.create_player(center)
}

/// The camera that looks at the centre of the window.
pub fn spawn_camera(window: &Window) -> (camera: Camera)
    ensures
        camera.position == spec_center(*window),
{
    Camera { position: Position { x: window.width() / 2, y: window.height() / 2 } }
}

/// Creates the enemy that four draws pick: at the point of the window that
/// the first two pick, along the direction that the last two pick. Without
/// an identity left for it the enemy is not created, and the registry stays
/// as it is.
pub fn spawn_enemy(
    registry: &mut Registry,
    window: &Window,
    draw_x: u32,
    draw_y: u32,
    draw_dx: u32,
    draw_dy: u32,
) -> (r: Option<EntityId>)
    ensures
        r is Some <==> old(registry)@.room() > 0,
        r matches Some(id) ==> id.0 == old(registry)@.issued && final(registry)@ == old(
            registry,
        )@.with_new_enemy(spec_point(*window, draw_x, draw_y), spec_heading(draw_dx, draw_dy)),
        r is None ==> final(registry)@ == old(registry)@,
        final(registry)@.wf(),
{
    let position = point_at(window, draw_x, draw_y);
    let direction = heading(draw_dx, draw_dy);
    registry.create_enemy(position, direction)
}

/// Creates the star that two draws pick: at the point of the window that
/// they pick. Without an identity left for it the star is not created, and
/// the registry stays as it is.
pub fn spawn_star(registry: &mut Registry, window: &Window, draw_x: u32, draw_y: u32) -> (r: Option<
    EntityId,
>)
    ensures
        r is Some <==> old(registry)@.room() > 0,
        r matches Some(id) ==> id.0 == old(registry)@.issued && final(registry)@ == old(
            registry,
        )@.with_new_star(spec_point(*window, draw_x, draw_y)),
        r is None ==> final(registry)@ == old(registry)@,
        final(registry)@.wf(),
{
    let position = point_at(window, draw_x, draw_y);
    registry.create_star(position)
}

/// Creates `count` enemies, each at a point of the window and along a
/// direction that the generator picks, and returns their identities in the
/// order of creation. Four numbers are drawn for every enemy. Where the
/// identities run out before `count` is reached, the enemies that still
/// found one are created.
pub fn spawn_enemies(registry: &mut Registry, count: usize, window: &Window, rng: &mut StdRng) -> (ids:
    Vec<EntityId>)
    ensures
        ids@.len() == spec_granted(old(registry)@, count),
        final(registry)@.player == old(registry)@.player,
        final(registry)@.stars == old(registry)@.stars,
        final(registry)@.issued == old(registry)@.issued + ids@.len(),
        final(registry)@.enemies.len() == old(registry)@.enemies.len() + ids@.len(),
        final(registry)@.enemies.take(old(registry)@.enemies.len() as int) == old(
            registry,
        )@.enemies,
        forall|i: int|
            0 <= i < ids@.len() ==> {
                let enemy = #[trigger] final(registry)@.enemies[old(registry)@.enemies.len() + i];
                &&& enemy.id == ids@[i]
                &&& enemy.id.0 == old(registry)@.issued + i
                &&& in_window(*window, enemy.position)
                &&& enemy.direction.is_unit()
                &&& is_enemy_placement(*window, enemy)
            },
        final(registry)@.wf(),
{
    let mut ids: Vec<EntityId> = Vec::new();
    let ghost before = registry@;
    proof {
        use_type_invariant(&*registry);
    }
    while ids.len() < count
        invariant
            before == old(registry)@,
            ids@.len() <= spec_granted(before, count),
            registry@.player == before.player,
            registry@.stars == before.stars,
            registry@.issued == before.issued + ids@.len(),
            registry@.enemies.len() == before.enemies.len() + ids@.len(),
            registry@.enemies.take(before.enemies.len() as int) == before.enemies,
            forall|i: int|
                0 <= i < ids@.len() ==> {
                    let enemy = #[trigger] registry@.enemies[before.enemies.len() + i];
                    &&& enemy.id == ids@[i]
                    &&& enemy.id.0 == before.issued + i
                    &&& in_window(*window, enemy.position)
                    &&& enemy.direction.is_unit()
                    &&& is_enemy_placement(*window, enemy)
                },
            registry@.wf(),
        ensures
            ids@.len() == spec_granted(before, count),
        decreases count - ids.len(),
    {
        let a: u32 = next_draw(rng);
        let b: u32 = next_draw(rng);
        let c: u32 = next_draw(rng);
        let d: u32 = next_draw(rng);
        let ghost earlier = registry@;
        match spawn_enemy(registry, window, a, b, c, d) {
            Some(id) => {
                proof {
                    let enemy = Enemy {
                        id,
                        position: spec_point(*window, a, b),
                        direction: spec_heading(c, d),
                    };
                    use_type_invariant(window);
                    lemma_placement(*window, a, b, c, d);
                    assert(registry@.enemies[(before.enemies.len() + ids@.len()) as int] == enemy);
                    assert(is_enemy_placement(*window, enemy)) by {
                        assert(enemy.position == spec_point(*window, a, b) && enemy.direction
                            == spec_heading(c, d));
                    }
                    assert(registry@.enemies.take(before.enemies.len() as int)
                        =~= earlier.enemies.take(before.enemies.len() as int));
                    assert forall|i: int| 0 <= i < ids@.len() implies #[trigger] registry@.enemies[before.enemies.len()
                        + i] == earlier.enemies[before.enemies.len() + i] by {}
                }
                ids.push(id);
            },
            None => {
                break ;
            },
        }
    }
    ids
}

/// Creates `count` stars, each at a point of the window that the generator
/// picks, and returns their identities in the order of creation. Two
/// numbers are drawn for every star. Where the identities run out before
/// `count` is reached, the stars that still found one are created.
pub fn spawn_stars(registry: &mut Registry, count: usize, window: &Window, rng: &mut StdRng) -> (ids:
    Vec<EntityId>)
    ensures
        ids@.len() == spec_granted(old(registry)@, count),
        final(registry)@.player == old(registry)@.player,
        final(registry)@.enemies == old(registry)@.enemies,
        final(registry)@.issued == old(registry)@.issued + ids@.len(),
        final(registry)@.stars.len() == old(registry)@.stars.len() + ids@.len(),
        final(registry)@.stars.take(old(registry)@.stars.len() as int) == old(registry)@.stars,
        forall|i: int|
            0 <= i < ids@.len() ==> {
                let star = #[trigger] final(registry)@.stars[old(registry)@.stars.len() + i];
                &&& star.id == ids@[i]
                &&& star.id.0 == old(registry)@.issued + i
                &&& in_window(*window, star.position)
                &&& is_star_placement(*window, star)
            },
        final(registry)@.wf(),
{
    let mut ids: Vec<EntityId> = Vec::new();
    let ghost before = registry@;
    proof {
        use_type_invariant(&*registry);
    }
    while ids.len() < count
        invariant
            before == old(registry)@,
            ids@.len() <= spec_granted(before, count),
            registry@.player == before.player,
            registry@.enemies == before.enemies,
            registry@.issued == before.issued + ids@.len(),
            registry@.stars.len() == before.stars.len() + ids@.len(),
            registry@.stars.take(before.stars.len() as int) == before.stars,
            forall|i: int|
                0 <= i < ids@.len() ==> {
                    let star = #[trigger] registry@.stars[before.stars.len() + i];
                    &&& star.id == ids@[i]
                    &&& star.id.0 == before.issued + i
                    &&& in_window(*window, star.position)
                    &&& is_star_placement(*window, star)
                },
            registry@.wf(),
        ensures
            ids@.len() == spec_granted(before, count),
        decreases count - ids.len(),
    {
        let a: u32 = next_draw(rng);
        let b: u32 = next_draw(rng);
        let ghost earlier = registry@;
        match spawn_star(registry, window, a, b) {
            Some(id) => {
                proof {
                    let star = Star { id, position: spec_point(*window, a, b) };
                    use_type_invariant(window);
                    lemma_placement(*window, a, b, a, b);
                    assert(registry@.stars[(before.stars.len() + ids@.len()) as int] == star);
                    assert(is_star_placement(*window, star)) by {
                        assert(star.position == spec_point(*window, a, b));
                    }
                    assert(registry@.stars.take(before.stars.len() as int) =~= earlier.stars.take(
                        before.stars.len() as int,
                    ));
                    assert forall|i: int| 0 <= i < ids@.len() implies #[trigger] registry@.stars[before.stars.len()
                        + i] == earlier.stars[before.stars.len() + i] by {}
                }
                ids.push(id);
            },
            None => {
                break ;
            },
        }
    }
    ids
}

} // verus!
