//! Moving the entities: the player along the direction that the input asks
//! for, every enemy along its own.

use vstd::prelude::*;
use crate::constants::{PLAYER_SPEED, UNIT};
use crate::direction::{lemma_axis_components, lemma_normalized, Direction};
use crate::entity::{Enemy, InputState};
use crate::math::magnitude;
use crate::position::spec_travel;
use crate::registry::{Registry, World};

verus! {

impl World {
    /// The world after the player, if there is one, has moved for `dt`
    /// microseconds under the given input.
    pub open spec fn after_player_movement(self, input: InputState, dt: u64) -> World {
        match self.player {
            Some(p) => World { player: Some(p.spec_moved(input, dt)), ..self },
            None => self,
        }
    }

    /// The world after every enemy has moved for `dt` microseconds.
    pub open spec fn after_enemy_movement(self, dt: u64) -> World {
        World { enemies: self.enemies.map_values(|e: Enemy| e.spec_moved(dt)), ..self }
    }
}

/// Moves the player for `dt` microseconds along the direction that the
/// input asks for. Opposite directions cancel, and two perpendicular ones
/// give a diagonal of the same speed as a single one. Without a player, or
/// with an idle input, nothing changes.
pub fn player_movement(registry: &mut Registry, input: &InputState, dt: u64)
    ensures
        final(registry)@ == old(registry)@.after_player_movement(*input, dt),
        final(registry)@.wf(),
        input.spec_idle() ==> final(registry)@ == old(registry)@,
{
    match registry.player() {
        Some(player) => {
            let moved = player.moved(input, dt);
            registry.place_player(moved.position);
        },
        None => {
            proof {
                use_type_invariant(&*registry);
            }
        },
    }
}

/// Moves every enemy for `dt` microseconds along its direction. The
/// directions stay as they are.
pub fn enemy_movement(registry: &mut Registry, dt: u64)
    ensures
        final(registry)@ == old(registry)@.after_enemy_movement(dt),
        final(registry)@.wf(),
{
    let count: usize = registry.enemies().len();
    let mut i: usize = 0;
    proof {
        use_type_invariant(&*registry);
    }
    while i < count
        invariant
            i <= count,
            count == old(registry)@.enemies.len(),
            registry@.enemies.len() == count,
            registry@.player == old(registry)@.player,
            registry@.stars == old(registry)@.stars,
            registry@.issued == old(registry)@.issued,
            registry@.wf(),
            forall|j: int|
                0 <= j < i ==> #[trigger] registry@.enemies[j] == old(
                    registry,
                )@.enemies[j].spec_moved(dt),
            forall|j: int|
                i <= j < count ==> #[trigger] registry@.enemies[j] == old(registry)@.enemies[j],
        decreases count - i,
    {
        let enemy: Enemy = registry.enemies()[i];
        let moved: Enemy = enemy.moved(dt);
        registry.place_enemy(i, moved.position, moved.direction);
        i += 1;
    }
    assert(registry@.enemies =~= old(registry)@.after_enemy_movement(dt).enemies);
}

/// The magnitude of what a body travels along one axis, when `share` is the
/// magnitude of the component of its direction along that axis and
/// `distance` is its speed times the time: `share * distance / UNIT`,
/// rounded down.
proof fn lemma_travel_magnitude(component: int, speed: int, dt: int)
    requires
        0 <= speed,
        0 <= dt,
    ensures
        magnitude(spec_travel(component, speed, dt)) == (magnitude(component) * (speed * dt)) / (
        UNIT as int),
        component >= 0 ==> spec_travel(component, speed, dt) >= 0,
        component <= 0 ==> spec_travel(component, speed, dt) <= 0,
{
    let m = magnitude(component) as int;
    let distance = speed * dt;
    assert(0 <= distance) by (nonlinear_arith)
        requires
            0 <= speed,
            0 <= dt,
            distance == speed * dt,
    ;
    assert(0 <= m * distance) by (nonlinear_arith)
        requires
            0 <= m,
            0 <= distance,
    ;
    if component < 0 {
        assert(component * speed * dt == -(m * distance)) by (nonlinear_arith)
            requires
                component == -m,
                distance == speed * dt,
        ;
    } else {
        assert(component * speed * dt == m * distance) by (nonlinear_arith)
            requires
                component == m,
                distance == speed * dt,
        ;
        if component == 0 {
            assert(m * distance == 0) by (nonlinear_arith)
                requires
                    m == 0,
            ;
        }
    }
}

/// Whatever the direction, a body covers the distance `speed * dt`, as far
/// as the grid can tell: the step that it takes is never longer than that,
/// and it falls short of it by less than `1 + speed * dt / UNIT`
/// micro-pixels along each axis.
pub proof fn lemma_step_length(direction: Direction, speed: u32, dt: u64)
    requires
        direction.is_unit(),
    ensures
        ({
            let distance = speed as int * dt as int;
            let step_x = magnitude(spec_travel(direction@.0, speed as int, dt as int)) as int;
            let step_y = magnitude(spec_travel(direction@.1, speed as int, dt as int)) as int;
            &&& step_x * step_x + step_y * step_y <= distance * distance
            &&& UNIT * UNIT * (distance * distance) < (UNIT * (step_x + 1) + distance) * (UNIT * (
            step_x + 1) + distance) + (UNIT * (step_y + 1) + distance) * (UNIT * (step_y + 1)
                + distance)
        }),
{
    let u = UNIT as int;
    let distance = speed as int * dt as int;
    let a = magnitude(direction@.0) as int;
    let b = magnitude(direction@.1) as int;
    let step_x = magnitude(spec_travel(direction@.0, speed as int, dt as int)) as int;
    let step_y = magnitude(spec_travel(direction@.1, speed as int, dt as int)) as int;
    lemma_travel_magnitude(direction@.0, speed as int, dt as int);
    lemma_travel_magnitude(direction@.1, speed as int, dt as int);
    assert(0 <= distance) by (nonlinear_arith)
        requires
            distance == speed as int * dt as int,
    ;
    assert(a * a == direction@.0 * direction@.0 && b * b == direction@.1 * direction@.1)
        by (nonlinear_arith)
        requires
            a == magnitude(direction@.0),
            b == magnitude(direction@.1),
    ;
    lemma_scaled_share(a, distance, step_x);
    lemma_scaled_share(b, distance, step_y);
    assert(step_x * step_x + step_y * step_y <= distance * distance) by (nonlinear_arith)
        requires
            u > 0,
            u * u * (step_x * step_x) <= a * a * (distance * distance),
            u * u * (step_y * step_y) <= b * b * (distance * distance),
            a * a + b * b <= u * u,
            0 <= distance,
    ;
    assert(u * u * (distance * distance) < (u * (step_x + 1) + distance) * (u * (step_x + 1)
        + distance) + (u * (step_y + 1) + distance) * (u * (step_y + 1) + distance))
        by (nonlinear_arith)
        requires
            u > 0,
            0 <= distance,
            (a + 1) * (a + 1) * (distance * distance) <= (u * (step_x + 1) + distance) * (u * (
            step_x + 1) + distance),
            (b + 1) * (b + 1) * (distance * distance) <= (u * (step_y + 1) + distance) * (u * (
            step_y + 1) + distance),
            u * u < (a + 1) * (a + 1) + (b + 1) * (b + 1),
            0 < (u * (step_x + 1) + distance) * (u * (step_x + 1) + distance),
    ;
}

/// What rounding down says of one axis of a step.
proof fn lemma_scaled_share(share: int, distance: int, step: int)
    requires
        0 <= share,
        0 <= distance,
        step == (share * distance) / (UNIT as int),
    ensures
        0 <= step,
        UNIT * UNIT * (step * step) <= share * share * (distance * distance),
        (share + 1) * (share + 1) * (distance * distance) <= (UNIT * (step + 1) + distance) * (UNIT
            * (step + 1) + distance),
        0 < (UNIT * (step + 1) + distance) * (UNIT * (step + 1) + distance),
{
    let u = UNIT as int;
    let product = share * distance;
    assert(0 <= product) by (nonlinear_arith)
        requires
            0 <= share,
            0 <= distance,
            product == share * distance,
    ;
    assert(0 <= step && u * step <= product < u * (step + 1)) by (nonlinear_arith)
        requires
            step == product / u,
            u == 1_000_000,
            0 <= product,
    ;
    assert(u * u * (step * step) == (u * step) * (u * step)) by (nonlinear_arith);
    assert((u * step) * (u * step) <= product * product) by (nonlinear_arith)
        requires
            0 <= u * step <= product,
    ;
    assert(product * product == share * share * (distance * distance)) by (nonlinear_arith)
        requires
            product == share * distance,
    ;
    let reach = u * (step + 1) + distance;
    let wanted = (share + 1) * distance;
    assert(wanted == product + distance) by (nonlinear_arith)
        requires
            wanted == (share + 1) * distance,
            product == share * distance,
    ;
    assert(0 <= wanted <= reach && 0 < reach);
    assert(wanted * wanted <= reach * reach) by (nonlinear_arith)
        requires
            0 <= wanted <= reach,
    ;
    assert(wanted * wanted == (share + 1) * (share + 1) * (distance * distance))
        by (nonlinear_arith)
        requires
            wanted == (share + 1) * distance,
    ;
    assert(0 < reach * reach) by (nonlinear_arith)
        requires
            0 < reach,
    ;
}

/// Along a single axis the player covers `PLAYER_SPEED * dt` exactly.
pub proof fn lemma_axial_speed(input: InputState, dt: u64)
    requires
        (input.spec_axis_x() == 0) != (input.spec_axis_y() == 0),
    ensures
        input.spec_direction() is Some,
        ({
            let direction = input.spec_direction().unwrap();
            let distance = PLAYER_SPEED as int * dt as int;
            &&& spec_travel(direction@.0, PLAYER_SPEED as int, dt as int) == input.spec_axis_x()
                * distance
            &&& spec_travel(direction@.1, PLAYER_SPEED as int, dt as int) == input.spec_axis_y()
                * distance
        }),
{
    let x = input.spec_axis_x();
    let y = input.spec_axis_y();
    lemma_normalized(x, y);
    lemma_axis_components();
    let direction = input.spec_direction().unwrap();
    let distance = PLAYER_SPEED as int * dt as int;
    lemma_travel_magnitude(direction@.0, PLAYER_SPEED as int, dt as int);
    lemma_travel_magnitude(direction@.1, PLAYER_SPEED as int, dt as int);
    assert((1_000_000 * distance) / 1_000_000 == distance);
    assert((0 * distance) / 1_000_000 == 0);
}

/// With two perpendicular directions pressed the player moves no faster
/// than with one: both axes take the same share of the step, and the step
/// is no longer than `PLAYER_SPEED * dt`, where moving at full speed along
/// both axes would make it longer by the square root of two. It falls
/// short of `PLAYER_SPEED * dt` by less than `1 + PLAYER_SPEED * dt / UNIT`
/// micro-pixels along each axis.
pub proof fn lemma_diagonal_speed(input: InputState, dt: u64)
    requires
        input.spec_axis_x() != 0,
        input.spec_axis_y() != 0,
    ensures
        input.spec_direction() is Some,
        ({
            let direction = input.spec_direction().unwrap();
            let distance = PLAYER_SPEED as int * dt as int;
            let step_x = spec_travel(direction@.0, PLAYER_SPEED as int, dt as int);
            let step_y = spec_travel(direction@.1, PLAYER_SPEED as int, dt as int);
            let step = magnitude(step_x) as int;
            &&& step_x == input.spec_axis_x() * step
            &&& step_y == input.spec_axis_y() * step
            &&& 2 * (step * step) <= distance * distance
            &&& UNIT * UNIT * (distance * distance) < 2 * ((UNIT * (step + 1) + distance) * (UNIT
                * (step + 1) + distance))
        }),
{
    let x = input.spec_axis_x();
    let y = input.spec_axis_y();
    lemma_normalized(x, y);
    lemma_axis_components();
    let direction = input.spec_direction().unwrap();
    lemma_travel_magnitude(direction@.0, PLAYER_SPEED as int, dt as int);
    lemma_travel_magnitude(direction@.1, PLAYER_SPEED as int, dt as int);
    lemma_step_length(direction, PLAYER_SPEED, dt);
}

} // verus!
