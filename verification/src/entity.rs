//! The three kinds of entity, the directional input that steers the
//! player, and the events of a frame.

use vstd::prelude::*;
use crate::constants::{ENEMY_SIZE, ENEMY_SPEED, PLAYER_SIZE, PLAYER_SPEED, STAR_SIZE};
use crate::direction::Direction;
use crate::identity::{EntityId, Identified};
use crate::position::{spec_out_of_bounds, Position};
use crate::window::Window;

verus! {

/// The avatar that the input steers.
#[derive(Clone, Copy, Debug, PartialEq, Eq, Structural)]
pub struct Player {
    pub id: EntityId,
    pub position: Position,
}

/// A roaming enemy. It travels along its direction and bounces off the
/// edges of the window.
#[derive(Clone, Copy, Debug, PartialEq, Eq, Structural)]
pub struct Enemy {
    pub id: EntityId,
    pub position: Position,
    pub direction: Direction,
}

/// A star that waits to be collected.
#[derive(Clone, Copy, Debug, PartialEq, Eq, Structural)]
pub struct Star {
    pub id: EntityId,
    pub position: Position,
}

/// The camera that looks at the playing field.
#[derive(Clone, Copy, Debug, PartialEq, Eq, Structural)]
pub struct Camera {
    pub position: Position,
}

/// The directions that the keyboard asks for in one frame.
#[derive(Clone, Copy, Debug, PartialEq, Eq, Structural)]
pub struct InputState {
    pub left: bool,
    pub right: bool,
    pub up: bool,
    pub down: bool,
}

/// An enemy has reached the player: the game is over.
#[derive(Clone, Copy, Debug, PartialEq, Eq, Structural)]
pub struct GameOverEvent {
    /// The player that was hit and is to be removed.
    pub player: EntityId,
    /// The enemy that hit it.
    pub enemy: EntityId,
}

/// The player has reached a star.
#[derive(Clone, Copy, Debug, PartialEq, Eq, Structural)]
pub struct StarCollectedEvent {
    /// The star that was collected and is to be removed.
    pub star: EntityId,
}

impl Identified for Player {
    open spec fn identity(&self) -> EntityId {
        self.id
    }

    fn id(&self) -> (id: EntityId) {
        self.id
    }
}

impl Identified for Enemy {
    open spec fn identity(&self) -> EntityId {
        self.id
    }

    fn id(&self) -> (id: EntityId) {
        self.id
    }
}

impl Identified for Star {
    open spec fn identity(&self) -> EntityId {
        self.id
    }

    fn id(&self) -> (id: EntityId) {
        self.id
    }
}

impl InputState {
    /// The input with no direction pressed.
    pub fn none() -> (input: InputState)
        ensures
            input == (InputState { left: false, right: false, up: false, down: false }),
            input.spec_idle(),
    {
        InputState { left: false, right: false, up: false, down: false }
    }

    /// Joins the two key bindings of every direction: a direction is asked
    /// for when its key is pressed in either.
    pub fn from_bindings(primary: InputState, alternate: InputState) -> (input: InputState)
        ensures
            input.left == (primary.left || alternate.left),
            input.right == (primary.right || alternate.right),
            input.up == (primary.up || alternate.up),
            input.down == (primary.down || alternate.down),
    {
        InputState {
            left: primary.left || alternate.left,
            right: primary.right || alternate.right,
            up: primary.up || alternate.up,
            down: primary.down || alternate.down,
        }
    }

    /// The horizontal axis: `1` for right, `-1` for left, `0` for neither
    /// or for both, which cancel.
    pub open spec fn spec_axis_x(self) -> int {
        (if self.right { 1int } else { 0int }) - (if self.left { 1int } else { 0int })
    }

    /// The vertical axis: `1` for up, `-1` for down, `0` for neither or for
    /// both, which cancel.
    pub open spec fn spec_axis_y(self) -> int {
        (if self.up { 1int } else { 0int }) - (if self.down { 1int } else { 0int })
    }

    /// Whether the input asks for no movement at all.
    pub open spec fn spec_idle(self) -> bool {
        self.spec_axis_x() == 0 && self.spec_axis_y() == 0
    }

    /// The direction that the input asks for: the sum of the axes scaled to
    /// unit length, or `None` where the sum is zero.
    pub open spec fn spec_direction(self) -> Option<Direction> {
        Direction::spec_normalized(self.spec_axis_x(), self.spec_axis_y())
    }

    /// Computes the horizontal axis.
    pub fn axis_x(&self) -> (r: i32)
        ensures
            r == self.spec_axis_x(),
    {
        let mut r: i32 = 0;
        if self.left {
            r = r - 1;
        }
        if self.right {
            r = r + 1;
        }
        r
    }

    /// Computes the vertical axis.
    pub fn axis_y(&self) -> (r: i32)
        ensures
            r == self.spec_axis_y(),
    {
        let mut r: i32 = 0;
        if self.up {
            r = r + 1;
        }
        if self.down {
            r = r - 1;
        }
        r
    }

    /// Sums the contributions of the four directions and scales the sum to
    /// unit length. Gives `None` exactly when the input is idle.
    pub fn direction(&self) -> (r: Option<Direction>)
        ensures
            r == self.spec_direction(),
            r is None <==> self.spec_idle(),
            r matches Some(d) ==> d.is_unit(),
    {
        Direction::normalized(self.axis_x(), self.axis_y())
    }
}

impl Player {
    /// The player after `dt` microseconds under the given input: moved
    /// along the direction that the input asks for, or left in place where
    /// it asks for none.
    pub open spec fn spec_moved(self, input: InputState, dt: u64) -> Player {
        match input.spec_direction() {
            Some(direction) => Player {
                position: self.position.spec_advanced(direction, PLAYER_SPEED, dt),
                ..self
            },
            None => self,
        }
    }

    /// Moves the player for `dt` microseconds at [`PLAYER_SPEED`] along the
    /// direction that the input asks for. An idle input leaves the player
    /// where it is, whatever `dt` may be.
    pub fn moved(self, input: &InputState, dt: u64) -> (p: Player)
        ensures
            p == self.spec_moved(*input, dt),
            p.id == self.id,
            input.spec_idle() ==> p == self,
    {
        match input.direction() {
            Some(direction) => Player {
                id: self.id,
                position: self.position.advanced(direction, PLAYER_SPEED, dt),
            },
            None => self,
        }
    }

    /// The player held inside the window.
    pub open spec fn spec_confined(self, window: Window) -> Player {
        Player { position: self.position.spec_confined(window, PLAYER_SIZE), ..self }
    }

    /// Whether the whole player lies inside the window.
    pub open spec fn spec_inside(self, window: Window) -> bool {
        self.position.spec_inside(window, PLAYER_SIZE)
    }

    /// Clamps the player into the window. In a window that is at least
    /// [`PLAYER_SIZE`] wide and high the whole player then lies inside.
    pub fn confined(self, window: &Window) -> (p: Player)
        ensures
            p == self.spec_confined(*window),
            p.id == self.id,
            window.spec_width() >= PLAYER_SIZE && window.spec_height() >= PLAYER_SIZE
                ==> p.spec_inside(*window),
    {
        Player { id: self.id, position: self.position.confined(window, PLAYER_SIZE) }
    }

    /// Whether the enemy overlaps the player.
    pub open spec fn spec_hit_by(self, enemy: Enemy) -> bool {
        self.position.spec_overlaps(PLAYER_SIZE, enemy.position, ENEMY_SIZE)
    }

    /// Tests whether the enemy overlaps the player: whether their centres
    /// are closer than the sum of their radii.
    pub fn hit_by(&self, enemy: &Enemy) -> (r: bool)
        ensures
            r == self.spec_hit_by(*enemy),
    {
        self.position.overlaps(PLAYER_SIZE, enemy.position, ENEMY_SIZE)
    }

    /// Whether the player overlaps the star.
    pub open spec fn spec_reaches(self, star: Star) -> bool {
        self.position.spec_overlaps(PLAYER_SIZE, star.position, STAR_SIZE)
    }

    /// Tests whether the player overlaps the star: whether their centres
    /// are closer than the sum of their radii.
    pub fn reaches(&self, star: &Star) -> (r: bool)
        ensures
            r == self.spec_reaches(*star),
    {
        self.position.overlaps(PLAYER_SIZE, star.position, STAR_SIZE)
    }
}

impl Enemy {
    /// The enemy after `dt` microseconds of travel along its direction.
    pub open spec fn spec_moved(self, dt: u64) -> Enemy {
        Enemy { position: self.position.spec_advanced(self.direction, ENEMY_SPEED, dt), ..self }
    }

    /// Moves the enemy for `dt` microseconds at [`ENEMY_SPEED`] along its
    /// direction, which stays as it is.
    pub fn moved(self, dt: u64) -> (e: Enemy)
        ensures
            e == self.spec_moved(dt),
            e.id == self.id,
            e.direction == self.direction,
    {
        Enemy {
            id: self.id,
            position: self.position.advanced(self.direction, ENEMY_SPEED, dt),
            direction: self.direction,
        }
    }

    /// The enemy after bouncing: where it has left the range of an axis,
    /// the component of its direction along that axis is negated.
    pub open spec fn spec_bounced(self, window: Window) -> Enemy {
        Enemy {
            direction: self.direction.spec_reflected(
                spec_out_of_bounds(self.position.x as int, window.spec_width(), ENEMY_SIZE),
                spec_out_of_bounds(self.position.y as int, window.spec_height(), ENEMY_SIZE),
            ),
            ..self
        }
    }

    /// Turns the enemy back where it has crossed an edge of the window: an
    /// enemy beyond the left or right bound has the horizontal component of
    /// its direction negated, one beyond the lower or upper bound the
    /// vertical one. The position stays as it is, and so does the length of
    /// the direction.
    pub fn bounced(self, window: &Window) -> (e: Enemy)
        ensures
            e == self.spec_bounced(*window),
            e.id == self.id,
            e.position == self.position,
            e.direction.length_squared() == self.direction.length_squared(),
            e.direction.is_unit(),
    {
        let flip_x: bool = self.position.out_of_bounds_x(window, ENEMY_SIZE);
        let flip_y: bool = self.position.out_of_bounds_y(window, ENEMY_SIZE);
        Enemy {
            id: self.id,
            position: self.position,
            direction: self.direction.reflected(flip_x, flip_y),
        }
    }

    /// The enemy held inside the window.
    pub open spec fn spec_confined(self, window: Window) -> Enemy {
        Enemy { position: self.position.spec_confined(window, ENEMY_SIZE), ..self }
    }

    /// Whether the whole enemy lies inside the window.
    pub open spec fn spec_inside(self, window: Window) -> bool {
        self.position.spec_inside(window, ENEMY_SIZE)
    }

    /// Clamps the enemy into the window. In a window that is at least
    /// [`ENEMY_SIZE`] wide and high the whole enemy then lies inside.
    pub fn confined(self, window: &Window) -> (e: Enemy)
        ensures
            e == self.spec_confined(*window),
            e.id == self.id,
            e.direction == self.direction,
            window.spec_width() >= ENEMY_SIZE && window.spec_height() >= ENEMY_SIZE
                ==> e.spec_inside(*window),
    {
        Enemy {
            id: self.id,
            position: self.position.confined(window, ENEMY_SIZE),
            direction: self.direction,
        }
    }
}

} // verus!
