//! Keeping the entities inside the window: enemies turn back at its edges,
//! and the player and the enemies are clamped into it.

use vstd::prelude::*;
use crate::constants::{ENEMY_SIZE, PLAYER_SIZE};
use crate::entity::Enemy;
use crate::registry::{Registry, World};
use crate::window::Window;

verus! {

impl World {
    /// The world with the player, if there is one, clamped into the window.
    pub open spec fn after_confine_player(self, window: Window) -> World {
        match self.player {
            Some(p) => World { player: Some(p.spec_confined(window)), ..self },
            None => self,
        }
    }

    /// The world with every enemy clamped into the window.
    pub open spec fn after_confine_enemies(self, window: Window) -> World {
        World { enemies: self.enemies.map_values(|e: Enemy| e.spec_confined(window)), ..self }
    }

    /// The world with every enemy that has crossed an edge turned back.
    pub open spec fn after_bounce(self, window: Window) -> World {
        World { enemies: self.enemies.map_values(|e: Enemy| e.spec_bounced(window)), ..self }
    }

    /// Whether the player, if there is one, lies wholly inside the window.
    pub open spec fn player_inside(self, window: Window) -> bool {
        self.player matches Some(p) ==> p.spec_inside(window)
    }

    /// Whether every enemy lies wholly inside the window.
    pub open spec fn enemies_inside(self, window: Window) -> bool {
        forall|i: int| 0 <= i < self.enemies.len() ==> (#[trigger] self.enemies[i]).spec_inside(window)
    }
}

/// Whether the window has room for a body of diameter `size`.
pub open spec fn fits(window: Window, size: u32) -> bool {
    window.spec_width() >= size && window.spec_height() >= size
}

/// Clamps the player into the window, so that it does not reach over an
/// edge. Without a player nothing happens. In a window with room for the
/// player, the player then lies wholly inside.
pub fn confine_player_movement(registry: &mut Registry, window: &Window)
    ensures
        final(registry)@ == old(registry)@.after_confine_player(*window),
        final(registry)@.wf(),
        fits(*window, PLAYER_SIZE) ==> final(registry)@.player_inside(*window),
{
    match registry.player() {
        Some(player) => {
            let confined = player.confined(window);
            registry.place_player(confined.position);
        },
        None => {
            proof {
                use_type_invariant(&*registry);
            }
        },
    }
}

/// Turns back every enemy that has crossed an edge of the window: beyond
/// the left or right bound the horizontal component of its direction is
/// negated, beyond the lower or upper bound the vertical one. No position
/// changes, so an enemy may be out of bounds for one frame.
pub fn update_enemy_direction(registry: &mut Registry, window: &Window)
    ensures
        final(registry)@ == old(registry)@.after_bounce(*window),
        final(registry)@.wf(),
{
    let count: usize = registry.enemies().len();
    let mut i: usize = 0;
    proof {
        use_type_invariant(&*registry);
    }
    while i < count
        invariant
            i <= count,
            count == old(registry)@.enemies.len(),
            registry@.enemies.len() == count,
            registry@.player == old(registry)@.player,
            registry@.stars == old(registry)@.stars,
            registry@.issued == old(registry)@.issued,
            registry@.wf(),
            forall|j: int|
                0 <= j < i ==> #[trigger] registry@.enemies[j] == old(
                    registry,
                )@.enemies[j].spec_bounced(*window),
            forall|j: int|
                i <= j < count ==> #[trigger] registry@.enemies[j] == old(registry)@.enemies[j],
        decreases count - i,
    {
        let enemy: Enemy = registry.enemies()[i];
        let bounced: Enemy = enemy.bounced(window);
        registry.place_enemy(i, bounced.position, bounced.direction);
        i += 1;
    }
    assert(registry@.enemies =~= old(registry)@.after_bounce(*window).enemies);
}

/// Clamps every enemy into the window, so that none reaches over an edge.
/// In a window with room for an enemy, every enemy then lies wholly inside.
pub fn confine_enemy_movement(registry: &mut Registry, window: &Window)
    ensures
        final(registry)@ == old(registry)@.after_confine_enemies(*window),
        final(registry)@.wf(),
        fits(*window, ENEMY_SIZE) ==> final(registry)@.enemies_inside(*window),
{
    let count: usize = registry.enemies().len();
    let mut i: usize = 0;
    proof {
        use_type_invariant(&*registry);
    }
    while i < count
        invariant
            i <= count,
            count == old(registry)@.enemies.len(),
            registry@.enemies.len() == count,
            registry@.player == old(registry)@.player,
            registry@.stars == old(registry)@.stars,
            registry@.issued == old(registry)@.issued,
            registry@.wf(),
            forall|j: int|
                0 <= j < i ==> #[trigger] registry@.enemies[j] == old(
                    registry,
                )@.enemies[j].spec_confined(*window),
            forall|j: int|
                0 <= j < i && fits(*window, ENEMY_SIZE) ==> (
                #[trigger] registry@.enemies[j]).spec_inside(*window),
            forall|j: int|
                i <= j < count ==> #[trigger] registry@.enemies[j] == old(registry)@.enemies[j],
        decreases count - i,
    {
        let enemy: Enemy = registry.enemies()[i];
        let confined: Enemy = enemy.confined(window);
        registry.place_enemy(i, confined.position, confined.direction);
        i += 1;
    }
    assert(registry@.enemies =~= old(registry)@.after_confine_enemies(*window).enemies);
}

} // verus!
