//! The registry of live entities: the one owner of every player, enemy and
//! star. It creates entities, each under an identity of its own, hands them
//! out to be read, takes new positions and directions for them, and removes
//! them again.

use vstd::prelude::*;
use crate::direction::Direction;
use crate::entity::{Enemy, Player, Star};
use crate::identity::{
    all_issued, carries, distinct, find, lemma_filter_identities, lemma_issued_identities,
    lemma_push_identities, lemma_update_identities, listed, stays, unlisted, EntityId,
    Identified,
};
use crate::position::Position;

verus! {

/// What a registry holds, as a mathematical value.
pub ghost struct World {
    /// The player, while there is one.
    pub player: Option<Player>,
    /// The enemies, in the order of their creation.
    pub enemies: Seq<Enemy>,
    /// The stars, in the order of their creation.
    pub stars: Seq<Star>,
    /// How many identities have been given out so far.
    pub issued: nat,
}

impl World {
    /// The world without entities, in which no identity has been given out.
    pub open spec fn empty() -> World {
        World { player: None, enemies: Seq::empty(), stars: Seq::empty(), issued: 0 }
    }

    /// Whether the player carries the identity `id`.
    pub open spec fn has_player(self, id: EntityId) -> bool {
        self.player matches Some(p) && p.id == id
    }

    /// Whether some enemy carries the identity `id`.
    pub open spec fn has_enemy(self, id: EntityId) -> bool {
        carries(self.enemies, id)
    }

    /// Whether some star carries the identity `id`.
    pub open spec fn has_star(self, id: EntityId) -> bool {
        carries(self.stars, id)
    }

    /// Whether a live entity carries the identity `id`.
    pub open spec fn holds(self, id: EntityId) -> bool {
        self.has_player(id) || self.has_enemy(id) || self.has_star(id)
    }

    /// Whether the live entity that carries the identity `id` stands at
    /// `position`.
    pub open spec fn stands_at(self, id: EntityId, position: Position) -> bool {
        ||| self.player matches Some(p) && p.id == id && p.position == position
        ||| exists|i: int|
            0 <= i < self.enemies.len() && (#[trigger] self.enemies[i]).id == id
                && self.enemies[i].position == position
        ||| exists|i: int|
            0 <= i < self.stars.len() && (#[trigger] self.stars[i]).id == id
                && self.stars[i].position == position
    }

    /// Whether the identity `id` was given out once and its entity has been
    /// removed since.
    pub open spec fn retired(self, id: EntityId) -> bool {
        id.0 < self.issued && !self.holds(id)
    }

    /// How many more entities can be created before the identities run out.
    pub open spec fn room(self) -> nat {
        (u64::MAX - self.issued) as nat
    }

    /// Whether every enemy heads along a unit direction.
    pub open spec fn unit_directions(self) -> bool {
        forall|i: int| 0 <= i < self.enemies.len() ==> (#[trigger] self.enemies[i]).direction.is_unit()
    }

    /// The invariant of a registry: every live entity carries an identity
    /// that was given out, no two live entities carry the same one, and
    /// every enemy heads along a unit direction.
    pub open spec fn wf(self) -> bool {
        &&& self.issued <= u64::MAX
        &&& self.unit_directions()
        &&& self.player matches Some(p) ==> p.id.0 < self.issued && !carries(self.enemies, p.id)
            && !carries(self.stars, p.id)
        &&& all_issued(self.enemies, self.issued)
        &&& all_issued(self.stars, self.issued)
        &&& distinct(self.enemies)
        &&& distinct(self.stars)
        &&& forall|id: EntityId| !(#[trigger] carries(self.enemies, id) && carries(self.stars, id))
    }

    /// The world after a player was created at `position`.
    pub open spec fn with_new_player(self, position: Position) -> World {
        World {
            player: Some(Player { id: EntityId(self.issued as u64), position }),
            issued: self.issued + 1,
            ..self
        }
    }

    /// The world after an enemy was created.
    pub open spec fn with_new_enemy(self, position: Position, direction: Direction) -> World {
        World {
            enemies: self.enemies.push(
                Enemy { id: EntityId(self.issued as u64), position, direction },
            ),
            issued: self.issued + 1,
            ..self
        }
    }

    /// The world after a star was created at `position`.
    pub open spec fn with_new_star(self, position: Position) -> World {
        World {
            stars: self.stars.push(Star { id: EntityId(self.issued as u64), position }),
            issued: self.issued + 1,
            ..self
        }
    }

    /// The world with the player, if there is one, at `position`.
    pub open spec fn with_player_at(self, position: Position) -> World {
        match self.player {
            Some(p) => World { player: Some(Player { position, ..p }), ..self },
            None => self,
        }
    }

    /// The world with the enemy at `index`, if there is one, given a new
    /// position and direction.
    pub open spec fn with_enemy_at(self, index: int, position: Position, direction: Direction) -> World {
        if 0 <= index < self.enemies.len() {
            World {
                enemies: self.enemies.update(
                    index,
                    Enemy { position, direction, ..self.enemies[index] },
                ),
                ..self
            }
        } else {
            self
        }
    }

    /// The world without the entities whose identities are in `gone`. The
    /// entities that stay keep their order.
    pub open spec fn without(self, gone: Set<EntityId>) -> World {
        World {
            player: match self.player {
                Some(p) => if gone.contains(p.id) {
                    None
                } else {
                    Some(p)
                },
                None => None,
            },
            enemies: self.enemies.filter(stays(gone)),
            stars: self.stars.filter(stays(gone)),
            issued: self.issued,
        }
    }
}

/// The registry of live entities.
pub struct Registry {
    issued: u64,
    player: Option<Player>,
    enemies: Vec<Enemy>,
    stars: Vec<Star>,
}

impl View for Registry {
    type V = World;

    closed spec fn view(&self) -> World {
        World {
            player: self.player,
            enemies: self.enemies@,
            stars: self.stars@,
            issued: self.issued as nat,
        }
    }
}

impl Registry {
    /// The invariant of the type: what a registry holds is well-formed.
    #[verifier::type_invariant]
    pub open spec fn inv(&self) -> bool {
        self@.wf()
    }

    /// Moves the enemies out of the registry, which is left without any.
    fn take_enemies(&mut self) -> (enemies: Vec<Enemy>)
        ensures
            enemies@ == old(self)@.enemies,
            final(self)@ == (World { enemies: Seq::empty(), ..old(self)@ }),
            old(self)@.wf(),
    {
        proof {
            use_type_invariant(&*self);
        }
        let mut enemies: Vec<Enemy> = Vec::new();
        core::mem::swap(&mut self.enemies, &mut enemies);
        enemies
    }

    /// Moves the stars out of the registry, which is left without any.
    fn take_stars(&mut self) -> (stars: Vec<Star>)
        ensures
            stars@ == old(self)@.stars,
            final(self)@ == (World { stars: Seq::empty(), ..old(self)@ }),
            old(self)@.wf(),
    {
        proof {
            use_type_invariant(&*self);
        }
        let mut stars: Vec<Star> = Vec::new();
        core::mem::swap(&mut self.stars, &mut stars);
        stars
    }

    /// A registry without entities.
    pub fn new() -> (r: Registry)
        ensures
            r@ == World::empty(),
            r@.wf(),
    {
        Registry { issued: 0, player: None, enemies: Vec::new(), stars: Vec::new() }
    }

    /// How many identities the registry has given out.
    pub fn issued(&self) -> (n: u64)
        ensures
            n == self@.issued,
    {
        self.issued
    }

    /// The player, while there is one.
    pub fn player(&self) -> (p: Option<Player>)
        ensures
            p == self@.player,
    {
        self.player
    }

    /// The enemies, in the order of their creation.
    pub fn enemies(&self) -> (v: &Vec<Enemy>)
        ensures
            v@ == self@.enemies,
    {
        &self.enemies
    }

    /// The stars, in the order of their creation.
    pub fn stars(&self) -> (v: &Vec<Star>)
        ensures
            v@ == self@.stars,
    {
        &self.stars
    }

    /// Creates the player at `position`, unless there is a player already
    /// or the identities have run out; the registry then stays as it is.
    pub fn create_player(&mut self, position: Position) -> (r: Option<EntityId>)
        ensures
            r is Some <==> old(self)@.player is None && old(self)@.room() > 0,
            r matches Some(id) ==> id.0 == old(self)@.issued && final(self)@ == old(
                self,
            )@.with_new_player(position),
            r is None ==> final(self)@ == old(self)@,
            final(self)@.wf(),
    {
        proof {
            use_type_invariant(&*self);
        }
        if self.player.is_some() || self.issued == u64::MAX {
            return None;
        }
        let id = EntityId(self.issued);
        proof {
            lemma_issued_identities(self.enemies@, self.issued as nat);
            lemma_issued_identities(self.stars@, self.issued as nat);
        }
        self.issued = self.issued + 1;
        self.player = Some(Player { id, position });
        Some(id)
    }

    /// Creates an enemy at `position` that heads along `direction`, unless
    /// the identities have run out; the registry then stays as it is.
    pub fn create_enemy(&mut self, position: Position, direction: Direction) -> (r: Option<
        EntityId,
    >)
        ensures
            r is Some <==> old(self)@.room() > 0,
            r matches Some(id) ==> id.0 == old(self)@.issued && final(self)@ == old(
                self,
            )@.with_new_enemy(position, direction),
            r is None ==> final(self)@ == old(self)@,
            final(self)@.wf(),
    {
        proof {
            use_type_invariant(&*self);
        }
        if self.issued == u64::MAX {
            return None;
        }
        let id = EntityId(self.issued);
        let mut enemies: Vec<Enemy> = self.take_enemies();
        proof {
            use_type_invariant(&direction);
            lemma_issued_identities(enemies@, self.issued as nat);
            lemma_issued_identities(self.stars@, self.issued as nat);
            lemma_push_identities(enemies@, Enemy { id, position, direction });
            assert forall|i: int| 0 <= i <= enemies@.len() implies (#[trigger] enemies@.push(
                Enemy { id, position, direction },
            )[i]).direction.is_unit() by {
                if i < enemies@.len() {
                    assert(enemies@[i].direction.is_unit());
                }
            }
        }
        enemies.push(Enemy { id, position, direction });
        self.issued = self.issued + 1;
        self.enemies = enemies;
        Some(id)
    }

    /// Creates a star at `position`, unless the identities have run out;
    /// the registry then stays as it is.
    pub fn create_star(&mut self, position: Position) -> (r: Option<EntityId>)
        ensures
            r is Some <==> old(self)@.room() > 0,
            r matches Some(id) ==> id.0 == old(self)@.issued && final(self)@ == old(
                self,
            )@.with_new_star(position),
            r is None ==> final(self)@ == old(self)@,
            final(self)@.wf(),
    {
        proof {
            use_type_invariant(&*self);
        }
        if self.issued == u64::MAX {
            return None;
        }
        let id = EntityId(self.issued);
        let mut stars: Vec<Star> = self.take_stars();
        proof {
            lemma_issued_identities(stars@, self.issued as nat);
            lemma_issued_identities(self.enemies@, self.issued as nat);
            lemma_push_identities(stars@, Star { id, position });
        }
        stars.push(Star { id, position });
        self.issued = self.issued + 1;
        self.stars = stars;
        Some(id)
    }

    /// Puts the player at `position`. Says whether there is a player;
    /// without one the registry stays as it is.
    pub fn place_player(&mut self, position: Position) -> (r: bool)
        ensures
            r == old(self)@.player is Some,
            final(self)@ == old(self)@.with_player_at(position),
            final(self)@.wf(),
    {
        proof {
            use_type_invariant(&*self);
        }
        match self.player {
            Some(p) => {
                self.player = Some(Player { id: p.id, position });
                true
            },
            None => false,
        }
    }

    /// Gives the enemy at `index` a new position and direction. Says
    /// whether there is such an enemy; without one the registry stays as
    /// it is.
    pub fn place_enemy(&mut self, index: usize, position: Position, direction: Direction) -> (r:
        bool)
        ensures
            r == (index < old(self)@.enemies.len()),
            final(self)@ == old(self)@.with_enemy_at(index as int, position, direction),
            final(self)@.wf(),
    {
        proof {
            use_type_invariant(&*self);
        }
        if index < self.enemies.len() {
            let mut enemies: Vec<Enemy> = self.take_enemies();
            let id = enemies[index].id;
            proof {
                use_type_invariant(&direction);
                lemma_update_identities(enemies@, index as int, Enemy { id, position, direction });
                assert forall|i: int| 0 <= i < enemies@.len() implies (#[trigger] enemies@.update(
                    index as int,
                    Enemy { id, position, direction },
                )[i]).direction.is_unit() by {
                    if i != index {
                        assert(enemies@[i].direction.is_unit());
                    }
                }
            }
            enemies.set(index, Enemy { id, position, direction });
            self.enemies = enemies;
            true
        } else {
            false
        }
    }

    /// Tests whether a live entity carries the identity `id`.
    pub fn contains(&self, id: EntityId) -> (r: bool)
        ensures
            r == self@.holds(id),
    {
        let is_player: bool = match self.player {
            Some(p) => p.id == id,
            None => false,
        };
        is_player || find(&self.enemies, id) || find(&self.stars, id)
    }

    /// Where the live entity that carries the identity `id` stands, or
    /// `None` if no live entity carries it.
    pub fn position(&self, id: EntityId) -> (r: Option<Position>)
        ensures
            r is Some <==> self@.holds(id),
            r matches Some(position) ==> self@.stands_at(id, position),
    {
        match self.player {
            Some(p) => {
                if p.id == id {
                    return Some(p.position);
                }
            },
            None => {},
        }
        let mut i: usize = 0;
        while i < self.enemies.len()
            invariant
                i <= self.enemies.len(),
                !self@.has_player(id),
                forall|j: int| 0 <= j < i ==> (#[trigger] self.enemies@[j]).identity() != id,
            decreases self.enemies.len() - i,
        {
            if self.enemies[i].id == id {
                return Some(self.enemies[i].position);
            }
            i += 1;
        }
        let mut i: usize = 0;
        while i < self.stars.len()
            invariant
                i <= self.stars.len(),
                !self@.has_player(id),
                !self@.has_enemy(id),
                forall|j: int| 0 <= j < i ==> (#[trigger] self.stars@[j]).identity() != id,
            decreases self.stars.len() - i,
        {
            if self.stars[i].id == id {
                return Some(self.stars[i].position);
            }
            i += 1;
        }
        None
    }

    /// Removes every entity whose identity is one of `ids`. Identities that
    /// no live entity carries are passed over.
    pub fn despawn_all(&mut self, ids: &Vec<EntityId>)
        ensures
            final(self)@ == old(self)@.without(ids@.to_set()),
            final(self)@.wf(),
    {
        proof {
            use_type_invariant(&*self);
            lemma_without(self@, ids@.to_set());
        }
        let enemies: Vec<Enemy> = self.take_enemies();
        let stars: Vec<Star> = self.take_stars();
        let player_goes: bool = match self.player {
            Some(p) => listed(ids, p.id),
            None => false,
        };
        if player_goes {
            self.player = None;
        }
        self.enemies = unlisted(&enemies, ids);
        self.stars = unlisted(&stars, ids);
    }

    /// Removes the entity that carries the identity `id`. Says whether
    /// there was one; without one the registry stays as it is.
    pub fn despawn(&mut self, id: EntityId) -> (r: bool)
        ensures
            r == old(self)@.holds(id),
            final(self)@ == old(self)@.without(set![id]),
            final(self)@.wf(),
    {
        let found: bool = self.contains(id);
        let mut ids: Vec<EntityId> = Vec::new();
        ids.push(id);
        assert(ids@.to_set() =~= set![id]) by {
            assert(ids@[0] == id);
            assert forall|other: EntityId| ids@.to_set().contains(other) <==> other == id by {
                if other == id {
                    assert(ids@.contains(id));
                }
            }
        }
        self.despawn_all(&ids);
        found
    }
}

/// Removing entities keeps a world well-formed, adds no entity to it and
/// gives out no identity. What is removed are the live entities whose
/// identities are in `gone`, and no others.
pub proof fn lemma_without(w: World, gone: Set<EntityId>)
    requires
        w.wf(),
    ensures
        w.without(gone).wf(),
        w.without(gone).issued == w.issued,
        w.without(gone).enemies.len() <= w.enemies.len(),
        w.without(gone).stars.len() <= w.stars.len(),
        forall|id: EntityId| #[trigger]
            w.without(gone).holds(id) <==> w.holds(id) && !gone.contains(id),
{
    let after = w.without(gone);
    lemma_filter_identities(w.enemies, stays::<Enemy>(gone));
    lemma_filter_identities(w.stars, stays::<Star>(gone));
    assert forall|i: int| 0 <= i < after.enemies.len() implies (
    #[trigger] after.enemies[i]).direction.is_unit() by {
        assert(after.enemies.contains(after.enemies[i]));
        w.enemies.lemma_filter_contains_rev(stays::<Enemy>(gone), after.enemies[i]);
        let j = choose|j: int| 0 <= j < w.enemies.len() && w.enemies[j] == after.enemies[i];
        assert(w.enemies[j].direction.is_unit());
    }
    assert forall|id: EntityId| #[trigger] after.holds(id) <==> w.holds(id) && !gone.contains(
        id,
    ) by {
        lemma_filter_holds(w.enemies, gone, id);
        lemma_filter_holds(w.stars, gone, id);
    }
}

/// Creating an entity keeps a world well-formed and gives the entity an
/// identity that no entity carries or ever carried. Every other entity
/// lives on, and an identity whose entity was removed stays without one.
pub proof fn lemma_created(w: World, position: Position, direction: Direction)
    requires
        w.wf(),
        w.room() > 0,
        direction.is_unit(),
    ensures
        !w.holds(EntityId(w.issued as u64)) && !w.retired(EntityId(w.issued as u64)),
        w.player is None ==> w.with_new_player(position).wf(),
        w.with_new_enemy(position, direction).wf(),
        w.with_new_star(position).wf(),
        w.with_new_player(position).has_player(EntityId(w.issued as u64)),
        w.with_new_enemy(position, direction).has_enemy(EntityId(w.issued as u64)),
        w.with_new_star(position).has_star(EntityId(w.issued as u64)),
        forall|id: EntityId| #[trigger]
            w.retired(id) ==> (w.player is None ==> w.with_new_player(position).retired(id))
                && w.with_new_enemy(position, direction).retired(id) && w.with_new_star(
                position,
            ).retired(id),
{
    let id = EntityId(w.issued as u64);
    lemma_issued_identities(w.enemies, w.issued);
    lemma_issued_identities(w.stars, w.issued);
    lemma_push_identities(w.enemies, Enemy { id, position, direction });
    lemma_push_identities(w.stars, Star { id, position });
    let longer = w.with_new_enemy(position, direction).enemies;
    assert forall|i: int| 0 <= i < longer.len() implies (#[trigger] longer[i]).direction.is_unit() by {
        if i < w.enemies.len() {
            assert(w.enemies[i].direction.is_unit());
        }
    }
}

/// In a well-formed world an entity stands at one place only.
pub proof fn lemma_stands_at_one_place(w: World, id: EntityId, a: Position, b: Position)
    requires
        w.wf(),
        w.stands_at(id, a),
        w.stands_at(id, b),
    ensures
        a == b,
{
    if w.has_player(id) {
    } else if w.has_enemy(id) {
        let i = choose|i: int|
            0 <= i < w.enemies.len() && (#[trigger] w.enemies[i]).id == id && w.enemies[i].position
                == a;
        let j = choose|j: int|
            0 <= j < w.enemies.len() && (#[trigger] w.enemies[j]).id == id && w.enemies[j].position
                == b;
        assert(w.enemies[i].identity() == w.enemies[j].identity());
    } else {
        let i = choose|i: int|
            0 <= i < w.stars.len() && (#[trigger] w.stars[i]).id == id && w.stars[i].position == a;
        let j = choose|j: int|
            0 <= j < w.stars.len() && (#[trigger] w.stars[j]).id == id && w.stars[j].position == b;
        assert(w.stars[i].identity() == w.stars[j].identity());
    }
}

/// After filtering, a sequence carries an identity exactly if it carried
/// it before and the identity is not in `gone`.
proof fn lemma_filter_holds<T: Identified>(entities: Seq<T>, gone: Set<EntityId>, id: EntityId)
    ensures
        carries(entities.filter(stays(gone)), id) <==> carries(entities, id) && !gone.contains(id),
{
    let keep = stays::<T>(gone);
    let kept = entities.filter(keep);
    lemma_filter_identities(entities, keep);
    if carries(kept, id) {
        let i = choose|i: int| 0 <= i < kept.len() && (#[trigger] kept[i]).identity() == id;
        assert(keep(kept[i]));
    }
    if carries(entities, id) && !gone.contains(id) {
        let i = choose|i: int| 0 <= i < entities.len() && (#[trigger] entities[i]).identity() == id;
        assert(keep(entities[i]));
    }
}

} // verus!
