//! Identities: what tells one entity from another, and what holds of
//! sequences of entities that carry them.

use vstd::prelude::*;

verus! {

/// The identity of an entity. The registry gives every entity that it
/// creates an identity of its own and never gives the same one twice.
#[derive(Clone, Copy, Debug, PartialEq, Eq, Hash, Structural)]
pub struct EntityId(pub u64);

/// What carries an identity.
pub trait Identified {
    /// The identity that the entity carries.
    spec fn identity(&self) -> EntityId;

    /// Reads the identity.
    fn id(&self) -> (id: EntityId)
        ensures
            id == self.identity(),
    ;
}

/// Whether some entity of the sequence carries the identity `id`.
pub open spec fn carries<T: Identified>(entities: Seq<T>, id: EntityId) -> bool {
    exists|i: int| 0 <= i < entities.len() && (#[trigger] entities[i]).identity() == id
}

/// Whether no two entities of the sequence carry the same identity.
pub open spec fn distinct<T: Identified>(entities: Seq<T>) -> bool {
    forall|i: int, j: int|
        0 <= i < j < entities.len() ==> (#[trigger] entities[i]).identity() != (
        #[trigger] entities[j]).identity()
}

/// Whether every identity in the sequence is among the first `issued`.
pub open spec fn all_issued<T: Identified>(entities: Seq<T>, issued: nat) -> bool {
    forall|i: int| 0 <= i < entities.len() ==> (#[trigger] entities[i]).identity().0 < issued
}

/// The test that keeps an entity unless its identity is in `gone`.
pub open spec fn stays<T: Identified>(gone: Set<EntityId>) -> spec_fn(T) -> bool {
    |e: T| !gone.contains(e.identity())
}

/// Appending an entity adds its identity and no other. Identities that were
/// distinct stay so if the new one was not carried before.
pub proof fn lemma_push_identities<T: Identified>(entities: Seq<T>, entity: T)
    ensures
        forall|id: EntityId| #[trigger]
            carries(entities.push(entity), id) <==> carries(entities, id) || entity.identity()
                == id,
        forall|n: nat| #[trigger]
            all_issued(entities.push(entity), n) <==> all_issued(entities, n)
                && entity.identity().0 < n,
        distinct(entities) && !carries(entities, entity.identity()) ==> distinct(
            entities.push(entity),
        ),
{
    let longer = entities.push(entity);
    assert forall|id: EntityId| #[trigger] carries(longer, id) <==> carries(entities, id)
        || entity.identity() == id by {
        if carries(longer, id) {
            let i = choose|i: int| 0 <= i < longer.len() && (#[trigger] longer[i]).identity() == id;
            if i < entities.len() {
                assert(entities[i] == longer[i]);
            }
        }
        if carries(entities, id) {
            let i = choose|i: int|
                0 <= i < entities.len() && (#[trigger] entities[i]).identity() == id;
            assert(longer[i] == entities[i]);
        }
        if entity.identity() == id {
            assert(longer[longer.len() - 1] == entity);
        }
    }
    assert forall|n: nat| #[trigger] all_issued(longer, n) <==> all_issued(entities, n)
        && entity.identity().0 < n by {
        if all_issued(longer, n) {
            assert(longer[longer.len() - 1] == entity);
            assert forall|i: int| 0 <= i < entities.len() implies (
            #[trigger] entities[i]).identity().0 < n by {
                assert(longer[i] == entities[i]);
            }
        }
        if all_issued(entities, n) && entity.identity().0 < n {
            assert forall|i: int| 0 <= i < longer.len() implies (#[trigger] longer[i]).identity().0
                < n by {
                if i < entities.len() {
                    assert(longer[i] == entities[i]);
                }
            }
        }
    }
    if distinct(entities) && !carries(entities, entity.identity()) {
        assert forall|i: int, j: int| 0 <= i < j < longer.len() implies (
        #[trigger] longer[i]).identity() != (#[trigger] longer[j]).identity() by {
            assert(longer[i] == entities[i]);
            if j < entities.len() {
                assert(longer[j] == entities[j]);
            }
        }
    }
}

/// Replacing an entity by one of the same identity changes nothing about
/// the identities of the sequence.
pub proof fn lemma_update_identities<T: Identified>(entities: Seq<T>, index: int, entity: T)
    requires
        0 <= index < entities.len(),
        entity.identity() == entities[index].identity(),
    ensures
        forall|id: EntityId| #[trigger]
            carries(entities.update(index, entity), id) <==> carries(entities, id),
        forall|n: nat| #[trigger]
            all_issued(entities.update(index, entity), n) <==> all_issued(entities, n),
        distinct(entities.update(index, entity)) <==> distinct(entities),
{
    lemma_same_identities(entities.update(index, entity), entities);
}

/// Two sequences that carry the same identities place by place agree on
/// everything that is said of identities.
pub proof fn lemma_same_identities<T: Identified>(a: Seq<T>, b: Seq<T>)
    requires
        a.len() == b.len(),
        forall|i: int| 0 <= i < a.len() ==> (#[trigger] a[i]).identity() == b[i].identity(),
    ensures
        forall|id: EntityId| #[trigger] carries(a, id) <==> carries(b, id),
        forall|n: nat| #[trigger] all_issued(a, n) <==> all_issued(b, n),
        distinct(a) <==> distinct(b),
{
    assert forall|i: int| 0 <= i < b.len() implies (#[trigger] b[i]).identity()
        == a[i].identity() by {}
    assert forall|id: EntityId| #[trigger] carries(a, id) <==> carries(b, id) by {
        if carries(a, id) {
            let i = choose|i: int| 0 <= i < a.len() && (#[trigger] a[i]).identity() == id;
            assert(b[i].identity() == id);
        }
        if carries(b, id) {
            let i = choose|i: int| 0 <= i < b.len() && (#[trigger] b[i]).identity() == id;
            assert(a[i].identity() == id);
        }
    }
    assert forall|n: nat| #[trigger] all_issued(a, n) <==> all_issued(b, n) by {
        if all_issued(a, n) {
            assert forall|i: int| 0 <= i < b.len() implies (#[trigger] b[i]).identity().0 < n by {
                assert(a[i].identity().0 < n);
            }
        }
        if all_issued(b, n) {
            assert forall|i: int| 0 <= i < a.len() implies (#[trigger] a[i]).identity().0 < n by {
                assert(b[i].identity().0 < n);
            }
        }
    }
    if distinct(a) {
        assert forall|i: int, j: int| 0 <= i < j < b.len() implies (#[trigger] b[i]).identity() != (
        #[trigger] b[j]).identity() by {
            assert(a[i].identity() != a[j].identity());
        }
    }
    if distinct(b) {
        assert forall|i: int, j: int| 0 <= i < j < a.len() implies (#[trigger] a[i]).identity() != (
        #[trigger] a[j]).identity() by {
            assert(b[i].identity() != b[j].identity());
        }
    }
}

/// A test that every entity passes filters nothing out.
pub proof fn lemma_filter_keeps_all<T>(entities: Seq<T>, keep: spec_fn(T) -> bool)
    requires
        forall|i: int| 0 <= i < entities.len() ==> keep(#[trigger] entities[i]),
    ensures
        entities.filter(keep) == entities,
    decreases entities.len(),
{
    if entities.len() == 0 {
        reveal(Seq::filter);
        assert(entities.filter(keep) =~= entities);
    } else {
        let front = entities.drop_last();
        assert(entities =~= front.push(entities.last()));
        front.lemma_filter_push(entities.last(), keep);
        assert forall|i: int| 0 <= i < front.len() implies keep(#[trigger] front[i]) by {
            assert(front[i] == entities[i]);
        }
        lemma_filter_keeps_all(front, keep);
    }
}

/// An identity that was not given out yet is carried by no entity, and
/// what was given out stays given out.
pub proof fn lemma_issued_identities<T: Identified>(entities: Seq<T>, issued: nat)
    requires
        all_issued(entities, issued),
    ensures
        forall|id: EntityId| id.0 >= issued ==> !(#[trigger] carries(entities, id)),
        forall|n: nat| n >= issued ==> #[trigger] all_issued(entities, n),
{
    assert forall|id: EntityId| id.0 >= issued implies !(#[trigger] carries(entities, id)) by {
        if carries(entities, id) {
            let i = choose|i: int|
                0 <= i < entities.len() && (#[trigger] entities[i]).identity() == id;
        }
    }
}

/// Filtering a sequence adds no identity to it, keeps identities distinct
/// where they were, and keeps exactly the entities that pass the test.
pub proof fn lemma_filter_identities<T: Identified>(entities: Seq<T>, keep: spec_fn(T) -> bool)
    ensures
        entities.filter(keep).len() <= entities.len(),
        forall|id: EntityId| #[trigger]
            carries(entities.filter(keep), id) ==> carries(entities, id),
        forall|i: int|
            0 <= i < entities.len() && keep(entities[i]) ==> carries(
                entities.filter(keep),
                (#[trigger] entities[i]).identity(),
            ),
        forall|i: int|
            0 <= i < entities.filter(keep).len() ==> keep(#[trigger] entities.filter(keep)[i]),
        forall|n: nat| #[trigger] all_issued(entities, n) ==> all_issued(entities.filter(keep), n),
        distinct(entities) ==> distinct(entities.filter(keep)),
    decreases entities.len(),
{
    let kept = entities.filter(keep);
    if entities.len() == 0 {
        reveal(Seq::filter);
        assert(kept =~= entities);
    } else {
        let front = entities.drop_last();
        let last = entities.last();
        assert(entities =~= front.push(last));
        front.lemma_filter_push(last, keep);
        lemma_filter_identities(front, keep);
        let front_kept = front.filter(keep);
        assert forall|id: EntityId| #[trigger] carries(kept, id) implies carries(entities, id) by {
            let i = choose|i: int| 0 <= i < kept.len() && (#[trigger] kept[i]).identity() == id;
            if i < front_kept.len() {
                assert(front_kept[i] == kept[i]);
                assert(carries(front_kept, id));
                let j = choose|j: int|
                    0 <= j < front.len() && (#[trigger] front[j]).identity() == id;
                assert(entities[j] == front[j]);
            } else {
                assert(kept[i] == entities[entities.len() - 1]);
            }
        }
        assert forall|i: int| 0 <= i < entities.len() && keep(entities[i]) implies carries(
            kept,
            (#[trigger] entities[i]).identity(),
        ) by {
            if i < front.len() {
                assert(front[i] == entities[i]);
                let id = front[i].identity();
                assert(carries(front_kept, id));
                let j = choose|j: int|
                    0 <= j < front_kept.len() && (#[trigger] front_kept[j]).identity() == id;
                assert(kept[j] == front_kept[j]);
            } else {
                assert(kept[kept.len() - 1] == last);
            }
        }
        assert forall|i: int| 0 <= i < kept.len() implies keep(#[trigger] kept[i]) by {
            if i < front_kept.len() {
                assert(kept[i] == front_kept[i]);
            }
        }
        assert forall|n: nat| #[trigger] all_issued(entities, n) implies all_issued(kept, n) by {
            assert forall|i: int| 0 <= i < kept.len() implies (#[trigger] kept[i]).identity().0
                < n by {
                assert(carries(kept, kept[i].identity()));
                let j = choose|j: int|
                    0 <= j < entities.len() && (#[trigger] entities[j]).identity()
                        == kept[i].identity();
            }
        }
        if distinct(entities) {
            assert(distinct(front)) by {
                assert forall|i: int, j: int| 0 <= i < j < front.len() implies (
                #[trigger] front[i]).identity() != (#[trigger] front[j]).identity() by {
                    assert(front[i] == entities[i] && front[j] == entities[j]);
                }
            }
            assert forall|i: int, j: int| 0 <= i < j < kept.len() implies (
            #[trigger] kept[i]).identity() != (#[trigger] kept[j]).identity() by {
                if j < front_kept.len() {
                    assert(kept[i] == front_kept[i] && kept[j] == front_kept[j]);
                } else {
                    assert(kept[i] == front_kept[i]);
                    assert(carries(front_kept, kept[i].identity()));
                    let k = choose|k: int|
                        0 <= k < front.len() && (#[trigger] front[k]).identity()
                            == kept[i].identity();
                    assert(entities[k] == front[k]);
                    assert(kept[j] == entities[entities.len() - 1]);
                }
            }
        }
    }
}

/// Tests whether `id` is one of `ids`.
pub fn listed(ids: &Vec<EntityId>, id: EntityId) -> (r: bool)
    ensures
        r == ids@.to_set().contains(id),
{
    let mut i: usize = 0;
    while i < ids.len()
        invariant
            i <= ids.len(),
            forall|j: int| 0 <= j < i ==> ids@[j] != id,
        decreases ids.len() - i,
    {
        if ids[i] == id {
            assert(ids@.contains(id));
            return true;
        }
        i += 1;
    }
    false
}

/// Tests whether one of `entities` carries the identity `id`.
pub fn find<T: Identified>(entities: &Vec<T>, id: EntityId) -> (r: bool)
    ensures
        r == carries(entities@, id),
{
    let mut i: usize = 0;
    while i < entities.len()
        invariant
            i <= entities.len(),
            forall|j: int| 0 <= j < i ==> (#[trigger] entities@[j]).identity() != id,
        decreases entities.len() - i,
    {
        if entities[i].id() == id {
            return true;
        }
        i += 1;
    }
    false
}

/// The entities whose identity is not one of `ids`, in their order.
pub fn unlisted<T: Identified + Copy>(entities: &Vec<T>, ids: &Vec<EntityId>) -> (kept: Vec<T>)
    ensures
        kept@ == entities@.filter(stays(ids@.to_set())),
{
    let ghost keep = stays::<T>(ids@.to_set());
    let mut kept: Vec<T> = Vec::new();
    let mut i: usize = 0;
    proof {
        reveal(Seq::filter);
        assert(entities@.take(0).filter(keep) =~= Seq::<T>::empty());
    }
    while i < entities.len()
        invariant
            i <= entities.len(),
            keep == stays::<T>(ids@.to_set()),
            kept@ == entities@.take(i as int).filter(keep),
        decreases entities.len() - i,
    {
        let entity: T = entities[i];
        proof {
            entities@.take(i as int).lemma_filter_push(entity, keep);
            assert(entities@.take(i as int).push(entity) =~= entities@.take(i + 1));
        }
        if !listed(ids, entity.id()) {
            kept.push(entity);
        }
        i += 1;
    }
    assert(entities@.take(entities@.len() as int) =~= entities@);
    kept
}

} // verus!
