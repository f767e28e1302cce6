//! The entity table: one record per live entity, each an open set of
//! components, and the queues of pending intents.

use vstd::prelude::*;
use crate::components::{
    Entity, Renderable, Player, Enemy, Stats, RandomMovement, TargetedMovement, WantsToMove,
    WantsToAttack, WantsToMine, Name, MineRange,
};
use crate::geometry::Point;

verus! {

/// The components of one entity; a component it lacks is `None`.
#[derive(Clone, Debug)]
pub struct EntityRecord {
    pub entity: Entity,
    pub position: Option<Point>,
    pub name: Option<Name>,
    pub renderable: Option<Renderable>,
    pub stats: Option<Stats>,
    pub player: Option<Player>,
    pub enemy: Option<Enemy>,
    pub random_movement: Option<RandomMovement>,
    pub targeted_movement: Option<TargetedMovement>,
    pub mine_range: Option<MineRange>,
}

/// The live entities, in the order they were spawned.
pub struct World {
    pub entities: Vec<EntityRecord>,
    pub next_id: u64,
}

/// Intents issued this tick and not yet resolved, one queue per kind.
pub struct Intents {
    pub moves: Vec<WantsToMove>,
    pub attacks: Vec<WantsToAttack>,
    pub mines: Vec<WantsToMine>,
}

/// The position of the first record of `e`, if any.
pub open spec fn lookup(ents: Seq<EntityRecord>, e: Entity) -> Option<int> {
    if exists|i: int| 0 <= i < ents.len() && ents[i].entity == e {
        Some(
            choose|i: int|
                0 <= i < ents.len() && ents[i].entity == e && forall|j: int|
                    0 <= j < i ==> ents[j].entity != e,
        )
    } else {
        None
    }
}

/// The view of a display name; the empty string where there is none.
pub open spec fn name_of(r: EntityRecord) -> Seq<char> {
    match r.name {
        Some(n) => n.0@,
        None => Seq::empty(),
    }
}

impl World {
    /// Every identifier in use is below `next_id`, and no two records share one.
    pub open spec fn wf(&self) -> bool {
        &&& forall|i: int| 0 <= i < self.entities@.len() ==> (#[trigger] self.entities@[i]).entity.0 < self.next_id
        &&& forall|i: int, j: int|
            0 <= i < j < self.entities@.len() ==> (#[trigger] self.entities@[i]).entity != (
            #[trigger] self.entities@[j]).entity
    }

    pub fn new() -> (r: World)
        ensures
            r.wf(),
            r.entities@ == Seq::<EntityRecord>::empty(),
            r.next_id == 0,
    {
        World { entities: Vec::new(), next_id: 0 }
    }

    /// Adds a record under a fresh identifier, which it returns.
    pub fn push(&mut self, record: EntityRecord) -> (r: Entity)
        requires
            old(self).wf(),
            old(self).next_id < u64::MAX,
        ensures
            final(self).wf(),
            r == Entity(old(self).next_id),
            final(self).next_id == old(self).next_id + 1,
            final(self).entities@ == old(self).entities@.push(EntityRecord { entity: r, ..record }),
    {
        let e = Entity(self.next_id);
        let mut record = record;
        record.entity = e;
        self.entities.push(record);
        self.next_id = self.next_id + 1;
        e
    }

    /// The position of the first record of `e`.
    pub fn find(&self, e: Entity) -> (r: Option<usize>)
        ensures
            r is None <==> lookup(self.entities@, e) is None,
            r matches Some(i) ==> lookup(self.entities@, e) == Some(i as int) && i < self.entities@.len()
                && self.entities@[i as int].entity == e,
    {
        let mut i: usize = 0;
        while i < self.entities.len()
            invariant
                0 <= i <= self.entities@.len(),
                forall|j: int| 0 <= j < i ==> self.entities@[j].entity != e,
            decreases self.entities@.len() - i,
        {
            if self.entities[i].entity == e {
                proof {
                    let ents = self.entities@;
                    let k = choose|k: int|
                        0 <= k < ents.len() && ents[k].entity == e && forall|j: int|
                            0 <= j < k ==> ents[j].entity != e;
                    assert(k == i as int) by {
                        if k < i {
                        } else if k > i {
                            assert(ents[i as int].entity == e);
                        }
                    }
                }
                return Some(i);
            }
            i += 1;
        }
        None
    }
}

impl Intents {
    pub fn new() -> (r: Intents)
        ensures
            r.moves@.len() == 0,
            r.attacks@.len() == 0,
            r.mines@.len() == 0,
    {
        Intents { moves: Vec::new(), attacks: Vec::new(), mines: Vec::new() }
    }
}

} // verus!
