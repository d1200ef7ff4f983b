//! The server's world: every simulated body, and which body each connected
//! player steers.

use crate::cells::{Cell, EntityKind};
use crate::player::INITIAL_PLAYER_SIZE;
use crate::{NetworkedEntities, Player, PlayerInput, ServerMessages, UNIT};
use std::collections::HashMap;
use vstd::prelude::*;

verus! {

/// One body in the server's world.
#[derive(Debug, Clone, Copy, PartialEq, Eq)]
pub struct SimulationEntity {
    /// The handle of the body. No two bodies ever share one.
    pub entity: u64,
    pub kind: EntityKind,
    pub cell: Cell,
    /// The keys that steer the body; none are down for a body that nobody steers.
    pub input: PlayerInput,
    pub translation: [i64; 3],
    pub scale: [i64; 3],
}

/// Which body each connected player steers, by the player's identity.
#[derive(Debug)]
pub struct ServerLobby {
    pub players: HashMap<u64, u64>,
}

/// No key is down.
pub open spec fn idle() -> PlayerInput {
    PlayerInput { up: false, down: false, left: false, right: false }
}

/// The middle of the field, where a player's cell starts.
pub open spec fn origin() -> [i64; 3] {
    [0i64, 0i64, 0i64]
}

/// A body as it is created: nothing steers it yet, and it is drawn at its
/// natural scale.
pub open spec fn created(
    entity: u64,
    kind: EntityKind,
    size: u64,
    translation: [i64; 3],
) -> SimulationEntity {
    SimulationEntity {
        entity,
        kind,
        cell: Cell { size },
        input: idle(),
        translation,
        scale: [UNIT, UNIT, UNIT],
    }
}

/// The handle of a body, where a player steers it.
pub open spec fn movable_handle() -> spec_fn(SimulationEntity) -> Option<u64> {
    |body: SimulationEntity|
        if body.kind is Player {
            Some(body.entity)
        } else {
            None
        }
}

/// The position of a body, where a player steers it.
pub open spec fn movable_translation() -> spec_fn(SimulationEntity) -> Option<[i64; 3]> {
    |body: SimulationEntity|
        if body.kind is Player {
            Some(body.translation)
        } else {
            None
        }
}

/// The scale of a body, where a player steers it.
pub open spec fn movable_scale() -> spec_fn(SimulationEntity) -> Option<[i64; 3]> {
    |body: SimulationEntity|
        if body.kind is Player {
            Some(body.scale)
        } else {
            None
        }
}

/// The state of a registry, as mathematics.
pub struct World {
    /// The live bodies, oldest first.
    pub entities: Seq<SimulationEntity>,
    /// The lobby: a player's identity to the handle of the body it steers.
    pub lobby: Map<u64, u64>,
    /// The handle that the next body gets.
    pub next_entity: u64,
}

impl World {
    /// A world without bodies or players.
    pub open spec fn empty() -> World {
        World { entities: Seq::empty(), lobby: Map::empty(), next_entity: 0 }
    }

    /// Whether a body with this handle is live.
    pub open spec fn contains(self, entity: u64) -> bool {
        exists|i: int|
            0 <= i < self.entities.len() && (#[trigger] self.entities[i]).entity == entity
    }

    /// Where the body with this handle stands among the live bodies.
    pub open spec fn index_of(self, entity: u64) -> int {
        choose|i: int|
            0 <= i < self.entities.len() && (#[trigger] self.entities[i]).entity == entity
    }

    /// The live body with this handle.
    pub open spec fn get(self, entity: u64) -> SimulationEntity {
        self.entities[self.index_of(entity)]
    }

    /// Whether `entity` is the live cell of a player.
    pub open spec fn is_player(self, entity: u64) -> bool {
        self.contains(entity) && self.get(entity).kind is Player
    }

    /// Whether `entity` is a live cell that no player steers.
    pub open spec fn is_npc(self, entity: u64) -> bool {
        self.contains(entity) && self.get(entity).kind is Npc
    }

    /// Handles rise with age and were all handed out before `next_entity`,
    /// every cell has a size above zero, and each lobby entry names a live
    /// cell of that player.
    pub open spec fn wf(self) -> bool {
        &&& forall|i: int, j: int|
            0 <= i < j < self.entities.len() ==> (#[trigger] self.entities[i]).entity < (
            #[trigger] self.entities[j]).entity
        &&& forall|i: int|
            0 <= i < self.entities.len() ==> (#[trigger] self.entities[i]).entity
                < self.next_entity
        &&& forall|i: int|
            0 <= i < self.entities.len() ==> (#[trigger] self.entities[i]).cell.size > 0
        &&& forall|id: u64| #[trigger]
            self.lobby.contains_key(id) ==> self.contains(self.lobby[id]) && self.get(
                self.lobby[id],
            ).kind == EntityKind::Player(Player { id })
    }

    /// The world with one more body, which gets the next handle.
    pub open spec fn spawn(self, kind: EntityKind, size: u64, translation: [i64; 3]) -> World {
        World {
            entities: self.entities.push(created(self.next_entity, kind, size, translation)),
            next_entity: (self.next_entity + 1) as u64,
            ..self
        }
    }

    /// The world after the player `id` was given a new cell at the origin. The
    /// lobby then names that cell: a cell that it named before stays in the
    /// world, and nothing names it any more.
    pub open spec fn register_player(self, id: u64) -> World {
        World {
            lobby: self.lobby.insert(id, self.next_entity),
            ..self.spawn(EntityKind::Player(Player { id }), INITIAL_PLAYER_SIZE, origin())
        }
    }

    /// The lobby without the entries that name `entity`.
    pub open spec fn lobby_without(self, entity: u64) -> Map<u64, u64> {
        Map::new(
            |id: u64| self.lobby.contains_key(id) && self.lobby[id] != entity,
            |id: u64| self.lobby[id],
        )
    }

    /// The world without the body `entity`; the same world where no such body
    /// is live.
    pub open spec fn destroy(self, entity: u64) -> World {
        if self.contains(entity) {
            World {
                entities: self.entities.remove(self.index_of(entity)),
                lobby: self.lobby_without(entity),
                ..self
            }
        } else {
            self
        }
    }

    /// The world after the player `id` left: its lobby entry and the cell that
    /// the entry named are gone.
    pub open spec fn unregister_player(self, id: u64) -> World {
        if self.lobby.contains_key(id) {
            self.destroy(self.lobby[id])
        } else {
            self
        }
    }

    /// The world with `body` in place of the live body that has its handle.
    pub open spec fn put(self, body: SimulationEntity) -> World {
        World { entities: self.entities.update(self.index_of(body.entity), body), ..self }
    }

    /// The world with the cell of `entity` at another size.
    pub open spec fn resize(self, entity: u64, size: u64) -> World {
        self.put(SimulationEntity { cell: Cell { size }, ..self.get(entity) })
    }

    /// The handles of the bodies that players steer, oldest first.
    pub open spec fn movable_handles(self) -> Seq<u64> {
        self.entities.filter_map(movable_handle())
    }

    /// The positions of the bodies that players steer, oldest first.
    pub open spec fn movable_translations(self) -> Seq<[i64; 3]> {
        self.entities.filter_map(movable_translation())
    }

    /// The scales of the bodies that players steer, oldest first.
    pub open spec fn movable_scales(self) -> Seq<[i64; 3]> {
        self.entities.filter_map(movable_scale())
    }

    /// In a well-formed world a handle finds the one body that has it.
    pub proof fn lemma_index_of(self, i: int)
        requires
            self.wf(),
            0 <= i < self.entities.len(),
        ensures
            self.contains(self.entities[i].entity),
            self.index_of(self.entities[i].entity) == i,
            self.get(self.entities[i].entity) == self.entities[i],
    {
        self.lemma_index_of_sorted(i);
    }

    /// A live body stands at its index.
    pub proof fn lemma_get(self, entity: u64)
        requires
            self.wf(),
            self.contains(entity),
        ensures
            0 <= self.index_of(entity) < self.entities.len(),
            self.get(entity).entity == entity,
            self.get(entity).cell.size > 0,
            entity < self.next_entity,
    {
    }

    /// A new body leaves the others as they were.
    pub proof fn lemma_spawn(self, kind: EntityKind, size: u64, translation: [i64; 3])
        requires
            self.wf(),
            self.next_entity < u64::MAX,
            size > 0,
        ensures
            self.spawn(kind, size, translation).wf(),
            self.spawn(kind, size, translation).contains(self.next_entity),
            self.spawn(kind, size, translation).get(self.next_entity) == created(
                self.next_entity,
                kind,
                size,
                translation,
            ),
            !self.contains(self.next_entity),
            forall|e: u64| #[trigger]
                self.contains(e) ==> self.spawn(kind, size, translation).contains(e)
                    && self.spawn(kind, size, translation).get(e) == self.get(e),
            forall|e: u64| #[trigger]
                self.spawn(kind, size, translation).contains(e) ==> self.contains(e) || e
                    == self.next_entity,
    {
        let after = self.spawn(kind, size, translation);
        let n = self.entities.len() as int;
        assert(after.entities[n].entity == self.next_entity);
        assert(forall|i: int| 0 <= i < n ==> after.entities[i] == self.entities[i]);
        assert forall|e: u64| #[trigger] self.contains(e) implies after.contains(e) && after.get(e)
            == self.get(e) by {
            let i = self.index_of(e);
            assert(after.entities[i].entity == e);
            after.lemma_index_of_sorted(i);
        }
        assert forall|id: u64| #[trigger] after.lobby.contains_key(id) implies after.contains(
            after.lobby[id],
        ) && after.get(after.lobby[id]).kind == EntityKind::Player(Player { id }) by {
            assert(self.lobby.contains_key(id));
            assert(self.contains(self.lobby[id]));
        }
        after.lemma_index_of_sorted(n);
        assert forall|e: u64| #[trigger] after.contains(e) implies self.contains(e) || e
            == self.next_entity by {
            let i = after.index_of(e);
            if i < n {
                assert(self.entities[i].entity == e);
            }
        }
    }

    /// Where handles rise with age, a handle finds the one body that has it.
    pub proof fn lemma_index_of_sorted(self, i: int)
        requires
            forall|i: int, j: int|
                0 <= i < j < self.entities.len() ==> (#[trigger] self.entities[i]).entity < (
                #[trigger] self.entities[j]).entity,
            0 <= i < self.entities.len(),
        ensures
            self.contains(self.entities[i].entity),
            self.index_of(self.entities[i].entity) == i,
            self.get(self.entities[i].entity) == self.entities[i],
    {
        let entity = self.entities[i].entity;
        let j = self.index_of(entity);
        assert(self.entities[j].entity == entity);
        if j < i {
            assert(self.entities[j].entity < self.entities[i].entity);
        } else if i < j {
            assert(self.entities[i].entity < self.entities[j].entity);
        }
    }

    /// Registering a player keeps the world well-formed.
    pub proof fn lemma_register_player(self, id: u64)
        requires
            self.wf(),
            self.next_entity < u64::MAX,
        ensures
            self.register_player(id).wf(),
    {
        let kind = EntityKind::Player(Player { id });
        self.lemma_spawn(kind, INITIAL_PLAYER_SIZE, origin());
        let spawned = self.spawn(kind, INITIAL_PLAYER_SIZE, origin());
        let after = self.register_player(id);
        assert(after.entities == spawned.entities);
        assert forall|other: u64| #[trigger] after.lobby.contains_key(other) implies after.contains(
            after.lobby[other],
        ) && after.get(after.lobby[other]).kind == EntityKind::Player(Player { id: other }) by {
            if other != id {
                assert(self.lobby.contains_key(other));
                assert(spawned.contains(self.lobby[other]));
                assert(after.contains(self.lobby[other]) == spawned.contains(self.lobby[other]));
                assert(after.get(self.lobby[other]) == spawned.get(self.lobby[other]));
            } else {
                assert(after.contains(self.next_entity) == spawned.contains(self.next_entity));
                assert(after.get(self.next_entity) == spawned.get(self.next_entity));
            }
        }
    }

    /// Destroying a body leaves the others as they were, and keeps the world
    /// well-formed.
    pub proof fn lemma_destroy(self, entity: u64)
        requires
            self.wf(),
        ensures
            self.destroy(entity).wf(),
            !self.destroy(entity).contains(entity),
            forall|e: u64|
                e != entity ==> (#[trigger] self.destroy(entity).contains(e)) == self.contains(e),
            forall|e: u64|
                e != entity && self.contains(e) ==> (#[trigger] self.destroy(entity).get(e))
                    == self.get(e),
            forall|id: u64| #[trigger]
                self.destroy(entity).lobby.contains_key(id) ==> self.lobby.contains_key(id)
                    && self.destroy(entity).lobby[id] == self.lobby[id] && self.lobby[id] != entity,
    {
        if self.contains(entity) {
            let k = self.index_of(entity);
            let after = self.destroy(entity);
            assert(forall|i: int| 0 <= i < k ==> after.entities[i] == self.entities[i]);
            assert(forall|i: int|
                k <= i < after.entities.len() ==> after.entities[i] == self.entities[i + 1]);
            assert forall|i: int, j: int| 0 <= i < j < after.entities.len() implies (
            #[trigger] after.entities[i]).entity < (#[trigger] after.entities[j]).entity by {
                let a = if i < k {
                    i
                } else {
                    i + 1
                };
                let b = if j < k {
                    j
                } else {
                    j + 1
                };
                assert(self.entities[a].entity < self.entities[b].entity);
            }
            assert forall|e: u64| e != entity && self.contains(e) implies after.contains(e)
                && (#[trigger] after.get(e)) == self.get(e) by {
                let i = self.index_of(e);
                let a = if i < k {
                    i
                } else {
                    i - 1
                };
                assert(after.entities[a] == self.entities[i]);
                after.lemma_index_of_sorted(a);
            }
            assert forall|e: u64| e != entity && self.contains(e) implies (
            #[trigger] after.contains(e)) by {
                assert(after.get(e) == self.get(e));
            }
            assert forall|e: u64| #[trigger] after.contains(e) implies self.contains(e) && e
                != entity by {
                let a = after.index_of(e);
                let i = if a < k {
                    a
                } else {
                    a + 1
                };
                assert(self.entities[i].entity == e);
                self.lemma_index_of(i);
            }
            assert forall|id: u64| #[trigger] after.lobby.contains_key(id) implies after.contains(
                after.lobby[id],
            ) && after.get(after.lobby[id]).kind == EntityKind::Player(Player { id }) by {
                assert(self.lobby.contains_key(id));
                assert(self.contains(self.lobby[id]));
                assert(after.contains(self.lobby[id]));
            }
        } else {
            assert(self.lobby_without(entity) =~= self.lobby) by {
                assert forall|id: u64| self.lobby.contains_key(id) implies self.lobby[id]
                    != entity by {
                    assert(self.contains(self.lobby[id]));
                }
            }
        }
    }

    /// Putting a body of the same kind in the place of a live one leaves the
    /// others as they were, and keeps the world well-formed.
    pub proof fn lemma_put(self, body: SimulationEntity)
        requires
            self.wf(),
            self.contains(body.entity),
            body.kind == self.get(body.entity).kind,
            body.cell.size > 0,
        ensures
            self.put(body).wf(),
            self.put(body).get(body.entity) == body,
            forall|e: u64| (#[trigger] self.put(body).contains(e)) == self.contains(e),
            forall|e: u64|
                e != body.entity && self.contains(e) ==> (#[trigger] self.put(body).get(e))
                    == self.get(e),
    {
        let k = self.index_of(body.entity);
        let after = self.put(body);
        assert forall|i: int, j: int| 0 <= i < j < after.entities.len() implies (
        #[trigger] after.entities[i]).entity < (#[trigger] after.entities[j]).entity by {
            assert(self.entities[i].entity < self.entities[j].entity);
        }
        after.lemma_index_of_sorted(k);
        assert forall|e: u64| self.contains(e) implies after.contains(e) && (e != body.entity ==> (
        #[trigger] after.get(e)) == self.get(e)) by {
            let i = self.index_of(e);
            assert(after.entities[i].entity == e);
            after.lemma_index_of_sorted(i);
        }
        assert forall|e: u64| self.contains(e) implies (#[trigger] after.contains(e)) by {
            assert(after.get(e) == after.get(e));
            let i = self.index_of(e);
            assert(after.entities[i].entity == e);
        }
        assert forall|e: u64| #[trigger] after.contains(e) implies self.contains(e) by {
            let i = after.index_of(e);
            assert(self.entities[i].entity == e);
        }
        assert forall|id: u64| #[trigger] after.lobby.contains_key(id) implies after.contains(
            after.lobby[id],
        ) && after.get(after.lobby[id]).kind == EntityKind::Player(Player { id }) by {
            assert(self.contains(self.lobby[id]));
            assert(after.contains(self.lobby[id]));
        }
    }
}

/// The server's world: the live bodies, oldest first, and the lobby.
#[derive(Debug)]
pub struct Registry {
    entities: Vec<SimulationEntity>,
    lobby: ServerLobby,
    next_entity: u64,
}

impl View for Registry {
    type V = World;

    closed spec fn view(&self) -> World {
        World {
            entities: self.entities@,
            lobby: self.lobby.players@,
            next_entity: self.next_entity,
        }
    }
}

impl Registry {
    pub open spec fn wf(&self) -> bool {
        self@.wf()
    }

    /// A world without bodies or players.
    pub fn new() -> (registry: Self)
        ensures
            registry.wf(),
            registry@ == World::empty(),
    {
        Registry {
            entities: Vec::new(),
            lobby: ServerLobby { players: HashMap::new() },
            next_entity: 0,
        }
    }

    /// How many bodies are live.
    pub fn len(&self) -> (n: usize)
        ensures
            n == self@.entities.len(),
    {
        self.entities.len()
    }

    /// The `i`-th oldest live body.
    pub fn entity_at(&self, i: usize) -> (body: SimulationEntity)
        requires
            i < self@.entities.len(),
        ensures
            body == self@.entities[i as int],
    {
        self.entities[i]
    }

    /// Whether another body can be created: handles are never used twice, and
    /// there are no more than a `u64` can count.
    pub fn has_room(&self) -> (room: bool)
        ensures
            room == (self@.next_entity < u64::MAX),
    {
        self.next_entity < u64::MAX
    }

    /// How many more bodies can be created.
    pub fn room(&self) -> (room: u64)
        ensures
            room == u64::MAX - self@.next_entity,
    {
        u64::MAX - self.next_entity
    }

    /// Where the body `entity` stands among the live bodies, oldest first.
    pub fn find(&self, entity: u64) -> (index: Option<usize>)
        requires
            self.wf(),
        ensures
            match index {
                Some(i) => self@.contains(entity) && i == self@.index_of(entity),
                None => !self@.contains(entity),
            },
    {
        let mut i: usize = 0;
        while i < self.entities.len()
            invariant
                self.wf(),
                i <= self@.entities.len(),
                forall|j: int| 0 <= j < i ==> (#[trigger] self@.entities[j]).entity != entity,
            decreases self@.entities.len() - i,
        {
            if self.entities[i].entity == entity {
                proof {
                    self@.lemma_index_of(i as int);
                }
                return Some(i);
            }
            i = i + 1;
        }
        None
    }

    /// The live body `entity`.
    pub fn get(&self, entity: u64) -> (body: Option<SimulationEntity>)
        requires
            self.wf(),
        ensures
            body == if self@.contains(entity) {
                Some(self@.get(entity))
            } else {
                None
            },
    {
        match self.find(entity) {
            Some(i) => Some(self.entities[i]),
            None => None,
        }
    }

    /// The body that the player `id` steers.
    pub fn entity_for(&self, id: u64) -> (entity: Option<u64>)
        ensures
            entity == if self@.lobby.contains_key(id) {
                Some(self@.lobby[id])
            } else {
                None
            },
    {
        match self.lobby.players.get(&id) {
            Some(entity) => Some(*entity),
            None => None,
        }
    }

    /// Creates a body and returns its handle, which no body had before.
    pub fn spawn(&mut self, kind: EntityKind, size: u64, translation: [i64; 3]) -> (entity: u64)
        requires
            old(self).wf(),
            old(self)@.next_entity < u64::MAX,
            size > 0,
        ensures
            final(self).wf(),
            final(self)@ == old(self)@.spawn(kind, size, translation),
            entity == old(self)@.next_entity,
    {
        let entity = self.next_entity;
        proof {
            self@.lemma_spawn(kind, size, translation);
        }
        self.entities.push(
            SimulationEntity {
                entity,
                kind,
                cell: Cell { size },
                input: PlayerInput { up: false, down: false, left: false, right: false },
                translation,
                scale: [UNIT, UNIT, UNIT],
            },
        );
        self.next_entity = self.next_entity + 1;
        entity
    }

    /// Gives the player `id` a new cell at the origin and enters it in the
    /// lobby, in place of what the lobby had for that player.
    pub fn register_player(&mut self, id: u64) -> (entity: u64)
        requires
            old(self).wf(),
            old(self)@.next_entity < u64::MAX,
        ensures
            final(self).wf(),
            final(self)@ == old(self)@.register_player(id),
            entity == old(self)@.next_entity,
    {
        proof {
            self@.lemma_register_player(id);
        }
        let entity = self.spawn(EntityKind::Player(Player { id }), INITIAL_PLAYER_SIZE, [0, 0, 0]);
        self.lobby.players.insert(id, entity);
        entity
    }

    /// Destroys the body `entity` and the lobby entry that names it, and
    /// returns the notice that clients are owed; `None` where no such body is
    /// live.
    pub fn destroy(&mut self, entity: u64) -> (notice: Option<ServerMessages>)
        requires
            old(self).wf(),
        ensures
            final(self).wf(),
            final(self)@ == old(self)@.destroy(entity),
            notice == if old(self)@.contains(entity) {
                Some(ServerMessages::DespawnEntity { entity })
            } else {
                None
            },
    {
        proof {
            self@.lemma_destroy(entity);
        }
        match self.find(entity) {
            Some(i) => {
                let body = self.entities.remove(i);
                match body.kind {
                    EntityKind::Player(player) => {
                        let named = match self.lobby.players.get(&player.id) {
                            Some(steered) => *steered == entity,
                            None => false,
                        };
                        if named {
                            self.lobby.players.remove(&player.id);
                        }
                    },
                    EntityKind::Npc(_) => {},
                }
                proof {
                    let before = old(self)@;
                    assert forall|id: u64|
                        before.lobby.contains_key(id) && before.lobby[id] == entity implies id
                        == body.kind->Player_0.id && body.kind is Player by {
                        assert(before.contains(before.lobby[id]));
                    }
                    assert(self@.lobby =~= before.lobby_without(entity));
                }
                Some(ServerMessages::DespawnEntity { entity })
            },
            None => None,
        }
    }

    /// Takes the player `id` out of the lobby and destroys the cell that the
    /// lobby named, whose handle it returns; `None`, and nothing changes,
    /// where the lobby does not know the player.
    pub fn unregister_player(&mut self, id: u64) -> (entity: Option<u64>)
        requires
            old(self).wf(),
        ensures
            final(self).wf(),
            final(self)@ == old(self)@.unregister_player(id),
            entity == if old(self)@.lobby.contains_key(id) {
                Some(old(self)@.lobby[id])
            } else {
                None
            },
    {
        match self.entity_for(id) {
            Some(entity) => {
                self.destroy(entity);
                Some(entity)
            },
            None => None,
        }
    }

    /// Puts `body` in the place of the `i`-th oldest live body, which has its
    /// handle.
    pub fn replace_at(&mut self, i: usize, body: SimulationEntity)
        requires
            old(self).wf(),
            i < old(self)@.entities.len(),
            body.entity == old(self)@.entities[i as int].entity,
            body.kind == old(self)@.entities[i as int].kind,
            body.cell.size > 0,
        ensures
            final(self).wf(),
            final(self)@ == old(self)@.put(body),
            final(self)@ == (World {
                entities: old(self)@.entities.update(i as int, body),
                ..old(self)@
            }),
    {
        proof {
            self@.lemma_index_of(i as int);
            self@.lemma_put(body);
        }
        self.entities.set(i, body);
    }

    /// Puts `body` in the place of the live body that has its handle.
    pub fn put(&mut self, body: SimulationEntity)
        requires
            old(self).wf(),
            old(self)@.contains(body.entity),
            body.kind == old(self)@.get(body.entity).kind,
            body.cell.size > 0,
        ensures
            final(self).wf(),
            final(self)@ == old(self)@.put(body),
    {
        match self.find(body.entity) {
            Some(i) => {
                self.replace_at(i, body);
            },
            None => {},
        }
    }

    /// One snapshot of every body that a player steers, oldest first.
    pub fn all_movable_entities(&self) -> (snapshot: NetworkedEntities)
        ensures
            snapshot.wf(),
            snapshot.entities@ == self@.movable_handles(),
            snapshot.translations@ == self@.movable_translations(),
            snapshot.scalings@ == self@.movable_scales(),
    {
        let mut snapshot = NetworkedEntities::new();
        let mut i: usize = 0;
        while i < self.entities.len()
            invariant
                i <= self@.entities.len(),
                snapshot.wf(),
                snapshot.entities@ == self@.entities.take(i as int).filter_map(movable_handle()),
                snapshot.translations@ == self@.entities.take(i as int).filter_map(
                    movable_translation(),
                ),
                snapshot.scalings@ == self@.entities.take(i as int).filter_map(movable_scale()),
            decreases self@.entities.len() - i,
        {
            let body = self.entities[i];
            proof {
                self@.entities.lemma_filter_map_take_succ(movable_handle(), i as int);
                self@.entities.lemma_filter_map_take_succ(movable_translation(), i as int);
                self@.entities.lemma_filter_map_take_succ(movable_scale(), i as int);
            }
            match body.kind {
                EntityKind::Player(_) => {
                    snapshot.push(body.entity, body.translation, body.scale);
                },
                EntityKind::Npc(_) => {},
            }
            i = i + 1;
        }
        assert(self@.entities.take(i as int) == self@.entities);
        snapshot
    }
}

impl Default for Registry {
    fn default() -> (registry: Self)
        ensures
            registry.wf(),
            registry@ == World::empty(),
    {
        Registry::new()
    }
}

} // verus!
