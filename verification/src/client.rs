//! The client's side: a local scene rebuilt from what the server sends.

use crate::cells::{Cell, EntityKind, NpcCell};
use crate::player::INITIAL_PLAYER_SIZE;
use crate::{GameState, NetworkedEntities, Player, ServerMessages, UNIT};
use std::collections::HashMap;
use vstd::prelude::*;

verus! {

/// The two handles of one player: the server's and this client's.
#[derive(Debug, Clone, Copy, PartialEq, Eq)]
pub struct PlayerInfo {
    pub client_entity: u64,
    pub server_entity: u64,
}

/// The players that this client has been told of, by identity.
#[derive(Debug)]
pub struct ClientLobby {
    pub players: HashMap<u64, PlayerInfo>,
}

/// The client's own copy of one simulated body.
#[derive(Debug, Clone, Copy, PartialEq, Eq)]
pub struct LocalEntity {
    /// The handle that this client gave the copy.
    pub entity: u64,
    pub kind: EntityKind,
    pub cell: Cell,
    pub translation: [i64; 3],
    pub scale: [i64; 3],
}

/// One change to the local scene, for whoever draws it. Handles are local.
#[derive(Debug, Clone, Copy, PartialEq, Eq)]
pub enum SceneChange {
    Spawned { local: LocalEntity, controlled: bool },
    Despawned { entity: u64 },
    Resized { entity: u64, size: u64 },
    Moved { entity: u64, translation: [i64; 3], scale: [i64; 3] },
    ReturnedToMenu,
}

/// A snapshot with the number that the transport gave it: later snapshots
/// have higher numbers.
#[derive(Debug, Clone, PartialEq, Eq)]
pub struct SequencedSnapshot {
    pub sequence: u64,
    pub snapshot: NetworkedEntities,
}

/// The scale of a body that was just created.
pub open spec fn unit_scale() -> [i64; 3] {
    [UNIT, UNIT, UNIT]
}

/// Where a client puts a cell of the given size that no player steers: at the
/// announced place on the ground plane, sunk by half its size.
pub open spec fn npc_translation(translation: [i64; 3], size: u64) -> [i64; 3] {
    [translation[0], (-(size / 2)) as i64, translation[2]]
}

/// The state of a reconciler, as mathematics.
pub struct Scene {
    /// The identity of the player at this client.
    pub client_id: u64,
    /// The lobby: identity to handles.
    pub players: Map<u64, PlayerInfo>,
    /// The mapped bodies: server handle to local copy.
    pub entities: Map<u64, LocalEntity>,
    /// The server handle of the body that this client steers.
    pub controlled: Option<u64>,
    pub state: GameState,
    /// The local handle that the next copy gets.
    pub next_entity: u64,
    /// The sequence number of the newest snapshot applied.
    pub last_snapshot: Option<u64>,
}

impl Scene {
    /// Local handles were all handed out before `next_entity`, no two copies
    /// share one, and the steered body is mapped.
    pub open spec fn wf(self) -> bool {
        &&& forall|e: u64| #[trigger]
            self.entities.contains_key(e) ==> self.entities[e].entity < self.next_entity
        &&& forall|a: u64, b: u64|
            #![trigger self.entities[a], self.entities[b]]
            self.entities.contains_key(a) && self.entities.contains_key(b) && a != b
                ==> self.entities[a].entity != self.entities[b].entity
        &&& self.controlled matches Some(e) ==> self.entities.contains_key(e)
    }

    /// The scene of a client that has heard nothing yet.
    pub open spec fn initial(client_id: u64) -> Scene {
        Scene {
            client_id,
            players: Map::empty(),
            entities: Map::empty(),
            controlled: None,
            state: GameState::MainMenu,
            next_entity: 0,
            last_snapshot: None,
        }
    }

    /// The steered body once `entity` has lost the copy it was mapped to.
    pub open spec fn controlled_without(self, entity: u64) -> Option<u64> {
        if self.controlled == Some(entity) {
            None
        } else {
            self.controlled
        }
    }

    /// Maps `entity` to a new copy with the next local handle.
    pub open spec fn spawn(self, entity: u64, local: LocalEntity) -> Scene {
        Scene {
            entities: self.entities.insert(entity, local),
            controlled: self.controlled_without(entity),
            next_entity: (self.next_entity + 1) as u64,
            ..self
        }
    }

    /// The copy that a `PlayerCreate` makes.
    pub open spec fn player_copy(self, id: u64, translation: [i64; 3]) -> LocalEntity {
        LocalEntity {
            entity: self.next_entity,
            kind: EntityKind::Player(Player { id }),
            cell: Cell { size: INITIAL_PLAYER_SIZE },
            translation,
            scale: unit_scale(),
        }
    }

    /// The copy that a `SpawnNpcCell` makes.
    pub open spec fn npc_copy(self, translation: [i64; 3], size: u64) -> LocalEntity {
        LocalEntity {
            entity: self.next_entity,
            kind: EntityKind::Npc(NpcCell),
            cell: Cell { size },
            translation: npc_translation(translation, size),
            scale: unit_scale(),
        }
    }

    /// The scene after a `PlayerCreate`: `entity` is mapped to a new copy, in
    /// place of what it was mapped to, and the lobby names the two handles
    /// for the player `id`. Where `id` is this client's own player, the new
    /// copy is the one it steers from now on: there is never more than one.
    /// The copy that it steered before stays mapped until the server says
    /// that it is gone.
    pub open spec fn create_player(self, entity: u64, id: u64, translation: [i64; 3]) -> Scene {
        let spawned = self.spawn(entity, self.player_copy(id, translation));
        Scene {
            players: self.players.insert(
                id,
                PlayerInfo { client_entity: self.next_entity, server_entity: entity },
            ),
            controlled: if id == self.client_id {
                Some(entity)
            } else {
                spawned.controlled
            },
            ..spawned
        }
    }

    /// The scene after a `SpawnNpcCell`: `entity` is mapped to a new copy, in
    /// place of what it was mapped to.
    pub open spec fn spawn_npc_cell(self, entity: u64, translation: [i64; 3], size: u64) -> Scene {
        self.spawn(entity, self.npc_copy(translation, size))
    }

    /// Unmaps `entity`, if it is mapped.
    pub open spec fn despawn(self, entity: u64) -> Scene {
        Scene {
            entities: self.entities.remove(entity),
            controlled: self.controlled_without(entity),
            ..self
        }
    }

    /// Whether the lobby knows `id`, and the copy it names is still the one
    /// mapped from that player's body.
    pub open spec fn player_is_mapped(self, id: u64) -> bool {
        &&& self.players.contains_key(id)
        &&& self.entities.contains_key(self.players[id].server_entity)
        &&& self.entities[self.players[id].server_entity].entity == self.players[id].client_entity
    }

    /// The scene after a `PlayerRemove`: the lobby forgets the player, and the
    /// copy of its body is unmapped where it is still mapped. Where that was
    /// the copy that this client steers, the client is back in the menu.
    pub open spec fn remove_player(self, id: u64) -> Scene {
        let forgotten = Scene { players: self.players.remove(id), ..self };
        if self.player_is_mapped(id) {
            let entity = self.players[id].server_entity;
            Scene {
                state: if self.controlled == Some(entity) {
                    GameState::MainMenu
                } else {
                    self.state
                },
                ..forgotten.despawn(entity)
            }
        } else {
            forgotten
        }
    }

    /// The scene after an `UpdateEntityCell`: the copy of `entity` has the new
    /// size, where `entity` is mapped.
    pub open spec fn update_cell(self, entity: u64, size: u64) -> Scene {
        if self.entities.contains_key(entity) {
            Scene {
                entities: self.entities.insert(
                    entity,
                    LocalEntity { cell: Cell { size }, ..self.entities[entity] },
                ),
                ..self
            }
        } else {
            self
        }
    }

    /// The scene after one lifecycle message.
    pub open spec fn apply(self, message: ServerMessages) -> Scene {
        match message {
            ServerMessages::PlayerCreate { entity, id, translation } => self.create_player(
                entity,
                id,
                translation,
            ),
            ServerMessages::PlayerRemove { id } => self.remove_player(id),
            ServerMessages::SpawnNpcCell { entity, translation, size } => self.spawn_npc_cell(
                entity,
                translation,
                size,
            ),
            ServerMessages::DespawnEntity { entity } => self.despawn(entity),
            ServerMessages::UpdateEntityCell { entity, size } => self.update_cell(entity, size),
        }
    }

    /// The server handle of the body that a message is about, if it is about one.
    pub open spec fn subject(self, message: ServerMessages) -> Option<u64> {
        match message {
            ServerMessages::PlayerCreate { entity, .. } => Some(entity),
            ServerMessages::PlayerRemove { id } => if self.players.contains_key(id) {
                Some(self.players[id].server_entity)
            } else {
                None
            },
            ServerMessages::SpawnNpcCell { entity, .. } => Some(entity),
            ServerMessages::DespawnEntity { entity } => Some(entity),
            ServerMessages::UpdateEntityCell { entity, .. } => Some(entity),
        }
    }

    /// What to tell the renderer when `entity` loses the copy it is mapped to.
    pub open spec fn despawned(self, entity: u64) -> Seq<SceneChange> {
        if self.entities.contains_key(entity) {
            seq![SceneChange::Despawned { entity: self.entities[entity].entity }]
        } else {
            seq![]
        }
    }

    /// What to tell the renderer about one lifecycle message, in order.
    pub open spec fn changes(self, message: ServerMessages) -> Seq<SceneChange> {
        match message {
            ServerMessages::PlayerCreate { entity, id, translation } => self.despawned(
                entity,
            ).push(
                SceneChange::Spawned {
                    local: self.player_copy(id, translation),
                    controlled: id == self.client_id,
                },
            ),
            ServerMessages::PlayerRemove { id } => if self.player_is_mapped(id) {
                let entity = self.players[id].server_entity;
                if self.controlled == Some(entity) {
                    self.despawned(entity).push(SceneChange::ReturnedToMenu)
                } else {
                    self.despawned(entity)
                }
            } else {
                seq![]
            },
            ServerMessages::SpawnNpcCell { entity, translation, size } => self.despawned(
                entity,
            ).push(
                SceneChange::Spawned { local: self.npc_copy(translation, size), controlled: false },
            ),
            ServerMessages::DespawnEntity { entity } => self.despawned(entity),
            ServerMessages::UpdateEntityCell { entity, size } => if self.entities.contains_key(
                entity,
            ) {
                seq![SceneChange::Resized { entity: self.entities[entity].entity, size }]
            } else {
                seq![]
            },
        }
    }

    /// Whether a snapshot numbered `sequence` is older than the newest applied.
    pub open spec fn is_stale(self, sequence: u64) -> bool {
        self.last_snapshot matches Some(last) && sequence < last
    }

    /// Overwrites the position and scale of `entity`'s copy, if it is mapped.
    pub open spec fn moved(self, entity: u64, translation: [i64; 3], scale: [i64; 3]) -> Scene {
        if self.entities.contains_key(entity) {
            Scene {
                entities: self.entities.insert(
                    entity,
                    LocalEntity { translation, scale, ..self.entities[entity] },
                ),
                ..self
            }
        } else {
            self
        }
    }

    /// The scene after the first `n` entries of a snapshot were written into it.
    pub open spec fn overwrite(self, snapshot: NetworkedEntities, n: nat) -> Scene
        decreases n,
    {
        if n == 0 {
            self
        } else {
            let i = n - 1;
            self.overwrite(snapshot, i as nat).moved(
                snapshot.entities@[i],
                snapshot.translations@[i],
                snapshot.scalings@[i],
            )
        }
    }

    /// What to tell the renderer about the first `n` entries of a snapshot.
    pub open spec fn moves(self, snapshot: NetworkedEntities, n: nat) -> Seq<SceneChange>
        decreases n,
    {
        if n == 0 {
            seq![]
        } else {
            let i = n - 1;
            let before = self.moves(snapshot, i as nat);
            let entity = snapshot.entities@[i];
            if self.entities.contains_key(entity) {
                before.push(
                    SceneChange::Moved {
                        entity: self.entities[entity].entity,
                        translation: snapshot.translations@[i],
                        scale: snapshot.scalings@[i],
                    },
                )
            } else {
                before
            }
        }
    }

    /// The scene after a snapshot numbered `sequence` arrived: a stale one is
    /// dropped whole, any other is written into the scene entry by entry.
    pub open spec fn apply_snapshot(self, sequence: u64, snapshot: NetworkedEntities) -> Scene {
        if self.is_stale(sequence) {
            self
        } else {
            Scene { last_snapshot: Some(sequence), ..self }.overwrite(
                snapshot,
                snapshot.entities@.len(),
            )
        }
    }

    /// What to tell the renderer about a snapshot numbered `sequence`.
    pub open spec fn snapshot_changes(
        self,
        sequence: u64,
        snapshot: NetworkedEntities,
    ) -> Seq<SceneChange> {
        if self.is_stale(sequence) {
            seq![]
        } else {
            self.moves(snapshot, snapshot.entities@.len())
        }
    }

    /// The scene after a run of lifecycle messages, applied in order.
    pub open spec fn apply_all(self, messages: Seq<ServerMessages>) -> Scene
        decreases messages.len(),
    {
        if messages.len() == 0 {
            self
        } else {
            self.apply_all(messages.drop_last()).apply(messages.last())
        }
    }

    /// What to tell the renderer about a run of lifecycle messages.
    pub open spec fn changes_all(self, messages: Seq<ServerMessages>) -> Seq<SceneChange>
        decreases messages.len(),
    {
        if messages.len() == 0 {
            seq![]
        } else {
            self.changes_all(messages.drop_last()) + self.apply_all(messages.drop_last()).changes(
                messages.last(),
            )
        }
    }

    /// The scene after a run of snapshots, applied in the order of arrival.
    pub open spec fn apply_snapshots(self, snapshots: Seq<SequencedSnapshot>) -> Scene
        decreases snapshots.len(),
    {
        if snapshots.len() == 0 {
            self
        } else {
            self.apply_snapshots(snapshots.drop_last()).apply_snapshot(
                snapshots.last().sequence,
                snapshots.last().snapshot,
            )
        }
    }

    /// What to tell the renderer about a run of snapshots.
    pub open spec fn snapshots_changes(self, snapshots: Seq<SequencedSnapshot>) -> Seq<
        SceneChange,
    >
        decreases snapshots.len(),
    {
        if snapshots.len() == 0 {
            seq![]
        } else {
            self.snapshots_changes(snapshots.drop_last()) + self.apply_snapshots(
                snapshots.drop_last(),
            ).snapshot_changes(snapshots.last().sequence, snapshots.last().snapshot)
        }
    }

    /// The scene of a client whose connection is gone.
    pub open spec fn disconnected(self) -> Scene {
        Scene {
            players: Map::empty(),
            entities: Map::empty(),
            controlled: None,
            state: GameState::MainMenu,
            last_snapshot: None,
            ..self
        }
    }
}

/// Whether a message makes the client create a copy.
pub open spec fn creates(message: ServerMessages) -> bool {
    message is PlayerCreate || message is SpawnNpcCell
}

/// How many messages of a run make the client create a copy.
pub open spec fn creations(messages: Seq<ServerMessages>) -> nat
    decreases messages.len(),
{
    if messages.len() == 0 {
        0
    } else {
        creations(messages.drop_last()) + if creates(messages.last()) {
            1nat
        } else {
            0nat
        }
    }
}

/// The first messages of a run create no more copies than the whole run.
proof fn lemma_creations_rise(messages: Seq<ServerMessages>, i: int)
    requires
        0 <= i <= messages.len(),
    ensures
        creations(messages.take(i)) <= creations(messages),
    decreases messages.len() - i,
{
    if i < messages.len() {
        assert(messages.take(i + 1).drop_last() == messages.take(i));
        lemma_creations_rise(messages, i + 1);
    } else {
        assert(messages.take(i) == messages);
    }
}

/// Writing a snapshot into a scene changes positions and scales only.
pub proof fn lemma_overwrite_keeps_mapping(scene: Scene, snapshot: NetworkedEntities, n: nat)
    ensures
        scene.overwrite(snapshot, n).entities.dom() == scene.entities.dom(),
        forall|e: u64| #[trigger]
            scene.entities.contains_key(e) ==> {
                &&& scene.overwrite(snapshot, n).entities[e].entity == scene.entities[e].entity
                &&& scene.overwrite(snapshot, n).entities[e].kind == scene.entities[e].kind
                &&& scene.overwrite(snapshot, n).entities[e].cell == scene.entities[e].cell
            },
        scene.overwrite(snapshot, n) == (Scene {
            entities: scene.overwrite(snapshot, n).entities,
            ..scene
        }),
        scene.wf() ==> scene.overwrite(snapshot, n).wf(),
    decreases n,
{
    if n > 0 {
        let before = scene.overwrite(snapshot, (n - 1) as nat);
        lemma_overwrite_keeps_mapping(scene, snapshot, (n - 1) as nat);
        let entity = snapshot.entities@[n - 1];
        if before.entities.contains_key(entity) {
            assert(scene.overwrite(snapshot, n).entities.dom() =~= scene.entities.dom());
        }
    }
}

/// The number of the newest snapshot has no part in what a snapshot moves.
proof fn lemma_moves_ignore_sequence(
    scene: Scene,
    sequence: u64,
    snapshot: NetworkedEntities,
    n: nat,
)
    ensures
        (Scene { last_snapshot: Some(sequence), ..scene }).moves(snapshot, n) == scene.moves(
            snapshot,
            n,
        ),
    decreases n,
{
    if n > 0 {
        lemma_moves_ignore_sequence(scene, sequence, snapshot, (n - 1) as nat);
    }
}

/// The index of the last of the first `n` entries of a snapshot that names
/// `entity`, or -1 where none does.
pub open spec fn last_entry(snapshot: NetworkedEntities, entity: u64, n: nat) -> int
    decreases n,
{
    if n == 0 {
        -1
    } else if snapshot.entities@[n - 1] == entity {
        n - 1
    } else {
        last_entry(snapshot, entity, (n - 1) as nat)
    }
}

/// After a snapshot was written into a scene, each mapped body stands where
/// the last entry that names it says, and a body that no entry names stands
/// where it stood.
pub proof fn lemma_overwrite_takes_last_entry(
    scene: Scene,
    snapshot: NetworkedEntities,
    n: nat,
    entity: u64,
)
    requires
        scene.entities.contains_key(entity),
    ensures
        -1 <= last_entry(snapshot, entity, n) < n,
        scene.overwrite(snapshot, n).entities[entity] == if last_entry(snapshot, entity, n) >= 0 {
            LocalEntity {
                translation: snapshot.translations@[last_entry(snapshot, entity, n)],
                scale: snapshot.scalings@[last_entry(snapshot, entity, n)],
                ..scene.entities[entity]
            }
        } else {
            scene.entities[entity]
        },
    decreases n,
{
    if n > 0 {
        lemma_overwrite_takes_last_entry(scene, snapshot, (n - 1) as nat, entity);
        lemma_overwrite_keeps_mapping(scene, snapshot, (n - 1) as nat);
    }
}

/// Applying the same size update twice leaves the scene as applying it once
/// does.
pub proof fn lemma_update_is_idempotent(scene: Scene, entity: u64, size: u64)
    ensures
        ({
            let update = ServerMessages::UpdateEntityCell { entity, size };
            &&& scene.apply(update).apply(update) == scene.apply(update)
            &&& scene.entities.contains_key(entity) ==> scene.apply(
                update,
            ).entities[entity].cell.size == size
        }),
{
    let update = ServerMessages::UpdateEntityCell { entity, size };
    assert(scene.apply(update).apply(update).entities =~= scene.apply(update).entities);
}

/// Applying the same snapshot twice leaves the scene as applying it once does.
pub proof fn lemma_snapshot_is_idempotent(scene: Scene, sequence: u64, snapshot: NetworkedEntities)
    ensures
        scene.apply_snapshot(sequence, snapshot).apply_snapshot(sequence, snapshot)
            == scene.apply_snapshot(sequence, snapshot),
{
    if !scene.is_stale(sequence) {
        let n = snapshot.entities@.len();
        let fresh = Scene { last_snapshot: Some(sequence), ..scene };
        let once = fresh.overwrite(snapshot, n);
        let twice = once.overwrite(snapshot, n);
        lemma_overwrite_keeps_mapping(fresh, snapshot, n);
        lemma_overwrite_keeps_mapping(once, snapshot, n);
        assert forall|e: u64| once.entities.contains_key(e) implies twice.entities[e]
            == once.entities[e] by {
            lemma_overwrite_takes_last_entry(fresh, snapshot, n, e);
            lemma_overwrite_takes_last_entry(once, snapshot, n, e);
        }
        assert(twice.entities =~= once.entities);
        assert(once == Scene { last_snapshot: Some(sequence), ..once });
    }
}

/// A message leaves every mapped body but the one it is about as it was.
pub proof fn lemma_apply_touches_only_its_subject(
    scene: Scene,
    message: ServerMessages,
    other: u64,
)
    requires
        scene.entities.contains_key(other),
        scene.subject(message) != Some(other),
    ensures
        scene.apply(message).entities.contains_key(other),
        scene.apply(message).entities[other] == scene.entities[other],
{
}

/// A body becomes mapped only by a message that creates it, and ceases to be
/// mapped only by a message that removes it or its player.
pub proof fn lemma_mapping_follows_the_lifecycle(scene: Scene, message: ServerMessages, entity: u64)
    ensures
        !scene.entities.contains_key(entity) && scene.apply(message).entities.contains_key(entity)
            ==> creates(message) && scene.subject(message) == Some(entity),
        scene.entities.contains_key(entity) && !scene.apply(message).entities.contains_key(entity)
            ==> (message is DespawnEntity || message is PlayerRemove) && scene.subject(message)
            == Some(entity),
{
}

/// A message about a body that is not mapped alters no mapped body; unless it
/// creates one, it changes nothing at all and the renderer hears nothing.
pub proof fn lemma_unknown_handle_is_ignored(scene: Scene, message: ServerMessages)
    requires
        scene.wf(),
        scene.subject(message) matches Some(entity) ==> !scene.entities.contains_key(entity),
    ensures
        forall|e: u64| #[trigger]
            scene.entities.contains_key(e) ==> scene.apply(message).entities.contains_key(e)
                && scene.apply(message).entities[e] == scene.entities[e],
        !creates(message) ==> scene.apply(message).entities == scene.entities,
        !creates(message) ==> scene.changes(message) == Seq::<SceneChange>::empty(),
        !creates(message) && !(message is PlayerRemove) ==> scene.apply(message) == scene,
{
    if !creates(message) {
        assert(scene.apply(message).entities =~= scene.entities);
    }
}

/// A snapshot alters no mapped body that none of its entries names, and maps
/// and unmaps nothing: an entry whose handle is not mapped is passed over.
pub proof fn lemma_snapshot_passes_over_unmapped(
    scene: Scene,
    sequence: u64,
    snapshot: NetworkedEntities,
)
    ensures
        scene.apply_snapshot(sequence, snapshot).entities.dom() == scene.entities.dom(),
        forall|e: u64|
            scene.entities.contains_key(e) && !snapshot.entities@.contains(e) ==> (
            #[trigger] scene.apply_snapshot(sequence, snapshot).entities[e]) == scene.entities[e],
{
    let n = snapshot.entities@.len();
    let fresh = Scene { last_snapshot: Some(sequence), ..scene };
    lemma_overwrite_keeps_mapping(fresh, snapshot, n);
    assert forall|e: u64|
        scene.entities.contains_key(e) && !snapshot.entities@.contains(e) implies (
    #[trigger] scene.apply_snapshot(sequence, snapshot).entities[e]) == scene.entities[e] by {
        lemma_overwrite_takes_last_entry(fresh, snapshot, n, e);
        let k = last_entry(snapshot, e, n);
        if k >= 0 {
            lemma_last_entry_names(snapshot, e, n);
            assert(snapshot.entities@[k] == e);
        }
    }
}

/// Where `last_entry` finds an entry, that entry names the body.
proof fn lemma_last_entry_names(snapshot: NetworkedEntities, entity: u64, n: nat)
    requires
        n <= snapshot.entities@.len(),
    ensures
        last_entry(snapshot, entity, n) >= 0 ==> snapshot.entities@[last_entry(
            snapshot,
            entity,
            n,
        )] == entity,
    decreases n,
{
    if n > 0 && snapshot.entities@[n - 1] != entity {
        lemma_last_entry_names(snapshot, entity, (n - 1) as nat);
    }
}

/// A snapshot that is older than the newest applied is dropped: the scene
/// stays as it was and the renderer hears nothing.
pub proof fn lemma_stale_snapshot_is_discarded(
    scene: Scene,
    sequence: u64,
    snapshot: NetworkedEntities,
)
    requires
        scene.last_snapshot matches Some(last) && sequence < last,
    ensures
        scene.apply_snapshot(sequence, snapshot) == scene,
        scene.snapshot_changes(sequence, snapshot) == Seq::<SceneChange>::empty(),
{
}

/// Whatever arrives, the newest snapshot number never goes down.
pub proof fn lemma_snapshot_numbers_rise(scene: Scene, sequence: u64, snapshot: NetworkedEntities)
    ensures
        scene.last_snapshot matches Some(last) ==> scene.apply_snapshot(
            sequence,
            snapshot,
        ).last_snapshot matches Some(next) && last <= next,
{
    let fresh = Scene { last_snapshot: Some(sequence), ..scene };
    lemma_overwrite_keeps_mapping(fresh, snapshot, snapshot.entities@.len());
}

/// Mirrors the server's world from the messages and snapshots that arrive.
#[derive(Debug)]
pub struct Reconciler {
    client_id: u64,
    lobby: ClientLobby,
    mapping: HashMap<u64, LocalEntity>,
    controlled: Option<u64>,
    state: GameState,
    next_entity: u64,
    last_snapshot: Option<u64>,
}

impl View for Reconciler {
    type V = Scene;

    closed spec fn view(&self) -> Scene {
        Scene {
            client_id: self.client_id,
            players: self.lobby.players@,
            entities: self.mapping@,
            controlled: self.controlled,
            state: self.state,
            next_entity: self.next_entity,
            last_snapshot: self.last_snapshot,
        }
    }
}

impl Reconciler {
    pub open spec fn wf(&self) -> bool {
        self@.wf()
    }

    /// The reconciler of the player `client_id`, before anything has arrived.
    pub fn new(client_id: u64) -> (reconciler: Self)
        ensures
            reconciler.wf(),
            reconciler@ == Scene::initial(client_id),
    {
        Reconciler {
            client_id,
            lobby: ClientLobby { players: HashMap::new() },
            mapping: HashMap::new(),
            controlled: None,
            state: GameState::MainMenu,
            next_entity: 0,
            last_snapshot: None,
        }
    }

    /// Unmaps `entity` and says which copy went, if one did.
    fn unmap(&mut self, entity: u64) -> (changes: Vec<SceneChange>)
        requires
            old(self).wf(),
        ensures
            final(self).wf(),
            final(self)@ == old(self)@.despawn(entity),
            changes@ == old(self)@.despawned(entity),
    {
        let mut changes: Vec<SceneChange> = Vec::new();
        match self.mapping.remove(&entity) {
            Some(local) => {
                changes.push(SceneChange::Despawned { entity: local.entity });
            },
            None => {},
        }
        if self.controlled == Some(entity) {
            self.controlled = None;
        }
        changes
    }

    /// Maps `entity` to `local`, in place of what it was mapped to, and says
    /// what went and what came.
    fn map_anew(&mut self, entity: u64, local: LocalEntity) -> (changes: Vec<SceneChange>)
        requires
            old(self).wf(),
            old(self)@.next_entity < u64::MAX,
            local.entity == old(self)@.next_entity,
        ensures
            final(self).wf(),
            final(self)@ == old(self)@.spawn(entity, local),
            changes@ == old(self)@.despawned(entity),
    {
        let changes = self.unmap(entity);
        self.mapping.insert(entity, local);
        self.next_entity = self.next_entity + 1;
        assert(self@.entities =~= old(self)@.entities.insert(entity, local));
        changes
    }

    /// Applies one lifecycle message to the scene and reports, in order, what
    /// the renderer has to do. A message about a body or a player that is not
    /// known changes nothing.
    pub fn apply_message(&mut self, message: ServerMessages) -> (changes: Vec<SceneChange>)
        requires
            old(self).wf(),
            creates(message) ==> old(self)@.next_entity < u64::MAX,
        ensures
            final(self).wf(),
            final(self)@ == old(self)@.apply(message),
            changes@ == old(self)@.changes(message),
    {
        match message {
            ServerMessages::PlayerCreate { entity, id, translation } => {
                let local = LocalEntity {
                    entity: self.next_entity,
                    kind: EntityKind::Player(Player { id }),
                    cell: Cell { size: INITIAL_PLAYER_SIZE },
                    translation,
                    scale: [UNIT, UNIT, UNIT],
                };
                let mine = id == self.client_id;
                let mut changes = self.map_anew(entity, local);
                self.lobby.players.insert(
                    id,
                    PlayerInfo { client_entity: local.entity, server_entity: entity },
                );
                if mine {
                    self.controlled = Some(entity);
                }
                changes.push(SceneChange::Spawned { local, controlled: mine });
                changes
            },
            ServerMessages::PlayerRemove { id } => {
                let known = match self.lobby.players.remove(&id) {
                    Some(info) => Some(info),
                    None => None,
                };
                match known {
                    Some(info) => {
                        let mapped = match self.mapping.get(&info.server_entity) {
                            Some(local) => local.entity == info.client_entity,
                            None => false,
                        };
                        if mapped {
                            let steered = self.controlled == Some(info.server_entity);
                            let mut changes = self.unmap(info.server_entity);
                            if steered {
                                self.state = GameState::MainMenu;
                                changes.push(SceneChange::ReturnedToMenu);
                            }
                            changes
                        } else {
                            Vec::new()
                        }
                    },
                    None => {
                        assert(self@.players =~= old(self)@.players);
                        Vec::new()
                    },
                }
            },
            ServerMessages::SpawnNpcCell { entity, translation, size } => {
                let local = LocalEntity {
                    entity: self.next_entity,
                    kind: EntityKind::Npc(NpcCell),
                    cell: Cell { size },
                    translation: [translation[0], -((size / 2) as i64), translation[2]],
                    scale: [UNIT, UNIT, UNIT],
                };
                let mut changes = self.map_anew(entity, local);
                changes.push(SceneChange::Spawned { local, controlled: false });
                changes
            },
            ServerMessages::DespawnEntity { entity } => self.unmap(entity),
            ServerMessages::UpdateEntityCell { entity, size } => {
                let mapped = match self.mapping.get(&entity) {
                    Some(local) => Some(*local),
                    None => None,
                };
                match mapped {
                    Some(local) => {
                        self.mapping.insert(entity, LocalEntity { cell: Cell { size }, ..local });
                        let mut changes: Vec<SceneChange> = Vec::new();
                        changes.push(SceneChange::Resized { entity: local.entity, size });
                        changes
                    },
                    None => Vec::new(),
                }
            },
        }
    }

    /// Applies one position snapshot that the transport numbered `sequence`.
    /// One that is older than the newest applied is dropped whole. Otherwise
    /// each entry overwrites the position and scale of the copy its handle is
    /// mapped to, and an entry whose handle is not mapped is passed over.
    pub fn apply_snapshot(&mut self, sequence: u64, snapshot: &NetworkedEntities) -> (changes: Vec<
        SceneChange,
    >)
        requires
            old(self).wf(),
            snapshot.wf(),
        ensures
            final(self).wf(),
            final(self)@ == old(self)@.apply_snapshot(sequence, *snapshot),
            changes@ == old(self)@.snapshot_changes(sequence, *snapshot),
    {
        let mut changes: Vec<SceneChange> = Vec::new();
        match self.last_snapshot {
            Some(last) => {
                if sequence < last {
                    return changes;
                }
            },
            None => {},
        }
        self.last_snapshot = Some(sequence);
        let ghost fresh = self@;
        let mut i: usize = 0;
        while i < snapshot.entities.len()
            invariant
                snapshot.wf(),
                i <= snapshot.entities@.len(),
                fresh.wf(),
                fresh.entities == old(self)@.entities,
                self@ == fresh.overwrite(*snapshot, i as nat),
                changes@ == fresh.moves(*snapshot, i as nat),
            decreases snapshot.entities@.len() - i,
        {
            let entity = snapshot.entities[i];
            proof {
                lemma_overwrite_keeps_mapping(fresh, *snapshot, i as nat);
            }
            let mapped = match self.mapping.get(&entity) {
                Some(local) => Some(*local),
                None => None,
            };
            match mapped {
                Some(local) => {
                    let translation = snapshot.translations[i];
                    let scale = snapshot.scalings[i];
                    self.mapping.insert(entity, LocalEntity { translation, scale, ..local });
                    changes.push(SceneChange::Moved { entity: local.entity, translation, scale });
                },
                None => {},
            }
            i = i + 1;
        }
        proof {
            lemma_overwrite_keeps_mapping(fresh, *snapshot, snapshot.entities@.len());
            lemma_moves_ignore_sequence(old(self)@, sequence, *snapshot, snapshot.entities@.len());
        }
        changes
    }

    /// One frame of the client: applies the lifecycle messages that arrived,
    /// in order, then the snapshots, in order, and reports what the renderer
    /// has to do.
    pub fn client_sync_players(
        &mut self,
        messages: &Vec<ServerMessages>,
        snapshots: &Vec<SequencedSnapshot>,
    ) -> (changes: Vec<SceneChange>)
        requires
            old(self).wf(),
            old(self)@.next_entity + creations(messages@) <= u64::MAX,
            forall|i: int| 0 <= i < snapshots@.len() ==> (#[trigger] snapshots@[i]).snapshot.wf(),
        ensures
            final(self).wf(),
            final(self)@ == old(self)@.apply_all(messages@).apply_snapshots(snapshots@),
            changes@ == old(self)@.changes_all(messages@) + old(self)@.apply_all(
                messages@,
            ).snapshots_changes(snapshots@),
    {
        let mut changes: Vec<SceneChange> = Vec::new();
        let mut i: usize = 0;
        while i < messages.len()
            invariant
                i <= messages@.len(),
                self.wf(),
                old(self)@.next_entity + creations(messages@) <= u64::MAX,
                self@.next_entity == old(self)@.next_entity + creations(messages@.take(i as int)),
                self@ == old(self)@.apply_all(messages@.take(i as int)),
                changes@ == old(self)@.changes_all(messages@.take(i as int)),
            decreases messages@.len() - i,
        {
            assert(messages@.take(i + 1).drop_last() == messages@.take(i as int));
            proof {
                lemma_creations_rise(messages@, i + 1);
            }
            let mut step = self.apply_message(messages[i]);
            changes.append(&mut step);
            i = i + 1;
        }
        assert(messages@.take(i as int) == messages@);
        let ghost told = self@;
        let ghost first = changes@;
        let mut j: usize = 0;
        while j < snapshots.len()
            invariant
                j <= snapshots@.len(),
                self.wf(),
                forall|i: int|
                    0 <= i < snapshots@.len() ==> (#[trigger] snapshots@[i]).snapshot.wf(),
                self@ == told.apply_snapshots(snapshots@.take(j as int)),
                changes@ == first + told.snapshots_changes(snapshots@.take(j as int)),
            decreases snapshots@.len() - j,
        {
            assert(snapshots@.take(j + 1).drop_last() == snapshots@.take(j as int));
            let mut step = self.apply_snapshot(snapshots[j].sequence, &snapshots[j].snapshot);
            changes.append(&mut step);
            j = j + 1;
        }
        assert(snapshots@.take(j as int) == snapshots@);
        changes
    }

    /// Forgets the whole scene when the connection is gone, and returns the
    /// client to the menu.
    pub fn disconnect(&mut self)
        requires
            old(self).wf(),
        ensures
            final(self).wf(),
            final(self)@ == old(self)@.disconnected(),
    {
        self.lobby.players.clear();
        self.mapping.clear();
        self.controlled = None;
        self.state = GameState::MainMenu;
        self.last_snapshot = None;
    }

    /// Moves the client to another mode, as its menus ask.
    pub fn set_state(&mut self, state: GameState)
        ensures
            final(self)@ == (Scene { state, ..old(self)@ }),
    {
        self.state = state;
    }

    pub fn state(&self) -> (state: GameState)
        ensures
            state == self@.state,
    {
        self.state
    }

    pub fn client_id(&self) -> (id: u64)
        ensures
            id == self@.client_id,
    {
        self.client_id
    }

    /// The copy that the server's `entity` is mapped to.
    pub fn local_entity(&self, entity: u64) -> (local: Option<LocalEntity>)
        ensures
            local == if self@.entities.contains_key(entity) {
                Some(self@.entities[entity])
            } else {
                None
            },
    {
        match self.mapping.get(&entity) {
            Some(local) => Some(*local),
            None => None,
        }
    }

    /// The handles of the player `id`, as the lobby has them.
    pub fn player(&self, id: u64) -> (info: Option<PlayerInfo>)
        ensures
            info == if self@.players.contains_key(id) {
                Some(self@.players[id])
            } else {
                None
            },
    {
        match self.lobby.players.get(&id) {
            Some(info) => Some(*info),
            None => None,
        }
    }

    /// The copy that this client steers.
    pub fn controlled_player(&self) -> (local: Option<LocalEntity>)
        requires
            self.wf(),
        ensures
            local == match self@.controlled {
                Some(entity) => Some(self@.entities[entity]),
                None => None,
            },
    {
        match self.controlled {
            Some(entity) => self.local_entity(entity),
            None => None,
        }
    }

    /// How many more copies can be made: local handles are never used twice,
    /// and there are no more than a `u64` can count.
    pub fn room(&self) -> (room: u64)
        ensures
            room == u64::MAX - self@.next_entity,
    {
        u64::MAX - self.next_entity
    }

    /// How many bodies are mapped.
    pub fn len(&self) -> (n: usize)
        ensures
            n == self@.entities.len(),
    {
        self.mapping.len()
    }
}

} // verus!
