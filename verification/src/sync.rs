//! What holds between the server's world and a client's scene: a client that
//! applies what the server sent, in the order sent, never has a body mapped
//! that the server does not have.

use crate::cells::{npc_cell_message, spawn_translation, with_npc_cell, EntityKind, NpcCell};
use crate::client::{lemma_overwrite_keeps_mapping, Scene};
use crate::physics::{
    absorbed, absorbed_messages, absorbs, lemma_absorbed, resolved, resolved_messages,
};
use crate::player::INITIAL_PLAYER_SIZE;
use crate::registry::{origin, SimulationEntity, World};
use crate::server::{connect_messages, disconnect_messages, introduction, Outgoing};
use crate::{NetworkedEntities, Player, ServerMessages};
use vstd::prelude::*;

verus! {

/// Every body that the client has mapped is live in the server's world, and
/// is there what it is here: the cell of that player, or a cell that no
/// player steers.
pub open spec fn mirrors(scene: Scene, world: World) -> bool {
    forall|e: u64| #[trigger]
        scene.entities.contains_key(e) ==> world.contains(e) && world.get(e).kind
            == scene.entities[e].kind
}

/// Whether a message speaks truly of the world: what it says is created is
/// live there, and is what the message says. Of the other messages nothing is
/// asked here.
pub open spec fn announces(world: World, message: ServerMessages) -> bool {
    match message {
        ServerMessages::PlayerCreate { entity, id, .. } => world.contains(entity) && world.get(
            entity,
        ).kind == EntityKind::Player(Player { id }),
        ServerMessages::SpawnNpcCell { entity, .. } => world.contains(entity) && world.get(
            entity,
        ).kind == EntityKind::Npc(NpcCell),
        _ => true,
    }
}

/// The messages of a run of outgoing messages, whoever they are for.
pub open spec fn payloads(outgoing: Seq<Outgoing>) -> Seq<ServerMessages> {
    outgoing.map_values(|sent: Outgoing| sent.message)
}

/// A message that speaks truly of the world leaves the client in agreement
/// with it.
pub proof fn lemma_apply_keeps_mirror(scene: Scene, world: World, message: ServerMessages)
    requires
        mirrors(scene, world),
        announces(world, message),
    ensures
        mirrors(scene.apply(message), world),
{
}

/// So does a run of such messages.
pub proof fn lemma_apply_all_keeps_mirror(scene: Scene, world: World, messages: Seq<ServerMessages>)
    requires
        mirrors(scene, world),
        forall|i: int| 0 <= i < messages.len() ==> announces(world, #[trigger] messages[i]),
    ensures
        mirrors(scene.apply_all(messages), world),
    decreases messages.len(),
{
    if messages.len() > 0 {
        lemma_apply_all_keeps_mirror(scene, world, messages.drop_last());
        lemma_apply_keeps_mirror(
            scene.apply_all(messages.drop_last()),
            world,
            messages.last(),
        );
    }
}

/// A run of messages that ends by saying that `entity` is gone leaves it
/// unmapped.
proof fn lemma_last_despawn_unmaps(scene: Scene, messages: Seq<ServerMessages>, entity: u64)
    requires
        messages.len() > 0,
        messages.last() == (ServerMessages::DespawnEntity { entity }),
    ensures
        !scene.apply_all(messages).entities.contains_key(entity),
{
}

/// A position snapshot leaves the client in agreement with the world: it
/// maps nothing and unmaps nothing.
pub proof fn lemma_snapshot_keeps_mirror(
    scene: Scene,
    world: World,
    sequence: u64,
    snapshot: NetworkedEntities,
)
    requires
        mirrors(scene, world),
    ensures
        mirrors(scene.apply_snapshot(sequence, snapshot), world),
{
    let fresh = Scene { last_snapshot: Some(sequence), ..scene };
    lemma_overwrite_keeps_mapping(fresh, snapshot, snapshot.entities@.len());
    assert forall|e: u64| #[trigger]
        scene.apply_snapshot(sequence, snapshot).entities.contains_key(e) implies world.contains(e)
        && world.get(e).kind == scene.apply_snapshot(sequence, snapshot).entities[e].kind by {
        assert(scene.entities.contains_key(e));
    }
}

/// When a player connects, a client that applies any of what the server sends
/// on that occasion, in any order, stays in agreement with the world: the new
/// client, which is told of every player, and the others, which are told of
/// the new one.
pub proof fn lemma_connect_keeps_mirror(
    scene: Scene,
    world: World,
    id: u64,
    received: Seq<ServerMessages>,
)
    requires
        world.wf(),
        world.next_entity < u64::MAX,
        mirrors(scene, world),
        forall|i: int|
            0 <= i < received.len() ==> payloads(connect_messages(world, id)).contains(
                #[trigger] received[i],
            ),
    ensures
        mirrors(scene.apply_all(received), world.register_player(id)),
{
    let kind = EntityKind::Player(Player { id });
    let after = world.register_player(id);
    let spawned = world.spawn(kind, INITIAL_PLAYER_SIZE, origin());
    world.lemma_spawn(kind, INITIAL_PLAYER_SIZE, origin());
    assert(after.entities == spawned.entities);
    assert forall|e: u64| #[trigger] world.contains(e) implies after.contains(e) && after.get(e)
        == world.get(e) by {
        assert(spawned.contains(e) && spawned.get(e) == world.get(e));
    }
    assert(after.contains(world.next_entity) && after.get(world.next_entity).kind == kind) by {
        assert(spawned.contains(world.next_entity));
    }
    assert(mirrors(scene, after));
    let sent = connect_messages(world, id);
    assert forall|i: int| 0 <= i < received.len() implies announces(
        after,
        #[trigger] received[i],
    ) by {
        let j = choose|j: int| 0 <= j < payloads(sent).len() && payloads(sent)[j] == received[i];
        if j < sent.len() - 1 {
            let introduced = world.entities.filter_map(introduction(id));
            assert(sent[j] == introduced[j]);
            assert(introduced.contains(introduced[j]));
            world.entities.lemma_filter_map_contains(
                introduction(id),
                introduced[j],
            );
            let body = choose|body: SimulationEntity| #[trigger]
                world.entities.contains(body) && introduction(id)(body) == Some(
                    introduced[j],
                );
            let k = choose|k: int| 0 <= k < world.entities.len() && world.entities[k] == body;
            world.lemma_index_of(k);
            assert(world.contains(body.entity) && world.get(body.entity) == body);
        }
    }
    lemma_apply_all_keeps_mirror(scene, after, received);
}

/// When a player disconnects, a client that applies what the server sends
/// stays in agreement with the world.
pub proof fn lemma_disconnect_keeps_mirror(scene: Scene, world: World, id: u64)
    requires
        world.wf(),
        mirrors(scene, world),
    ensures
        mirrors(
            scene.apply_all(payloads(disconnect_messages(world, id))),
            world.unregister_player(id),
        ),
{
    let messages = payloads(disconnect_messages(world, id));
    lemma_apply_all_keeps_mirror(scene, world, messages);
    if world.lobby.contains_key(id) {
        let entity = world.lobby[id];
        world.lemma_destroy(entity);
        lemma_last_despawn_unmaps(scene, messages, entity);
    }
}

/// When two bodies collide, a client that applies what the server sends stays
/// in agreement with the world: what was absorbed is unmapped.
pub proof fn lemma_collision_keeps_mirror(scene: Scene, world: World, a: u64, b: u64)
    requires
        world.wf(),
        mirrors(scene, world),
    ensures
        mirrors(scene.apply_all(resolved_messages(world, a, b)), resolved(world, a, b)),
{
    let messages = resolved_messages(world, a, b);
    lemma_apply_all_keeps_mirror(scene, world, messages);
    if absorbs(world, a, b) && resolved(world, a, b) == absorbed(world, a, b) {
        lemma_absorbed_keeps_mirror(scene, world, a, b);
    } else if absorbs(world, b, a) && resolved(world, a, b) == absorbed(world, b, a) {
        lemma_absorbed_keeps_mirror(scene, world, b, a);
    }
}

/// The same of one absorption.
proof fn lemma_absorbed_keeps_mirror(scene: Scene, world: World, winner: u64, loser: u64)
    requires
        world.wf(),
        mirrors(scene, world),
        absorbs(world, winner, loser),
    ensures
        mirrors(
            scene.apply_all(absorbed_messages(world, winner, loser)),
            absorbed(world, winner, loser),
        ),
{
    let messages = absorbed_messages(world, winner, loser);
    lemma_apply_all_keeps_mirror(scene, world, messages);
    lemma_last_despawn_unmaps(scene, messages, loser);
    lemma_absorbed(world, winner, loser);
    let after = absorbed(world, winner, loser);
    assert forall|e: u64| #[trigger]
        scene.apply_all(messages).entities.contains_key(e) implies after.contains(e) && after.get(
        e,
    ).kind == scene.apply_all(messages).entities[e].kind by {
        assert(e != loser);
        assert(world.contains(e));
        if e != winner {
            assert(after.get(e) == world.get(e));
        }
    }
}

/// When a cell is spawned that no player steers, a client that applies what
/// the server sends stays in agreement with the world.
pub proof fn lemma_spawn_keeps_mirror(scene: Scene, world: World, x: i64, z: i64, size: u64)
    requires
        world.wf(),
        world.next_entity < u64::MAX,
        size > 0,
        mirrors(scene, world),
    ensures
        mirrors(
            scene.apply(npc_cell_message(world, x, z, size)),
            with_npc_cell(world, x, z, size),
        ),
{
    let after = with_npc_cell(world, x, z, size);
    world.lemma_spawn(EntityKind::Npc(NpcCell), size, spawn_translation(x, z, size));
    assert forall|e: u64| #[trigger] scene.entities.contains_key(e) implies after.contains(e)
        && after.get(e).kind == scene.entities[e].kind by {
        assert(world.contains(e));
    }
    lemma_apply_keeps_mirror(scene, after, npc_cell_message(world, x, z, size));
}

} // verus!
