//! The server's frame: players come and go, their keys steer their cells, and
//! every client is told what changed.

use crate::cells::EntityKind;
use crate::player::INITIAL_PLAYER_SIZE;
use crate::registry::{origin, Registry, SimulationEntity, World};
use crate::{clamp, clamped, NetworkedEntities, Player, PlayerInput, ServerMessages};
use vstd::prelude::*;

verus! {

/// How fast a player's cell moves: world units per second, which is as many
/// fixed-point units per millisecond.
pub const PLAYER_MOVE_SPEED: i64 = 10;

/// What the transport reports of a client.
#[derive(Debug, Clone, Copy, PartialEq, Eq)]
pub enum ServerEvent {
    ClientConnected(u64),
    ClientDisconnected(u64),
}

/// Who is to get a lifecycle message.
#[derive(Debug, Clone, Copy, PartialEq, Eq)]
pub enum Recipient {
    Everyone,
    Client(u64),
}

/// A lifecycle message on its way out, on the reliable channel.
#[derive(Debug, Clone, Copy, PartialEq, Eq)]
pub struct Outgoing {
    pub recipient: Recipient,
    pub message: ServerMessages,
}

/// The keys of one player, as they arrived from its client.
#[derive(Debug, Clone, Copy, PartialEq, Eq)]
pub struct ReceivedInput {
    pub client_id: u64,
    pub input: PlayerInput,
}

/// A message for every client.
pub open spec fn broadcast(message: ServerMessages) -> Outgoing {
    Outgoing { recipient: Recipient::Everyone, message }
}

/// What the client `to` is told of a body when it joins: of a player's cell,
/// that it exists and where; of any other body, nothing.
pub open spec fn introduction(to: u64) -> spec_fn(SimulationEntity) -> Option<Outgoing> {
    |body: SimulationEntity|
        match body.kind {
            EntityKind::Player(player) => Some(
                Outgoing {
                    recipient: Recipient::Client(to),
                    message: ServerMessages::PlayerCreate {
                        entity: body.entity,
                        id: player.id,
                        translation: body.translation,
                    },
                },
            ),
            EntityKind::Npc(_) => None,
        }
}

/// What is sent when the player `id` connects: to that client alone one
/// `PlayerCreate` for each player's cell that is live, oldest first; then to
/// everyone the `PlayerCreate` of the new player's cell.
pub open spec fn connect_messages(world: World, id: u64) -> Seq<Outgoing> {
    world.entities.filter_map(introduction(id)).push(
        broadcast(
            ServerMessages::PlayerCreate { entity: world.next_entity, id, translation: origin() },
        ),
    )
}

/// What is sent when the player `id` disconnects: that the player is gone
/// and, where the lobby knew it, that its cell is gone.
pub open spec fn disconnect_messages(world: World, id: u64) -> Seq<Outgoing> {
    if world.lobby.contains_key(id) {
        seq![
            broadcast(ServerMessages::PlayerRemove { id }),
            broadcast(ServerMessages::DespawnEntity { entity: world.lobby[id] }),
        ]
    } else {
        seq![broadcast(ServerMessages::PlayerRemove { id })]
    }
}

/// The world after one event of the transport.
pub open spec fn after_event(world: World, event: ServerEvent) -> World {
    match event {
        ServerEvent::ClientConnected(id) => world.register_player(id),
        ServerEvent::ClientDisconnected(id) => world.unregister_player(id),
    }
}

/// What is sent after one event of the transport.
pub open spec fn event_messages(world: World, event: ServerEvent) -> Seq<Outgoing> {
    match event {
        ServerEvent::ClientConnected(id) => connect_messages(world, id),
        ServerEvent::ClientDisconnected(id) => disconnect_messages(world, id),
    }
}

/// The world after a run of events.
pub open spec fn after_events(world: World, events: Seq<ServerEvent>) -> World
    decreases events.len(),
{
    if events.len() == 0 {
        world
    } else {
        after_event(after_events(world, events.drop_last()), events.last())
    }
}

/// What is sent after a run of events, in order.
pub open spec fn events_messages(world: World, events: Seq<ServerEvent>) -> Seq<Outgoing>
    decreases events.len(),
{
    if events.len() == 0 {
        seq![]
    } else {
        events_messages(world, events.drop_last()) + event_messages(
            after_events(world, events.drop_last()),
            events.last(),
        )
    }
}

/// How many events of a run are of a client that connects.
pub open spec fn connections(events: Seq<ServerEvent>) -> nat
    decreases events.len(),
{
    if events.len() == 0 {
        0
    } else {
        connections(events.drop_last()) + if events.last() is ClientConnected {
            1nat
        } else {
            0nat
        }
    }
}

/// The first events of a run hold no more connections than the whole run.
proof fn lemma_connections_rise(events: Seq<ServerEvent>, i: int)
    requires
        0 <= i <= events.len(),
    ensures
        connections(events.take(i)) <= connections(events),
    decreases events.len() - i,
{
    if i < events.len() {
        assert(events.take(i + 1).drop_last() == events.take(i));
        lemma_connections_rise(events, i + 1);
    } else {
        assert(events.take(i) == events);
    }
}

/// The world after the keys of the player `id` arrived: they steer the cell
/// that the lobby names, and a player that the lobby does not know steers
/// nothing.
pub open spec fn steered(world: World, id: u64, input: PlayerInput) -> World {
    if world.lobby.contains_key(id) {
        world.put(SimulationEntity { input, ..world.get(world.lobby[id]) })
    } else {
        world
    }
}

/// The world after a run of inputs.
pub open spec fn steered_all(world: World, inputs: Seq<ReceivedInput>) -> World
    decreases inputs.len(),
{
    if inputs.len() == 0 {
        world
    } else {
        steered(
            steered_all(world, inputs.drop_last()),
            inputs.last().client_id,
            inputs.last().input,
        )
    }
}

/// Which way along an axis the keys point: 1, -1 or, where both or neither
/// are down, 0.
pub open spec fn axis(forward: bool, backward: bool) -> int {
    (if forward {
        1int
    } else {
        0int
    }) - (if backward {
        1int
    } else {
        0int
    })
}

/// How far a cell moves along each axis that its keys point along, in
/// `delta_ms` milliseconds. Along one axis that is speed times time; along
/// both at once each axis gets 7071 parts in 10000 of it, so that the cell is
/// no faster on the diagonal.
pub open spec fn stride(input: PlayerInput, delta_ms: u32) -> int {
    if axis(input.right, input.left) != 0 && axis(input.down, input.up) != 0 {
        PLAYER_MOVE_SPEED * delta_ms * 7071 / 10000
    } else {
        PLAYER_MOVE_SPEED * delta_ms
    }
}

/// Where a cell is after `delta_ms` milliseconds under the given keys: right
/// and left move it along the first axis, down and up along the third.
pub open spec fn moved_translation(
    translation: [i64; 3],
    input: PlayerInput,
    delta_ms: u32,
) -> [i64; 3] {
    [
        clamped(translation[0] + axis(input.right, input.left) * stride(input, delta_ms)),
        translation[1],
        clamped(translation[2] + axis(input.down, input.up) * stride(input, delta_ms)),
    ]
}

/// A body after `delta_ms` milliseconds, where a player steers it.
pub open spec fn moved(body: SimulationEntity, delta_ms: u32) -> SimulationEntity {
    if body.kind is Player {
        SimulationEntity {
            translation: moved_translation(body.translation, body.input, delta_ms),
            ..body
        }
    } else {
        body
    }
}

/// Whatever body leaves the world when a client connects or disconnects,
/// every client is told that it is gone.
pub proof fn lemma_departure_is_announced(world: World, event: ServerEvent, entity: u64)
    requires
        world.wf(),
        world.next_entity < u64::MAX,
        world.contains(entity),
        !after_event(world, event).contains(entity),
    ensures
        event_messages(world, event).contains(
            broadcast(ServerMessages::DespawnEntity { entity }),
        ),
{
    match event {
        ServerEvent::ClientConnected(id) => {
            let kind = EntityKind::Player(Player { id });
            world.lemma_spawn(kind, INITIAL_PLAYER_SIZE, origin());
            let spawned = world.spawn(kind, INITIAL_PLAYER_SIZE, origin());
            assert(spawned.contains(entity));
            assert(world.register_player(id).entities == spawned.entities);
            assert(world.register_player(id).contains(entity));
        },
        ServerEvent::ClientDisconnected(id) => {
            if world.lobby.contains_key(id) {
                world.lemma_destroy(world.lobby[id]);
                assert(entity == world.lobby[id]);
                assert(event_messages(world, event)[1] == broadcast(
                    ServerMessages::DespawnEntity { entity },
                ));
            }
        },
    }
}

/// Enters the player `id`, and returns what is to be sent: first to the new
/// client alone the players that are already there, then to everyone the new
/// player.
pub fn handle_connect(registry: &mut Registry, id: u64) -> (messages: Vec<Outgoing>)
    requires
        old(registry).wf(),
        old(registry)@.next_entity < u64::MAX,
    ensures
        final(registry).wf(),
        final(registry)@ == old(registry)@.register_player(id),
        messages@ == connect_messages(old(registry)@, id),
{
    let mut messages: Vec<Outgoing> = Vec::new();
    let n = registry.len();
    let mut i: usize = 0;
    while i < n
        invariant
            i <= n,
            n == registry@.entities.len(),
            registry@ == old(registry)@,
            messages@ == registry@.entities.take(i as int).filter_map(introduction(id)),
        decreases n - i,
    {
        let body = registry.entity_at(i);
        proof {
            registry@.entities.lemma_filter_map_take_succ(introduction(id), i as int);
        }
        match body.kind {
            EntityKind::Player(player) => {
                messages.push(
                    Outgoing {
                        recipient: Recipient::Client(id),
                        message: ServerMessages::PlayerCreate {
                            entity: body.entity,
                            id: player.id,
                            translation: body.translation,
                        },
                    },
                );
            },
            EntityKind::Npc(_) => {},
        }
        i = i + 1;
    }
    assert(registry@.entities.take(i as int) == registry@.entities);
    let entity = registry.register_player(id);
    messages.push(
        Outgoing {
            recipient: Recipient::Everyone,
            message: ServerMessages::PlayerCreate { entity, id, translation: [0, 0, 0] },
        },
    );
    messages
}

/// Takes the player `id` out of the game, and returns what everyone is to be
/// told. A player that the lobby does not know is reported gone all the same.
pub fn handle_disconnect(registry: &mut Registry, id: u64) -> (messages: Vec<Outgoing>)
    requires
        old(registry).wf(),
    ensures
        final(registry).wf(),
        final(registry)@ == old(registry)@.unregister_player(id),
        messages@ == disconnect_messages(old(registry)@, id),
{
    let mut messages: Vec<Outgoing> = Vec::new();
    messages.push(
        Outgoing { recipient: Recipient::Everyone, message: ServerMessages::PlayerRemove { id } },
    );
    match registry.unregister_player(id) {
        Some(entity) => {
            messages.push(
                Outgoing {
                    recipient: Recipient::Everyone,
                    message: ServerMessages::DespawnEntity { entity },
                },
            );
        },
        None => {},
    }
    messages
}

/// Lets the keys that arrived from the player `id` steer its cell.
pub fn handle_input(registry: &mut Registry, id: u64, input: PlayerInput)
    requires
        old(registry).wf(),
    ensures
        final(registry).wf(),
        final(registry)@ == steered(old(registry)@, id, input),
{
    match registry.entity_for(id) {
        Some(entity) => {
            match registry.get(entity) {
                Some(body) => {
                    proof {
                        registry@.lemma_get(entity);
                    }
                    registry.put(SimulationEntity { input, ..body });
                },
                None => {},
            }
        },
        None => {},
    }
}

/// One frame of the server's bookkeeping: the events of the transport in
/// order, then the keys that arrived, in order. Returns what is to be sent.
pub fn server_update_system(
    registry: &mut Registry,
    events: &Vec<ServerEvent>,
    inputs: &Vec<ReceivedInput>,
) -> (messages: Vec<Outgoing>)
    requires
        old(registry).wf(),
        old(registry)@.next_entity + connections(events@) <= u64::MAX,
    ensures
        final(registry).wf(),
        final(registry)@ == steered_all(after_events(old(registry)@, events@), inputs@),
        messages@ == events_messages(old(registry)@, events@),
{
    let mut messages: Vec<Outgoing> = Vec::new();
    let mut i: usize = 0;
    while i < events.len()
        invariant
            i <= events@.len(),
            registry.wf(),
            old(registry)@.next_entity + connections(events@) <= u64::MAX,
            registry@.next_entity == old(registry)@.next_entity + connections(
                events@.take(i as int),
            ),
            registry@ == after_events(old(registry)@, events@.take(i as int)),
            messages@ == events_messages(old(registry)@, events@.take(i as int)),
        decreases events@.len() - i,
    {
        assert(events@.take(i + 1).drop_last() == events@.take(i as int));
        proof {
            lemma_connections_rise(events@, i + 1);
        }
        let mut told = match events[i] {
            ServerEvent::ClientConnected(id) => handle_connect(registry, id),
            ServerEvent::ClientDisconnected(id) => {
                proof {
                    registry@.lemma_destroy(registry@.lobby[id]);
                }
                handle_disconnect(registry, id)
            },
        };
        messages.append(&mut told);
        i = i + 1;
    }
    assert(events@.take(i as int) == events@);
    let ghost settled = registry@;
    let mut j: usize = 0;
    while j < inputs.len()
        invariant
            j <= inputs@.len(),
            registry.wf(),
            registry@ == steered_all(settled, inputs@.take(j as int)),
        decreases inputs@.len() - j,
    {
        assert(inputs@.take(j + 1).drop_last() == inputs@.take(j as int));
        handle_input(registry, inputs[j].client_id, inputs[j].input);
        j = j + 1;
    }
    assert(inputs@.take(j as int) == inputs@);
    messages
}

/// The sum of two coordinates, as far as an `i64` reaches.
fn add_clamped(a: i64, b: i64) -> (sum: i64)
    ensures
        sum == clamped(a + b),
{
    clamp(a as i128 + b as i128)
}

/// Which way along an axis the keys point.
fn direction(forward: bool, backward: bool) -> (way: i64)
    ensures
        way == axis(forward, backward),
{
    if forward && !backward {
        1
    } else if backward && !forward {
        -1
    } else {
        0
    }
}

/// Moves every player's cell as its keys say, for `delta_ms` milliseconds.
pub fn move_players_system(registry: &mut Registry, delta_ms: u32)
    requires
        old(registry).wf(),
    ensures
        final(registry).wf(),
        final(registry)@ == (World {
            entities: old(registry)@.entities.map_values(
                |body: SimulationEntity| moved(body, delta_ms),
            ),
            ..old(registry)@
        }),
{
    let n = registry.len();
    let mut i: usize = 0;
    while i < n
        invariant
            i <= n,
            n == old(registry)@.entities.len(),
            registry.wf(),
            registry@.entities.len() == n,
            registry@.lobby == old(registry)@.lobby,
            registry@.next_entity == old(registry)@.next_entity,
            forall|j: int|
                0 <= j < i ==> registry@.entities[j] == moved(old(registry)@.entities[j], delta_ms),
            forall|j: int| i <= j < n ==> registry@.entities[j] == old(registry)@.entities[j],
        decreases n - i,
    {
        let body = registry.entity_at(i);
        match body.kind {
            EntityKind::Player(_) => {
                let x = direction(body.input.right, body.input.left);
                let z = direction(body.input.down, body.input.up);
                let straight: i64 = PLAYER_MOVE_SPEED * (delta_ms as i64);
                let step: i64 = if x != 0 && z != 0 {
                    straight * 7071 / 10000
                } else {
                    straight
                };
                let translation = [
                    add_clamped(body.translation[0], x * step),
                    body.translation[1],
                    add_clamped(body.translation[2], z * step),
                ];
                registry.replace_at(i, SimulationEntity { translation, ..body });
            },
            EntityKind::Npc(_) => {},
        }
        i = i + 1;
    }
    assert(registry@.entities =~= old(registry)@.entities.map_values(
        |body: SimulationEntity| moved(body, delta_ms),
    ));
}

/// The snapshot that every client is sent each frame, on the unreliable
/// channel: every body that a player steers, oldest first.
pub fn server_network_sync(registry: &Registry) -> (snapshot: NetworkedEntities)
    ensures
        snapshot.wf(),
        snapshot.entities@ == registry@.movable_handles(),
        snapshot.translations@ == registry@.movable_translations(),
        snapshot.scalings@ == registry@.movable_scales(),
{
    registry.all_movable_entities()
}

} // verus!
