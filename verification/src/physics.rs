//! What a collision does: a player's cell that meets a smaller cell absorbs
//! it, and a player whose cell is absorbed is out of the game.

use crate::cells::{absorb, absorbed_size, grown_size, Cell, EntityKind};
use crate::registry::{Registry, SimulationEntity, World};
use crate::ServerMessages;
use vstd::prelude::*;

verus! {

/// What the physics engine reports of two bodies: that they began to touch,
/// or that they ceased to.
#[derive(Debug, Clone, Copy, PartialEq, Eq)]
pub enum CollisionEvent {
    Started(u64, u64),
    Stopped(u64, u64),
}

/// Whether `winner` absorbs `loser` when the two touch: both are live, and
/// `winner` is a player's cell that is strictly the larger.
pub open spec fn absorbs(world: World, winner: u64, loser: u64) -> bool {
    &&& world.is_player(winner)
    &&& world.contains(loser)
    &&& winner != loser
    &&& world.get(winner).cell.size > world.get(loser).cell.size
}

/// The size of `winner` once it has absorbed `loser`.
pub open spec fn size_after(world: World, winner: u64, loser: u64) -> u64 {
    absorbed_size(world.get(winner).cell.size, world.get(loser).cell.size)
}

/// The world after `winner` absorbed `loser`: the winner has grown by half
/// the loser's size, and the loser is gone, from the lobby too.
pub open spec fn absorbed(world: World, winner: u64, loser: u64) -> World {
    world.resize(winner, size_after(world, winner, loser)).destroy(loser)
}

/// What clients are told when `winner` absorbs `loser`: the winner's new
/// size, that the loser's player is out where the loser was a player's cell,
/// and that the loser is gone.
pub open spec fn absorbed_messages(world: World, winner: u64, loser: u64) -> Seq<ServerMessages> {
    let update = ServerMessages::UpdateEntityCell {
        entity: winner,
        size: size_after(world, winner, loser),
    };
    let despawn = ServerMessages::DespawnEntity { entity: loser };
    match world.get(loser).kind {
        EntityKind::Player(player) => seq![
            update,
            ServerMessages::PlayerRemove { id: player.id },
            despawn,
        ],
        EntityKind::Npc(_) => seq![update, despawn],
    }
}

/// The world after a player's cell `player` touched the cell `cell` that no
/// player steers.
pub open spec fn cell_collision(world: World, player: u64, cell: u64) -> World {
    if world.is_npc(cell) && absorbs(world, player, cell) {
        absorbed(world, player, cell)
    } else {
        world
    }
}

/// What clients are told after `player` touched `cell`.
pub open spec fn cell_collision_messages(world: World, player: u64, cell: u64) -> Seq<
    ServerMessages,
> {
    if world.is_npc(cell) && absorbs(world, player, cell) {
        absorbed_messages(world, player, cell)
    } else {
        seq![]
    }
}

/// The world after the cells `a` and `b` of two players touched: the larger
/// absorbs the smaller, and nothing happens between equals.
pub open spec fn player_collision(world: World, a: u64, b: u64) -> World {
    if world.is_player(b) && absorbs(world, a, b) {
        absorbed(world, a, b)
    } else if world.is_player(a) && absorbs(world, b, a) {
        absorbed(world, b, a)
    } else {
        world
    }
}

/// What clients are told after the cells `a` and `b` of two players touched.
pub open spec fn player_collision_messages(world: World, a: u64, b: u64) -> Seq<ServerMessages> {
    if world.is_player(b) && absorbs(world, a, b) {
        absorbed_messages(world, a, b)
    } else if world.is_player(a) && absorbs(world, b, a) {
        absorbed_messages(world, b, a)
    } else {
        seq![]
    }
}

/// The world after the bodies `a` and `b` began to touch. A player's cell
/// against a cell that no player steers comes first, then two players' cells;
/// any other pair, and any pair of equal size, stays as it is.
pub open spec fn resolved(world: World, a: u64, b: u64) -> World {
    if world.is_player(a) && world.is_npc(b) {
        cell_collision(world, a, b)
    } else if world.is_npc(a) && world.is_player(b) {
        cell_collision(world, b, a)
    } else if world.is_player(a) && world.is_player(b) {
        player_collision(world, a, b)
    } else {
        world
    }
}

/// What clients are told after the bodies `a` and `b` began to touch.
pub open spec fn resolved_messages(world: World, a: u64, b: u64) -> Seq<ServerMessages> {
    if world.is_player(a) && world.is_npc(b) {
        cell_collision_messages(world, a, b)
    } else if world.is_npc(a) && world.is_player(b) {
        cell_collision_messages(world, b, a)
    } else if world.is_player(a) && world.is_player(b) {
        player_collision_messages(world, a, b)
    } else {
        seq![]
    }
}

/// The world after one event: only bodies that begin to touch act on each
/// other.
pub open spec fn after_event(world: World, event: CollisionEvent) -> World {
    match event {
        CollisionEvent::Started(a, b) => resolved(world, a, b),
        CollisionEvent::Stopped(_, _) => world,
    }
}

/// What clients are told after one event.
pub open spec fn event_messages(world: World, event: CollisionEvent) -> Seq<ServerMessages> {
    match event {
        CollisionEvent::Started(a, b) => resolved_messages(world, a, b),
        CollisionEvent::Stopped(_, _) => seq![],
    }
}

/// The world after a run of events, each resolved in the world that the ones
/// before it left.
pub open spec fn after_events(world: World, events: Seq<CollisionEvent>) -> World
    decreases events.len(),
{
    if events.len() == 0 {
        world
    } else {
        after_event(after_events(world, events.drop_last()), events.last())
    }
}

/// What clients are told after a run of events, in order.
pub open spec fn events_messages(world: World, events: Seq<CollisionEvent>) -> Seq<ServerMessages>
    decreases events.len(),
{
    if events.len() == 0 {
        seq![]
    } else {
        events_messages(world, events.drop_last()) + event_messages(
            after_events(world, events.drop_last()),
            events.last(),
        )
    }
}

/// An absorption keeps the world well-formed; the winner then has its new
/// size, the loser is gone and no lobby entry names it, and every other body
/// is as it was.
pub proof fn lemma_absorbed(world: World, winner: u64, loser: u64)
    requires
        world.wf(),
        absorbs(world, winner, loser),
    ensures
        absorbed(world, winner, loser).wf(),
        absorbed(world, winner, loser).contains(winner),
        absorbed(world, winner, loser).get(winner) == (SimulationEntity {
            cell: Cell { size: size_after(world, winner, loser) },
            ..world.get(winner)
        }),
        !absorbed(world, winner, loser).contains(loser),
        forall|id: u64| #[trigger]
            absorbed(world, winner, loser).lobby.contains_key(id) ==> world.lobby.contains_key(id)
                && absorbed(world, winner, loser).lobby[id] == world.lobby[id] && world.lobby[id]
                != loser,
        forall|id: u64|
            world.lobby.contains_key(id) && world.lobby[id] != loser ==> (#[trigger] absorbed(
                world,
                winner,
                loser,
            ).lobby.contains_key(id)),
        forall|e: u64|
            e != loser ==> (#[trigger] absorbed(world, winner, loser).contains(e))
                == world.contains(e),
        forall|e: u64|
            e != loser && e != winner && world.contains(e) ==> (#[trigger] absorbed(
                world,
                winner,
                loser,
            ).get(e)) == world.get(e),
{
    let size = size_after(world, winner, loser);
    let body = SimulationEntity { cell: Cell { size }, ..world.get(winner) };
    world.lemma_get(winner);
    world.lemma_put(body);
    let grown = world.put(body);
    assert(grown == world.resize(winner, size));
    assert(grown.contains(loser));
    grown.lemma_destroy(loser);
    let after = grown.destroy(loser);
    assert(after == absorbed(world, winner, loser));
    assert(after.contains(winner));
    assert(after.get(winner) == grown.get(winner));
    assert forall|e: u64| e != loser && e != winner && world.contains(e) implies (
    #[trigger] after.get(e)) == world.get(e) by {
        assert(grown.contains(e));
        assert(grown.get(e) == world.get(e));
    }
    assert forall|e: u64| e != loser implies (#[trigger] after.contains(e)) == world.contains(
        e,
    ) by {
        assert(grown.contains(e) == world.contains(e));
    }
}

/// A collision keeps the world well-formed.
pub proof fn lemma_resolved_wf(world: World, a: u64, b: u64)
    requires
        world.wf(),
    ensures
        resolved(world, a, b).wf(),
{
    if absorbs(world, a, b) {
        lemma_absorbed(world, a, b);
    }
    if absorbs(world, b, a) {
        lemma_absorbed(world, b, a);
    }
}

/// A player's cell of size `P` that meets a smaller cell of size `N` which no
/// player steers has size `P + N / 2` afterwards, as far as sizes reach, and
/// that cell is gone. Clients hear of the new size, then that the cell is gone.
pub proof fn lemma_absorption_conservation(world: World, player: u64, cell: u64)
    requires
        world.wf(),
        world.is_player(player),
        world.is_npc(cell),
        world.get(player).cell.size > world.get(cell).cell.size,
        grown_size(world.get(player).cell.size, world.get(cell).cell.size) <= u64::MAX,
    ensures
        resolved(world, player, cell) == resolved(world, cell, player),
        resolved(world, player, cell).contains(player),
        resolved(world, player, cell).get(player).cell.size == world.get(player).cell.size
            + world.get(cell).cell.size / 2,
        !resolved(world, player, cell).contains(cell),
        resolved_messages(world, player, cell) == seq![
            ServerMessages::UpdateEntityCell {
                entity: player,
                size: (world.get(player).cell.size + world.get(cell).cell.size / 2) as u64,
            },
            ServerMessages::DespawnEntity { entity: cell },
        ],
        resolved_messages(world, cell, player) == resolved_messages(world, player, cell),
{
    lemma_absorbed(world, player, cell);
}

/// When the cells of two players meet and `winner` is strictly the larger,
/// the loser is gone from the world and from the lobby, clients are told that
/// its player is out, and the winner has grown by half the loser's size, as
/// far as sizes reach. It does not matter which of the two the event names
/// first.
pub proof fn lemma_player_elimination(world: World, winner: u64, loser: u64)
    requires
        world.wf(),
        world.is_player(winner),
        world.is_player(loser),
        world.get(winner).cell.size > world.get(loser).cell.size,
    ensures
        resolved(world, winner, loser) == resolved(world, loser, winner),
        resolved_messages(world, winner, loser) == resolved_messages(world, loser, winner),
        !resolved(world, winner, loser).contains(loser),
        forall|id: u64| #[trigger]
            resolved(world, winner, loser).lobby.contains_key(id) ==> resolved(
                world,
                winner,
                loser,
            ).lobby[id] != loser,
        world.lobby.contains_key(world.get(loser).kind->Player_0.id) && world.lobby[world.get(
            loser,
        ).kind->Player_0.id] == loser ==> !resolved(world, winner, loser).lobby.contains_key(
            world.get(loser).kind->Player_0.id,
        ),
        resolved_messages(world, winner, loser).contains(
            ServerMessages::PlayerRemove { id: world.get(loser).kind->Player_0.id },
        ),
        resolved_messages(world, winner, loser) == seq![
            ServerMessages::UpdateEntityCell {
                entity: winner,
                size: size_after(world, winner, loser),
            },
            ServerMessages::PlayerRemove { id: world.get(loser).kind->Player_0.id },
            ServerMessages::DespawnEntity { entity: loser },
        ],
        resolved(world, winner, loser).contains(winner),
        resolved(world, winner, loser).get(winner).cell.size == size_after(world, winner, loser),
        grown_size(world.get(winner).cell.size, world.get(loser).cell.size) <= u64::MAX
            ==> resolved(world, winner, loser).get(winner).cell.size == world.get(
            winner,
        ).cell.size + world.get(loser).cell.size / 2,
{
    lemma_absorbed(world, winner, loser);
    world.lemma_get(winner);
    world.lemma_get(loser);
    let messages = resolved_messages(world, winner, loser);
    assert(messages[1] == ServerMessages::PlayerRemove {
        id: world.get(loser).kind->Player_0.id,
    });
}

/// Two bodies of equal size that meet stay as they are: no size changes,
/// nothing is destroyed, and clients are told nothing.
pub proof fn lemma_tie_is_inert(world: World, a: u64, b: u64)
    requires
        world.contains(a) && world.contains(b) ==> world.get(a).cell.size == world.get(
            b,
        ).cell.size,
    ensures
        resolved(world, a, b) == world,
        resolved_messages(world, a, b) == Seq::<ServerMessages>::empty(),
{
}

/// A collision that has no winner changes nothing: bodies that are gone, a
/// body against itself, and cells that no player steers among themselves.
pub proof fn lemma_no_winner_is_inert(world: World, a: u64, b: u64)
    requires
        !absorbs(world, a, b),
        !absorbs(world, b, a),
    ensures
        resolved(world, a, b) == world,
        resolved_messages(world, a, b) == Seq::<ServerMessages>::empty(),
{
}

/// Whatever a collision destroys, every client is told that it is gone.
pub proof fn lemma_destruction_is_announced(world: World, a: u64, b: u64, entity: u64)
    requires
        world.wf(),
        world.contains(entity),
        !resolved(world, a, b).contains(entity),
    ensures
        resolved_messages(world, a, b).contains(ServerMessages::DespawnEntity { entity }),
{
    let messages = resolved_messages(world, a, b);
    if absorbs(world, a, b) && resolved(world, a, b) == absorbed(world, a, b) {
        lemma_absorbed(world, a, b);
        assert(entity == b);
        assert(messages[messages.len() - 1] == ServerMessages::DespawnEntity { entity });
    } else if absorbs(world, b, a) && resolved(world, a, b) == absorbed(world, b, a) {
        lemma_absorbed(world, b, a);
        assert(entity == a);
        assert(messages[messages.len() - 1] == ServerMessages::DespawnEntity { entity });
    }
}

/// Lets `winner` absorb `loser` and returns what clients are to be told.
fn absorb_entity(
    registry: &mut Registry,
    winner: SimulationEntity,
    loser: SimulationEntity,
) -> (messages: Vec<ServerMessages>)
    requires
        old(registry).wf(),
        absorbs(old(registry)@, winner.entity, loser.entity),
        winner == old(registry)@.get(winner.entity),
        loser == old(registry)@.get(loser.entity),
    ensures
        final(registry).wf(),
        final(registry)@ == absorbed(old(registry)@, winner.entity, loser.entity),
        messages@ == absorbed_messages(old(registry)@, winner.entity, loser.entity),
{
    proof {
        lemma_absorbed(registry@, winner.entity, loser.entity);
        registry@.lemma_get(winner.entity);
        registry@.lemma_get(loser.entity);
    }
    let size = absorb(winner.cell.size, loser.cell.size);
    let grown = SimulationEntity { cell: Cell { size }, ..winner };
    proof {
        registry@.lemma_put(grown);
    }
    registry.put(grown);
    let mut messages: Vec<ServerMessages> = Vec::new();
    messages.push(ServerMessages::UpdateEntityCell { entity: winner.entity, size });
    match loser.kind {
        EntityKind::Player(player) => {
            messages.push(ServerMessages::PlayerRemove { id: player.id });
        },
        EntityKind::Npc(_) => {},
    }
    let notice = registry.destroy(loser.entity);
    messages.push(ServerMessages::DespawnEntity { entity: loser.entity });
    assert(messages@ =~= absorbed_messages(old(registry)@, winner.entity, loser.entity));
    messages
}

/// A player's cell `player` touches the cell `cell` that no player steers:
/// where the player's cell is the larger, it absorbs the other. For any other
/// pair of handles nothing happens.
pub fn cell_collision_detection(registry: &mut Registry, player: u64, cell: u64) -> (messages: Vec<
    ServerMessages,
>)
    requires
        old(registry).wf(),
    ensures
        final(registry).wf(),
        final(registry)@ == cell_collision(old(registry)@, player, cell),
        messages@ == cell_collision_messages(old(registry)@, player, cell),
{
    let found = (registry.get(player), registry.get(cell));
    match found {
        (Some(winner), Some(loser)) => {
            let steered = match winner.kind {
                EntityKind::Player(_) => true,
                EntityKind::Npc(_) => false,
            };
            let loose = match loser.kind {
                EntityKind::Player(_) => false,
                EntityKind::Npc(_) => true,
            };
            if steered && loose && winner.cell.size > loser.cell.size {
                absorb_entity(registry, winner, loser)
            } else {
                Vec::new()
            }
        },
        _ => Vec::new(),
    }
}

/// The cells `a` and `b` of two players touch: the larger absorbs the
/// smaller, whose player is out of the game. Between cells of one size, and
/// for any other pair of handles, nothing happens.
pub fn player_to_player_collision_detection(registry: &mut Registry, a: u64, b: u64) -> (messages:
    Vec<ServerMessages>)
    requires
        old(registry).wf(),
    ensures
        final(registry).wf(),
        final(registry)@ == player_collision(old(registry)@, a, b),
        messages@ == player_collision_messages(old(registry)@, a, b),
{
    let found = (registry.get(a), registry.get(b));
    match found {
        (Some(first), Some(second)) => {
            let both = match (first.kind, second.kind) {
                (EntityKind::Player(_), EntityKind::Player(_)) => true,
                _ => false,
            };
            if both && a != b && first.cell.size > second.cell.size {
                absorb_entity(registry, first, second)
            } else if both && a != b && second.cell.size > first.cell.size {
                absorb_entity(registry, second, first)
            } else {
                Vec::new()
            }
        },
        _ => Vec::new(),
    }
}

/// Resolves one pair of bodies that began to touch, and returns what every
/// client is to be told, in order.
pub fn resolve_collision(registry: &mut Registry, a: u64, b: u64) -> (messages: Vec<ServerMessages>)
    requires
        old(registry).wf(),
    ensures
        final(registry).wf(),
        final(registry)@ == resolved(old(registry)@, a, b),
        messages@ == resolved_messages(old(registry)@, a, b),
{
    let found = (registry.get(a), registry.get(b));
    match found {
        (Some(first), Some(second)) => {
            match (first.kind, second.kind) {
                (EntityKind::Player(_), EntityKind::Npc(_)) => cell_collision_detection(
                    registry,
                    a,
                    b,
                ),
                (EntityKind::Npc(_), EntityKind::Player(_)) => cell_collision_detection(
                    registry,
                    b,
                    a,
                ),
                (EntityKind::Player(_), EntityKind::Player(_)) => {
                    player_to_player_collision_detection(registry, a, b)
                },
                (EntityKind::Npc(_), EntityKind::Npc(_)) => Vec::new(),
            }
        },
        _ => Vec::new(),
    }
}

/// Resolves the events of one frame in order, each in the world that the
/// ones before it left, and returns what every client is to be told.
pub fn resolve_collisions(registry: &mut Registry, events: &Vec<CollisionEvent>) -> (messages: Vec<
    ServerMessages,
>)
    requires
        old(registry).wf(),
    ensures
        final(registry).wf(),
        final(registry)@ == after_events(old(registry)@, events@),
        messages@ == events_messages(old(registry)@, events@),
{
    let mut messages: Vec<ServerMessages> = Vec::new();
    let mut i: usize = 0;
    while i < events.len()
        invariant
            i <= events@.len(),
            registry.wf(),
            registry@ == after_events(old(registry)@, events@.take(i as int)),
            messages@ == events_messages(old(registry)@, events@.take(i as int)),
        decreases events@.len() - i,
    {
        assert(events@.take(i + 1).drop_last() == events@.take(i as int));
        match events[i] {
            CollisionEvent::Started(a, b) => {
                let mut told = resolve_collision(registry, a, b);
                messages.append(&mut told);
            },
            CollisionEvent::Stopped(_, _) => {},
        }
        i = i + 1;
    }
    assert(events@.take(i as int) == events@);
    messages
}

} // verus!
