//! Cells: the mass that every simulated body carries.

use crate::registry::{Registry, World};
use crate::{Player, ServerMessages, FIELD_SIZE};
use rand::Rng;
use vstd::prelude::*;

verus! {

/// The mass and footprint of a simulated body. A live body has a size above zero.
#[derive(Debug, Clone, Copy, PartialEq, Eq)]
pub struct Cell {
    pub size: u64,
}

/// Marks a simulated body as a cell that no player steers.
#[derive(Debug, Clone, Copy, PartialEq, Eq)]
pub struct NpcCell;

/// What a simulated body is.
#[derive(Debug, Clone, Copy, PartialEq, Eq)]
pub enum EntityKind {
    Player(Player),
    Npc(NpcCell),
}

/// The size of a cell of size `winner` once it has absorbed one of size
/// `loser`: the winner gains half of what the loser had.
pub open spec fn grown_size(winner: u64, loser: u64) -> int {
    winner + loser / 2
}

/// `grown_size`, held at the largest size that can be represented.
pub open spec fn absorbed_size(winner: u64, loser: u64) -> u64 {
    if grown_size(winner, loser) <= u64::MAX {
        grown_size(winner, loser) as u64
    } else {
        u64::MAX
    }
}

/// The size of the winner after it has absorbed the loser.
pub fn absorb(winner: u64, loser: u64) -> (size: u64)
    ensures
        size == absorbed_size(winner, loser),
{
    let gain: u64 = loser / 2;
    if winner > u64::MAX - gain {
        u64::MAX
    } else {
        winner + gain
    }
}

/// The smallest size that a spawned cell can have.
pub const MIN_SPAWN_SIZE: i64 = 400;

/// The size that a spawned cell stays below.
pub const MAX_SPAWN_SIZE: i64 = 1400;

/// A timer that runs out again and again, each time its duration has passed.
#[derive(Debug, Clone, Copy, PartialEq, Eq)]
pub struct Timer {
    duration_ms: u64,
    elapsed_ms: u64,
    finished: bool,
}

impl Timer {
    /// How long the timer runs before it runs out.
    pub closed spec fn duration_ms(&self) -> u64 {
        self.duration_ms
    }

    /// How long the timer has run since it last ran out.
    pub closed spec fn elapsed_ms(&self) -> u64 {
        self.elapsed_ms
    }

    /// Whether the timer ran out during the last tick.
    pub closed spec fn finished(&self) -> bool {
        self.finished
    }

    /// The duration is above zero, and the time run stays below it.
    pub open spec fn wf(&self) -> bool {
        0 <= self.elapsed_ms() < self.duration_ms()
    }

    /// A timer that runs out every `duration_ms` milliseconds.
    pub fn from_millis(duration_ms: u64) -> (timer: Self)
        requires
            duration_ms > 0,
        ensures
            timer.wf(),
            timer.duration_ms() == duration_ms,
            timer.elapsed_ms() == 0,
            !timer.finished(),
    {
        Timer { duration_ms, elapsed_ms: 0, finished: false }
    }

    /// Lets `delta_ms` milliseconds pass. The timer has run out where that
    /// takes it to its duration or beyond, however often, and then starts
    /// over with what is left.
    pub fn tick(&mut self, delta_ms: u64)
        requires
            old(self).wf(),
        ensures
            final(self).wf(),
            final(self).duration_ms() == old(self).duration_ms(),
            final(self).elapsed_ms() == (old(self).elapsed_ms() + delta_ms) % (old(
                self,
            ).duration_ms() as int),
            final(self).finished() == (old(self).elapsed_ms() + delta_ms >= old(
                self,
            ).duration_ms()),
    {
        let total: u128 = self.elapsed_ms as u128 + delta_ms as u128;
        self.finished = total >= self.duration_ms as u128;
        self.elapsed_ms = (total % (self.duration_ms as u128)) as u64;
    }

    /// Whether the timer ran out during the last tick.
    pub fn just_finished(&self) -> (finished: bool)
        ensures
            finished == self.finished(),
    {
        self.finished
    }
}

/// What paces the game: the timer that says when the next cell is due.
#[derive(Debug, Clone, Copy, PartialEq, Eq)]
pub struct Game {
    pub cell_spawn_timer: Timer,
}

/// Where a cell of the given size is put that no player steers: at the given
/// place on the ground plane, sunk by half its size.
pub open spec fn spawn_translation(x: i64, z: i64, size: u64) -> [i64; 3] {
    [x, (-(size / 2)) as i64, z]
}

/// The world with one more cell that no player steers.
pub open spec fn with_npc_cell(world: World, x: i64, z: i64, size: u64) -> World {
    world.spawn(EntityKind::Npc(NpcCell), size, spawn_translation(x, z, size))
}

/// What clients are told of that cell.
pub open spec fn npc_cell_message(world: World, x: i64, z: i64, size: u64) -> ServerMessages {
    ServerMessages::SpawnNpcCell {
        entity: world.next_entity,
        translation: spawn_translation(x, z, size),
        size,
    }
}

/// Whether a cell may be spawned at this place and with this size: within the
/// field, and no smaller or larger than spawned cells are.
pub open spec fn spawnable(x: i64, z: i64, size: u64) -> bool {
    &&& -(FIELD_SIZE / 2) <= x < FIELD_SIZE / 2
    &&& -(FIELD_SIZE / 2) <= z < FIELD_SIZE / 2
    &&& MIN_SPAWN_SIZE <= size < MAX_SPAWN_SIZE
}

/// Calls `gen_range` of `rand::Rng` on the thread's generator with the range
/// `low..high`. That function panics on an empty range, which `requires`
/// leaves out, and returns a number of the range: which one is left open.
#[verifier::external_body]
fn random_between(low: i64, high: i64) -> (number: i64)
    requires
        low < high,
    ensures
        low <= number < high,
{
    rand::thread_rng().gen_range(low..high)
}

/// Creates a cell of the given size that no player steers, at the given
/// place, and returns what every client is to be told of it.
pub fn spawn_npc_cell(registry: &mut Registry, x: i64, z: i64, size: u64) -> (message:
    ServerMessages)
    requires
        old(registry).wf(),
        old(registry)@.next_entity < u64::MAX,
        size > 0,
    ensures
        final(registry).wf(),
        final(registry)@ == with_npc_cell(old(registry)@, x, z, size),
        message == npc_cell_message(old(registry)@, x, z, size),
{
    let translation = [x, -((size / 2) as i64), z];
    let entity = registry.spawn(EntityKind::Npc(NpcCell), size, translation);
    ServerMessages::SpawnNpcCell { entity, translation, size }
}

/// Lets `delta_ms` milliseconds pass on the spawn timer. Each time the timer
/// runs out, one cell that no player steers is created, at a random place in
/// the field and of a random size, and the message that every client is to
/// get is returned.
pub fn spawn_spheres(registry: &mut Registry, game: &mut Game, delta_ms: u64) -> (message: Option<
    ServerMessages,
>)
    requires
        old(registry).wf(),
        old(registry)@.next_entity < u64::MAX,
        old(game).cell_spawn_timer.wf(),
    ensures
        final(registry).wf(),
        final(game).cell_spawn_timer.wf(),
        final(game).cell_spawn_timer.duration_ms() == old(game).cell_spawn_timer.duration_ms(),
        final(game).cell_spawn_timer.elapsed_ms() == (old(game).cell_spawn_timer.elapsed_ms()
            + delta_ms) % (old(game).cell_spawn_timer.duration_ms() as int),
        final(game).cell_spawn_timer.finished() == (old(game).cell_spawn_timer.elapsed_ms()
            + delta_ms >= old(game).cell_spawn_timer.duration_ms()),
        !final(game).cell_spawn_timer.finished() ==> message is None && final(registry)@ == old(
            registry,
        )@,
        final(game).cell_spawn_timer.finished() ==> exists|x: i64, z: i64, size: u64|
            #![trigger with_npc_cell(old(registry)@, x, z, size)]
            {
                &&& spawnable(x, z, size)
                &&& final(registry)@ == with_npc_cell(old(registry)@, x, z, size)
                &&& message == Some(npc_cell_message(old(registry)@, x, z, size))
            },
{
    game.cell_spawn_timer.tick(delta_ms);
    if game.cell_spawn_timer.just_finished() {
        let x = random_between(-(FIELD_SIZE / 2), FIELD_SIZE / 2);
        let z = random_between(-(FIELD_SIZE / 2), FIELD_SIZE / 2);
        let size = random_between(MIN_SPAWN_SIZE, MAX_SPAWN_SIZE) as u64;
        let message = spawn_npc_cell(registry, x, z, size);
        assert(spawnable(x, z, size));
        assert(registry@ == with_npc_cell(old(registry)@, x, z, size));
        Some(message)
    } else {
        None
    }
}

} // verus!
