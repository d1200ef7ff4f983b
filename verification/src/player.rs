//! Player cells: their initial size, how large they are drawn, and where
//! they may go.

use crate::cells::EntityKind;
use crate::registry::{Registry, SimulationEntity, World};
use crate::FIELD_SIZE;
use vstd::prelude::*;

verus! {

/// The size of the cell that a player starts with: one world unit.
pub const INITIAL_PLAYER_SIZE: u64 = 1000;

/// A coordinate held within the field, which reaches half its size to either
/// side of the origin.
pub open spec fn limit(coordinate: i64) -> i64 {
    if coordinate > FIELD_SIZE / 2 {
        (FIELD_SIZE / 2) as i64
    } else if coordinate < -(FIELD_SIZE / 2) {
        (-(FIELD_SIZE / 2)) as i64
    } else {
        coordinate
    }
}

/// A body held within the field, where a player steers it.
pub open spec fn limited(body: SimulationEntity) -> SimulationEntity {
    if body.kind is Player {
        SimulationEntity {
            translation: [limit(body.translation[0]), body.translation[1], limit(
                body.translation[2],
            )],
            ..body
        }
    } else {
        body
    }
}

/// The scale at which a cell of the given size is drawn: a quarter of its
/// size along each axis.
pub open spec fn cell_scale(size: u64) -> [i64; 3] {
    [(size / 4) as i64, (size / 4) as i64, (size / 4) as i64]
}

/// A body drawn as large as its cell is, where a player steers it.
pub open spec fn scaled(body: SimulationEntity) -> SimulationEntity {
    if body.kind is Player {
        SimulationEntity { scale: cell_scale(body.cell.size), ..body }
    } else {
        body
    }
}

/// Holds a coordinate within the field.
pub fn limit_coordinate(coordinate: i64) -> (held: i64)
    ensures
        held == limit(coordinate),
        -(FIELD_SIZE / 2) <= held <= FIELD_SIZE / 2,
{
    if coordinate > FIELD_SIZE / 2 {
        FIELD_SIZE / 2
    } else if coordinate < -(FIELD_SIZE / 2) {
        -(FIELD_SIZE / 2)
    } else {
        coordinate
    }
}

/// Brings every player's cell that has left the field back to its edge.
pub fn limit_player_movement(registry: &mut Registry)
    requires
        old(registry).wf(),
    ensures
        final(registry).wf(),
        final(registry)@ == (World {
            entities: old(registry)@.entities.map_values(|body: SimulationEntity| limited(body)),
            ..old(registry)@
        }),
{
    let n = registry.len();
    let mut i: usize = 0;
    while i < n
        invariant
            i <= n,
            n == old(registry)@.entities.len(),
            registry.wf(),
            registry@.entities.len() == n,
            registry@.lobby == old(registry)@.lobby,
            registry@.next_entity == old(registry)@.next_entity,
            forall|j: int|
                0 <= j < i ==> registry@.entities[j] == limited(old(registry)@.entities[j]),
            forall|j: int| i <= j < n ==> registry@.entities[j] == old(registry)@.entities[j],
        decreases n - i,
    {
        let body = registry.entity_at(i);
        match body.kind {
            EntityKind::Player(_) => {
                let held = SimulationEntity {
                    translation: [
                        limit_coordinate(body.translation[0]),
                        body.translation[1],
                        limit_coordinate(body.translation[2]),
                    ],
                    ..body
                };
                registry.replace_at(i, held);
            },
            EntityKind::Npc(_) => {},
        }
        i = i + 1;
    }
    assert(registry@.entities =~= old(registry)@.entities.map_values(
        |body: SimulationEntity| limited(body),
    ));
}

/// Draws every player's cell as large as it now is.
pub fn update_player_cell_size(registry: &mut Registry)
    requires
        old(registry).wf(),
    ensures
        final(registry).wf(),
        final(registry)@ == (World {
            entities: old(registry)@.entities.map_values(|body: SimulationEntity| scaled(body)),
            ..old(registry)@
        }),
{
    let n = registry.len();
    let mut i: usize = 0;
    while i < n
        invariant
            i <= n,
            n == old(registry)@.entities.len(),
            registry.wf(),
            registry@.entities.len() == n,
            registry@.lobby == old(registry)@.lobby,
            registry@.next_entity == old(registry)@.next_entity,
            forall|j: int|
                0 <= j < i ==> registry@.entities[j] == scaled(old(registry)@.entities[j]),
            forall|j: int| i <= j < n ==> registry@.entities[j] == old(registry)@.entities[j],
        decreases n - i,
    {
        let body = registry.entity_at(i);
        match body.kind {
            EntityKind::Player(_) => {
                let side = (body.cell.size / 4) as i64;
                registry.replace_at(i, SimulationEntity { scale: [side, side, side], ..body });
            },
            EntityKind::Npc(_) => {},
        }
        i = i + 1;
    }
    assert(registry@.entities =~= old(registry)@.entities.map_values(
        |body: SimulationEntity| scaled(body),
    ));
}

} // verus!
