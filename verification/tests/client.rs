use cagario::cells::{Cell, EntityKind, NpcCell};
use cagario::client::{LocalEntity, PlayerInfo, Reconciler, SceneChange, SequencedSnapshot};
use cagario::{GameState, NetworkedEntities, Player, ServerMessages};

fn snapshot(entries: &[(u64, [i64; 3], [i64; 3])]) -> NetworkedEntities {
    let mut snapshot = NetworkedEntities::new();
    for (entity, translation, scale) in entries {
        snapshot.push(*entity, *translation, *scale);
    }
    snapshot
}

fn player_copy(local: u64, id: u64, translation: [i64; 3]) -> LocalEntity {
    LocalEntity {
        entity: local,
        kind: EntityKind::Player(Player { id }),
        cell: Cell { size: 1000 },
        translation,
        scale: [1000, 1000, 1000],
    }
}

#[test]
fn new_reconciler_is_empty_and_in_the_menu() {
    let reconciler = Reconciler::new(42);
    assert_eq!(reconciler.client_id(), 42);
    assert_eq!(reconciler.state(), GameState::MainMenu);
    assert_eq!(reconciler.len(), 0);
    assert_eq!(reconciler.controlled_player(), None);
    assert_eq!(reconciler.local_entity(0), None);
    assert_eq!(reconciler.player(42), None);
}

#[test]
fn player_create_maps_a_new_copy() {
    let mut reconciler = Reconciler::new(42);
    let changes = reconciler.apply_message(ServerMessages::PlayerCreate {
        entity: 17,
        id: 7,
        translation: [1, 2, 3],
    });
    let copy = player_copy(0, 7, [1, 2, 3]);
    assert_eq!(changes, vec![SceneChange::Spawned { local: copy, controlled: false }]);
    assert_eq!(reconciler.local_entity(17), Some(copy));
    assert_eq!(reconciler.player(7), Some(PlayerInfo { client_entity: 0, server_entity: 17 }));
    assert_eq!(reconciler.controlled_player(), None);
    assert_eq!(reconciler.len(), 1);
}

#[test]
fn player_create_with_own_identity_marks_the_copy_as_controlled() {
    let mut reconciler = Reconciler::new(42);
    reconciler.apply_message(ServerMessages::PlayerCreate {
        entity: 3,
        id: 7,
        translation: [0, 0, 0],
    });
    let changes = reconciler.apply_message(ServerMessages::PlayerCreate {
        entity: 5,
        id: 42,
        translation: [9, 0, 9],
    });
    let copy = player_copy(1, 42, [9, 0, 9]);
    assert_eq!(changes, vec![SceneChange::Spawned { local: copy, controlled: true }]);
    assert_eq!(reconciler.controlled_player(), Some(copy));
}

#[test]
fn later_player_create_with_own_identity_moves_the_marking() {
    let mut reconciler = Reconciler::new(42);
    reconciler.apply_message(ServerMessages::PlayerCreate {
        entity: 5,
        id: 42,
        translation: [0, 0, 0],
    });
    reconciler.apply_message(ServerMessages::PlayerCreate {
        entity: 8,
        id: 42,
        translation: [4, 0, 4],
    });
    assert_eq!(reconciler.controlled_player(), Some(player_copy(1, 42, [4, 0, 4])));
    assert_eq!(reconciler.local_entity(5), Some(player_copy(0, 42, [0, 0, 0])));
    assert_eq!(reconciler.player(42), Some(PlayerInfo { client_entity: 1, server_entity: 8 }));
    assert_eq!(reconciler.len(), 2);
}

#[test]
fn creating_a_mapped_body_again_replaces_its_copy() {
    let mut reconciler = Reconciler::new(42);
    reconciler.apply_message(ServerMessages::PlayerCreate {
        entity: 5,
        id: 42,
        translation: [0, 0, 0],
    });
    let changes = reconciler.apply_message(ServerMessages::SpawnNpcCell {
        entity: 5,
        translation: [10, 0, 20],
        size: 600,
    });
    let copy = LocalEntity {
        entity: 1,
        kind: EntityKind::Npc(NpcCell),
        cell: Cell { size: 600 },
        translation: [10, -300, 20],
        scale: [1000, 1000, 1000],
    };
    assert_eq!(
        changes,
        vec![
            SceneChange::Despawned { entity: 0 },
            SceneChange::Spawned { local: copy, controlled: false },
        ]
    );
    assert_eq!(reconciler.len(), 1);
    assert_eq!(reconciler.local_entity(5), Some(copy));
    assert_eq!(reconciler.controlled_player(), None);
}

#[test]
fn spawn_npc_cell_sinks_the_copy_by_half_its_size() {
    let mut reconciler = Reconciler::new(42);
    let changes = reconciler.apply_message(ServerMessages::SpawnNpcCell {
        entity: 30,
        translation: [100, 77, -100],
        size: 1399,
    });
    let copy = LocalEntity {
        entity: 0,
        kind: EntityKind::Npc(NpcCell),
        cell: Cell { size: 1399 },
        translation: [100, -699, -100],
        scale: [1000, 1000, 1000],
    };
    assert_eq!(changes, vec![SceneChange::Spawned { local: copy, controlled: false }]);
    assert_eq!(reconciler.local_entity(30), Some(copy));
}

#[test]
fn player_remove_unmaps_the_player() {
    let mut reconciler = Reconciler::new(42);
    reconciler.apply_message(ServerMessages::PlayerCreate {
        entity: 3,
        id: 7,
        translation: [0, 0, 0],
    });
    reconciler.set_state(GameState::InGame);
    let changes = reconciler.apply_message(ServerMessages::PlayerRemove { id: 7 });
    assert_eq!(changes, vec![SceneChange::Despawned { entity: 0 }]);
    assert_eq!(reconciler.len(), 0);
    assert_eq!(reconciler.player(7), None);
    assert_eq!(reconciler.state(), GameState::InGame);
}

#[test]
fn removing_the_controlled_player_returns_to_the_menu() {
    let mut reconciler = Reconciler::new(42);
    reconciler.apply_message(ServerMessages::PlayerCreate {
        entity: 3,
        id: 42,
        translation: [0, 0, 0],
    });
    reconciler.set_state(GameState::InGame);
    assert_eq!(reconciler.state(), GameState::InGame);
    let changes = reconciler.apply_message(ServerMessages::PlayerRemove { id: 42 });
    assert_eq!(changes, vec![SceneChange::Despawned { entity: 0 }, SceneChange::ReturnedToMenu]);
    assert_eq!(reconciler.state(), GameState::MainMenu);
    assert_eq!(reconciler.controlled_player(), None);
}

#[test]
fn player_remove_of_an_unknown_player_changes_nothing() {
    let mut reconciler = Reconciler::new(42);
    reconciler.apply_message(ServerMessages::PlayerCreate {
        entity: 3,
        id: 42,
        translation: [0, 0, 0],
    });
    let changes = reconciler.apply_message(ServerMessages::PlayerRemove { id: 9 });
    assert_eq!(changes, vec![]);
    assert_eq!(reconciler.len(), 1);
    assert_eq!(reconciler.controlled_player(), Some(player_copy(0, 42, [0, 0, 0])));
}

#[test]
fn player_remove_after_despawn_changes_the_lobby_only() {
    let mut reconciler = Reconciler::new(42);
    reconciler.apply_message(ServerMessages::PlayerCreate {
        entity: 3,
        id: 7,
        translation: [0, 0, 0],
    });
    assert_eq!(
        reconciler.apply_message(ServerMessages::DespawnEntity { entity: 3 }),
        vec![SceneChange::Despawned { entity: 0 }]
    );
    assert_eq!(reconciler.player(7), Some(PlayerInfo { client_entity: 0, server_entity: 3 }));
    assert_eq!(reconciler.apply_message(ServerMessages::PlayerRemove { id: 7 }), vec![]);
    assert_eq!(reconciler.player(7), None);
}

#[test]
fn player_remove_leaves_a_newer_copy_of_the_same_body() {
    let mut reconciler = Reconciler::new(42);
    reconciler.apply_message(ServerMessages::PlayerCreate {
        entity: 3,
        id: 7,
        translation: [0, 0, 0],
    });
    reconciler.apply_message(ServerMessages::SpawnNpcCell {
        entity: 3,
        translation: [0, 0, 0],
        size: 500,
    });
    assert_eq!(reconciler.apply_message(ServerMessages::PlayerRemove { id: 7 }), vec![]);
    assert_eq!(reconciler.len(), 1);
    assert_eq!(reconciler.local_entity(3).unwrap().entity, 1);
}

#[test]
fn despawn_of_an_unknown_body_changes_nothing() {
    let mut reconciler = Reconciler::new(42);
    reconciler.apply_message(ServerMessages::SpawnNpcCell {
        entity: 3,
        translation: [0, 0, 0],
        size: 500,
    });
    let before = reconciler.local_entity(3);
    assert_eq!(reconciler.apply_message(ServerMessages::DespawnEntity { entity: 4 }), vec![]);
    assert_eq!(reconciler.len(), 1);
    assert_eq!(reconciler.local_entity(3), before);
}

#[test]
fn update_sets_the_size_of_the_mapped_copy() {
    let mut reconciler = Reconciler::new(42);
    reconciler.apply_message(ServerMessages::PlayerCreate {
        entity: 3,
        id: 7,
        translation: [5, 0, 5],
    });
    let changes = reconciler.apply_message(ServerMessages::UpdateEntityCell {
        entity: 3,
        size: 3500,
    });
    assert_eq!(changes, vec![SceneChange::Resized { entity: 0, size: 3500 }]);
    let copy = reconciler.local_entity(3).unwrap();
    assert_eq!(copy.cell, Cell { size: 3500 });
    assert_eq!(copy.translation, [5, 0, 5]);
    assert_eq!(copy.entity, 0);
}

#[test]
fn applying_an_update_twice_is_as_applying_it_once() {
    let mut once = Reconciler::new(42);
    let mut twice = Reconciler::new(42);
    let create = ServerMessages::PlayerCreate { entity: 3, id: 7, translation: [5, 0, 5] };
    let update = ServerMessages::UpdateEntityCell { entity: 3, size: 2750 };
    once.apply_message(create);
    twice.apply_message(create);
    once.apply_message(update);
    twice.apply_message(update);
    twice.apply_message(update);
    assert_eq!(once.local_entity(3), twice.local_entity(3));
    assert_eq!(twice.local_entity(3).unwrap().cell.size, 2750);
    assert_eq!(once.len(), twice.len());
}

#[test]
fn update_of_an_unknown_body_changes_nothing() {
    let mut reconciler = Reconciler::new(42);
    reconciler.apply_message(ServerMessages::PlayerCreate {
        entity: 3,
        id: 7,
        translation: [5, 0, 5],
    });
    let before = reconciler.local_entity(3);
    let changes = reconciler.apply_message(ServerMessages::UpdateEntityCell {
        entity: 4,
        size: 9000,
    });
    assert_eq!(changes, vec![]);
    assert_eq!(reconciler.local_entity(3), before);
    assert_eq!(reconciler.local_entity(4), None);
    assert_eq!(reconciler.len(), 1);
}

#[test]
fn snapshot_overwrites_position_and_scale_of_mapped_copies() {
    let mut reconciler = Reconciler::new(42);
    reconciler.apply_message(ServerMessages::PlayerCreate {
        entity: 3,
        id: 7,
        translation: [0, 0, 0],
    });
    reconciler.apply_message(ServerMessages::PlayerCreate {
        entity: 4,
        id: 8,
        translation: [0, 0, 0],
    });
    let changes = reconciler.apply_snapshot(
        1,
        &snapshot(&[
            (4, [10, 0, 20], [250, 250, 250]),
            (99, [1, 1, 1], [1, 1, 1]),
            (3, [-5, 0, -6], [300, 300, 300]),
        ]),
    );
    assert_eq!(
        changes,
        vec![
            SceneChange::Moved { entity: 1, translation: [10, 0, 20], scale: [250, 250, 250] },
            SceneChange::Moved { entity: 0, translation: [-5, 0, -6], scale: [300, 300, 300] },
        ]
    );
    let first = reconciler.local_entity(3).unwrap();
    assert_eq!(first.translation, [-5, 0, -6]);
    assert_eq!(first.scale, [300, 300, 300]);
    assert_eq!(first.cell.size, 1000);
    let second = reconciler.local_entity(4).unwrap();
    assert_eq!(second.translation, [10, 0, 20]);
    assert_eq!(second.scale, [250, 250, 250]);
    assert_eq!(reconciler.local_entity(99), None);
    assert_eq!(reconciler.len(), 2);
}

#[test]
fn snapshot_of_unmapped_bodies_changes_nothing() {
    let mut reconciler = Reconciler::new(42);
    reconciler.apply_message(ServerMessages::PlayerCreate {
        entity: 3,
        id: 7,
        translation: [1, 2, 3],
    });
    let before = reconciler.local_entity(3);
    let changes = reconciler.apply_snapshot(5, &snapshot(&[(8, [9, 9, 9], [9, 9, 9])]));
    assert_eq!(changes, vec![]);
    assert_eq!(reconciler.local_entity(3), before);
    assert_eq!(reconciler.len(), 1);
}

#[test]
fn stale_snapshot_is_dropped_whole() {
    let mut reconciler = Reconciler::new(42);
    reconciler.apply_message(ServerMessages::PlayerCreate {
        entity: 3,
        id: 7,
        translation: [0, 0, 0],
    });
    reconciler.apply_snapshot(10, &snapshot(&[(3, [100, 0, 100], [250, 250, 250])]));
    let changes = reconciler.apply_snapshot(9, &snapshot(&[(3, [50, 0, 50], [1, 1, 1])]));
    assert_eq!(changes, vec![]);
    assert_eq!(reconciler.local_entity(3).unwrap().translation, [100, 0, 100]);
    assert_eq!(reconciler.local_entity(3).unwrap().scale, [250, 250, 250]);
    let changes = reconciler.apply_snapshot(11, &snapshot(&[(3, [50, 0, 50], [1, 1, 1])]));
    assert_eq!(changes.len(), 1);
    assert_eq!(reconciler.local_entity(3).unwrap().translation, [50, 0, 50]);
}

#[test]
fn applying_a_snapshot_twice_is_as_applying_it_once() {
    let mut once = Reconciler::new(42);
    let mut twice = Reconciler::new(42);
    let create = ServerMessages::PlayerCreate { entity: 3, id: 7, translation: [0, 0, 0] };
    once.apply_message(create);
    twice.apply_message(create);
    let sent = snapshot(&[
        (3, [1, 0, 1], [250, 250, 250]),
        (3, [2, 0, 2], [300, 300, 300]),
    ]);
    once.apply_snapshot(4, &sent);
    twice.apply_snapshot(4, &sent);
    twice.apply_snapshot(4, &sent);
    assert_eq!(once.local_entity(3), twice.local_entity(3));
    assert_eq!(once.local_entity(3).unwrap().translation, [2, 0, 2]);
    assert_eq!(once.local_entity(3).unwrap().scale, [300, 300, 300]);
}

#[test]
fn frame_applies_messages_before_snapshots() {
    let mut reconciler = Reconciler::new(42);
    let messages = vec![
        ServerMessages::PlayerCreate { entity: 3, id: 42, translation: [0, 0, 0] },
        ServerMessages::SpawnNpcCell { entity: 4, translation: [7, 0, 7], size: 800 },
        ServerMessages::UpdateEntityCell { entity: 3, size: 1400 },
        ServerMessages::DespawnEntity { entity: 4 },
    ];
    let snapshots = vec![
        SequencedSnapshot { sequence: 2, snapshot: snapshot(&[(3, [20, 0, 20], [350, 350, 350])]) },
        SequencedSnapshot { sequence: 1, snapshot: snapshot(&[(3, [10, 0, 10], [1, 1, 1])]) },
    ];
    let changes = reconciler.client_sync_players(&messages, &snapshots);
    let npc = LocalEntity {
        entity: 1,
        kind: EntityKind::Npc(NpcCell),
        cell: Cell { size: 800 },
        translation: [7, -400, 7],
        scale: [1000, 1000, 1000],
    };
    assert_eq!(
        changes,
        vec![
            SceneChange::Spawned { local: player_copy(0, 42, [0, 0, 0]), controlled: true },
            SceneChange::Spawned { local: npc, controlled: false },
            SceneChange::Resized { entity: 0, size: 1400 },
            SceneChange::Despawned { entity: 1 },
            SceneChange::Moved { entity: 0, translation: [20, 0, 20], scale: [350, 350, 350] },
        ]
    );
    let copy = reconciler.controlled_player().unwrap();
    assert_eq!(copy.cell.size, 1400);
    assert_eq!(copy.translation, [20, 0, 20]);
    assert_eq!(reconciler.len(), 1);
}

#[test]
fn disconnect_clears_the_scene() {
    let mut reconciler = Reconciler::new(42);
    reconciler.apply_message(ServerMessages::PlayerCreate {
        entity: 3,
        id: 42,
        translation: [0, 0, 0],
    });
    reconciler.apply_snapshot(10, &snapshot(&[]));
    reconciler.set_state(GameState::InGame);
    reconciler.disconnect();
    assert_eq!(reconciler.len(), 0);
    assert_eq!(reconciler.player(42), None);
    assert_eq!(reconciler.controlled_player(), None);
    assert_eq!(reconciler.state(), GameState::MainMenu);
    assert_eq!(reconciler.client_id(), 42);
    reconciler.apply_message(ServerMessages::PlayerCreate {
        entity: 3,
        id: 42,
        translation: [0, 0, 0],
    });
    assert_eq!(reconciler.local_entity(3).unwrap().entity, 1);
    let changes = reconciler.apply_snapshot(1, &snapshot(&[(3, [5, 5, 5], [2, 2, 2])]));
    assert_eq!(changes.len(), 1);
}

#[test]
fn room_shrinks_with_each_copy() {
    let mut reconciler = Reconciler::new(42);
    assert_eq!(reconciler.room(), u64::MAX);
    reconciler.apply_message(ServerMessages::PlayerCreate {
        entity: 3,
        id: 7,
        translation: [0, 0, 0],
    });
    reconciler.apply_message(ServerMessages::UpdateEntityCell { entity: 3, size: 5 });
    reconciler.apply_message(ServerMessages::DespawnEntity { entity: 3 });
    assert_eq!(reconciler.room(), u64::MAX - 1);
}
