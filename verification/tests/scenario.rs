use cagario::cells::{spawn_npc_cell, Cell};
use cagario::client::{Reconciler, SequencedSnapshot};
use cagario::physics::resolve_collision;
use cagario::player::update_player_cell_size;
use cagario::registry::{Registry, SimulationEntity};
use cagario::server::{handle_connect, server_network_sync, Outgoing, Recipient};
use cagario::{GameState, ServerMessages};

fn deliver(outgoing: &[Outgoing], client: u64) -> Vec<ServerMessages> {
    outgoing
        .iter()
        .filter(|sent| match sent.recipient {
            Recipient::Everyone => true,
            Recipient::Client(id) => id == client,
        })
        .map(|sent| sent.message)
        .collect()
}

#[test]
fn two_clients_join_and_one_absorbs_a_cell() {
    let mut registry = Registry::new();

    let first = handle_connect(&mut registry, 1001);
    assert_eq!(
        first,
        vec![Outgoing {
            recipient: Recipient::Everyone,
            message: ServerMessages::PlayerCreate { entity: 0, id: 1001, translation: [0, 0, 0] },
        }]
    );

    let second = handle_connect(&mut registry, 1002);
    assert_eq!(
        second,
        vec![
            Outgoing {
                recipient: Recipient::Client(1002),
                message: ServerMessages::PlayerCreate {
                    entity: 0,
                    id: 1001,
                    translation: [0, 0, 0],
                },
            },
            Outgoing {
                recipient: Recipient::Everyone,
                message: ServerMessages::PlayerCreate {
                    entity: 1,
                    id: 1002,
                    translation: [0, 0, 0],
                },
            },
        ]
    );

    let player = registry.entity_for(1001).unwrap();
    let body = registry.get(player).unwrap();
    registry.put(SimulationEntity { cell: Cell { size: 3000 }, ..body });
    let spawned = spawn_npc_cell(&mut registry, 100, 100, 1000);
    let cell = match spawned {
        ServerMessages::SpawnNpcCell { entity, .. } => entity,
        other => panic!("expected a spawned cell, got {:?}", other),
    };

    let resolved = resolve_collision(&mut registry, player, cell);
    assert_eq!(
        resolved,
        vec![
            ServerMessages::UpdateEntityCell { entity: player, size: 3500 },
            ServerMessages::DespawnEntity { entity: cell },
        ]
    );
    assert_eq!(registry.get(player).unwrap().cell.size, 3500);
    assert_eq!(registry.get(cell), None);
}

#[test]
fn clients_end_up_with_the_servers_world() {
    let mut registry = Registry::new();
    let mut a = Reconciler::new(1001);
    let mut b = Reconciler::new(1002);
    a.set_state(GameState::InGame);
    b.set_state(GameState::InGame);

    let first = handle_connect(&mut registry, 1001);
    a.client_sync_players(&deliver(&first, 1001), &vec![]);
    let second = handle_connect(&mut registry, 1002);
    a.client_sync_players(&deliver(&second, 1001), &vec![]);
    b.client_sync_players(&deliver(&second, 1002), &vec![]);
    assert_eq!(a.len(), 2);
    assert_eq!(b.len(), 2);
    assert_eq!(a.controlled_player().unwrap().entity, a.local_entity(0).unwrap().entity);
    assert_eq!(b.controlled_player().unwrap().entity, b.local_entity(1).unwrap().entity);

    let spawned = spawn_npc_cell(&mut registry, 100, 100, 800);
    let absorbed = resolve_collision(&mut registry, 0, 2);
    let mut messages = vec![spawned];
    messages.extend(absorbed);
    update_player_cell_size(&mut registry);
    let frame = vec![SequencedSnapshot { sequence: 1, snapshot: server_network_sync(&registry) }];
    a.client_sync_players(&messages, &frame);
    b.client_sync_players(&messages, &frame);
    for client in [&a, &b] {
        assert_eq!(client.len(), 2);
        assert_eq!(client.local_entity(2), None);
        let grown = client.local_entity(0).unwrap();
        assert_eq!(grown.cell.size, 1400);
        assert_eq!(grown.scale, [350, 350, 350]);
        assert_eq!(client.local_entity(1).unwrap().scale, [250, 250, 250]);
    }

    let body = registry.get(0).unwrap();
    registry.put(SimulationEntity { cell: Cell { size: 2000 }, ..body });
    let eliminated = resolve_collision(&mut registry, 1, 0);
    assert_eq!(
        eliminated,
        vec![
            ServerMessages::UpdateEntityCell { entity: 0, size: 2500 },
            ServerMessages::PlayerRemove { id: 1002 },
            ServerMessages::DespawnEntity { entity: 1 },
        ]
    );
    a.client_sync_players(&eliminated, &vec![]);
    b.client_sync_players(&eliminated, &vec![]);
    assert_eq!(a.state(), GameState::InGame);
    assert_eq!(b.state(), GameState::MainMenu);
    assert_eq!(b.controlled_player(), None);
    assert_eq!(a.len(), 1);
    assert_eq!(b.len(), 1);
    assert_eq!(a.controlled_player().unwrap().cell.size, 2500);
}
