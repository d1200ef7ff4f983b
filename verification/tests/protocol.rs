use cagario::{
    client_connection_config, server_connection_config, ChannelConfig, ClientChannel,
    NetworkedEntities, PlayerInput, ServerChannel, FIELD_SIZE, PROTOCOL_ID, UNIT,
};

#[test]
fn constants_are_fixed_point() {
    assert_eq!(UNIT, 1000);
    assert_eq!(FIELD_SIZE, 900 * UNIT);
    assert_eq!(PROTOCOL_ID, 7);
}

#[test]
fn client_channel_ids() {
    assert_eq!(u8::from(ClientChannel::Command), 0);
    assert_eq!(u8::from(ClientChannel::Input), 1);
}

#[test]
fn server_channel_ids() {
    assert_eq!(u8::from(ServerChannel::NetworkedEntities), 0);
    assert_eq!(u8::from(ServerChannel::ServerMessages), 1);
}

#[test]
fn client_channels_are_reliable_without_resend_delay() {
    assert_eq!(
        ClientChannel::channels_config(),
        vec![
            ChannelConfig::Reliable { channel_id: 1, message_resend_time_ms: 0 },
            ChannelConfig::Reliable { channel_id: 0, message_resend_time_ms: 0 },
        ]
    );
}

#[test]
fn server_channels_are_sequenced_snapshots_and_reliable_messages() {
    assert_eq!(
        ServerChannel::channels_config(),
        vec![
            ChannelConfig::Unreliable { channel_id: 0, sequenced: true },
            ChannelConfig::Reliable { channel_id: 1, message_resend_time_ms: 200 },
        ]
    );
}

#[test]
fn connection_configs_mirror_each_other() {
    let client = client_connection_config();
    let server = server_connection_config();
    assert_eq!(client.send_channels_config, ClientChannel::channels_config());
    assert_eq!(client.receive_channels_config, ServerChannel::channels_config());
    assert_eq!(server.send_channels_config, client.receive_channels_config);
    assert_eq!(server.receive_channels_config, client.send_channels_config);
}

#[test]
fn default_input_has_no_key_down() {
    let input = PlayerInput::default();
    assert_eq!(input, PlayerInput { up: false, down: false, left: false, right: false });
}

#[test]
fn snapshot_push_keeps_sequences_parallel() {
    let mut snapshot = NetworkedEntities::new();
    assert!(snapshot.is_well_formed());
    assert!(snapshot.entities.is_empty());
    snapshot.push(4, [1, 2, 3], [250, 250, 250]);
    snapshot.push(9, [-1, 0, 7], [1000, 1000, 1000]);
    assert!(snapshot.is_well_formed());
    assert_eq!(snapshot.entities, vec![4, 9]);
    assert_eq!(snapshot.translations, vec![[1, 2, 3], [-1, 0, 7]]);
    assert_eq!(snapshot.scalings, vec![[250, 250, 250], [1000, 1000, 1000]]);
}

#[test]
fn snapshot_with_unequal_sequences_is_not_well_formed() {
    let snapshot = NetworkedEntities {
        entities: vec![1, 2],
        translations: vec![[0, 0, 0]],
        scalings: vec![[1000, 1000, 1000], [1000, 1000, 1000]],
    };
    assert!(!snapshot.is_well_formed());
    assert!(NetworkedEntities::default().is_well_formed());
}

#[test]
fn each_kind_of_message_has_its_channel() {
    let input = PlayerInput::default();
    assert_eq!(input.channel(), ClientChannel::Input);
    let command = cagario::PlayerCommand::BasicAttack { cast_at: [1, 2, 3] };
    assert_eq!(command.channel(), ClientChannel::Command);
    let message = cagario::ServerMessages::PlayerRemove { id: 1 };
    assert_eq!(message.channel(), ServerChannel::ServerMessages);
    assert_eq!(NetworkedEntities::new().channel(), ServerChannel::NetworkedEntities);
}

#[test]
fn clamp_holds_a_number_within_an_i64() {
    assert_eq!(cagario::clamp(0), 0);
    assert_eq!(cagario::clamp(-5), -5);
    assert_eq!(cagario::clamp(i64::MAX as i128), i64::MAX);
    assert_eq!(cagario::clamp(i64::MAX as i128 + 1), i64::MAX);
    assert_eq!(cagario::clamp(i64::MIN as i128 - 1), i64::MIN);
    assert_eq!(cagario::clamp(i128::MAX), i64::MAX);
    assert_eq!(cagario::clamp(i128::MIN), i64::MIN);
}

#[test]
fn camera_stands_behind_and_above_the_cell() {
    let camera = cagario::camera_follow([1000, 0, -2000], 1000);
    assert_eq!(camera.target, [1000, 0, -2000]);
    assert_eq!(camera.eye, [1000, 3000, 15_500]);
    let camera = cagario::camera_follow([0, 500, 0], 3500);
    assert_eq!(camera.eye, [0, 11_000, 20_000]);
}

#[test]
fn camera_stops_at_the_end_of_the_number_line() {
    let camera = cagario::camera_follow([7, i64::MAX, i64::MAX - 10], u64::MAX);
    assert_eq!(camera.eye, [7, i64::MAX, i64::MAX]);
    assert_eq!(camera.target, [7, i64::MAX, i64::MAX - 10]);
    let camera = cagario::camera_follow([7, i64::MIN, i64::MIN], 2);
    assert_eq!(camera.eye, [7, i64::MIN + 6, i64::MIN + 16_502]);
}

#[test]
fn letters_and_arrows_steer_alike() {
    let none = cagario::player_input(false, false, false, false, false, false, false, false);
    assert_eq!(none, PlayerInput::default());
    let letters = cagario::player_input(true, false, false, false, false, false, true, false);
    assert_eq!(letters, PlayerInput { up: true, down: false, left: false, right: true });
    let arrows = cagario::player_input(false, true, false, false, false, false, false, true);
    assert_eq!(arrows, letters);
    let other = cagario::player_input(false, false, true, false, false, true, false, false);
    assert_eq!(other, PlayerInput { up: false, down: true, left: true, right: false });
    let both = cagario::player_input(false, false, true, true, true, true, false, false);
    assert_eq!(both, other);
}
