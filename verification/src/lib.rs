//! Server-authoritative state synchronisation for a cell-eating arena game.
//!
//! The server owns every simulated body in a [`registry::Registry`], resolves
//! collisions into growth and elimination, and tells its clients what changed.
//! Each client mirrors that world through a [`client::Reconciler`], which turns
//! the stream of lifecycle messages and position snapshots into a local scene.
//! What the two then agree on is proved in [`sync`].
//!
//! All quantities are fixed-point integers: a thousand units of size or of
//! distance make one world unit, and durations are counted in milliseconds.

use vstd::prelude::*;
use vstd::std_specs::convert::FromSpec;

pub mod cells;
pub mod client;
pub mod physics;
pub mod player;
pub mod registry;
pub mod server;
pub mod sync;

verus! {

/// How many fixed-point units make one world unit.
pub const UNIT: i64 = 1000;

/// The edge length of the square playing field, centred on the origin.
pub const FIELD_SIZE: i64 = 900_000;

/// The protocol version that both ends exchange when a connection is made.
pub const PROTOCOL_ID: u64 = 7;

/// The mode a client is in.
#[derive(Debug, Clone, Copy, PartialEq, Eq, Hash)]
pub enum GameState {
    MainMenu,
    InGame,
    GameOver,
}

/// Marks a simulated body as the cell of the connected player `id`.
#[derive(Debug, Clone, Copy, PartialEq, Eq)]
pub struct Player {
    pub id: u64,
}

/// The state of the four movement keys of one player.
#[derive(Debug, Clone, Copy, PartialEq, Eq)]
pub struct PlayerInput {
    pub up: bool,
    pub down: bool,
    pub left: bool,
    pub right: bool,
}

impl Default for PlayerInput {
    fn default() -> (input: Self)
        ensures
            input == (PlayerInput { up: false, down: false, left: false, right: false }),
    {
        PlayerInput { up: false, down: false, left: false, right: false }
    }
}

/// A discrete action that a client asks the server to perform.
#[derive(Debug, Clone, Copy, PartialEq, Eq)]
pub enum PlayerCommand {
    BasicAttack { cast_at: [i64; 3] },
}

/// The channels on which a client sends. Both are reliable and ordered.
#[derive(Debug, Clone, Copy, PartialEq, Eq)]
pub enum ClientChannel {
    Input,
    Command,
}

/// The channels on which the server sends.
#[derive(Debug, Clone, Copy, PartialEq, Eq)]
pub enum ServerChannel {
    /// Reliable and ordered: lifecycle messages.
    ServerMessages,
    /// Unreliable and sequenced: position snapshots.
    NetworkedEntities,
}

/// A lifecycle message from the server to its clients.
#[derive(Debug, Clone, Copy, PartialEq, Eq)]
pub enum ServerMessages {
    PlayerCreate { entity: u64, id: u64, translation: [i64; 3] },
    PlayerRemove { id: u64 },
    SpawnNpcCell { entity: u64, translation: [i64; 3], size: u64 },
    DespawnEntity { entity: u64 },
    UpdateEntityCell { entity: u64, size: u64 },
}

/// One snapshot of every movable body: three parallel sequences that hold, at
/// each index, a body's handle, its position and its scale.
#[derive(Debug, Clone, PartialEq, Eq)]
pub struct NetworkedEntities {
    pub entities: Vec<u64>,
    pub translations: Vec<[i64; 3]>,
    pub scalings: Vec<[i64; 3]>,
}

impl NetworkedEntities {
    /// The three sequences have one length.
    pub open spec fn wf(&self) -> bool {
        &&& self.translations@.len() == self.entities@.len()
        &&& self.scalings@.len() == self.entities@.len()
    }

    /// A snapshot of no bodies.
    pub fn new() -> (snapshot: Self)
        ensures
            snapshot.wf(),
            snapshot.entities@ == Seq::<u64>::empty(),
            snapshot.translations@ == Seq::<[i64; 3]>::empty(),
            snapshot.scalings@ == Seq::<[i64; 3]>::empty(),
    {
        NetworkedEntities { entities: Vec::new(), translations: Vec::new(), scalings: Vec::new() }
    }

    /// Whether the three sequences have one length.
    pub fn is_well_formed(&self) -> (ok: bool)
        ensures
            ok == self.wf(),
    {
        self.translations.len() == self.entities.len() && self.scalings.len()
            == self.entities.len()
    }

    /// The channel on which the server sends snapshots: the unreliable one,
    /// on which only the newest counts.
    pub fn channel(&self) -> (channel: ServerChannel)
        ensures
            channel == ServerChannel::NetworkedEntities,
    {
        ServerChannel::NetworkedEntities
    }

    /// Adds one body at the end of the snapshot.
    pub fn push(&mut self, entity: u64, translation: [i64; 3], scaling: [i64; 3])
        requires
            old(self).wf(),
        ensures
            final(self).wf(),
            final(self).entities@ == old(self).entities@.push(entity),
            final(self).translations@ == old(self).translations@.push(translation),
            final(self).scalings@ == old(self).scalings@.push(scaling),
    {
        self.entities.push(entity);
        self.translations.push(translation);
        self.scalings.push(scaling);
    }
}

impl PlayerInput {
    /// The channel on which a client sends its keys.
    pub fn channel(&self) -> (channel: ClientChannel)
        ensures
            channel == ClientChannel::Input,
    {
        ClientChannel::Input
    }
}

impl PlayerCommand {
    /// The channel on which a client sends its commands.
    pub fn channel(&self) -> (channel: ClientChannel)
        ensures
            channel == ClientChannel::Command,
    {
        ClientChannel::Command
    }
}

impl ServerMessages {
    /// The channel on which the server sends lifecycle messages: the reliable
    /// one, so that each arrives once and in order.
    pub fn channel(&self) -> (channel: ServerChannel)
        ensures
            channel == ServerChannel::ServerMessages,
    {
        ServerChannel::ServerMessages
    }
}

impl Default for NetworkedEntities {
    fn default() -> (snapshot: Self)
        ensures
            snapshot.wf(),
            snapshot.entities@ == Seq::<u64>::empty(),
            snapshot.translations@ == Seq::<[i64; 3]>::empty(),
            snapshot.scalings@ == Seq::<[i64; 3]>::empty(),
    {
        NetworkedEntities::new()
    }
}

/// How one channel of a connection is set up.
#[derive(Debug, Clone, Copy, PartialEq, Eq)]
pub enum ChannelConfig {
    /// Delivers every message exactly once and in the order sent; a message
    /// that was not acknowledged is sent again after `message_resend_time_ms`.
    Reliable { channel_id: u8, message_resend_time_ms: u64 },
    /// Delivers at most once; when `sequenced`, a message that arrives after a
    /// newer one is dropped.
    Unreliable { channel_id: u8, sequenced: bool },
}

impl ChannelConfig {
    pub open spec fn channel_id(self) -> u8 {
        match self {
            ChannelConfig::Reliable { channel_id, .. } => channel_id,
            ChannelConfig::Unreliable { channel_id, .. } => channel_id,
        }
    }
}

/// The channels of one end of a connection.
#[derive(Debug, Clone, PartialEq, Eq)]
pub struct ConnectionConfig {
    pub send_channels_config: Vec<ChannelConfig>,
    pub receive_channels_config: Vec<ChannelConfig>,
}

impl From<ClientChannel> for u8 {
    fn from(channel_id: ClientChannel) -> (id: u8) {
        match channel_id {
            ClientChannel::Command => 0,
            ClientChannel::Input => 1,
        }
    }
}

impl vstd::std_specs::convert::FromSpecImpl<ClientChannel> for u8 {
    open spec fn obeys_from_spec() -> bool {
        true
    }

    open spec fn from_spec(channel_id: ClientChannel) -> u8 {
        match channel_id {
            ClientChannel::Command => 0,
            ClientChannel::Input => 1,
        }
    }
}

impl From<ServerChannel> for u8 {
    fn from(channel_id: ServerChannel) -> (id: u8) {
        match channel_id {
            ServerChannel::NetworkedEntities => 0,
            ServerChannel::ServerMessages => 1,
        }
    }
}

impl vstd::std_specs::convert::FromSpecImpl<ServerChannel> for u8 {
    open spec fn obeys_from_spec() -> bool {
        true
    }

    open spec fn from_spec(channel_id: ServerChannel) -> u8 {
        match channel_id {
            ServerChannel::NetworkedEntities => 0,
            ServerChannel::ServerMessages => 1,
        }
    }
}

impl ClientChannel {
    /// The channels a client sends on: both reliable, neither waits before it
    /// sends again.
    pub open spec fn spec_channels_config() -> Seq<ChannelConfig> {
        seq![
            ChannelConfig::Reliable { channel_id: 1, message_resend_time_ms: 0 },
            ChannelConfig::Reliable { channel_id: 0, message_resend_time_ms: 0 },
        ]
    }

    pub fn channels_config() -> (configs: Vec<ChannelConfig>)
        ensures
            configs@ == Self::spec_channels_config(),
            configs@[0].channel_id() == u8::from_spec(ClientChannel::Input),
            configs@[1].channel_id() == u8::from_spec(ClientChannel::Command),
    {
        let configs = vec![
            ChannelConfig::Reliable {
                channel_id: u8::from(ClientChannel::Input),
                message_resend_time_ms: 0,
            },
            ChannelConfig::Reliable {
                channel_id: u8::from(ClientChannel::Command),
                message_resend_time_ms: 0,
            },
        ];
        assert(configs@ =~= Self::spec_channels_config());
        configs
    }
}

impl ServerChannel {
    /// The channels the server sends on: snapshots unreliable and sequenced,
    /// lifecycle messages reliable with 200 ms before a message is sent again.
    pub open spec fn spec_channels_config() -> Seq<ChannelConfig> {
        seq![
            ChannelConfig::Unreliable { channel_id: 0, sequenced: true },
            ChannelConfig::Reliable { channel_id: 1, message_resend_time_ms: 200 },
        ]
    }

    pub fn channels_config() -> (configs: Vec<ChannelConfig>)
        ensures
            configs@ == Self::spec_channels_config(),
            configs@[0].channel_id() == u8::from_spec(ServerChannel::NetworkedEntities),
            configs@[1].channel_id() == u8::from_spec(ServerChannel::ServerMessages),
    {
        let configs = vec![
            ChannelConfig::Unreliable {
                channel_id: u8::from(ServerChannel::NetworkedEntities),
                sequenced: true,
            },
            ChannelConfig::Reliable {
                channel_id: u8::from(ServerChannel::ServerMessages),
                message_resend_time_ms: 200,
            },
        ];
        assert(configs@ =~= Self::spec_channels_config());
        configs
    }
}

/// A client sends on the client channels and receives on the server channels.
pub fn client_connection_config() -> (config: ConnectionConfig)
    ensures
        config.send_channels_config@ == ClientChannel::spec_channels_config(),
        config.receive_channels_config@ == ServerChannel::spec_channels_config(),
{
    ConnectionConfig {
        send_channels_config: ClientChannel::channels_config(),
        receive_channels_config: ServerChannel::channels_config(),
    }
}

/// The server sends on the server channels and receives on the client channels.
pub fn server_connection_config() -> (config: ConnectionConfig)
    ensures
        config.send_channels_config@ == ServerChannel::spec_channels_config(),
        config.receive_channels_config@ == ClientChannel::spec_channels_config(),
{
    ConnectionConfig {
        send_channels_config: ServerChannel::channels_config(),
        receive_channels_config: ClientChannel::channels_config(),
    }
}

/// The keys that reach the player's cell: each direction is asked for by its
/// letter key or by its arrow key.
pub fn player_input(
    w: bool,
    up: bool,
    s: bool,
    down: bool,
    a: bool,
    left: bool,
    d: bool,
    right: bool,
) -> (input: PlayerInput)
    ensures
        input == (PlayerInput { up: w || up, down: s || down, left: a || left, right: d || right }),
{
    PlayerInput { up: w || up, down: s || down, left: a || left, right: d || right }
}

/// A number as far as an `i64` reaches.
pub open spec fn clamped(number: int) -> i64 {
    if number > i64::MAX {
        i64::MAX
    } else if number < i64::MIN {
        i64::MIN
    } else {
        number as i64
    }
}

/// Brings a number into the range of an `i64`.
pub fn clamp(number: i128) -> (held: i64)
    ensures
        held == clamped(number as int),
{
    if number > i64::MAX as i128 {
        i64::MAX
    } else if number < i64::MIN as i128 {
        i64::MIN
    } else {
        number as i64
    }
}

/// Where a camera stands and what it looks at.
#[derive(Debug, Clone, Copy, PartialEq, Eq)]
pub struct LookTransform {
    pub eye: [i64; 3],
    pub target: [i64; 3],
}

/// How far behind a cell the camera stands, before the cell's size is added.
pub const CAMERA_DISTANCE: i64 = 16_500;

/// Where the camera stands to follow a cell of the given size at the given
/// place: behind it by 16.5 world units and the cell's size, above it by
/// three times the cell's size, and looking at it.
pub open spec fn following(translation: [i64; 3], size: u64) -> LookTransform {
    LookTransform {
        eye: [
            translation[0],
            clamped(translation[1] + 3 * size),
            clamped(translation[2] + CAMERA_DISTANCE + size),
        ],
        target: translation,
    }
}

/// Places the camera so that it follows the cell that the client steers.
pub fn camera_follow(translation: [i64; 3], size: u64) -> (camera: LookTransform)
    ensures
        camera == following(translation, size),
{
    let height: i128 = translation[1] as i128 + 3 * (size as i128);
    let depth: i128 = translation[2] as i128 + CAMERA_DISTANCE as i128 + size as i128;
    LookTransform { eye: [translation[0], clamp(height), clamp(depth)], target: translation }
}

} // verus!
