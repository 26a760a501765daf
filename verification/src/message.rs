//! The internal message bus: what the reactor, the interface shell and the
//! audio engine say to one another, reduced to plain values.
//!
//! Query identifiers are the application's own numbering of its distributed
//! hash table queries; topics and transport addresses travel in textual
//! form; instants and calendar times are the two clocks of [`crate::state`].

use vstd::prelude::*;

verus! {

use crate::peer::PeerId;
use crate::save_state::{Account, Friend, TheManSaveState};
use crate::state::{IdentifyInfo, PeerStatus, PingError, PingOk};

/// A snapshot of the connection machinery, for display.
#[derive(Clone, Copy, PartialEq, Eq, Structural, Debug)]
pub struct SwarmStatus {
    pub num_peers: usize,
    pub num_connections: u32,
    pub pending_incoming: u32,
    pub pending_outgoing: u32,
    pub established_incoming: u32,
    pub established_outgoing: u32,
}

/// How far a distributed hash table query has come.
#[derive(Clone, Copy, PartialEq, Eq, Structural, Debug)]
pub struct ProgressStep {
    /// How many progress reports this query has produced so far.
    pub count: usize,
    /// Whether this report completes the query.
    pub last: bool,
}

/// A record fetched from or published to the distributed hash table.
#[derive(Clone, Debug)]
pub struct DhtRecord {
    pub key: Vec<u8>,
    pub value: Vec<u8>,
    pub publisher: Option<PeerId>,
    /// When the record lapses, as an instant, if the store told us.
    pub expires: Option<u64>,
}

/// What one distributed hash table query reported.
#[derive(Clone, Debug)]
pub enum QueryUpdate {
    /// A closest-peers lookup reported these peers for this key.
    ClosestPeers { key: Vec<u8>, peers: Vec<PeerId> },
    /// A record fetch returned a record, or came up empty.
    FoundRecord(Option<DhtRecord>),
    /// A record publication finished, well or not.
    PutRecord { ok: bool },
    /// A routing-table refresh step.
    Bootstrap { ok: bool },
    /// Any other report kind; forwarded for display only.
    Other,
}

/// One text message received on a subscribed topic.
#[derive(Clone, Debug)]
pub struct GossipMessage {
    pub source: Option<PeerId>,
    pub data: Vec<u8>,
    pub topic: String,
}

/// A request or report of the interface shell.
#[derive(Clone, Debug)]
pub enum GuiMessage {
    Friends(Vec<Friend>),
    RefreshFriends,
}

/// A command to or report from the audio engine.
#[derive(Clone, Debug)]
pub enum AudioMessage {
    CreateInputChannel { id: usize, codec: String },
    CreateOutputChannel { id: usize, codec: String },
    ResCreateInputChannel(usize, String),
    ResCreateOutputChannel(usize, String),
    DestroyInputChannel { id: usize },
    DestroyOuputChannel { id: usize },
    InputData { id: usize, data: Vec<u8> },
    OutputData { id: usize, data: Vec<u8> },
    InputError { id: usize, error: String },
    OutputError { id: usize, error: String },
}

/// A voice-relay command or report.
#[derive(Clone, Debug)]
pub enum VoiceMessage {
    Connect(String),
    Disconnect(String),
    Request(String, PeerId),
    UnRequest(String, PeerId),
    Disconnected(PeerId),
    Accept(String, PeerId),
    Refuse(String, PeerId),
}

/// Everything that travels between the reactor, the shell and the audio
/// engine.
#[derive(Debug)]
pub enum Message {
    Gui(GuiMessage),
    Audio(AudioMessage),
    Voice(VoiceMessage),
    SwarmStatus(SwarmStatus),
    Save,
    SaveResponse(Option<TheManSaveState>),
    BootstrapSet(bool),
    GetBootNodes,
    BootNodes(Vec<(PeerId, Vec<String>)>),
    GetPeers,
    Peers(Vec<(PeerId, PeerStatus)>),
    AccountActivate(usize, PeerId),
    SetAccount(usize),
    GetAccounts,
    Accounts(Vec<Account>),
    UpdateAccounts(Vec<Account>),
    GetAdresses,
    Adresses(Vec<String>),
    SearchForKey(Vec<u8>),
    ResSearchForKey(Vec<u8>, u64),
    SearchForRecord(Vec<u8>),
    ResSearchForRecord(Vec<u8>, u64),
    KademliaQueryProgress(u64, QueryUpdate, ProgressStep),
    SubscribeTopic(String),
    UnsubscibeTopic(String),
    NewMessage(String, GossipMessage),
    NewSubscribed(PeerId, String),
    DestroySubscriber(PeerId, String),
    SendMessage(String, Vec<u8>),
    FindMe,
    ShutDown,
}

/// An event arriving from the connection machinery, already reduced to the
/// variants the core acts on; everything else is [`NetEvent::Other`].
#[derive(Debug)]
pub enum NetEvent {
    /// A distributed hash table query progressed under the application's
    /// numbering of its queries.
    KademliaProgress { id: u64, result: QueryUpdate, step: ProgressStep },
    /// A peer described itself.
    IdentifyReceived { peer: PeerId, info: IdentifyInfo },
    /// A ping to a peer finished.
    PingResult { peer: PeerId, result: Result<PingOk, PingError> },
    /// A text message arrived on a subscribed topic.
    GossipMessage { message: GossipMessage },
    /// A peer subscribed to a topic.
    GossipSubscribed { peer: PeerId, topic: String },
    /// A peer unsubscribed from a topic.
    GossipUnsubscribed { peer: PeerId, topic: String },
    /// A voice-relay event from the channel-mesh behaviour.
    TheMan(crate::behaviour::BehaviourEvent),
    /// A connection to a peer was established.
    ConnectionEstablished { peer: PeerId },
    /// A connection to a peer closed.
    ConnectionClosed { peer: PeerId },
    /// A listener or dialing change worth a status refresh.
    ListenerUpdate,
    /// Anything else; logged and dropped.
    Other,
}

/// What the reactor asks the connection machinery to do.
#[derive(Clone, Debug)]
pub enum SwarmCommand {
    /// Start a routing-table refresh; its query gets the paired number.
    Bootstrap { query_id: u64 },
    /// Look up the peers closest to this key; the query gets the paired
    /// number.
    GetClosestPeers { query_id: u64, key: Vec<u8> },
    /// Fetch a record; the query gets the paired number.
    GetRecord { query_id: u64, key: Vec<u8> },
    /// Publish a self-certifying name record with majority quorum; the
    /// query gets the paired number.
    PutRecord { query_id: u64, key: Vec<u8>, value: Vec<u8>, publisher: PeerId, expires: u64 },
    /// Subscribe to a topic.
    Subscribe { topic: String },
    /// Unsubscribe from a topic.
    Unsubscribe { topic: String },
    /// Publish bytes on a topic.
    Publish { topic: String, data: Vec<u8> },
    /// Join a voice channel on the channel-mesh behaviour.
    VoiceConnect { channel: String },
    /// Leave a voice channel on the channel-mesh behaviour.
    VoiceDisconnect { channel: String },
    /// Accept a peer's voice on a channel.
    VoiceAccept { channel: String, peer: PeerId },
    /// Refuse a peer's voice on a channel.
    VoiceRefuse { channel: String, peer: PeerId },
    /// Broadcast one encoded audio block to the accepted mesh.
    VoiceAudioPacket { codec: String, data: Vec<u8> },
}

} // verus!
