//! Channel-mesh behaviour: the local side of the voice-relay overlay.
//!
//! The behaviour owns the set of known peers, the set of channels the local
//! side has joined, and the mesh: one acceptance entry per (channel, peer)
//! pair. Application calls enqueue commands to peer handlers; handler events
//! update the mesh and surface application events. A voice packet from a peer
//! reaches the application only when the local side is joined to its channel
//! and that peer's mesh entry is `Accepted`; everything else is dropped.

use vstd::prelude::*;

verus! {

use crate::handler::{InputEvent, InputEventView, OutputEvent, OutputEventView};
use crate::peer::PeerId;

/// The acceptance stage of one (channel, peer) mesh entry.
#[derive(Clone, Copy, PartialEq, Eq, Structural, Debug)]
pub enum Stage {
    /// The peer asked to relay voice on the channel; the local user has not
    /// accepted yet.
    Requested,
    /// The local side relays voice from this peer on this channel.
    Accepted,
}

/// A connection-level failure reported by a handler; fatal to its connection.
#[derive(Clone, Debug)]
pub enum Failure {
    Other { error: String },
}

impl Failure {
    /// The human-readable description of this failure.
    pub fn message(&self) -> (r: &str)
        ensures
            match self {
                Failure::Other { error } => r@ == error@,
            },
    {
        match self {
            Failure::Other { error } => error.as_str(),
        }
    }
}

/// An event the behaviour surfaces to the application.
#[derive(Clone, Debug)]
pub enum BehaviourEvent {
    /// A voice packet from an accepted peer on a joined channel.
    VoicePacket { from: PeerId, codec: String, data: Vec<u8>, channel: String },
    /// A peer asks to relay voice on a channel; accept or refuse it.
    Request { channel: String, from: PeerId },
    /// A peer left a channel.
    Disconnected { channel: String, from: PeerId },
    /// A peer's connection closed; it is gone from every channel.
    VoiceDisconnected { from: PeerId },
    /// A voice command toward a peer failed.
    VoiceErrorConnection { to: PeerId, codec: String, channel: String, error: String },
}

/// The mathematical value of a [`BehaviourEvent`].
pub enum BehaviourEventView {
    VoicePacket { from: PeerId, codec: Seq<char>, data: Seq<u8>, channel: Seq<char> },
    Request { channel: Seq<char>, from: PeerId },
    Disconnected { channel: Seq<char>, from: PeerId },
    VoiceDisconnected { from: PeerId },
    VoiceErrorConnection { to: PeerId, codec: Seq<char>, channel: Seq<char>, error: Seq<char> },
}

impl View for BehaviourEvent {
    type V = BehaviourEventView;

    open spec fn view(&self) -> BehaviourEventView {
        match self {
            BehaviourEvent::VoicePacket { from, codec, data, channel } =>
                BehaviourEventView::VoicePacket {
                from: *from,
                codec: codec@,
                data: data@,
                channel: channel@,
            },
            BehaviourEvent::Request { channel, from } => BehaviourEventView::Request {
                channel: channel@,
                from: *from,
            },
            BehaviourEvent::Disconnected { channel, from } => BehaviourEventView::Disconnected {
                channel: channel@,
                from: *from,
            },
            BehaviourEvent::VoiceDisconnected { from } => BehaviourEventView::VoiceDisconnected {
                from: *from,
            },
            BehaviourEvent::VoiceErrorConnection { to, codec, channel, error } =>
                BehaviourEventView::VoiceErrorConnection {
                to: *to,
                codec: codec@,
                channel: channel@,
                error: error@,
            },
        }
    }
}

/// What the behaviour asks the swarm runtime to do.
#[derive(Clone, Debug)]
pub enum ToSwarmEvent {
    /// Surface this event to the application.
    GenerateEvent(BehaviourEvent),
    /// Deliver this command to the named peer's connection handler.
    NotifyHandler { peer_id: PeerId, event: InputEvent },
}

/// The mathematical value of a [`ToSwarmEvent`].
pub enum ToSwarmEventView {
    GenerateEvent(BehaviourEventView),
    NotifyHandler { peer_id: PeerId, event: InputEventView },
}

impl View for ToSwarmEvent {
    type V = ToSwarmEventView;

    open spec fn view(&self) -> ToSwarmEventView {
        match self {
            ToSwarmEvent::GenerateEvent(ev) => ToSwarmEventView::GenerateEvent(ev@),
            ToSwarmEvent::NotifyHandler { peer_id, event } => ToSwarmEventView::NotifyHandler {
                peer_id: *peer_id,
                event: event@,
            },
        }
    }
}

/// A swarm lifecycle report the behaviour acts on.
#[derive(Clone, Copy, Debug)]
pub enum FromSwarmEvent {
    /// The connection to this peer closed.
    ConnectionClosed { peer_id: PeerId },
    /// Any other lifecycle report; the behaviour ignores it.
    Other,
}

/// One mesh entry: the acceptance stage of one peer on one channel.
#[derive(Debug)]
pub struct MeshEntry {
    pub channel: String,
    pub peer: PeerId,
    pub stage: Stage,
}

/// The mathematical value of a [`MeshEntry`].
pub struct MeshEntryView {
    pub channel: Seq<char>,
    pub peer: PeerId,
    pub stage: Stage,
}

impl View for MeshEntry {
    type V = MeshEntryView;

    open spec fn view(&self) -> MeshEntryView {
        MeshEntryView { channel: self.channel@, peer: self.peer, stage: self.stage }
    }
}

// Every predicate or mapping handed to a sequence operation below is built by
// exactly one of these constructors, so that any two mentions of the same
// operation denote the same function value.

/// Keeps the channel names other than `channel`.
pub open spec fn pred_not_channel(channel: Seq<char>) -> spec_fn(Seq<char>) -> bool {
    |c: Seq<char>| c != channel
}

/// Keeps the mesh entries whose channel is not `channel`.
pub open spec fn pred_mesh_not_channel(channel: Seq<char>) -> spec_fn(MeshEntryView) -> bool {
    |e: MeshEntryView| e.channel != channel
}

/// Keeps the mesh entries whose peer is not `peer`.
pub open spec fn pred_mesh_not_peer(peer: PeerId) -> spec_fn(MeshEntryView) -> bool {
    |e: MeshEntryView| e.peer != peer
}

/// Keeps the mesh entries that are not the (channel, peer) pair.
pub open spec fn pred_mesh_not_pair(channel: Seq<char>, peer: PeerId) -> spec_fn(
    MeshEntryView,
) -> bool {
    |e: MeshEntryView| !(e.channel == channel && e.peer == peer)
}

/// Keeps the peers other than `peer`.
pub open spec fn pred_not_peer(peer: PeerId) -> spec_fn(PeerId) -> bool {
    |p: PeerId| p != peer
}

/// Wraps one command as a handler notification for a peer.
pub open spec fn notify_fn(ev: InputEventView) -> spec_fn(PeerId) -> ToSwarmEventView {
    |p: PeerId| ToSwarmEventView::NotifyHandler { peer_id: p, event: ev }
}

/// Sets the stage of the entries for the (channel, peer) pair; keeps the rest.
pub open spec fn set_stage_fn(channel: Seq<char>, peer: PeerId, stage: Stage) -> spec_fn(
    MeshEntryView,
) -> MeshEntryView {
    |e: MeshEntryView|
        if e.channel == channel && e.peer == peer {
            MeshEntryView { stage, ..e }
        } else {
            e
        }
}

/// Maps an accepted entry on a joined channel to its voice command.
pub open spec fn fanout_fn(connected: Seq<Seq<char>>, codec: Seq<char>, data: Seq<u8>) -> spec_fn(
    MeshEntryView,
) -> Option<ToSwarmEventView> {
    |e: MeshEntryView|
        if e.stage == Stage::Accepted && connected.contains(e.channel) {
            Some(
                ToSwarmEventView::NotifyHandler {
                    peer_id: e.peer,
                    event: InputEventView::VoicePacket { codec, data, channel: e.channel },
                },
            )
        } else {
            None
        }
}

/// The view of one mesh entry, for mapping a stored list to its value.
pub open spec fn mesh_view_fn() -> spec_fn(MeshEntry) -> MeshEntryView {
    |e: MeshEntry| e@
}

/// One handler command per listed peer, in list order.
pub open spec fn spec_notify_all(peers: Seq<PeerId>, ev: InputEventView) -> Seq<ToSwarmEventView> {
    peers.map_values(notify_fn(ev))
}

/// The acceptance stage of the first mesh entry for (channel, peer), if any.
pub open spec fn spec_mesh_stage(mesh: Seq<MeshEntryView>, channel: Seq<char>, peer: PeerId)
    -> Option<Stage>
    decreases mesh.len(),
{
    if mesh.len() == 0 {
        None
    } else if mesh[0].channel == channel && mesh[0].peer == peer {
        Some(mesh[0].stage)
    } else {
        spec_mesh_stage(mesh.drop_first(), channel, peer)
    }
}

/// Every mesh entry for (channel, peer) set to `stage`; other entries kept.
pub open spec fn spec_set_stage(
    mesh: Seq<MeshEntryView>,
    channel: Seq<char>,
    peer: PeerId,
    stage: Stage,
) -> Seq<MeshEntryView> {
    mesh.map_values(set_stage_fn(channel, peer, stage))
}

/// The entry for (channel, peer) set to `stage`, appended if it was absent.
pub open spec fn spec_upsert(
    mesh: Seq<MeshEntryView>,
    channel: Seq<char>,
    peer: PeerId,
    stage: Stage,
) -> Seq<MeshEntryView> {
    if spec_mesh_stage(mesh, channel, peer) is Some {
        spec_set_stage(mesh, channel, peer, stage)
    } else {
        mesh.push(MeshEntryView { channel, peer, stage })
    }
}

/// The mesh without any entry for (channel, peer).
pub open spec fn spec_remove_pair(mesh: Seq<MeshEntryView>, channel: Seq<char>, peer: PeerId)
    -> Seq<MeshEntryView> {
    mesh.filter(pred_mesh_not_pair(channel, peer))
}

/// The mesh without any entry for the named channel.
pub open spec fn spec_purge_channel(mesh: Seq<MeshEntryView>, channel: Seq<char>)
    -> Seq<MeshEntryView> {
    mesh.filter(pred_mesh_not_channel(channel))
}

/// The mesh without any entry for the named peer.
pub open spec fn spec_purge_peer(mesh: Seq<MeshEntryView>, peer: PeerId) -> Seq<MeshEntryView> {
    mesh.filter(pred_mesh_not_peer(peer))
}

/// The joined-channel set without the named channel.
pub open spec fn spec_remove_channel(connected: Seq<Seq<char>>, channel: Seq<char>)
    -> Seq<Seq<char>> {
    connected.filter(pred_not_channel(channel))
}

/// The known-peer set without the named peer.
pub open spec fn spec_remove_peer(peers: Seq<PeerId>, peer: PeerId) -> Seq<PeerId> {
    peers.filter(pred_not_peer(peer))
}

/// The voice fan-out of one audio block: one command per mesh entry whose
/// channel the local side has joined and whose stage is `Accepted`, in mesh
/// order, each carrying the same payload annotated with that entry's channel.
pub open spec fn spec_fanout(
    mesh: Seq<MeshEntryView>,
    connected: Seq<Seq<char>>,
    codec: Seq<char>,
    data: Seq<u8>,
) -> Seq<ToSwarmEventView> {
    mesh.filter_map(fanout_fn(connected, codec, data))
}

/// The mathematical state of a [`TheManBehaviour`].
pub struct BehaviourView {
    pub peer_id: PeerId,
    pub events: Seq<ToSwarmEventView>,
    pub mesh: Seq<MeshEntryView>,
    pub peers: Seq<PeerId>,
    pub connected: Seq<Seq<char>>,
    pub auto_accept: bool,
}

impl BehaviourView {
    /// The key collections are maps and sets: no peer, joined channel, or
    /// (channel, peer) mesh pair occurs twice.
    pub open spec fn wf(self) -> bool {
        &&& forall|i: int, j: int| 0 <= i < j < self.peers.len() ==> self.peers[i] != self.peers[j]
        &&& forall|i: int, j: int|
            0 <= i < j < self.connected.len() ==> self.connected[i] != self.connected[j]
        &&& forall|i: int, j: int|
            0 <= i < j < self.mesh.len() ==> !(self.mesh[i].channel == self.mesh[j].channel
                && self.mesh[i].peer == self.mesh[j].peer)
    }

    /// Joining a channel: it enters the joined set, and every known peer's
    /// handler is told to announce the join.
    pub open spec fn spec_connect(self, channel: Seq<char>) -> BehaviourView {
        BehaviourView {
            connected: if self.connected.contains(channel) {
                self.connected
            } else {
                self.connected.push(channel)
            },
            events: self.events + spec_notify_all(self.peers, InputEventView::Connect(channel)),
            ..self
        }
    }

    /// Leaving a channel: it leaves the joined set, every mesh entry for it
    /// is purged, and every known peer's handler is told to announce the
    /// leave.
    pub open spec fn spec_disconnect(self, channel: Seq<char>) -> BehaviourView {
        BehaviourView {
            connected: spec_remove_channel(self.connected, channel),
            mesh: spec_purge_channel(self.mesh, channel),
            events: self.events + spec_notify_all(self.peers, InputEventView::Disconnect(channel)),
            ..self
        }
    }

    /// Broadcasting one audio block: the voice fan-out commands are enqueued.
    pub open spec fn spec_audio_packet(self, codec: Seq<char>, data: Seq<u8>) -> BehaviourView {
        BehaviourView {
            events: self.events + spec_fanout(self.mesh, self.connected, codec, data),
            ..self
        }
    }

    /// Accepting a peer on a channel: its mesh entry becomes `Accepted`;
    /// a no-op when the pair is unknown.
    pub open spec fn spec_accept(self, channel: Seq<char>, peer: PeerId) -> BehaviourView {
        if spec_mesh_stage(self.mesh, channel, peer) is Some {
            BehaviourView {
                mesh: spec_set_stage(self.mesh, channel, peer, Stage::Accepted),
                ..self
            }
        } else {
            self
        }
    }

    /// Refusing a peer on a channel: its mesh entry goes back to `Requested`;
    /// a no-op when the pair is unknown.
    pub open spec fn spec_refuze(self, channel: Seq<char>, peer: PeerId) -> BehaviourView {
        if spec_mesh_stage(self.mesh, channel, peer) is Some {
            BehaviourView {
                mesh: spec_set_stage(self.mesh, channel, peer, Stage::Requested),
                ..self
            }
        } else {
            self
        }
    }

    /// Whether a voice packet on `channel` from `peer` is delivered to the
    /// application: the channel is joined and the peer's entry is `Accepted`.
    pub open spec fn spec_delivers(self, channel: Seq<char>, peer: PeerId) -> bool {
        self.connected.contains(channel) && spec_mesh_stage(self.mesh, channel, peer) == Some(
            Stage::Accepted,
        )
    }

    /// How one handler event changes the behaviour.
    pub open spec fn spec_on_handler_event(self, from: PeerId, ev: OutputEventView)
        -> BehaviourView {
        match ev {
            OutputEventView::VoicePacket { codec, data, channel } => {
                if self.spec_delivers(channel, from) {
                    BehaviourView {
                        events: self.events.push(
                            ToSwarmEventView::GenerateEvent(
                                BehaviourEventView::VoicePacket { from, codec, data, channel },
                            ),
                        ),
                        ..self
                    }
                } else {
                    self
                }
            },
            OutputEventView::Connected(channel) => {
                if self.auto_accept {
                    BehaviourView {
                        mesh: spec_upsert(self.mesh, channel, from, Stage::Accepted),
                        ..self
                    }
                } else {
                    BehaviourView {
                        mesh: spec_upsert(self.mesh, channel, from, Stage::Requested),
                        events: self.events.push(
                            ToSwarmEventView::GenerateEvent(
                                BehaviourEventView::Request { channel, from },
                            ),
                        ),
                        ..self
                    }
                }
            },
            OutputEventView::Disconnected(channel) => BehaviourView {
                mesh: spec_remove_pair(self.mesh, channel, from),
                events: self.events.push(
                    ToSwarmEventView::GenerateEvent(
                        BehaviourEventView::Disconnected { channel, from },
                    ),
                ),
                ..self
            },
            OutputEventView::SuccesfulyConnect => BehaviourView {
                peers: if self.peers.contains(from) {
                    self.peers
                } else {
                    self.peers.push(from)
                },
                ..self
            },
        }
    }

    /// A closed connection: the peer leaves the known set, all its mesh
    /// entries are purged, and the application learns it is fully gone.
    pub open spec fn spec_on_connection_closed(self, peer: PeerId) -> BehaviourView {
        BehaviourView {
            peers: spec_remove_peer(self.peers, peer),
            mesh: spec_purge_peer(self.mesh, peer),
            events: self.events.push(
                ToSwarmEventView::GenerateEvent(
                    BehaviourEventView::VoiceDisconnected { from: peer },
                ),
            ),
            ..self
        }
    }
}

/// Filtering keeps pairwise-distinct elements distinct.
proof fn lemma_filter_distinct<A>(s: Seq<A>, pred: spec_fn(A) -> bool)
    requires
        forall|i: int, j: int| 0 <= i < j < s.len() ==> s[i] != s[j],
    ensures
        forall|i: int, j: int|
            0 <= i < j < s.filter(pred).len() ==> s.filter(pred)[i] != s.filter(pred)[j],
    decreases s.len(),
{
    reveal(Seq::filter);
    if s.len() != 0 {
        let rest = s.drop_last();
        let f = s.filter(pred);
        let rf = rest.filter(pred);
        lemma_filter_distinct(rest, pred);
        if pred(s.last()) {
            assert(f == rf.push(s.last()));
            assert forall|i: int, j: int| 0 <= i < j < f.len() implies f[i] != f[j] by {
                if j < rf.len() {
                    assert(f[i] == rf[i] && f[j] == rf[j]);
                } else {
                    assert(f[j] == s.last());
                    assert(f[i] == rf[i]);
                    assert(rf.contains(rf[i]));
                    rest.lemma_filter_contains_rev(pred, rf[i]);
                    let m = choose|m: int| 0 <= m < rest.len() && rest[m] == rf[i];
                    assert(s[m] == rf[i]);
                    assert(s[m] != s[s.len() - 1]);
                }
            }
        } else {
            assert(f == rf);
        }
    }
}

/// Filtering keeps any pairwise-distinct key distinct.
proof fn lemma_filter_key_unique<A, K>(s: Seq<A>, pred: spec_fn(A) -> bool, key: spec_fn(A) -> K)
    requires
        forall|i: int, j: int| 0 <= i < j < s.len() ==> key(s[i]) != key(s[j]),
    ensures
        forall|i: int, j: int|
            0 <= i < j < s.filter(pred).len() ==> key(s.filter(pred)[i]) != key(s.filter(pred)[j]),
    decreases s.len(),
{
    reveal(Seq::filter);
    if s.len() != 0 {
        let rest = s.drop_last();
        let f = s.filter(pred);
        let rf = rest.filter(pred);
        lemma_filter_key_unique(rest, pred, key);
        if pred(s.last()) {
            assert(f == rf.push(s.last()));
            assert forall|i: int, j: int| 0 <= i < j < f.len() implies key(f[i]) != key(f[j]) by {
                if j < rf.len() {
                    assert(f[i] == rf[i] && f[j] == rf[j]);
                } else {
                    assert(f[j] == s.last());
                    assert(f[i] == rf[i]);
                    assert(rf.contains(rf[i]));
                    rest.lemma_filter_contains_rev(pred, rf[i]);
                    let m = choose|m: int| 0 <= m < rest.len() && rest[m] == rf[i];
                    assert(s[m] == rf[i]);
                    assert(key(s[m]) != key(s[s.len() - 1]));
                }
            }
        } else {
            assert(f == rf);
        }
    }
}

/// A stage lookup that found nothing means no entry matches.
proof fn lemma_mesh_stage_none(mesh: Seq<MeshEntryView>, channel: Seq<char>, peer: PeerId)
    requires
        spec_mesh_stage(mesh, channel, peer) is None,
    ensures
        forall|i: int|
            0 <= i < mesh.len() ==> !((#[trigger] mesh[i]).channel == channel && mesh[i].peer
                == peer),
    decreases mesh.len(),
{
    if mesh.len() != 0 {
        lemma_mesh_stage_none(mesh.drop_first(), channel, peer);
        assert forall|i: int|
            0 <= i < mesh.len() implies !((#[trigger] mesh[i]).channel == channel && mesh[i].peer
            == peer) by {
            if i > 0 {
                assert(mesh.drop_first()[i - 1] == mesh[i]);
            }
        }
    }
}

/// A mesh without a matching entry yields no stage.
proof fn lemma_mesh_stage_no_match(mesh: Seq<MeshEntryView>, channel: Seq<char>, peer: PeerId)
    requires
        forall|i: int|
            0 <= i < mesh.len() ==> !((#[trigger] mesh[i]).channel == channel && mesh[i].peer
                == peer),
    ensures
        spec_mesh_stage(mesh, channel, peer) is None,
    decreases mesh.len(),
{
    if mesh.len() != 0 {
        assert(!(mesh[0].channel == channel && mesh[0].peer == peer));
        assert forall|i: int|
            0 <= i < mesh.drop_first().len() implies !((#[trigger] mesh.drop_first()[i]).channel
            == channel && mesh.drop_first()[i].peer == peer) by {
            assert(mesh.drop_first()[i] == mesh[i + 1]);
        }
        lemma_mesh_stage_no_match(mesh.drop_first(), channel, peer);
    }
}

/// A stage lookup skips a prefix without matches.
proof fn lemma_mesh_stage_skip(mesh: Seq<MeshEntryView>, channel: Seq<char>, peer: PeerId, i: int)
    requires
        0 <= i <= mesh.len(),
        forall|j: int|
            0 <= j < i ==> !((#[trigger] mesh[j]).channel == channel && mesh[j].peer == peer),
    ensures
        spec_mesh_stage(mesh, channel, peer) == spec_mesh_stage(mesh.skip(i), channel, peer),
    decreases i,
{
    if i > 0 {
        assert(!(mesh[0].channel == channel && mesh[0].peer == peer));
        assert forall|j: int|
            0 <= j < i - 1 implies !((#[trigger] mesh.drop_first()[j]).channel == channel
            && mesh.drop_first()[j].peer == peer) by {
            assert(mesh.drop_first()[j] == mesh[j + 1]);
        }
        lemma_mesh_stage_skip(mesh.drop_first(), channel, peer, i - 1);
        assert(mesh.drop_first().skip(i - 1) =~= mesh.skip(i));
    } else {
        assert(mesh.skip(0) =~= mesh);
    }
}

/// Compares two strings by value.
pub fn string_eq(a: &String, b: &String) -> (r: bool)
    ensures
        r == (a@ == b@),
{
    a.eq(b)
}

/// Whether the joined-channel list holds this channel name.
#[verifier::loop_isolation(false)]
fn contains_channel(channels: &Vec<String>, channel: &String) -> (r: bool)
    ensures
        r == channels.deep_view().contains(channel@),
{
    let mut i: usize = 0;
    while i < channels.len()
        invariant
            0 <= i <= channels.len(),
            forall|j: int| 0 <= j < i ==> channels.deep_view()[j] != channel@,
        decreases channels.len() - i,
    {
        if string_eq(&channels[i], channel) {
            proof {
                assert(channels.deep_view()[i as int] == channel@);
            }
            return true;
        }
        i = i + 1;
    }
    proof {
        if channels.deep_view().contains(channel@) {
            let j = choose|j: int|
                0 <= j < channels.deep_view().len() && channels.deep_view()[j] == channel@;
            assert(false);
        }
    }
    false
}

/// Whether the known-peer list holds this peer.
#[verifier::loop_isolation(false)]
fn contains_peer(peers: &Vec<PeerId>, peer: PeerId) -> (r: bool)
    ensures
        r == peers@.contains(peer),
{
    let mut i: usize = 0;
    while i < peers.len()
        invariant
            0 <= i <= peers.len(),
            forall|j: int| 0 <= j < i ==> peers@[j] != peer,
        decreases peers.len() - i,
    {
        if peers[i] == peer {
            return true;
        }
        i = i + 1;
    }
    false
}

/// Clones one handler command.
fn clone_input_event(event: &InputEvent) -> (r: InputEvent)
    ensures
        r@ == event@,
{
    match event {
        InputEvent::VoicePacket { codec, data, channel } => InputEvent::VoicePacket {
            codec: codec.clone(),
            data: vstd::slice::slice_to_vec(data.as_slice()),
            channel: channel.clone(),
        },
        InputEvent::Connect(channel) => InputEvent::Connect(channel.clone()),
        InputEvent::Disconnect(channel) => InputEvent::Disconnect(channel.clone()),
    }
}

/// The local side of the voice-relay overlay, one per active account.
pub struct TheManBehaviour {
    peer_id: PeerId,
    events: Vec<ToSwarmEvent>,
    mesh: Vec<MeshEntry>,
    peers: Vec<PeerId>,
    connected: Vec<String>,
    auto_accept: bool,
}

impl View for TheManBehaviour {
    type V = BehaviourView;

    closed spec fn view(&self) -> BehaviourView {
        BehaviourView {
            peer_id: self.peer_id,
            events: self.events@.map_values(|e: ToSwarmEvent| e@),
            mesh: self.mesh@.map_values(mesh_view_fn()),
            peers: self.peers@,
            connected: self.connected.deep_view(),
            auto_accept: self.auto_accept,
        }
    }
}

impl TheManBehaviour {
    /// A fresh behaviour for the account with this peer identity. New voice
    /// requests are accepted automatically until [`Self::set_auto_accept`]
    /// says otherwise.
    pub fn new(peer_id: PeerId) -> (r: TheManBehaviour)
        ensures
            r@ == (BehaviourView {
                peer_id,
                events: Seq::empty(),
                mesh: Seq::empty(),
                peers: Seq::empty(),
                connected: Seq::empty(),
                auto_accept: true,
            }),
            r@.wf(),
    {
        let r = TheManBehaviour {
            peer_id,
            events: Vec::new(),
            mesh: Vec::new(),
            peers: Vec::new(),
            connected: Vec::new(),
            auto_accept: true,
        };
        proof {
            assert(r@.events =~= Seq::<ToSwarmEventView>::empty());
            assert(r@.mesh =~= Seq::<MeshEntryView>::empty());
            assert(r@.connected =~= Seq::<Seq<char>>::empty());
        }
        r
    }

    /// Sets the policy for new voice requests: accept them at once, or hold
    /// them at `Requested` and surface a request to the application.
    pub fn set_auto_accept(&mut self, value: bool)
        ensures
            final(self)@ == (BehaviourView { auto_accept: value, ..old(self)@ }),
    {
        self.auto_accept = value;
    }

    /// The identity this behaviour runs for.
    pub fn peer_id(&self) -> (r: PeerId)
        ensures
            r == self@.peer_id,
    {
        self.peer_id
    }

    /// The channels the local side has joined, for handing to a fresh
    /// connection's handler as its announcement list.
    #[verifier::loop_isolation(false)]
    pub fn connected_channels(&self) -> (r: Vec<String>)
        ensures
            r.deep_view() == self@.connected,
    {
        let mut out: Vec<String> = Vec::new();
        let mut i: usize = 0;
        while i < self.connected.len()
            invariant
                0 <= i <= self.connected.len(),
                out.deep_view() =~= self.connected.deep_view().take(i as int),
            decreases self.connected.len() - i,
        {
            let ghost opre = out.deep_view();
            out.push(self.connected[i].clone());
            proof {
                assert(out.deep_view() =~= opre.push(self.connected.deep_view()[i as int]));
                assert(self.connected.deep_view().take(i + 1) =~= self.connected.deep_view().take(
                    i as int,
                ).push(self.connected.deep_view()[i as int]));
            }
            i = i + 1;
        }
        proof {
            assert(self.connected.deep_view().take(self.connected@.len() as int)
                =~= self.connected.deep_view());
        }
        out
    }

    /// Enqueues one handler command for every known peer, in order.
    #[verifier::loop_isolation(false)]
    fn notify_all(&mut self, event: &InputEvent)
        ensures
            final(self)@ == (BehaviourView {
                events: old(self)@.events + spec_notify_all(old(self)@.peers, event@),
                ..old(self)@
            }),
    {
        let ghost pre = self@;
        let ghost f = notify_fn(event@);
        let mut i: usize = 0;
        proof {
            assert(self@.events =~= pre.events + pre.peers.take(0).map_values(f));
        }
        while i < self.peers.len()
            invariant
                0 <= i <= self.peers.len(),
                self.peers@ == pre.peers,
                self@ == (BehaviourView {
                    events: pre.events + pre.peers.take(i as int).map_values(f),
                    ..pre
                }),
            decreases self.peers.len() - i,
        {
            let ghost evs = self@.events;
            let peer = self.peers[i];
            self.events.push(
                ToSwarmEvent::NotifyHandler { peer_id: peer, event: clone_input_event(event) },
            );
            proof {
                assert(self@.events =~= evs.push(f(pre.peers[i as int])));
                assert(pre.peers.take(i + 1).map_values(f) =~= pre.peers.take(i as int).map_values(
                    f,
                ).push(f(pre.peers[i as int])));
                assert(self@.events =~= pre.events + pre.peers.take(i + 1).map_values(f));
            }
            i = i + 1;
        }
        proof {
            assert(pre.peers.take(pre.peers.len() as int) =~= pre.peers);
        }
    }

    /// Joins a channel: every known peer's handler announces it, and the
    /// channel enters the joined set.
    pub fn connect(&mut self, channel: String)
        requires
            old(self)@.wf(),
        ensures
            final(self)@ == old(self)@.spec_connect(channel@),
            final(self)@.wf(),
    {
        let ghost cv = channel@;
        let ev = InputEvent::Connect(channel.clone());
        self.notify_all(&ev);
        let ghost mid = self@;
        if !contains_channel(&self.connected, &channel) {
            self.connected.push(channel);
            proof {
                assert(self@.connected =~= mid.connected.push(cv));
                assert(self@ == old(self)@.spec_connect(cv));
                let c2 = self@.connected;
                assert forall|i: int, j: int| 0 <= i < j < c2.len() implies c2[i] != c2[j] by {
                    if j == c2.len() - 1 {
                        assert(c2[i] == mid.connected[i]);
                        if c2[i] == cv {
                            assert(mid.connected.contains(cv));
                        }
                    } else {
                        assert(c2[i] == mid.connected[i] && c2[j] == mid.connected[j]);
                    }
                }
            }
        } else {
            proof {
                assert(self@ == old(self)@.spec_connect(cv));
            }
        }
    }

    /// Leaves a channel: every known peer's handler announces it, the channel
    /// leaves the joined set, and its mesh entries are purged.
    pub fn disconnect(&mut self, channel: String)
        requires
            old(self)@.wf(),
        ensures
            final(self)@ == old(self)@.spec_disconnect(channel@),
            final(self)@.wf(),
    {
        let ghost cv = channel@;
        let ev = InputEvent::Disconnect(channel.clone());
        self.notify_all(&ev);
        let ghost mid = self@;
        self.remove_channel_from_connected(&channel);
        self.purge_mesh_channel(&channel);
        proof {
            assert(self@ == old(self)@.spec_disconnect(cv));
            lemma_filter_distinct(mid.connected, pred_not_channel(cv));
            lemma_filter_key_unique(
                mid.mesh,
                pred_mesh_not_channel(cv),
                |e: MeshEntryView| (e.channel, e.peer),
            );
        }
    }

    /// Drops one channel name from the joined set.
    #[verifier::loop_isolation(false)]
    fn remove_channel_from_connected(&mut self, channel: &String)
        ensures
            final(self)@ == (BehaviourView {
                connected: spec_remove_channel(old(self)@.connected, channel@),
                ..old(self)@
            }),
    {
        let ghost pre = self@;
        let ghost dv = pre.connected;
        let ghost pred = pred_not_channel(channel@);
        let mut kept: Vec<String> = Vec::new();
        let mut i: usize = 0;
        proof {
            assert(dv.take(0).filter(pred) =~= Seq::<Seq<char>>::empty());
            assert(kept.deep_view() =~= Seq::<Seq<char>>::empty());
        }
        while i < self.connected.len()
            invariant
                0 <= i <= self.connected.len(),
                self@ == pre,
                dv.len() == self.connected.len(),
                kept.deep_view() == dv.take(i as int).filter(pred),
            decreases self.connected.len() - i,
        {
            let ghost kpre = kept.deep_view();
            if !string_eq(&self.connected[i], channel) {
                kept.push(self.connected[i].clone());
                proof {
                    assert(kept.deep_view() =~= kpre.push(dv[i as int]));
                }
            }
            proof {
                dv.take(i as int).lemma_filter_push(dv[i as int], pred);
                assert(dv.take(i as int).push(dv[i as int]) =~= dv.take(i + 1));
            }
            i = i + 1;
        }
        proof {
            assert(dv.take(dv.len() as int) =~= dv);
        }
        self.connected = kept;
        proof {
            assert(self@ == (BehaviourView {
                connected: spec_remove_channel(dv, channel@),
                ..pre
            }));
        }
    }

    /// Purges every mesh entry of the named channel.
    #[verifier::loop_isolation(false)]
    fn purge_mesh_channel(&mut self, channel: &String)
        ensures
            final(self)@ == (BehaviourView {
                mesh: spec_purge_channel(old(self)@.mesh, channel@),
                ..old(self)@
            }),
    {
        let ghost pre = self@;
        let ghost mv = pre.mesh;
        let ghost pred = pred_mesh_not_channel(channel@);
        let mut kept: Vec<MeshEntry> = Vec::new();
        let mut i: usize = 0;
        proof {
            assert(mv.take(0).filter(pred) =~= Seq::<MeshEntryView>::empty());
            assert(kept@.map_values(mesh_view_fn()) =~= Seq::<MeshEntryView>::empty());
        }
        while i < self.mesh.len()
            invariant
                0 <= i <= self.mesh.len(),
                self@ == pre,
                mv.len() == self.mesh.len(),
                kept@.map_values(mesh_view_fn()) == mv.take(i as int).filter(pred),
            decreases self.mesh.len() - i,
        {
            let ghost kpre = kept@.map_values(mesh_view_fn());
            if !string_eq(&self.mesh[i].channel, channel) {
                let copy = MeshEntry {
                    channel: self.mesh[i].channel.clone(),
                    peer: self.mesh[i].peer,
                    stage: self.mesh[i].stage,
                };
                kept.push(copy);
                proof {
                    assert(kept@.map_values(mesh_view_fn()) =~= kpre.push(mv[i as int]));
                }
            }
            proof {
                mv.take(i as int).lemma_filter_push(mv[i as int], pred);
                assert(mv.take(i as int).push(mv[i as int]) =~= mv.take(i + 1));
            }
            i = i + 1;
        }
        proof {
            assert(mv.take(mv.len() as int) =~= mv);
        }
        self.mesh = kept;
        proof {
            assert(self@ == (BehaviourView { mesh: spec_purge_channel(mv, channel@), ..pre }));
        }
    }

    /// Broadcasts one audio block: for every joined channel, every peer whose
    /// mesh entry on it is `Accepted` gets one voice command carrying the
    /// payload, annotated with that channel, in mesh order.
    #[verifier::loop_isolation(false)]
    pub fn audio_packet(&mut self, codec: String, data: Vec<u8>)
        requires
            old(self)@.wf(),
        ensures
            final(self)@ == old(self)@.spec_audio_packet(codec@, data@),
            final(self)@.wf(),
    {
        let ghost pre = self@;
        let ghost f = fanout_fn(pre.connected, codec@, data@);
        let mut i: usize = 0;
        proof {
            assert(pre.mesh.take(0).filter_map(f) =~= Seq::<ToSwarmEventView>::empty());
            assert(self@.events =~= pre.events + pre.mesh.take(0).filter_map(f));
        }
        while i < self.mesh.len()
            invariant
                0 <= i <= self.mesh.len(),
                self.mesh@.map_values(mesh_view_fn()) == pre.mesh,
                pre.mesh.len() == self.mesh.len(),
                self@ == (BehaviourView {
                    events: pre.events + pre.mesh.take(i as int).filter_map(f),
                    ..pre
                }),
            decreases self.mesh.len() - i,
        {
            let ghost evs = self@.events;
            let is_accepted = matches!(self.mesh[i].stage, Stage::Accepted);
            let on_joined = contains_channel(&self.connected, &self.mesh[i].channel);
            proof {
                assert(pre.mesh[i as int] == self.mesh@[i as int]@);
            }
            if is_accepted && on_joined {
                let peer = self.mesh[i].peer;
                let event = InputEvent::VoicePacket {
                    codec: codec.clone(),
                    data: vstd::slice::slice_to_vec(data.as_slice()),
                    channel: self.mesh[i].channel.clone(),
                };
                self.events.push(ToSwarmEvent::NotifyHandler { peer_id: peer, event });
                proof {
                    assert(f(pre.mesh[i as int]) is Some);
                    assert(self@.events =~= evs.push(f(pre.mesh[i as int])->0));
                }
            } else {
                proof {
                    assert(f(pre.mesh[i as int]) is None);
                }
            }
            proof {
                pre.mesh.lemma_filter_map_take_succ(f, i as int);
                assert(self@.events =~= pre.events + pre.mesh.take(i + 1).filter_map(f));
            }
            i = i + 1;
        }
        proof {
            assert(pre.mesh.take(pre.mesh.len() as int) =~= pre.mesh);
        }
    }

    /// The acceptance stage recorded for (channel, peer), if any.
    #[verifier::loop_isolation(false)]
    pub fn stage_of(&self, channel: &String, peer: PeerId) -> (r: Option<Stage>)
        ensures
            r == spec_mesh_stage(self@.mesh, channel@, peer),
    {
        let ghost mv = self@.mesh;
        let mut i: usize = 0;
        while i < self.mesh.len()
            invariant
                0 <= i <= self.mesh.len(),
                mv == self@.mesh,
                mv.len() == self.mesh.len(),
                forall|j: int|
                    0 <= j < i ==> !((#[trigger] mv[j]).channel == channel@ && mv[j].peer == peer),
            decreases self.mesh.len() - i,
        {
            if string_eq(&self.mesh[i].channel, channel) && self.mesh[i].peer == peer {
                let found = self.mesh[i].stage;
                proof {
                    lemma_mesh_stage_skip(mv, channel@, peer, i as int);
                    assert(mv.skip(i as int)[0] == mv[i as int]);
                    assert(spec_mesh_stage(mv.skip(i as int), channel@, peer) == Some(
                        mv[i as int].stage,
                    ));
                }
                return Some(found);
            }
            i = i + 1;
        }
        proof {
            lemma_mesh_stage_skip(mv, channel@, peer, mv.len() as int);
            assert(mv.skip(mv.len() as int) =~= Seq::<MeshEntryView>::empty());
        }
        None
    }

    /// Rewrites the stage of every entry for (channel, peer).
    #[verifier::loop_isolation(false)]
    fn set_stage_all(&mut self, channel: &String, peer: PeerId, stage: Stage)
        ensures
            final(self)@ == (BehaviourView {
                mesh: spec_set_stage(old(self)@.mesh, channel@, peer, stage),
                ..old(self)@
            }),
    {
        let ghost pre = self@;
        let ghost mv = pre.mesh;
        let ghost f = set_stage_fn(channel@, peer, stage);
        let mut i: usize = 0;
        proof {
            assert(mv.take(0).map_values(f) + mv.skip(0) =~= mv);
        }
        while i < self.mesh.len()
            invariant
                0 <= i <= self.mesh.len(),
                self.mesh@.len() == mv.len(),
                self@ == (BehaviourView {
                    mesh: mv.take(i as int).map_values(f) + mv.skip(i as int),
                    ..pre
                }),
            decreases self.mesh.len() - i,
        {
            let ghost mcur = self@.mesh;
            let is_pair = string_eq(&self.mesh[i].channel, channel) && self.mesh[i].peer == peer;
            proof {
                assert(mcur[i as int] == mv[i as int]);
            }
            if is_pair {
                let entry = MeshEntry {
                    channel: self.mesh[i].channel.clone(),
                    peer: self.mesh[i].peer,
                    stage,
                };
                proof {
                    assert(entry@ == f(mv[i as int]));
                }
                vstd::pervasive::VecAdditionalExecFns::set(&mut self.mesh, i, entry);
                proof {
                    assert(self@.mesh =~= mcur.update(i as int, f(mv[i as int])));
                }
            } else {
                proof {
                    assert(f(mv[i as int]) == mv[i as int]);
                }
            }
            proof {
                assert(self@.mesh =~= mv.take(i + 1).map_values(f) + mv.skip(i + 1));
            }
            i = i + 1;
        }
        proof {
            assert(mv.take(mv.len() as int).map_values(f) + mv.skip(mv.len() as int)
                =~= mv.map_values(f));
        }
    }

    /// Records (channel, peer) at the given stage: rewrites the existing
    /// entry, or appends one when the pair is new.
    fn upsert(&mut self, channel: String, peer: PeerId, stage: Stage)
        requires
            old(self)@.wf(),
        ensures
            final(self)@ == (BehaviourView {
                mesh: spec_upsert(old(self)@.mesh, channel@, peer, stage),
                ..old(self)@
            }),
            final(self)@.wf(),
    {
        let ghost pre = self@;
        let ghost cv = channel@;
        let known = self.stage_of(&channel, peer);
        match known {
            Some(_) => {
                self.set_stage_all(&channel, peer, stage);
                proof {
                    let f = set_stage_fn(cv, peer, stage);
                    let m2 = self@.mesh;
                    assert forall|i: int, j: int|
                        0 <= i < j < m2.len() implies !(m2[i].channel == m2[j].channel
                        && m2[i].peer == m2[j].peer) by {
                        assert(m2[i] == f(pre.mesh[i]));
                        assert(m2[j] == f(pre.mesh[j]));
                        assert(m2[i].channel == pre.mesh[i].channel && m2[i].peer
                            == pre.mesh[i].peer);
                        assert(m2[j].channel == pre.mesh[j].channel && m2[j].peer
                            == pre.mesh[j].peer);
                    }
                }
            },
            None => {
                let entry = MeshEntry { channel, peer, stage };
                self.mesh.push(entry);
                proof {
                    assert(self@.mesh =~= pre.mesh.push(
                        MeshEntryView { channel: cv, peer, stage },
                    ));
                    lemma_mesh_stage_none(pre.mesh, cv, peer);
                    let m2 = self@.mesh;
                    assert forall|i: int, j: int|
                        0 <= i < j < m2.len() implies !(m2[i].channel == m2[j].channel
                        && m2[i].peer == m2[j].peer) by {
                        if j == m2.len() - 1 {
                            assert(m2[i] == pre.mesh[i]);
                        } else {
                            assert(m2[i] == pre.mesh[i] && m2[j] == pre.mesh[j]);
                        }
                    }
                }
            },
        }
    }

    /// Accepts a peer's voice on a channel; a no-op when the pair is unknown.
    pub fn accept(&mut self, channel: String, peer_id: PeerId)
        requires
            old(self)@.wf(),
        ensures
            final(self)@ == old(self)@.spec_accept(channel@, peer_id),
            final(self)@.wf(),
    {
        let known = self.stage_of(&channel, peer_id);
        if known.is_some() {
            self.upsert(channel, peer_id, Stage::Accepted);
        }
    }

    /// Refuses a peer's voice on a channel, holding it at `Requested`;
    /// a no-op when the pair is unknown.
    pub fn refuze(&mut self, channel: String, peer_id: PeerId)
        requires
            old(self)@.wf(),
        ensures
            final(self)@ == old(self)@.spec_refuze(channel@, peer_id),
            final(self)@.wf(),
    {
        let known = self.stage_of(&channel, peer_id);
        if known.is_some() {
            self.upsert(channel, peer_id, Stage::Requested);
        }
    }

    /// Takes one handler event from the named peer: gates and forwards voice
    /// packets, records join requests under the acceptance policy, clears
    /// entries of peers that left, and registers freshly connected peers.
    pub fn on_connection_handler_event(&mut self, peer_id: PeerId, event: OutputEvent)
        requires
            old(self)@.wf(),
        ensures
            final(self)@ == old(self)@.spec_on_handler_event(peer_id, event@),
            final(self)@.wf(),
    {
        let ghost pre = self@;
        match event {
            OutputEvent::VoicePacket { codec, data, channel } => {
                let joined = contains_channel(&self.connected, &channel);
                let accepted = match self.stage_of(&channel, peer_id) {
                    Some(Stage::Accepted) => true,
                    _ => false,
                };
                if joined && accepted {
                    let ghost evs = self@.events;
                    self.events.push(
                        ToSwarmEvent::GenerateEvent(
                            BehaviourEvent::VoicePacket { from: peer_id, codec, data, channel },
                        ),
                    );
                    proof {
                        assert(self@.events =~= evs.push(
                            pre.spec_on_handler_event(peer_id, event@).events.last(),
                        ));
                        assert(self@ == pre.spec_on_handler_event(peer_id, event@));
                    }
                }
            },
            OutputEvent::Connected(channel) => {
                if self.auto_accept {
                    self.upsert(channel, peer_id, Stage::Accepted);
                } else {
                    let ghost evs = self@.events;
                    self.events.push(
                        ToSwarmEvent::GenerateEvent(
                            BehaviourEvent::Request { channel: channel.clone(), from: peer_id },
                        ),
                    );
                    proof {
                        assert(self@.events =~= evs.push(
                            ToSwarmEventView::GenerateEvent(
                                BehaviourEventView::Request { channel: channel@, from: peer_id },
                            ),
                        ));
                        assert(self@ == (BehaviourView { events: self@.events, ..pre }));
                    }
                    self.upsert(channel, peer_id, Stage::Requested);
                }
            },
            OutputEvent::Disconnected(channel) => {
                let ghost evs = self@.events;
                self.events.push(
                    ToSwarmEvent::GenerateEvent(
                        BehaviourEvent::Disconnected { channel: channel.clone(), from: peer_id },
                    ),
                );
                proof {
                    assert(self@.events =~= evs.push(
                        ToSwarmEventView::GenerateEvent(
                            BehaviourEventView::Disconnected { channel: channel@, from: peer_id },
                        ),
                    ));
                }
                let ghost mid_mesh = self@.mesh;
                self.purge_mesh_pair(&channel, peer_id);
                proof {
                    lemma_filter_key_unique(
                        mid_mesh,
                        pred_mesh_not_pair(channel@, peer_id),
                        |e: MeshEntryView| (e.channel, e.peer),
                    );
                }
            },
            OutputEvent::SuccesfulyConnect => {
                if !contains_peer(&self.peers, peer_id) {
                    self.peers.push(peer_id);
                    proof {
                        let p2 = self@.peers;
                        assert forall|i: int, j: int|
                            0 <= i < j < p2.len() implies p2[i] != p2[j] by {
                            if j == p2.len() - 1 {
                                assert(p2[i] == pre.peers[i]);
                                if p2[i] == peer_id {
                                    assert(pre.peers.contains(peer_id));
                                }
                            } else {
                                assert(p2[i] == pre.peers[i] && p2[j] == pre.peers[j]);
                            }
                        }
                    }
                }
            },
        }
    }

    /// Purges every mesh entry for the (channel, peer) pair.
    #[verifier::loop_isolation(false)]
    fn purge_mesh_pair(&mut self, channel: &String, peer: PeerId)
        ensures
            final(self)@ == (BehaviourView {
                mesh: spec_remove_pair(old(self)@.mesh, channel@, peer),
                ..old(self)@
            }),
    {
        let ghost pre = self@;
        let ghost mv = pre.mesh;
        let ghost pred = pred_mesh_not_pair(channel@, peer);
        let mut kept: Vec<MeshEntry> = Vec::new();
        let mut i: usize = 0;
        proof {
            assert(mv.take(0).filter(pred) =~= Seq::<MeshEntryView>::empty());
            assert(kept@.map_values(mesh_view_fn()) =~= Seq::<MeshEntryView>::empty());
        }
        while i < self.mesh.len()
            invariant
                0 <= i <= self.mesh.len(),
                self@ == pre,
                mv.len() == self.mesh.len(),
                kept@.map_values(mesh_view_fn()) == mv.take(i as int).filter(pred),
            decreases self.mesh.len() - i,
        {
            let ghost kpre = kept@.map_values(mesh_view_fn());
            if !(string_eq(&self.mesh[i].channel, channel) && self.mesh[i].peer == peer) {
                let copy = MeshEntry {
                    channel: self.mesh[i].channel.clone(),
                    peer: self.mesh[i].peer,
                    stage: self.mesh[i].stage,
                };
                kept.push(copy);
                proof {
                    assert(kept@.map_values(mesh_view_fn()) =~= kpre.push(mv[i as int]));
                }
            }
            proof {
                mv.take(i as int).lemma_filter_push(mv[i as int], pred);
                assert(mv.take(i as int).push(mv[i as int]) =~= mv.take(i + 1));
            }
            i = i + 1;
        }
        proof {
            assert(mv.take(mv.len() as int) =~= mv);
        }
        self.mesh = kept;
        proof {
            assert(self@ == (BehaviourView {
                mesh: spec_remove_pair(mv, channel@, peer),
                ..pre
            }));
        }
    }

    /// Purges every mesh entry of the named peer.
    #[verifier::loop_isolation(false)]
    fn purge_mesh_peer(&mut self, peer: PeerId)
        ensures
            final(self)@ == (BehaviourView {
                mesh: spec_purge_peer(old(self)@.mesh, peer),
                ..old(self)@
            }),
    {
        let ghost pre = self@;
        let ghost mv = pre.mesh;
        let ghost pred = pred_mesh_not_peer(peer);
        let mut kept: Vec<MeshEntry> = Vec::new();
        let mut i: usize = 0;
        proof {
            assert(mv.take(0).filter(pred) =~= Seq::<MeshEntryView>::empty());
            assert(kept@.map_values(mesh_view_fn()) =~= Seq::<MeshEntryView>::empty());
        }
        while i < self.mesh.len()
            invariant
                0 <= i <= self.mesh.len(),
                self@ == pre,
                mv.len() == self.mesh.len(),
                kept@.map_values(mesh_view_fn()) == mv.take(i as int).filter(pred),
            decreases self.mesh.len() - i,
        {
            let ghost kpre = kept@.map_values(mesh_view_fn());
            if !(self.mesh[i].peer == peer) {
                let copy = MeshEntry {
                    channel: self.mesh[i].channel.clone(),
                    peer: self.mesh[i].peer,
                    stage: self.mesh[i].stage,
                };
                kept.push(copy);
                proof {
                    assert(kept@.map_values(mesh_view_fn()) =~= kpre.push(mv[i as int]));
                }
            }
            proof {
                mv.take(i as int).lemma_filter_push(mv[i as int], pred);
                assert(mv.take(i as int).push(mv[i as int]) =~= mv.take(i + 1));
            }
            i = i + 1;
        }
        proof {
            assert(mv.take(mv.len() as int) =~= mv);
        }
        self.mesh = kept;
        proof {
            assert(self@ == (BehaviourView { mesh: spec_purge_peer(mv, peer), ..pre }));
        }
    }

    /// Drops one peer from the known set.
    #[verifier::loop_isolation(false)]
    fn remove_peer(&mut self, peer: PeerId)
        ensures
            final(self)@ == (BehaviourView {
                peers: spec_remove_peer(old(self)@.peers, peer),
                ..old(self)@
            }),
    {
        let ghost pre = self@;
        let ghost pv = pre.peers;
        let ghost pred = pred_not_peer(peer);
        let mut kept: Vec<PeerId> = Vec::new();
        let mut i: usize = 0;
        proof {
            assert(pv.take(0).filter(pred) =~= Seq::<PeerId>::empty());
        }
        while i < self.peers.len()
            invariant
                0 <= i <= self.peers.len(),
                self@ == pre,
                pv.len() == self.peers.len(),
                kept@ == pv.take(i as int).filter(pred),
            decreases self.peers.len() - i,
        {
            let ghost kpre = kept@;
            if !(self.peers[i] == peer) {
                kept.push(self.peers[i]);
            }
            proof {
                pv.take(i as int).lemma_filter_push(pv[i as int], pred);
                assert(pv.take(i as int).push(pv[i as int]) =~= pv.take(i + 1));
            }
            i = i + 1;
        }
        proof {
            assert(pv.take(pv.len() as int) =~= pv);
        }
        self.peers = kept;
        proof {
            assert(self@ == (BehaviourView { peers: spec_remove_peer(pv, peer), ..pre }));
        }
    }

    /// Takes one swarm lifecycle report: a closed connection removes the peer
    /// from the known set, purges all its mesh entries across every channel,
    /// and tells the application the peer is fully gone.
    pub fn on_swarm_event(&mut self, event: FromSwarmEvent)
        requires
            old(self)@.wf(),
        ensures
            final(self)@ == match event {
                FromSwarmEvent::ConnectionClosed { peer_id } => old(self)@.spec_on_connection_closed(
                    peer_id,
                ),
                FromSwarmEvent::Other => old(self)@,
            },
            final(self)@.wf(),
    {
        let ghost pre = self@;
        match event {
            FromSwarmEvent::ConnectionClosed { peer_id } => {
                let ghost evs = self@.events;
                self.events.push(
                    ToSwarmEvent::GenerateEvent(BehaviourEvent::VoiceDisconnected { from: peer_id }),
                );
                proof {
                    assert(self@.events =~= evs.push(
                        ToSwarmEventView::GenerateEvent(
                            BehaviourEventView::VoiceDisconnected { from: peer_id },
                        ),
                    ));
                }
                self.remove_peer(peer_id);
                self.purge_mesh_peer(peer_id);
                proof {
                    assert(self@ == pre.spec_on_connection_closed(peer_id));
                    lemma_filter_distinct(pre.peers, pred_not_peer(peer_id));
                    lemma_filter_key_unique(
                        pre.mesh,
                        pred_mesh_not_peer(peer_id),
                        |e: MeshEntryView| (e.channel, e.peer),
                    );
                }
            },
            FromSwarmEvent::Other => {},
        }
    }

    /// Hands the oldest pending request to the swarm runtime, if any; the
    /// queue is served strictly in order.
    pub fn poll(&mut self) -> (r: Option<ToSwarmEvent>)
        ensures
            old(self)@.events.len() == 0 ==> r is None && final(self)@ == old(self)@,
            old(self)@.events.len() > 0 ==> {
                &&& match r {
                    Some(e) => e@ == old(self)@.events[0],
                    None => false,
                }
                &&& final(self)@ == (BehaviourView {
                    events: old(self)@.events.drop_first(),
                    ..old(self)@
                })
            },
            old(self)@.wf() ==> final(self)@.wf(),
    {
        if self.events.len() > 0 {
            let ghost pre = self@;
            let ev = self.events.remove(0);
            proof {
                assert(self@.events =~= pre.events.drop_first());
            }
            Some(ev)
        } else {
            None
        }
    }
}

/// Gating invariant (law): a voice packet from peer `from` on channel
/// `channel` is surfaced to the application exactly when the channel is in
/// the local joined set and the peer's mesh entry for it is `Accepted`;
/// otherwise it is dropped and the state is untouched. This holds of every
/// behaviour state, hence across arbitrary interleavings of joins, leaves,
/// accepts and refusals.
pub proof fn lemma_voice_gating(
    b: BehaviourView,
    from: PeerId,
    codec: Seq<char>,
    data: Seq<u8>,
    channel: Seq<char>,
)
    ensures
        ({
            let b2 = b.spec_on_handler_event(
                from,
                OutputEventView::VoicePacket { codec, data, channel },
            );
            &&& b.spec_delivers(channel, from) <==> b2.events == b.events.push(
                ToSwarmEventView::GenerateEvent(
                    BehaviourEventView::VoicePacket { from, codec, data, channel },
                ),
            )
            &&& !b.spec_delivers(channel, from) <==> b2 == b
            &&& b2.mesh == b.mesh && b2.peers == b.peers && b2.connected == b.connected
        }),
{
    let b2 = b.spec_on_handler_event(from, OutputEventView::VoicePacket { codec, data, channel });
    if b.spec_delivers(channel, from) {
        assert(b2.events.len() == b.events.len() + 1);
        assert(b2 != b);
    } else {
        assert(b2 == b);
        if b2.events == b.events.push(
            ToSwarmEventView::GenerateEvent(
                BehaviourEventView::VoicePacket { from, codec, data, channel },
            ),
        ) {
            assert(b.events.len() == b.events.len() + 1);
        }
    }
}

/// Join/leave symmetry (law): joining a channel and then leaving it leaves
/// the channel out of the joined set and leaves no mesh entry for it, and the
/// leave enqueues exactly one leave announcement per known peer: one for each
/// entry of the known-peer list, pairwise distinct when the state is
/// well-formed.
pub proof fn lemma_connect_disconnect_symmetry(b0: BehaviourView, channel: Seq<char>)
    requires
        b0.wf(),
    ensures
        ({
            let b1 = b0.spec_connect(channel);
            let b2 = b1.spec_disconnect(channel);
            let appended = b2.events.skip(b1.events.len() as int);
            &&& !b2.connected.contains(channel)
            &&& forall|p: PeerId| spec_mesh_stage(b2.mesh, channel, p) is None
            &&& appended == spec_notify_all(b0.peers, InputEventView::Disconnect(channel))
            &&& forall|p: PeerId|
                b0.peers.contains(p) ==> exists|i: int|
                    0 <= i < appended.len() && appended[i] == ToSwarmEventView::NotifyHandler {
                        peer_id: p,
                        event: InputEventView::Disconnect(channel),
                    }
            &&& forall|i: int, j: int| 0 <= i < j < appended.len() ==> appended[i] != appended[j]
        }),
{
    let b1 = b0.spec_connect(channel);
    let b2 = b1.spec_disconnect(channel);
    let appended = b2.events.skip(b1.events.len() as int);
    let note = spec_notify_all(b0.peers, InputEventView::Disconnect(channel));
    assert(b1.peers == b0.peers);
    assert(b2.events == b1.events + note);
    assert(appended =~= note);
    if b2.connected.contains(channel) {
        let k = choose|k: int| 0 <= k < b2.connected.len() && b2.connected[k] == channel;
        b1.connected.lemma_filter_pred(pred_not_channel(channel), k);
        assert(false);
    }
    assert forall|p: PeerId| spec_mesh_stage(b2.mesh, channel, p) is None by {
        assert forall|i: int|
            0 <= i < b2.mesh.len() implies !((#[trigger] b2.mesh[i]).channel == channel
            && b2.mesh[i].peer == p) by {
            b1.mesh.lemma_filter_pred(pred_mesh_not_channel(channel), i);
        }
        lemma_mesh_stage_no_match(b2.mesh, channel, p);
    }
    assert forall|p: PeerId| b0.peers.contains(p) implies exists|i: int|
        0 <= i < appended.len() && appended[i] == ToSwarmEventView::NotifyHandler {
            peer_id: p,
            event: InputEventView::Disconnect(channel),
        } by {
        let k = choose|k: int| 0 <= k < b0.peers.len() && b0.peers[k] == p;
        assert(appended[k] == notify_fn(InputEventView::Disconnect(channel))(b0.peers[k]));
    }
    assert forall|i: int, j: int| 0 <= i < j < appended.len() implies appended[i] != appended[j] by {
        assert(appended[i] == notify_fn(InputEventView::Disconnect(channel))(b0.peers[i]));
        assert(appended[j] == notify_fn(InputEventView::Disconnect(channel))(b0.peers[j]));
        assert(b0.peers[i] != b0.peers[j]);
    }
}

} // verus!
