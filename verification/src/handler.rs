//! Per-connection handler: one instance per established peer connection.
//!
//! The handler owns two directions. Each direction is negotiated by the
//! surrounding swarm runtime and reported in through [`Connection::on_connection_event`];
//! inbound bytes are handed in through [`Connection::handle_inbound`]; commands
//! from the channel-mesh behaviour arrive through [`Connection::on_behaviour_event`]
//! and are served strictly in order of arrival. [`Connection::poll`] advances the
//! state machine one visible step at a time and returns what the runtime must
//! do next: request the outbound substream, surface an event, or write bytes.
//!
//! The handler surfaces `SuccesfulyConnect` exactly once, the first time both
//! directions have been negotiated, and never surfaces a packet event before
//! it: inbound bytes accumulate unread until then.

use vstd::prelude::*;

verus! {

use crate::packet::{spec_decode, spec_encode, Packet, PacketView};

/// The life stage of one direction of a connection.
#[derive(Clone, Copy, PartialEq, Eq, Structural, Debug)]
pub enum Stage {
    /// Nothing negotiated yet.
    Idle,
    /// A freshly negotiated substream, not yet serving traffic.
    Initial,
    /// Setup still settling before the steady loop.
    RunningInitial,
    /// The steady read/write loop.
    RunningBase,
}

impl Stage {
    /// Whether this direction has left the unnegotiated state.
    pub open spec fn spec_initial(self) -> bool {
        match self {
            Stage::Idle => false,
            Stage::Initial => true,
            Stage::RunningInitial => true,
            Stage::RunningBase => true,
        }
    }

    /// Whether this direction has left the unnegotiated state.
    pub fn initial(&self) -> (r: bool)
        ensures
            r == self.spec_initial(),
    {
        matches!(self, Stage::Initial | Stage::RunningInitial | Stage::RunningBase)
    }

    /// Takes the stage out, leaving the unnegotiated state behind.
    pub fn take(&mut self) -> (r: Stage)
        ensures
            r == *old(self),
            *final(self) == Stage::Idle,
    {
        let r = *self;
        *self = Stage::Idle;
        r
    }
}

/// A command from the channel-mesh behaviour to one peer's handler.
#[derive(Clone, Debug)]
pub enum InputEvent {
    /// Send a block of encoded voice data on a channel.
    VoicePacket { codec: String, data: Vec<u8>, channel: String },
    /// Announce that the local side joined the named channel.
    Connect(String),
    /// Announce that the local side left the named channel.
    Disconnect(String),
}

/// The mathematical value of an [`InputEvent`].
pub enum InputEventView {
    VoicePacket { codec: Seq<char>, data: Seq<u8>, channel: Seq<char> },
    Connect(Seq<char>),
    Disconnect(Seq<char>),
}

impl View for InputEvent {
    type V = InputEventView;

    open spec fn view(&self) -> InputEventView {
        match self {
            InputEvent::VoicePacket { codec, data, channel } => InputEventView::VoicePacket {
                codec: codec@,
                data: data@,
                channel: channel@,
            },
            InputEvent::Connect(channel) => InputEventView::Connect(channel@),
            InputEvent::Disconnect(channel) => InputEventView::Disconnect(channel@),
        }
    }
}

/// An event the handler surfaces to the channel-mesh behaviour.
#[derive(Clone, Debug)]
pub enum OutputEvent {
    /// The peer sent a block of encoded voice data on a channel.
    VoicePacket { codec: String, data: Vec<u8>, channel: String },
    /// The peer joined the named channel.
    Connected(String),
    /// The peer left the named channel.
    Disconnected(String),
    /// Both directions of this connection reached their running state.
    SuccesfulyConnect,
}

/// The mathematical value of an [`OutputEvent`].
pub enum OutputEventView {
    VoicePacket { codec: Seq<char>, data: Seq<u8>, channel: Seq<char> },
    Connected(Seq<char>),
    Disconnected(Seq<char>),
    SuccesfulyConnect,
}

impl View for OutputEvent {
    type V = OutputEventView;

    open spec fn view(&self) -> OutputEventView {
        match self {
            OutputEvent::VoicePacket { codec, data, channel } => OutputEventView::VoicePacket {
                codec: codec@,
                data: data@,
                channel: channel@,
            },
            OutputEvent::Connected(channel) => OutputEventView::Connected(channel@),
            OutputEvent::Disconnected(channel) => OutputEventView::Disconnected(channel@),
            OutputEvent::SuccesfulyConnect => OutputEventView::SuccesfulyConnect,
        }
    }
}

/// What the swarm runtime must do next on behalf of the handler.
#[derive(Clone, Debug)]
pub enum HandlerAction {
    /// Ask the connection for one outbound substream under the protocol name.
    RequestOutboundSubstream,
    /// Surface this event to the channel-mesh behaviour.
    Emit(OutputEvent),
    /// Write these bytes to the outbound substream.
    Write(Vec<u8>),
}

/// The mathematical value of a [`HandlerAction`].
pub enum HandlerActionView {
    RequestOutboundSubstream,
    Emit(OutputEventView),
    Write(Seq<u8>),
}

impl View for HandlerAction {
    type V = HandlerActionView;

    open spec fn view(&self) -> HandlerActionView {
        match self {
            HandlerAction::RequestOutboundSubstream => HandlerActionView::RequestOutboundSubstream,
            HandlerAction::Emit(ev) => HandlerActionView::Emit(ev@),
            HandlerAction::Write(bytes) => HandlerActionView::Write(bytes@),
        }
    }
}

/// A negotiation report from the swarm runtime.
#[derive(Clone, Copy, Debug)]
pub enum ConnectionEvent {
    /// The inbound substream finished protocol negotiation.
    FullyNegotiatedInbound,
    /// The outbound substream finished protocol negotiation.
    FullyNegotiatedOutbound,
    /// Any other connection event; the handler ignores it.
    Other,
}

/// The event a decoded packet surfaces.
pub open spec fn spec_event_of(p: PacketView) -> OutputEventView {
    match p {
        PacketView::VoicePacket { codec, data, channel } => OutputEventView::VoicePacket {
            codec,
            data,
            channel,
        },
        PacketView::VoiceDisconnect { channel } => OutputEventView::Disconnected(channel),
        PacketView::VoiceConnect { channel } => OutputEventView::Connected(channel),
    }
}

/// The packet a queued command is serialized as.
pub open spec fn spec_packet_of(e: InputEventView) -> PacketView {
    match e {
        InputEventView::VoicePacket { codec, data, channel } => PacketView::VoicePacket {
            codec,
            data,
            channel,
        },
        InputEventView::Connect(channel) => PacketView::VoiceConnect { channel },
        InputEventView::Disconnect(channel) => PacketView::VoiceDisconnect { channel },
    }
}

/// The bytes announcing every listed channel, one join packet each, in order.
pub open spec fn spec_connect_burst(channels: Seq<Seq<char>>) -> Seq<u8>
    decreases channels.len(),
{
    if channels.len() == 0 {
        Seq::empty()
    } else {
        spec_encode(PacketView::VoiceConnect { channel: channels[0] }) + spec_connect_burst(
            channels.drop_first(),
        )
    }
}

/// Extending the channel list by one extends its announcement bytes at the end.
proof fn lemma_connect_burst_snoc(channels: Seq<Seq<char>>, i: int)
    requires
        0 <= i < channels.len(),
    ensures
        spec_connect_burst(channels.take(i + 1)) == spec_connect_burst(channels.take(i))
            + spec_encode(PacketView::VoiceConnect { channel: channels[i] }),
    decreases i,
{
    let pre = channels.take(i);
    let post = channels.take(i + 1);
    let enc0 = spec_encode(PacketView::VoiceConnect { channel: channels[0] });
    let enci = spec_encode(PacketView::VoiceConnect { channel: channels[i] });
    if i == 0 {
        assert(post.drop_first() =~= Seq::<Seq<char>>::empty());
        assert(spec_connect_burst(Seq::<Seq<char>>::empty()) == Seq::<u8>::empty());
        assert(post[0] == channels[0]);
        assert(spec_connect_burst(post) == enc0 + Seq::<u8>::empty());
        assert(enc0 + Seq::<u8>::empty() =~= enc0);
        assert(pre =~= Seq::<Seq<char>>::empty());
        assert(spec_connect_burst(pre) == Seq::<u8>::empty());
        assert(Seq::<u8>::empty() + enci =~= enci);
    } else {
        let cdf = channels.drop_first();
        lemma_connect_burst_snoc(cdf, i - 1);
        assert(pre.drop_first() =~= cdf.take(i - 1));
        assert(post.drop_first() =~= cdf.take(i));
        assert(post[0] == channels[0]);
        assert(pre[0] == channels[0]);
        assert(cdf[i - 1] == channels[i]);
        assert(spec_connect_burst(post) == enc0 + spec_connect_burst(cdf.take(i)));
        assert(spec_connect_burst(cdf.take(i)) == spec_connect_burst(cdf.take(i - 1)) + enci);
        assert(spec_connect_burst(pre) == enc0 + spec_connect_burst(cdf.take(i - 1)));
        assert(enc0 + (spec_connect_burst(cdf.take(i - 1)) + enci) =~= (enc0
            + spec_connect_burst(cdf.take(i - 1))) + enci);
    }
}

/// An event that belongs to an established session rather than to connection
/// setup: a voice packet or a channel join or leave notice.
pub open spec fn is_session_event(e: OutputEventView) -> bool {
    match e {
        OutputEventView::VoicePacket { .. } => true,
        OutputEventView::Connected(_) => true,
        OutputEventView::Disconnected(_) => true,
        OutputEventView::SuccesfulyConnect => false,
    }
}

/// Handshake ordering: in an emission history, every session event comes
/// after a `SuccesfulyConnect`.
pub open spec fn handshake_ordered(h: Seq<OutputEventView>) -> bool {
    forall|i: int|
        0 <= i < h.len() && is_session_event(#[trigger] h[i]) ==> exists|j: int|
            0 <= j < i && h[j] is SuccesfulyConnect
}

/// The mathematical state of a [`Connection`].
pub struct ConnectionView {
    pub init: bool,
    pub inbound: Stage,
    pub outbound: Stage,
    pub connected: bool,
    pub initial_connections: Seq<Seq<char>>,
    pub events: Seq<InputEventView>,
    pub in_buffer: Seq<u8>,
    pub history: Seq<OutputEventView>,
}

impl ConnectionView {
    /// Internal consistency: the emission history respects handshake
    /// ordering, and `connected` records whether `SuccesfulyConnect` was
    /// ever emitted.
    pub open spec fn wf(self) -> bool {
        &&& handshake_ordered(self.history)
        &&& self.connected <==> exists|j: int|
            0 <= j < self.history.len() && self.history[j] is SuccesfulyConnect
    }
}

/// What one call of [`Connection::poll`] does: the next state, and the action
/// the runtime must perform, by falling through a fixed priority order.
pub open spec fn spec_poll(s: ConnectionView) -> (ConnectionView, Option<HandlerActionView>) {
    if !s.init {
        (
            ConnectionView { init: true, ..s },
            Some(HandlerActionView::RequestOutboundSubstream),
        )
    } else if !s.connected && s.inbound.spec_initial() && s.outbound.spec_initial() {
        (
            ConnectionView {
                connected: true,
                history: s.history.push(OutputEventView::SuccesfulyConnect),
                ..s
            },
            Some(HandlerActionView::Emit(OutputEventView::SuccesfulyConnect)),
        )
    } else if s.outbound == Stage::Initial {
        (
            ConnectionView { outbound: Stage::RunningBase, ..s },
            Some(HandlerActionView::Write(spec_connect_burst(s.initial_connections))),
        )
    } else if s.connected && s.inbound.spec_initial() && spec_decode(s.in_buffer) is Some {
        let (p, n) = spec_decode(s.in_buffer)->Some_0;
        (
            ConnectionView {
                in_buffer: s.in_buffer.skip(n),
                history: s.history.push(spec_event_of(p)),
                ..s
            },
            Some(HandlerActionView::Emit(spec_event_of(p))),
        )
    } else if s.outbound == Stage::RunningBase && s.events.len() > 0 {
        (
            ConnectionView { events: s.events.drop_first(), ..s },
            Some(HandlerActionView::Write(spec_encode(spec_packet_of(s.events[0])))),
        )
    } else {
        (s, None)
    }
}

/// The view of an optional action.
pub open spec fn spec_action_view(r: Option<HandlerAction>) -> Option<HandlerActionView> {
    match r {
        Some(a) => Some(a@),
        None => None,
    }
}

/// One peer connection's handler state.
pub struct Connection {
    init: bool,
    inbound: Stage,
    outbound: Stage,
    connected: bool,
    initial_connections: Vec<String>,
    events: Vec<InputEvent>,
    in_buffer: Vec<u8>,
    history: Ghost<Seq<OutputEventView>>,
}

impl View for Connection {
    type V = ConnectionView;

    closed spec fn view(&self) -> ConnectionView {
        ConnectionView {
            init: self.init,
            inbound: self.inbound,
            outbound: self.outbound,
            connected: self.connected,
            initial_connections: self.initial_connections.deep_view(),
            events: self.events@.map_values(|e: InputEvent| e@),
            in_buffer: self.in_buffer@,
            history: self.history@,
        }
    }
}

/// Turns one decoded packet into the event it surfaces.
fn event_of_packet(p: Packet) -> (r: OutputEvent)
    ensures
        r@ == spec_event_of(p@),
{
    match p {
        Packet::VoicePacket { codec, data, channel } => OutputEvent::VoicePacket {
            codec,
            data,
            channel,
        },
        Packet::VoiceDisconnect { channel } => OutputEvent::Disconnected(channel),
        Packet::VoiceConnect { channel } => OutputEvent::Connected(channel),
    }
}

/// Turns one queued command into the packet it is serialized as.
fn packet_of_event(e: InputEvent) -> (r: Packet)
    ensures
        r@ == spec_packet_of(e@),
{
    match e {
        InputEvent::VoicePacket { codec, data, channel } => Packet::VoicePacket {
            codec,
            data,
            channel,
        },
        InputEvent::Connect(channel) => Packet::VoiceConnect { channel },
        InputEvent::Disconnect(channel) => Packet::VoiceDisconnect { channel },
    }
}

impl Connection {
    /// A handler for a fresh connection. `initial_connected` lists the
    /// channels the local side has already joined; they are announced to the
    /// peer as soon as the outbound direction is negotiated.
    pub fn new(initial_connected: Vec<String>) -> (r: Connection)
        ensures
            r@ == (ConnectionView {
                init: false,
                inbound: Stage::Idle,
                outbound: Stage::Idle,
                connected: false,
                initial_connections: initial_connected.deep_view(),
                events: Seq::empty(),
                in_buffer: Seq::empty(),
                history: Seq::empty(),
            }),
            r@.wf(),
    {
        let r = Connection {
            init: false,
            inbound: Stage::Idle,
            outbound: Stage::Idle,
            connected: false,
            initial_connections: initial_connected,
            events: Vec::new(),
            in_buffer: Vec::new(),
            history: Ghost(Seq::empty()),
        };
        proof {
            assert(r@.events =~= Seq::<InputEventView>::empty());
        }
        r
    }

    /// The protocol name both directions are negotiated under.
    pub fn protocol_name() -> (r: &'static str)
        ensures
            r@ == "/the-man/1.0.0"@,
    {
        "/the-man/1.0.0"
    }

    /// The handler keeps its connection alive as long as it exists.
    pub fn connection_keep_alive(&self) -> (r: bool)
        ensures
            r,
    {
        true
    }

    /// Records a negotiation report: the named direction becomes ready.
    pub fn on_connection_event(&mut self, event: ConnectionEvent)
        ensures
            final(self)@ == match event {
                ConnectionEvent::FullyNegotiatedInbound => ConnectionView {
                    inbound: Stage::Initial,
                    ..old(self)@
                },
                ConnectionEvent::FullyNegotiatedOutbound => ConnectionView {
                    outbound: Stage::Initial,
                    ..old(self)@
                },
                ConnectionEvent::Other => old(self)@,
            },
            old(self)@.wf() ==> final(self)@.wf(),
    {
        match event {
            ConnectionEvent::FullyNegotiatedInbound => {
                self.inbound = Stage::Initial;
            },
            ConnectionEvent::FullyNegotiatedOutbound => {
                self.outbound = Stage::Initial;
            },
            ConnectionEvent::Other => {},
        }
    }

    /// Enqueues one command from the behaviour; commands are served in
    /// arrival order.
    pub fn on_behaviour_event(&mut self, event: InputEvent)
        ensures
            final(self)@ == (ConnectionView { events: old(self)@.events.push(event@), ..old(self)@ }),
            old(self)@.wf() ==> final(self)@.wf(),
    {
        let ghost pre = self@.events;
        self.events.push(event);
        proof {
            assert(self@.events =~= pre.push(event@));
        }
    }

    /// Appends bytes read from the inbound substream to the accumulation
    /// buffer. They are decoded, one packet at a time, by later polls.
    pub fn handle_inbound(&mut self, bytes: &[u8])
        ensures
            final(self)@ == (ConnectionView {
                in_buffer: old(self)@.in_buffer + bytes@,
                ..old(self)@
            }),
            old(self)@.wf() ==> final(self)@.wf(),
    {
        let mut incoming = vstd::slice::slice_to_vec(bytes);
        self.in_buffer.append(&mut incoming);
    }

    /// Advances the state machine one step, exactly as [`spec_poll`] says,
    /// and returns the action the runtime must perform, if any.
    pub fn poll(&mut self) -> (r: Option<HandlerAction>)
        requires
            old(self)@.wf(),
        ensures
            final(self)@ == spec_poll(old(self)@).0,
            spec_action_view(r) == spec_poll(old(self)@).1,
            final(self)@.wf(),
    {
        if !self.init {
            self.init = true;
            return Some(HandlerAction::RequestOutboundSubstream);
        }
        if !self.connected && self.inbound.initial() && self.outbound.initial() {
            self.connected = true;
            self.history = Ghost(self.history@.push(OutputEventView::SuccesfulyConnect));
            proof {
                let h0 = old(self)@.history;
                let h = self@.history;
                assert(h[h0.len() as int] is SuccesfulyConnect);
                assert forall|i: int|
                    0 <= i < h.len() && is_session_event(#[trigger] h[i]) implies exists|j: int|
                    0 <= j < i && h[j] is SuccesfulyConnect by {
                    assert(i < h0.len() && is_session_event(h0[i]));
                    let j = choose|j: int| 0 <= j < i && h0[j] is SuccesfulyConnect;
                    assert(h[j] is SuccesfulyConnect);
                }
            }
            return Some(HandlerAction::Emit(OutputEvent::SuccesfulyConnect));
        }
        if matches!(self.outbound, Stage::Initial) {
            self.outbound = Stage::RunningBase;
            let burst = self.encode_initial_burst();
            return Some(HandlerAction::Write(burst));
        }
        if self.connected && self.inbound.initial() {
            let decoded = Packet::decode(&mut self.in_buffer);
            match decoded {
                Some(p) => {
                    let ev = event_of_packet(p);
                    self.history = Ghost(self.history@.push(ev@));
                    proof {
                        assert(self@.in_buffer =~= old(self)@.in_buffer.skip(
                            spec_encode(p@).len() as int,
                        ));
                        let h0 = old(self)@.history;
                        let h = self@.history;
                        let jc = choose|j: int| 0 <= j < h0.len() && h0[j] is SuccesfulyConnect;
                        assert forall|i: int|
                            0 <= i < h.len() && is_session_event(#[trigger] h[i]) implies exists|
                            j: int,
                        | 0 <= j < i && h[j] is SuccesfulyConnect by {
                            if i < h0.len() {
                                assert(is_session_event(h0[i]));
                                let j = choose|j: int| 0 <= j < i && h0[j] is SuccesfulyConnect;
                                assert(h[j] is SuccesfulyConnect);
                            } else {
                                assert(h[jc] is SuccesfulyConnect);
                            }
                        }
                    }
                    return Some(HandlerAction::Emit(ev));
                },
                None => {},
            }
        }
        if matches!(self.outbound, Stage::RunningBase) && self.events.len() > 0 {
            let ghost pre = self@.events;
            let ev = self.events.remove(0);
            proof {
                assert(self@.events =~= pre.drop_first());
                assert(ev@ == pre[0]);
            }
            let packet = packet_of_event(ev);
            let bytes = packet.encode();
            return Some(HandlerAction::Write(bytes));
        }
        None
    }

    /// Encodes the join announcement for every channel in
    /// `initial_connections`, in order, as one byte string.
    fn encode_initial_burst(&self) -> (r: Vec<u8>)
        ensures
            r@ == spec_connect_burst(self@.initial_connections),
    {
        let ghost channels = self@.initial_connections;
        let mut out: Vec<u8> = Vec::new();
        let mut i: usize = 0;
        proof {
            assert(channels.take(0) =~= Seq::<Seq<char>>::empty());
        }
        while i < self.initial_connections.len()
            invariant
                0 <= i <= self.initial_connections.len(),
                channels == self@.initial_connections,
                channels.len() == self.initial_connections.len(),
                out@ == spec_connect_burst(channels.take(i as int)),
            decreases self.initial_connections.len() - i,
        {
            let channel = self.initial_connections[i].clone();
            let packet = Packet::VoiceConnect { channel };
            let mut bytes = packet.encode();
            proof {
                lemma_connect_burst_snoc(channels, i as int);
                assert(packet@ == (PacketView::VoiceConnect { channel: channels[i as int] }));
            }
            out.append(&mut bytes);
            i = i + 1;
        }
        proof {
            assert(channels.take(channels.len() as int) =~= channels);
        }
        out
    }

    /// Handshake ordering: this handler never surfaces a voice packet or a
    /// channel join or leave notice before it has surfaced
    /// `SuccesfulyConnect` for the same connection.
    pub proof fn lemma_handshake_ordering(self)
        requires
            self@.wf(),
        ensures
            handshake_ordered(self@.history),
    {
    }
}

} // verus!
