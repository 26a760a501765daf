//! Channel-mesh tests: the voice gating invariant, join/leave symmetry, the
//! acceptance policy, and the two-peer accept flow run end to end through
//! real handlers and the codec.

use the_man::behaviour::{BehaviourEvent, TheManBehaviour, ToSwarmEvent};
use the_man::handler::{
    Connection, ConnectionEvent, HandlerAction, InputEvent, OutputEvent,
};
use the_man::peer::PeerId;

fn drain(b: &mut TheManBehaviour) -> Vec<ToSwarmEvent> {
    let mut out = Vec::new();
    while let Some(ev) = b.poll() {
        out.push(ev);
    }
    out
}

fn peer(id: u64) -> PeerId {
    PeerId { id }
}

#[test]
fn connect_notifies_every_known_peer() {
    let mut b = TheManBehaviour::new(peer(1));
    b.on_connection_handler_event(peer(2), OutputEvent::SuccesfulyConnect);
    b.on_connection_handler_event(peer(3), OutputEvent::SuccesfulyConnect);
    b.connect("general".to_string());
    let events = drain(&mut b);
    assert_eq!(events.len(), 2);
    let mut notified = Vec::new();
    for ev in events {
        match ev {
            ToSwarmEvent::NotifyHandler { peer_id, event: InputEvent::Connect(c) } => {
                assert_eq!(c, "general");
                notified.push(peer_id.id);
            },
            other => panic!("expected join notifications, got {:?}", other),
        }
    }
    assert_eq!(notified, vec![2, 3]);
}

#[test]
fn disconnect_sends_one_notice_per_peer_and_purges_the_mesh() {
    let mut b = TheManBehaviour::new(peer(1));
    b.on_connection_handler_event(peer(2), OutputEvent::SuccesfulyConnect);
    b.connect("general".to_string());
    // Auto-accept records the peer's join on the mesh.
    b.on_connection_handler_event(peer(2), OutputEvent::Connected("general".to_string()));
    let _ = drain(&mut b);
    b.disconnect("general".to_string());
    let events = drain(&mut b);
    assert_eq!(events.len(), 1);
    assert!(matches!(
        &events[0],
        ToSwarmEvent::NotifyHandler { peer_id, event: InputEvent::Disconnect(c) }
            if peer_id.id == 2 && c == "general"
    ));
    // The mesh entry is gone: a voice packet from the peer is now dropped.
    b.connect("general".to_string());
    let _ = drain(&mut b);
    b.on_connection_handler_event(
        peer(2),
        OutputEvent::VoicePacket {
            codec: "opus".to_string(),
            data: vec![1],
            channel: "general".to_string(),
        },
    );
    assert!(drain(&mut b).is_empty());
}

#[test]
fn voice_packets_are_gated_on_join_and_acceptance() {
    let mut b = TheManBehaviour::new(peer(1));
    b.set_auto_accept(false);
    b.on_connection_handler_event(peer(2), OutputEvent::SuccesfulyConnect);
    b.connect("general".to_string());
    let _ = drain(&mut b);

    let packet = OutputEvent::VoicePacket {
        codec: "opus".to_string(),
        data: vec![7, 7],
        channel: "general".to_string(),
    };

    // Unknown pair: dropped.
    b.on_connection_handler_event(peer(2), clone_voice(&packet));
    assert!(drain(&mut b).is_empty());

    // Requested but not accepted: still dropped.
    b.on_connection_handler_event(peer(2), OutputEvent::Connected("general".to_string()));
    let events = drain(&mut b);
    assert!(matches!(
        &events[..],
        [ToSwarmEvent::GenerateEvent(BehaviourEvent::Request { .. })]
    ));
    b.on_connection_handler_event(peer(2), clone_voice(&packet));
    assert!(drain(&mut b).is_empty());

    // Accepted: delivered.
    b.accept("general".to_string(), peer(2));
    b.on_connection_handler_event(peer(2), clone_voice(&packet));
    let events = drain(&mut b);
    assert_eq!(events.len(), 1);
    assert!(matches!(
        &events[0],
        ToSwarmEvent::GenerateEvent(BehaviourEvent::VoicePacket { from, channel, data, .. })
            if from.id == 2 && channel == "general" && data == &vec![7, 7]
    ));

    // Refused again: dropped again.
    b.refuze("general".to_string(), peer(2));
    b.on_connection_handler_event(peer(2), clone_voice(&packet));
    assert!(drain(&mut b).is_empty());

    // A channel the local side never joined: dropped even when accepted.
    b.on_connection_handler_event(peer(2), OutputEvent::Connected("other".to_string()));
    let _ = drain(&mut b);
    b.accept("other".to_string(), peer(2));
    b.on_connection_handler_event(
        peer(2),
        OutputEvent::VoicePacket {
            codec: "opus".to_string(),
            data: vec![1],
            channel: "other".to_string(),
        },
    );
    assert!(drain(&mut b).is_empty());
}

fn clone_voice(ev: &OutputEvent) -> OutputEvent {
    match ev {
        OutputEvent::VoicePacket { codec, data, channel } => OutputEvent::VoicePacket {
            codec: codec.clone(),
            data: data.clone(),
            channel: channel.clone(),
        },
        _ => panic!("only voice packets are cloned here"),
    }
}

#[test]
fn accept_and_refuze_ignore_unknown_pairs() {
    let mut b = TheManBehaviour::new(peer(1));
    b.connect("general".to_string());
    let _ = drain(&mut b);
    b.accept("general".to_string(), peer(9));
    b.refuze("general".to_string(), peer(9));
    // Still no mesh entry: a packet from that peer is dropped.
    b.on_connection_handler_event(
        peer(9),
        OutputEvent::VoicePacket {
            codec: "opus".to_string(),
            data: vec![1],
            channel: "general".to_string(),
        },
    );
    assert!(drain(&mut b).is_empty());
}

#[test]
fn closed_connection_purges_the_peer_everywhere() {
    let mut b = TheManBehaviour::new(peer(1));
    b.on_connection_handler_event(peer(2), OutputEvent::SuccesfulyConnect);
    b.connect("general".to_string());
    b.on_connection_handler_event(peer(2), OutputEvent::Connected("general".to_string()));
    let _ = drain(&mut b);

    b.on_swarm_event(the_man::behaviour::FromSwarmEvent::ConnectionClosed { peer_id: peer(2) });
    let events = drain(&mut b);
    assert!(matches!(
        &events[..],
        [ToSwarmEvent::GenerateEvent(BehaviourEvent::VoiceDisconnected { from })] if from.id == 2
    ));
    // No stale acceptance survives for a later connection under the same
    // identity: the packet is dropped until the peer joins again.
    b.on_connection_handler_event(
        peer(2),
        OutputEvent::VoicePacket {
            codec: "opus".to_string(),
            data: vec![1],
            channel: "general".to_string(),
        },
    );
    assert!(drain(&mut b).is_empty());
    // And the peer is no longer notified of joins.
    b.connect("other".to_string());
    assert!(drain(&mut b).is_empty());
}

/// The accept flow of two peers, end to end: A joins a channel, B's handler
/// parses the announcement, B's user accepts, and A's audio then reaches B.
#[test]
fn two_peer_accept_flow() {
    let a_id = peer(10);
    let mut a = TheManBehaviour::new(a_id);
    let mut b = TheManBehaviour::new(peer(20));
    b.set_auto_accept(false);

    // Both sides' handlers negotiate; each behaviour learns of the other.
    let mut a_conn = Connection::new(a.connected_channels());
    let mut b_conn = Connection::new(b.connected_channels());
    assert!(matches!(a_conn.poll(), Some(HandlerAction::RequestOutboundSubstream)));
    assert!(matches!(b_conn.poll(), Some(HandlerAction::RequestOutboundSubstream)));
    a_conn.on_connection_event(ConnectionEvent::FullyNegotiatedInbound);
    a_conn.on_connection_event(ConnectionEvent::FullyNegotiatedOutbound);
    b_conn.on_connection_event(ConnectionEvent::FullyNegotiatedInbound);
    b_conn.on_connection_event(ConnectionEvent::FullyNegotiatedOutbound);
    pump(&mut a, &mut a_conn, &mut b, &mut b_conn);

    // A joins "general"; the command reaches A's handler, crosses the wire,
    // and B's application sees a request.
    a.connect("general".to_string());
    pump(&mut a, &mut a_conn, &mut b, &mut b_conn);
    let requests = drain(&mut b);
    assert!(matches!(
        &requests[..],
        [ToSwarmEvent::GenerateEvent(BehaviourEvent::Request { channel, from })]
            if channel == "general" && from.id == 10
    ));

    // B's user accepts, B joins the channel itself, and A's broadcast now
    // reaches B's application.
    b.accept("general".to_string(), a_id);
    b.connect("general".to_string());
    pump(&mut b, &mut b_conn, &mut a, &mut a_conn);
    let _ = drain(&mut a);
    a.audio_packet("opus".to_string(), vec![1, 2, 3]);
    pump(&mut a, &mut a_conn, &mut b, &mut b_conn);
    let delivered = drain(&mut b);
    assert!(matches!(
        &delivered[..],
        [ToSwarmEvent::GenerateEvent(BehaviourEvent::VoicePacket { from, codec, data, channel })]
            if from.id == 10 && codec == "opus" && data == &vec![1, 2, 3] && channel == "general"
    ));
}

/// Drives `from`'s behaviour and handler until quiet, carrying written bytes
/// into `to`'s handler and surfacing both sides' handler events into their
/// behaviours.
fn pump(
    from: &mut TheManBehaviour,
    from_conn: &mut Connection,
    to: &mut TheManBehaviour,
    to_conn: &mut Connection,
) {
    let from_id = from.peer_id();
    let to_id = to.peer_id();
    // Deliver the sending behaviour's handler commands.
    while let Some(ev) = from.poll() {
        match ev {
            ToSwarmEvent::NotifyHandler { event, .. } => from_conn.on_behaviour_event(event),
            ToSwarmEvent::GenerateEvent(_) => {},
        }
    }
    // Poll both handlers until neither has work, shuttling bytes across.
    loop {
        let mut progressed = false;
        while let Some(action) = from_conn.poll() {
            progressed = true;
            match action {
                HandlerAction::Write(bytes) => to_conn.handle_inbound(&bytes),
                HandlerAction::Emit(ev) => from.on_connection_handler_event(to_id, ev),
                HandlerAction::RequestOutboundSubstream => {},
            }
        }
        while let Some(action) = to_conn.poll() {
            progressed = true;
            match action {
                HandlerAction::Write(bytes) => from_conn.handle_inbound(&bytes),
                HandlerAction::Emit(ev) => to.on_connection_handler_event(from_id, ev),
                HandlerAction::RequestOutboundSubstream => {},
            }
        }
        if !progressed {
            break;
        }
    }
}
