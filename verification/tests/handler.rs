//! Connection-handler tests: handshake ordering, the announcement burst,
//! and first-in-first-out command service.

use the_man::handler::{
    Connection, ConnectionEvent, HandlerAction, InputEvent, OutputEvent,
};
use the_man::packet::Packet;

fn poll_action(c: &mut Connection) -> Option<HandlerAction> {
    c.poll()
}

#[test]
fn first_poll_requests_outbound_substream() {
    let mut c = Connection::new(Vec::new());
    match poll_action(&mut c) {
        Some(HandlerAction::RequestOutboundSubstream) => {},
        other => panic!("expected a substream request, got {:?}", other),
    }
}

#[test]
fn successfully_connected_comes_before_any_packet_event() {
    let mut c = Connection::new(Vec::new());
    assert!(matches!(poll_action(&mut c), Some(HandlerAction::RequestOutboundSubstream)));

    // Bytes arrive before the handshake is done: they must stay buffered.
    let packet = Packet::VoiceConnect { channel: "general".to_string() };
    c.handle_inbound(&packet.encode());
    c.on_connection_event(ConnectionEvent::FullyNegotiatedInbound);
    assert!(poll_action(&mut c).is_none());

    c.on_connection_event(ConnectionEvent::FullyNegotiatedOutbound);
    match poll_action(&mut c) {
        Some(HandlerAction::Emit(OutputEvent::SuccesfulyConnect)) => {},
        other => panic!("expected the handshake event first, got {:?}", other),
    }
    // The outbound announcement burst for an empty channel set is empty.
    match poll_action(&mut c) {
        Some(HandlerAction::Write(bytes)) => assert!(bytes.is_empty()),
        other => panic!("expected the announcement write, got {:?}", other),
    }
    // Only now is the buffered packet surfaced.
    match poll_action(&mut c) {
        Some(HandlerAction::Emit(OutputEvent::Connected(channel))) => {
            assert_eq!(channel, "general");
        },
        other => panic!("expected the join event, got {:?}", other),
    }
    assert!(poll_action(&mut c).is_none());
}

#[test]
fn announcement_burst_lists_every_joined_channel() {
    let mut c = Connection::new(vec!["a".to_string(), "b".to_string()]);
    assert!(matches!(poll_action(&mut c), Some(HandlerAction::RequestOutboundSubstream)));
    c.on_connection_event(ConnectionEvent::FullyNegotiatedInbound);
    c.on_connection_event(ConnectionEvent::FullyNegotiatedOutbound);
    assert!(matches!(
        poll_action(&mut c),
        Some(HandlerAction::Emit(OutputEvent::SuccesfulyConnect))
    ));
    let bytes = match poll_action(&mut c) {
        Some(HandlerAction::Write(bytes)) => bytes,
        other => panic!("expected the announcement write, got {:?}", other),
    };
    // The peer can decode the burst one packet at a time.
    let mut buffer = bytes;
    assert_eq!(
        Packet::decode(&mut buffer),
        Some(Packet::VoiceConnect { channel: "a".to_string() })
    );
    assert_eq!(
        Packet::decode(&mut buffer),
        Some(Packet::VoiceConnect { channel: "b".to_string() })
    );
    assert!(buffer.is_empty());
}

#[test]
fn commands_are_written_in_arrival_order() {
    let mut c = Connection::new(Vec::new());
    assert!(matches!(poll_action(&mut c), Some(HandlerAction::RequestOutboundSubstream)));
    c.on_connection_event(ConnectionEvent::FullyNegotiatedInbound);
    c.on_connection_event(ConnectionEvent::FullyNegotiatedOutbound);
    assert!(matches!(
        poll_action(&mut c),
        Some(HandlerAction::Emit(OutputEvent::SuccesfulyConnect))
    ));
    assert!(matches!(poll_action(&mut c), Some(HandlerAction::Write(_))));

    c.on_behaviour_event(InputEvent::Connect("a".to_string()));
    c.on_behaviour_event(InputEvent::Disconnect("a".to_string()));
    let first = match poll_action(&mut c) {
        Some(HandlerAction::Write(bytes)) => bytes,
        other => panic!("expected a write, got {:?}", other),
    };
    let second = match poll_action(&mut c) {
        Some(HandlerAction::Write(bytes)) => bytes,
        other => panic!("expected a write, got {:?}", other),
    };
    let mut b1 = first;
    assert_eq!(
        Packet::decode(&mut b1),
        Some(Packet::VoiceConnect { channel: "a".to_string() })
    );
    let mut b2 = second;
    assert_eq!(
        Packet::decode(&mut b2),
        Some(Packet::VoiceDisconnect { channel: "a".to_string() })
    );
}

#[test]
fn keep_alive_and_protocol_name() {
    let c = Connection::new(Vec::new());
    assert!(c.connection_keep_alive());
    assert_eq!(Connection::protocol_name(), "/the-man/1.0.0");
}
