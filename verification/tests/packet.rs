//! Wire-codec tests: round trips, streaming decode, and rejection of
//! malformed or incomplete buffers.

use the_man::packet::Packet;

fn voice_packet(codec: &str, data: &[u8], channel: &str) -> Packet {
    Packet::VoicePacket {
        codec: codec.to_string(),
        data: data.to_vec(),
        channel: channel.to_string(),
    }
}

#[test]
fn round_trip_voice_packet() {
    let p = voice_packet("opus", &[1, 2, 3, 255], "general");
    let mut buffer = p.encode();
    let decoded = Packet::decode(&mut buffer).expect("complete packet");
    assert_eq!(decoded, p);
    assert!(buffer.is_empty());
}

#[test]
fn round_trip_voice_connect() {
    let p = Packet::VoiceConnect { channel: "general".to_string() };
    let mut buffer = p.encode();
    assert_eq!(Packet::decode(&mut buffer), Some(p));
    assert!(buffer.is_empty());
}

#[test]
fn round_trip_voice_disconnect() {
    let p = Packet::VoiceDisconnect { channel: "music".to_string() };
    let mut buffer = p.encode();
    assert_eq!(Packet::decode(&mut buffer), Some(p));
    assert!(buffer.is_empty());
}

#[test]
fn round_trip_empty_fields() {
    let p = voice_packet("", &[], "");
    let mut buffer = p.encode();
    assert_eq!(Packet::decode(&mut buffer), Some(p));
    assert!(buffer.is_empty());

    let p2 = Packet::VoiceConnect { channel: String::new() };
    let mut buffer2 = p2.encode();
    assert_eq!(Packet::decode(&mut buffer2), Some(p2));
    assert!(buffer2.is_empty());
}

#[test]
fn round_trip_multibyte_channel() {
    let p = Packet::VoiceConnect { channel: "za\u{17e}lut\u{10348}".to_string() };
    let mut buffer = p.encode();
    assert_eq!(Packet::decode(&mut buffer), Some(p));
    assert!(buffer.is_empty());
}

#[test]
fn two_packets_decode_in_order() {
    let p1 = voice_packet("opus", &[9, 8, 7], "general");
    let p2 = Packet::VoiceDisconnect { channel: "general".to_string() };
    let mut buffer = p1.encode();
    buffer.extend_from_slice(&p2.encode());
    assert_eq!(Packet::decode(&mut buffer), Some(p1));
    assert_eq!(Packet::decode(&mut buffer), Some(p2));
    assert!(buffer.is_empty());
}

#[test]
fn partial_packet_waits_for_more_bytes() {
    let p = voice_packet("opus", &[1, 2, 3], "general");
    let encoded = p.encode();
    let mut buffer = encoded[..encoded.len() - 1].to_vec();
    let before = buffer.clone();
    assert_eq!(Packet::decode(&mut buffer), None);
    assert_eq!(buffer, before);
    buffer.push(encoded[encoded.len() - 1]);
    assert_eq!(Packet::decode(&mut buffer), Some(p));
    assert!(buffer.is_empty());
}

#[test]
fn streaming_decode_byte_by_byte() {
    let p = Packet::VoiceConnect { channel: "ch".to_string() };
    let encoded = p.encode();
    let mut buffer = Vec::new();
    for (i, b) in encoded.iter().enumerate() {
        buffer.push(*b);
        let r = Packet::decode(&mut buffer);
        if i + 1 < encoded.len() {
            assert_eq!(r, None);
        } else {
            assert_eq!(r, Some(p.clone()));
        }
    }
    assert!(buffer.is_empty());
}

#[test]
fn unknown_tag_is_not_a_packet() {
    let mut buffer = vec![9, 0, 0, 0, 0, 0, 0, 0, 1, 0, 0, 0, 0, 0, 0, 0, 65];
    let before = buffer.clone();
    assert_eq!(Packet::decode(&mut buffer), None);
    assert_eq!(buffer, before);
}

#[test]
fn invalid_utf8_is_not_a_packet() {
    // A join notice whose channel bytes are not UTF-8.
    let mut buffer = vec![2, 0, 0, 0, 0, 0, 0, 0, 2, 0, 0, 0, 0, 0, 0, 0, 0xff, 0xfe];
    let before = buffer.clone();
    assert_eq!(Packet::decode(&mut buffer), None);
    assert_eq!(buffer, before);
}

#[test]
fn encode_is_deterministic() {
    let a = voice_packet("opus", &[4, 5], "room");
    let b = voice_packet("opus", &[4, 5], "room");
    assert_eq!(a.encode(), b.encode());
}

#[test]
fn wire_layout_of_join_notice() {
    // Tag 2, then an eight-byte little-endian length, then the UTF-8 bytes.
    let p = Packet::VoiceConnect { channel: "ab".to_string() };
    assert_eq!(
        p.encode(),
        vec![2, 0, 0, 0, 0, 0, 0, 0, 2, 0, 0, 0, 0, 0, 0, 0, b'a', b'b']
    );
}
