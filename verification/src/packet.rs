//! Wire codec for the voice-relay protocol.
//!
//! A packet is one of three signalling values. On the wire each packet is a
//! little-endian 64-bit variant tag followed by its fields; a string or byte
//! field is a little-endian 64-bit byte count followed by that many bytes,
//! strings in UTF-8. A byte buffer may hold zero, one or several encoded
//! packets in a row: `decode` consumes exactly one complete packet from the
//! front and leaves a trailing partial packet untouched until more bytes
//! arrive.

use vstd::prelude::*;

verus! {

use vstd::bytes::{
    lemma_auto_spec_u64_to_from_le_bytes, spec_u64_from_le_bytes, spec_u64_to_le_bytes,
    u64_from_le_bytes, u64_to_le_bytes,
};
use vstd::slice::{slice_subrange, slice_to_vec};
use vstd::string::StringSliceAdditionalSpecFns;
use vstd::utf8::{
    decode_utf8, decode_utf8_encode_utf8, encode_utf8, encode_utf8_decode_utf8,
    encode_utf8_valid_utf8, valid_utf8,
};

/// Wire tag of a voice payload packet.
pub const TAG_VOICE_PACKET: u64 = 0;

/// Wire tag of a channel leave notice.
pub const TAG_VOICE_DISCONNECT: u64 = 1;

/// Wire tag of a channel join notice.
pub const TAG_VOICE_CONNECT: u64 = 2;

/// One protocol packet, as exchanged between two connected peers.
#[derive(Clone, Debug, PartialEq, Eq)]
pub enum Packet {
    /// A block of encoded voice data for one channel.
    VoicePacket { codec: String, data: Vec<u8>, channel: String },
    /// The sender leaves the named channel.
    VoiceDisconnect { channel: String },
    /// The sender joins the named channel.
    VoiceConnect { channel: String },
}

/// The mathematical value of a [`Packet`].
pub enum PacketView {
    VoicePacket { codec: Seq<char>, data: Seq<u8>, channel: Seq<char> },
    VoiceDisconnect { channel: Seq<char> },
    VoiceConnect { channel: Seq<char> },
}

impl View for Packet {
    type V = PacketView;

    open spec fn view(&self) -> PacketView {
        match self {
            Packet::VoicePacket { codec, data, channel } => PacketView::VoicePacket {
                codec: codec@,
                data: data@,
                channel: channel@,
            },
            Packet::VoiceDisconnect { channel } => PacketView::VoiceDisconnect {
                channel: channel@,
            },
            Packet::VoiceConnect { channel } => PacketView::VoiceConnect { channel: channel@ },
        }
    }
}

/// A length-prefixed byte field: the payload's byte count as eight
/// little-endian bytes, then the payload itself.
pub open spec fn spec_chunk_bytes(payload: Seq<u8>) -> Seq<u8> {
    spec_u64_to_le_bytes(payload.len() as u64) + payload
}

/// A length-prefixed string field: the UTF-8 form of the string as a
/// length-prefixed byte field.
pub open spec fn spec_string_bytes(s: Seq<char>) -> Seq<u8> {
    spec_chunk_bytes(encode_utf8(s))
}

impl PacketView {
    /// Every field is small enough for its 64-bit length prefix. Holds of the
    /// view of every packet a machine can represent; only packets drawn out
    /// of thin air in a proof can break it.
    pub open spec fn wf(self) -> bool {
        match self {
            PacketView::VoicePacket { codec, data, channel } => {
                &&& encode_utf8(codec).len() <= u64::MAX
                &&& data.len() <= u64::MAX
                &&& encode_utf8(channel).len() <= u64::MAX
            },
            PacketView::VoiceDisconnect { channel } => encode_utf8(channel).len() <= u64::MAX,
            PacketView::VoiceConnect { channel } => encode_utf8(channel).len() <= u64::MAX,
        }
    }
}

/// The encoded form of a packet: total and deterministic in the packet value.
pub open spec fn spec_encode(p: PacketView) -> Seq<u8> {
    match p {
        PacketView::VoicePacket { codec, data, channel } => spec_u64_to_le_bytes(TAG_VOICE_PACKET)
            + spec_string_bytes(codec) + spec_chunk_bytes(data) + spec_string_bytes(channel),
        PacketView::VoiceDisconnect { channel } => spec_u64_to_le_bytes(TAG_VOICE_DISCONNECT)
            + spec_string_bytes(channel),
        PacketView::VoiceConnect { channel } => spec_u64_to_le_bytes(TAG_VOICE_CONNECT)
            + spec_string_bytes(channel),
    }
}

/// Reads one length-prefixed byte field at offset `off`: the payload and the
/// offset just past it, or `None` when the buffer ends too soon.
pub open spec fn spec_parse_chunk(b: Seq<u8>, off: int) -> Option<(Seq<u8>, int)> {
    if 0 <= off && off + 8 <= b.len() {
        let n = spec_u64_from_le_bytes(b.subrange(off, off + 8)) as int;
        if off + 8 + n <= b.len() {
            Some((b.subrange(off + 8, off + 8 + n), off + 8 + n))
        } else {
            None
        }
    } else {
        None
    }
}

/// Reads one length-prefixed string field at offset `off`; `None` when the
/// buffer ends too soon or the bytes are not UTF-8.
pub open spec fn spec_parse_string(b: Seq<u8>, off: int) -> Option<(Seq<char>, int)> {
    match spec_parse_chunk(b, off) {
        Some((bytes, end)) => if valid_utf8(bytes) {
            Some((decode_utf8(bytes), end))
        } else {
            None
        },
        None => None,
    }
}

/// Reads one whole packet from the front of the buffer: the packet and the
/// count of bytes it occupies, or `None` when no complete well-formed packet
/// starts the buffer.
pub open spec fn spec_decode(b: Seq<u8>) -> Option<(PacketView, int)> {
    if b.len() < 8 {
        None
    } else {
        let tag = spec_u64_from_le_bytes(b.subrange(0, 8));
        if tag == TAG_VOICE_PACKET {
            match spec_parse_string(b, 8) {
                Some((codec, o1)) => match spec_parse_chunk(b, o1) {
                    Some((data, o2)) => match spec_parse_string(b, o2) {
                        Some((channel, o3)) => Some(
                            (PacketView::VoicePacket { codec, data, channel }, o3),
                        ),
                        None => None,
                    },
                    None => None,
                },
                None => None,
            }
        } else if tag == TAG_VOICE_DISCONNECT {
            match spec_parse_string(b, 8) {
                Some((channel, o1)) => Some((PacketView::VoiceDisconnect { channel }, o1)),
                None => None,
            }
        } else if tag == TAG_VOICE_CONNECT {
            match spec_parse_string(b, 8) {
                Some((channel, o1)) => Some((PacketView::VoiceConnect { channel }, o1)),
                None => None,
            }
        } else {
            None
        }
    }
}

/// A chunk field sitting at offset `off` of a buffer parses to exactly its
/// payload and ends just past it.
proof fn lemma_parse_chunk_at(b: Seq<u8>, off: int, payload: Seq<u8>)
    requires
        0 <= off,
        off + 8 + payload.len() <= b.len(),
        payload.len() <= u64::MAX,
        b.subrange(off, off + 8 + payload.len() as int) == spec_chunk_bytes(payload),
    ensures
        spec_parse_chunk(b, off) == Some((payload, off + 8 + payload.len() as int)),
{
    lemma_auto_spec_u64_to_from_le_bytes();
    let field = spec_chunk_bytes(payload);
    let lenb = spec_u64_to_le_bytes(payload.len() as u64);
    assert(lenb.len() == 8);
    assert(b.subrange(off, off + 8) =~= lenb) by {
        assert forall|i: int| 0 <= i < 8 implies b.subrange(off, off + 8)[i] == lenb[i] by {
            assert(b.subrange(off, off + 8)[i] == b[off + i]);
            assert(b[off + i] == b.subrange(off, off + 8 + payload.len() as int)[i]);
            assert(field[i] == lenb[i]);
        }
    }
    assert(spec_u64_from_le_bytes(b.subrange(off, off + 8)) == payload.len() as u64);
    let n = payload.len() as int;
    assert(b.subrange(off + 8, off + 8 + n) =~= payload) by {
        assert forall|i: int| 0 <= i < n implies b.subrange(off + 8, off + 8 + n)[i]
            == payload[i] by {
            assert(b.subrange(off + 8, off + 8 + n)[i] == b[off + 8 + i]);
            assert(b[off + 8 + i] == b.subrange(off, off + 8 + n)[8 + i]);
            assert(field[8 + i] == payload[i]);
        }
    }
}

/// A string field sitting at offset `off` of a buffer parses to exactly its
/// string and ends just past it.
proof fn lemma_parse_string_at(b: Seq<u8>, off: int, s: Seq<char>)
    requires
        0 <= off,
        off + 8 + encode_utf8(s).len() <= b.len(),
        encode_utf8(s).len() <= u64::MAX,
        b.subrange(off, off + 8 + encode_utf8(s).len() as int) == spec_string_bytes(s),
    ensures
        spec_parse_string(b, off) == Some((s, off + 8 + encode_utf8(s).len() as int)),
{
    lemma_parse_chunk_at(b, off, encode_utf8(s));
    encode_utf8_valid_utf8(s);
    encode_utf8_decode_utf8(s);
}

/// Whatever a chunk field parses to was written there as a chunk field.
proof fn lemma_parse_chunk_sound(b: Seq<u8>, off: int)
    requires
        spec_parse_chunk(b, off) is Some,
    ensures
        ({
            let (payload, end) = spec_parse_chunk(b, off)->Some_0;
            &&& 0 <= off
            &&& end == off + 8 + payload.len()
            &&& end <= b.len()
            &&& payload.len() <= u64::MAX
            &&& b.subrange(off, end) == spec_chunk_bytes(payload)
        }),
{
    lemma_auto_spec_u64_to_from_le_bytes();
    let (payload, end) = spec_parse_chunk(b, off)->Some_0;
    let lenb = b.subrange(off, off + 8);
    assert(spec_u64_to_le_bytes(spec_u64_from_le_bytes(lenb)) == lenb);
    assert(b.subrange(off, end) =~= spec_chunk_bytes(payload));
}

/// Whatever a string field parses to was written there as a string field.
proof fn lemma_parse_string_sound(b: Seq<u8>, off: int)
    requires
        spec_parse_string(b, off) is Some,
    ensures
        ({
            let (s, end) = spec_parse_string(b, off)->Some_0;
            &&& 0 <= off
            &&& end == off + 8 + encode_utf8(s).len()
            &&& end <= b.len()
            &&& encode_utf8(s).len() <= u64::MAX
            &&& b.subrange(off, end) == spec_string_bytes(s)
        }),
{
    lemma_parse_chunk_sound(b, off);
    let (bytes, end) = spec_parse_chunk(b, off)->Some_0;
    decode_utf8_encode_utf8(bytes);
}

/// Streaming round trip: a buffer that starts with one encoded packet decodes
/// to exactly that packet, whatever follows it.
pub proof fn lemma_decode_encode(p: PacketView, rest: Seq<u8>)
    requires
        p.wf(),
    ensures
        spec_decode(spec_encode(p) + rest) == Some((p, spec_encode(p).len() as int)),
{
    lemma_auto_spec_u64_to_from_le_bytes();
    let b = spec_encode(p) + rest;
    let enc = spec_encode(p);
    match p {
        PacketView::VoicePacket { codec, data, channel } => {
            let tagb = spec_u64_to_le_bytes(TAG_VOICE_PACKET);
            let f1 = spec_string_bytes(codec);
            let f2 = spec_chunk_bytes(data);
            let f3 = spec_string_bytes(channel);
            let o1 = 8 + f1.len() as int;
            let o2 = o1 + f2.len() as int;
            let o3 = o2 + f3.len() as int;
            assert(b.subrange(0, 8) =~= tagb);
            assert(b.subrange(8, o1) =~= f1);
            assert(b.subrange(o1, o2) =~= f2);
            assert(b.subrange(o2, o3) =~= f3);
            lemma_parse_string_at(b, 8, codec);
            lemma_parse_chunk_at(b, o1, data);
            lemma_parse_string_at(b, o2, channel);
            assert(enc.len() == o3);
        },
        PacketView::VoiceDisconnect { channel } => {
            let tagb = spec_u64_to_le_bytes(TAG_VOICE_DISCONNECT);
            let f1 = spec_string_bytes(channel);
            let o1 = 8 + f1.len() as int;
            assert(b.subrange(0, 8) =~= tagb);
            assert(b.subrange(8, o1) =~= f1);
            lemma_parse_string_at(b, 8, channel);
            assert(enc.len() == o1);
        },
        PacketView::VoiceConnect { channel } => {
            let tagb = spec_u64_to_le_bytes(TAG_VOICE_CONNECT);
            let f1 = spec_string_bytes(channel);
            let o1 = 8 + f1.len() as int;
            assert(b.subrange(0, 8) =~= tagb);
            assert(b.subrange(8, o1) =~= f1);
            lemma_parse_string_at(b, 8, channel);
            assert(enc.len() == o1);
        },
    }
}

/// Whatever decodes out of a buffer was written at its front by `spec_encode`:
/// decoding never invents a packet.
pub proof fn lemma_decode_sound(b: Seq<u8>)
    requires
        spec_decode(b) is Some,
    ensures
        ({
            let (p, n) = spec_decode(b)->Some_0;
            &&& p.wf()
            &&& 8 <= n <= b.len()
            &&& n == spec_encode(p).len()
            &&& b.subrange(0, n) == spec_encode(p)
        }),
{
    lemma_auto_spec_u64_to_from_le_bytes();
    let (p, n) = spec_decode(b)->Some_0;
    let tagb = b.subrange(0, 8);
    assert(spec_u64_to_le_bytes(spec_u64_from_le_bytes(tagb)) == tagb);
    match p {
        PacketView::VoicePacket { codec, data, channel } => {
            lemma_parse_string_sound(b, 8);
            let o1 = spec_parse_string(b, 8)->Some_0.1;
            lemma_parse_chunk_sound(b, o1);
            let o2 = spec_parse_chunk(b, o1)->Some_0.1;
            lemma_parse_string_sound(b, o2);
            assert(b.subrange(0, n) =~= spec_encode(p));
        },
        PacketView::VoiceDisconnect { channel } => {
            lemma_parse_string_sound(b, 8);
            assert(b.subrange(0, n) =~= spec_encode(p));
        },
        PacketView::VoiceConnect { channel } => {
            lemma_parse_string_sound(b, 8);
            assert(b.subrange(0, n) =~= spec_encode(p));
        },
    }
}

/// No packet is ambiguous with another on the wire: when two encoded packets
/// start the same byte stream they are the same packet, and what follows them
/// is the same.
pub proof fn lemma_wire_unambiguous(p1: PacketView, r1: Seq<u8>, p2: PacketView, r2: Seq<u8>)
    requires
        p1.wf(),
        p2.wf(),
        spec_encode(p1) + r1 == spec_encode(p2) + r2,
    ensures
        p1 == p2,
        r1 == r2,
{
    lemma_decode_encode(p1, r1);
    lemma_decode_encode(p2, r2);
    let b = spec_encode(p1) + r1;
    assert(spec_decode(b) == Some((p1, spec_encode(p1).len() as int)));
    assert(spec_decode(b) == Some((p2, spec_encode(p2).len() as int)));
    assert(r1 =~= r2) by {
        assert(spec_encode(p1).len() == spec_encode(p2).len());
        assert forall|i: int| 0 <= i < r1.len() implies r1[i] == r2[i] by {
            assert(b[spec_encode(p1).len() + i] == r1[i]);
            assert(b[spec_encode(p2).len() + i] == r2[i]);
        }
    }
}

/// Appends one length-prefixed byte field.
fn push_chunk(out: &mut Vec<u8>, payload: &[u8])
    ensures
        final(out)@ == old(out)@ + spec_chunk_bytes(payload@),
        payload@.len() <= u64::MAX,
{
    let n: usize = payload.len();
    let mut lenb = u64_to_le_bytes(n as u64);
    out.append(&mut lenb);
    let mut body = slice_to_vec(payload);
    out.append(&mut body);
}

/// Appends one length-prefixed string field.
fn push_string(out: &mut Vec<u8>, s: &str)
    ensures
        final(out)@ == old(out)@ + spec_string_bytes(s@),
        encode_utf8(s@).len() <= u64::MAX,
{
    push_chunk(out, s.as_bytes());
}

/// Reads one length-prefixed byte field at offset `off` without consuming.
fn read_chunk(buffer: &Vec<u8>, off: usize) -> (r: Option<(Vec<u8>, usize)>)
    ensures
        match r {
            Some((payload, end)) => spec_parse_chunk(buffer@, off as int) == Some(
                (payload@, end as int),
            ),
            None => spec_parse_chunk(buffer@, off as int) is None,
        },
{
    if off > buffer.len() || buffer.len() - off < 8 {
        return None;
    }
    let n64 = u64_from_le_bytes(slice_subrange(buffer.as_slice(), off, off + 8));
    let rem: usize = buffer.len() - off - 8;
    if n64 > rem as u64 {
        return None;
    }
    let n = n64 as usize;
    let payload = slice_to_vec(slice_subrange(buffer.as_slice(), off + 8, off + 8 + n));
    Some((payload, off + 8 + n))
}

/// Relies on `String::from_utf8`: it succeeds exactly on valid UTF-8 input
/// and returns the string those bytes encode.
#[verifier::external_body]
fn bytes_to_string(v: Vec<u8>) -> (r: Option<String>)
    ensures
        r is Some <==> valid_utf8(v@),
        r matches Some(s) ==> s@ == decode_utf8(v@),
{
    String::from_utf8(v).ok()
}

/// Reads one length-prefixed string field at offset `off` without consuming.
fn read_string(buffer: &Vec<u8>, off: usize) -> (r: Option<(String, usize)>)
    ensures
        match r {
            Some((s, end)) => spec_parse_string(buffer@, off as int) == Some((s@, end as int)),
            None => spec_parse_string(buffer@, off as int) is None,
        },
{
    match read_chunk(buffer, off) {
        Some((payload, end)) => match bytes_to_string(payload) {
            Some(s) => Some((s, end)),
            None => None,
        },
        None => None,
    }
}

impl Packet {
    /// Encodes this packet for the wire. Total and deterministic: equal
    /// packets give equal bytes.
    pub fn encode(&self) -> (r: Vec<u8>)
        ensures
            r@ == spec_encode(self@),
            self@.wf(),
    {
        let mut out: Vec<u8> = Vec::new();
        match self {
            Packet::VoicePacket { codec, data, channel } => {
                let mut tagb = u64_to_le_bytes(TAG_VOICE_PACKET);
                out.append(&mut tagb);
                push_string(&mut out, codec.as_str());
                push_chunk(&mut out, data.as_slice());
                push_string(&mut out, channel.as_str());
            },
            Packet::VoiceDisconnect { channel } => {
                let mut tagb = u64_to_le_bytes(TAG_VOICE_DISCONNECT);
                out.append(&mut tagb);
                push_string(&mut out, channel.as_str());
            },
            Packet::VoiceConnect { channel } => {
                let mut tagb = u64_to_le_bytes(TAG_VOICE_CONNECT);
                out.append(&mut tagb);
                push_string(&mut out, channel.as_str());
            },
        }
        out
    }

    /// Decodes one packet from the front of `buffer`, consuming exactly its
    /// bytes; leaves the buffer untouched and returns `None` while no
    /// complete well-formed packet starts it.
    pub fn decode(buffer: &mut Vec<u8>) -> (r: Option<Packet>)
        ensures
            match r {
                Some(p) => {
                    &&& p@.wf()
                    &&& old(buffer)@ == spec_encode(p@) + final(buffer)@
                    &&& spec_decode(old(buffer)@) == Some((p@, spec_encode(p@).len() as int))
                },
                None => {
                    &&& final(buffer)@ == old(buffer)@
                    &&& spec_decode(old(buffer)@) is None
                },
            },
    {
        if buffer.len() < 8 {
            return None;
        }
        let tag = u64_from_le_bytes(slice_subrange(buffer.as_slice(), 0, 8));
        let parsed: Option<(Packet, usize)> = if tag == TAG_VOICE_PACKET {
            match read_string(buffer, 8) {
                Some((codec, o1)) => match read_chunk(buffer, o1) {
                    Some((data, o2)) => match read_string(buffer, o2) {
                        Some((channel, o3)) => Some(
                            (Packet::VoicePacket { codec, data, channel }, o3),
                        ),
                        None => None,
                    },
                    None => None,
                },
                None => None,
            }
        } else if tag == TAG_VOICE_DISCONNECT {
            match read_string(buffer, 8) {
                Some((channel, o1)) => Some((Packet::VoiceDisconnect { channel }, o1)),
                None => None,
            }
        } else if tag == TAG_VOICE_CONNECT {
            match read_string(buffer, 8) {
                Some((channel, o1)) => Some((Packet::VoiceConnect { channel }, o1)),
                None => None,
            }
        } else {
            None
        };
        match parsed {
            Some((packet, n)) => {
                proof {
                    lemma_decode_sound(buffer@);
                }
                let tail = buffer.split_off(n);
                *buffer = tail;
                proof {
                    assert(old(buffer)@ =~= spec_encode(packet@) + buffer@);
                }
                Some(packet)
            },
            None => None,
        }
    }
}

} // verus!
