use mc_listen::frame::{FrameError, Reassembler, MAX_FRAME_LEN};
use mc_listen::packet::{
    Packet, PacketData, PacketDirection, PacketParser, PacketRegistry, ProtocolMode,
};
use mc_listen::varint::{decode, encode, VarIntError};

#[test]
fn varint_round_trip() {
    let values: Vec<u32> = vec![
        0,
        1,
        127,
        128,
        300,
        16383,
        16384,
        2097151,
        2097152,
        268435455,
        268435456,
        u32::MAX,
    ];
    for v in values {
        let enc = encode(v);
        assert_eq!(decode(&enc, 0), Ok((v, enc.len())));
    }
}

#[test]
fn varint_encode_exact() {
    assert_eq!(encode(0), vec![0x00]);
    assert_eq!(encode(127), vec![0x7F]);
    assert_eq!(encode(128), vec![0x80, 0x01]);
    assert_eq!(encode(300), vec![0xAC, 0x02]);
    assert_eq!(encode(u32::MAX), vec![0xFF, 0xFF, 0xFF, 0xFF, 0x0F]);
}

#[test]
fn varint_decode_errors() {
    assert_eq!(decode(&[], 0), Err(VarIntError::TruncatedInput));
    assert_eq!(decode(&[0x80], 0), Err(VarIntError::TruncatedInput));
    assert_eq!(decode(&[0x80, 0x80, 0x80], 0), Err(VarIntError::TruncatedInput));
    assert_eq!(
        decode(&[0x80, 0x80, 0x80, 0x80, 0x80], 0),
        Err(VarIntError::Overflow)
    );
    assert_eq!(decode(&[0xAC, 0x02], 1), Ok((2, 1)));
}

fn frame_bytes(identifier: u32, payload: &[u8]) -> Vec<u8> {
    let mut body = encode(identifier);
    body.extend_from_slice(payload);
    let mut out = encode(body.len() as u32);
    out.extend_from_slice(&body);
    out
}

#[test]
fn reassembler_completeness_byte_by_byte() {
    let mut stream = frame_bytes(0, &[0xAB]);
    stream.extend_from_slice(&frame_bytes(1, &[1, 2, 3]));
    stream.extend_from_slice(&frame_bytes(300, &[]));
    let mut reassembler = Reassembler::new();
    let mut frames = Vec::new();
    for b in stream {
        frames.extend(reassembler.feed(&[b]).unwrap());
    }
    assert_eq!(frames.len(), 3);
    assert_eq!(frames[0].declared_length, 2);
    assert_eq!(frames[0].identifier, 0);
    assert_eq!(frames[0].payload, vec![0xAB]);
    assert_eq!(frames[1].declared_length, 4);
    assert_eq!(frames[1].identifier, 1);
    assert_eq!(frames[1].payload, vec![1, 2, 3]);
    assert_eq!(frames[2].declared_length, 2);
    assert_eq!(frames[2].identifier, 300);
    assert_eq!(frames[2].payload, Vec::<u8>::new());
}

#[test]
fn reassembler_one_chunk_many_frames() {
    let mut stream = frame_bytes(7, &[9, 9]);
    stream.extend_from_slice(&frame_bytes(8, &[]));
    let mut reassembler = Reassembler::new();
    let frames = reassembler.feed(&stream).unwrap();
    assert_eq!(frames.len(), 2);
    assert_eq!(frames[0].identifier, 7);
    assert_eq!(frames[1].identifier, 8);
}

#[test]
fn reassembler_stateful() {
    // length prefix 300 is [0xAC, 0x02]: feed only its first byte
    let mut reassembler = Reassembler::new();
    let first = reassembler.feed(&[0xAC]).unwrap();
    assert!(first.is_empty());
    // the rest of the prefix alone still completes nothing
    let second = reassembler.feed(&[0x02]).unwrap();
    assert!(second.is_empty());
    // the 300-byte body: identifier 0, payload of 299 zero bytes
    let mut body = vec![0x00u8];
    body.extend_from_slice(&[0u8; 299]);
    let third = reassembler.feed(&body).unwrap();
    assert_eq!(third.len(), 1);
    assert_eq!(third[0].declared_length, 300);
    assert_eq!(third[0].identifier, 0);
    assert_eq!(third[0].payload.len(), 299);
}

#[test]
fn oversized_frame_poisons() {
    let mut reassembler = Reassembler::new();
    let declared = encode(MAX_FRAME_LEN + 1);
    assert_eq!(reassembler.feed(&declared).unwrap_err(), FrameError::FrameTooLarge);
    // the instance stays poisoned: every later call fails too
    assert_eq!(reassembler.feed(&[]).unwrap_err(), FrameError::Poisoned);
    assert_eq!(reassembler.feed(&[0x01]).unwrap_err(), FrameError::Poisoned);
}

#[test]
fn length_prefix_overflow_poisons() {
    let mut reassembler = Reassembler::new();
    assert_eq!(
        reassembler.feed(&[0x80, 0x80, 0x80, 0x80, 0x80, 0x00]).unwrap_err(),
        FrameError::FrameTooLarge
    );
    assert_eq!(reassembler.feed(&[]).unwrap_err(), FrameError::Poisoned);
}

fn sample_registry() -> PacketRegistry {
    let records = vec![
        PacketData {
            protocol_mode: ProtocolMode::Handshake,
            packet_direction: PacketDirection::Serverbound,
            packet_name: String::from("handshake"),
        },
        PacketData {
            protocol_mode: ProtocolMode::Status,
            packet_direction: PacketDirection::Serverbound,
            packet_name: String::from("status_request"),
        },
        PacketData {
            protocol_mode: ProtocolMode::Status,
            packet_direction: PacketDirection::Serverbound,
            packet_name: String::from("status_ping"),
        },
        PacketData {
            protocol_mode: ProtocolMode::Status,
            packet_direction: PacketDirection::Clientbound,
            packet_name: String::from("status_response"),
        },
    ];
    PacketRegistry::from_records(records)
}

#[test]
fn registry_sequence_index_resets_per_group() {
    let registry = sample_registry();
    let name = |m, d, i| {
        registry
            .lookup(m, d, i)
            .map(|s| s.as_str().to_owned())
    };
    assert_eq!(
        name(ProtocolMode::Handshake, PacketDirection::Serverbound, 0),
        Some(String::from("handshake"))
    );
    assert_eq!(
        name(ProtocolMode::Status, PacketDirection::Serverbound, 0),
        Some(String::from("status_request"))
    );
    assert_eq!(
        name(ProtocolMode::Status, PacketDirection::Serverbound, 1),
        Some(String::from("status_ping"))
    );
    // the ordinal resets at the direction change
    assert_eq!(
        name(ProtocolMode::Status, PacketDirection::Clientbound, 0),
        Some(String::from("status_response"))
    );
    // misses are soft
    assert_eq!(name(ProtocolMode::Play, PacketDirection::Serverbound, 0), None);
    assert_eq!(name(ProtocolMode::Handshake, PacketDirection::Serverbound, 1), None);
}

#[test]
fn packet_from_buffer_resolves_name() {
    let registry = sample_registry();
    let parser = PacketParser::default();
    let packet = Packet::from_buffer(&[0x02, 0x00, 0xAB], &parser, &registry).unwrap();
    assert_eq!(packet.frame.declared_length, 2);
    assert_eq!(packet.frame.identifier, 0);
    assert_eq!(packet.frame.payload, vec![0xAB]);
    assert_eq!(packet.protocol_mode, ProtocolMode::Handshake);
    assert_eq!(packet.packet_direction, PacketDirection::Serverbound);
    assert_eq!(packet.name, Some(String::from("handshake")));
}

#[test]
fn packet_from_buffer_errors() {
    let registry = sample_registry();
    let parser = PacketParser::default();
    // declared body longer than the buffer
    assert!(matches!(
        Packet::from_buffer(&[0x05, 0x00, 0xAB], &parser, &registry),
        Err(VarIntError::TruncatedInput)
    ));
    // length prefix never terminates
    assert!(matches!(
        Packet::from_buffer(&[0x80, 0x80, 0x80, 0x80, 0x80, 0x00], &parser, &registry),
        Err(VarIntError::Overflow)
    ));
    // unknown identifier is a soft miss, not an error
    let packet = Packet::from_buffer(&[0x02, 0x09, 0xAB], &parser, &registry).unwrap();
    assert_eq!(packet.name, None);
}
