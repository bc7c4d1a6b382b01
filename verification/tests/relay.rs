use mc_listen::packet::{
    PacketDirection, PacketParser, PacketRegistry, PhaseError, ProtocolMode,
};
use mc_listen::session::{RelayAction, Session, SessionError, SessionState};

#[test]
fn phase_machine_transitions() {
    // Handshake -> Status succeeds once
    let mut parser = PacketParser::default();
    assert!(parser.switch_protocol_mode(&ProtocolMode::Status).is_ok());
    assert_eq!(parser.protocol_mode, ProtocolMode::Status);
    // Status -> Login fails with IllegalPhaseTransition, phase unchanged
    let refused = parser.switch_protocol_mode(&ProtocolMode::Login);
    assert_eq!(
        refused,
        Err(PhaseError::IllegalPhaseTransition {
            from: ProtocolMode::Status,
            to: ProtocolMode::Login,
        })
    );
    assert_eq!(parser.protocol_mode, ProtocolMode::Status);
    // Login -> Login succeeds repeatedly
    let mut login = PacketParser::default();
    assert!(login.switch_protocol_mode(&ProtocolMode::Login).is_ok());
    assert!(login.switch_protocol_mode(&ProtocolMode::Login).is_ok());
    assert!(login.switch_protocol_mode(&ProtocolMode::Login).is_ok());
    assert_eq!(login.protocol_mode, ProtocolMode::Login);
    // after any failed transition the phase is what it was
    let failed = login.switch_protocol_mode(&ProtocolMode::Status);
    assert!(failed.is_err());
    assert_eq!(login.protocol_mode, ProtocolMode::Login);
}

#[test]
fn phase_check_has_no_side_effect() {
    let parser = PacketParser::default();
    assert!(parser.check_protocol_mode_switch(&ProtocolMode::Status).is_ok());
    assert!(parser.check_protocol_mode_switch(&ProtocolMode::Login).is_ok());
    assert!(parser.check_protocol_mode_switch(&ProtocolMode::Play).is_err());
    assert_eq!(parser.protocol_mode, ProtocolMode::Handshake);
}

#[test]
fn end_to_end_single_chunk() {
    let registry = PacketRegistry::from_records(Vec::new());
    let mut session = Session::new(String::from("127.0.0.1:25565"));
    session.on_connect_result(true).unwrap();
    let action = session.on_read(PacketDirection::Serverbound, &[0x02, 0x00, 0xAB], &registry);
    match action {
        RelayAction::Forward { bytes, packets } => {
            // the exact bytes read go to the upstream socket, unmodified
            assert_eq!(bytes, vec![0x02, 0x00, 0xAB]);
            assert_eq!(packets.len(), 1);
            assert_eq!(packets[0].frame.declared_length, 2);
            assert_eq!(packets[0].frame.identifier, 0);
            assert_eq!(packets[0].frame.payload, vec![0xAB]);
            assert_eq!(packets[0].protocol_mode, ProtocolMode::Handshake);
            assert_eq!(packets[0].packet_direction, PacketDirection::Serverbound);
            assert_eq!(packets[0].name, None);
        },
        RelayAction::ShutdownDestination => panic!("expected a forward"),
    }
    assert_eq!(session.state, SessionState::Relaying);
}

#[test]
fn partial_frame_does_not_block_forwarding() {
    let registry = PacketRegistry::from_records(Vec::new());
    let mut session = Session::new(String::from("127.0.0.1:25565"));
    session.on_connect_result(true).unwrap();
    // only the first half of the frame arrives: nothing decoded, bytes still forwarded
    match session.on_read(PacketDirection::Clientbound, &[0x02, 0x00], &registry) {
        RelayAction::Forward { bytes, packets } => {
            assert_eq!(bytes, vec![0x02, 0x00]);
            assert!(packets.is_empty());
        },
        RelayAction::ShutdownDestination => panic!("expected a forward"),
    }
    // the second half completes the frame on the next read
    match session.on_read(PacketDirection::Clientbound, &[0xAB], &registry) {
        RelayAction::Forward { bytes, packets } => {
            assert_eq!(bytes, vec![0xAB]);
            assert_eq!(packets.len(), 1);
            assert_eq!(packets[0].frame.identifier, 0);
            assert_eq!(packets[0].packet_direction, PacketDirection::Clientbound);
        },
        RelayAction::ShutdownDestination => panic!("expected a forward"),
    }
}

#[test]
fn poisoned_stream_still_forwards() {
    let registry = PacketRegistry::from_records(Vec::new());
    let mut session = Session::new(String::from("127.0.0.1:25565"));
    session.on_connect_result(true).unwrap();
    // an oversized declared length poisons the observation of this direction
    match session.on_read(PacketDirection::Serverbound, &[0xFF, 0xFF, 0xFF, 0x7F], &registry) {
        RelayAction::Forward { bytes, packets } => {
            assert_eq!(bytes, vec![0xFF, 0xFF, 0xFF, 0x7F]);
            assert!(packets.is_empty());
        },
        RelayAction::ShutdownDestination => panic!("expected a forward"),
    }
    // raw bytes keep flowing; no further frames are ever decoded
    match session.on_read(PacketDirection::Serverbound, &[0x02, 0x00, 0xAB], &registry) {
        RelayAction::Forward { bytes, packets } => {
            assert_eq!(bytes, vec![0x02, 0x00, 0xAB]);
            assert!(packets.is_empty());
        },
        RelayAction::ShutdownDestination => panic!("expected a forward"),
    }
    // the other direction is unaffected
    match session.on_read(PacketDirection::Clientbound, &[0x02, 0x00, 0xAB], &registry) {
        RelayAction::Forward { packets, .. } => assert_eq!(packets.len(), 1),
        RelayAction::ShutdownDestination => panic!("expected a forward"),
    }
}

#[test]
fn relay_symmetry_on_close() {
    let registry = PacketRegistry::from_records(Vec::new());
    // the client closes: its direction's destination (the upstream write
    // side) is half-closed and the session is over at once
    let mut session = Session::new(String::from("127.0.0.1:25565"));
    session.on_connect_result(true).unwrap();
    let action = session.on_read(PacketDirection::Serverbound, &[], &registry);
    assert!(matches!(action, RelayAction::ShutdownDestination));
    assert_eq!(session.state, SessionState::Closed);
    // and symmetrically when the server closes first
    let mut session = Session::new(String::from("127.0.0.1:25565"));
    session.on_connect_result(true).unwrap();
    let action = session.on_read(PacketDirection::Clientbound, &[], &registry);
    assert!(matches!(action, RelayAction::ShutdownDestination));
    assert_eq!(session.state, SessionState::Closed);
}

#[test]
fn upstream_unreachable_closes_before_relaying() {
    let mut session = Session::new(String::from("203.0.113.9:25565"));
    let outcome = session.on_connect_result(false);
    match outcome {
        Err(SessionError::UpstreamUnreachable { address }) => {
            assert_eq!(address, String::from("203.0.113.9:25565"));
        },
        Ok(()) => panic!("expected the session to fail"),
    }
    assert_eq!(session.state, SessionState::Closed);
}
