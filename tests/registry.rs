use mcproxy::error::ProtocolError;
use mcproxy::packet::{decode_expected, dispatch, encode_packet, PacketType, RawPacket};
use mcproxy::play::PluginMessage;
use mcproxy::protocol::{Direction, ProtocolVersion, State};
use mcproxy::registry::{packet_id, PacketKind, ProtocolRegistry, KIND_COUNT};

#[test]
fn ids_of_login_and_status_packets() {
    let v = ProtocolVersion::V1_19_4;
    assert_eq!(packet_id(PacketKind::Handshake, State::Handshake, Direction::Serverbound, v), Some(0));
    assert_eq!(packet_id(PacketKind::StatusRequest, State::Status, Direction::Serverbound, v), Some(0));
    assert_eq!(packet_id(PacketKind::Ping, State::Status, Direction::Clientbound, v), Some(1));
    assert_eq!(packet_id(PacketKind::Ping, State::Status, Direction::Serverbound, v), Some(1));
    assert_eq!(packet_id(PacketKind::Disconnect, State::Login, Direction::Clientbound, v), Some(0));
    assert_eq!(packet_id(PacketKind::LoginSuccess, State::Login, Direction::Clientbound, v), Some(2));
    assert_eq!(packet_id(PacketKind::SetCompression, State::Login, Direction::Clientbound, v), Some(3));
    assert_eq!(packet_id(PacketKind::LoginStart, State::Login, Direction::Clientbound, v), None);
}

#[test]
fn play_disconnect_id_steps_with_version() {
    let d = Direction::Clientbound;
    assert_eq!(packet_id(PacketKind::Disconnect, State::Play, d, ProtocolVersion::V1_19_4), Some(0x1a));
    assert_eq!(packet_id(PacketKind::Disconnect, State::Play, d, ProtocolVersion::V1_20), Some(0x1a));
    assert_eq!(packet_id(PacketKind::Disconnect, State::Play, d, ProtocolVersion::V1_20_3), Some(0x1b));
    assert_eq!(packet_id(PacketKind::Disconnect, State::Play, d, ProtocolVersion::V1_19_3), Some(0x17));
    assert_eq!(packet_id(PacketKind::Disconnect, State::Play, d, ProtocolVersion::V1_19_2), Some(0x19));
    assert_eq!(packet_id(PacketKind::Disconnect, State::Play, d, ProtocolVersion::V1_19), None);
    assert_eq!(packet_id(PacketKind::PluginMessage, State::Play, d, ProtocolVersion::V1_19_3), Some(0x15));
    assert_eq!(packet_id(PacketKind::PluginMessage, State::Play, d, ProtocolVersion::V1_20_2), Some(0x18));
    assert_eq!(packet_id(PacketKind::BossBar, State::Play, d, ProtocolVersion::V1_19_4), Some(0x0b));
    assert_eq!(packet_id(PacketKind::BossBar, State::Play, d, ProtocolVersion::V1_19_2), Some(0x0a));
    assert_eq!(packet_id(PacketKind::JoinGame, State::Play, d, ProtocolVersion::V1_19_2), Some(0x25));
    assert_eq!(packet_id(PacketKind::Respawn, State::Play, d, ProtocolVersion::V1_20_2), Some(0x43));
    assert_eq!(packet_id(PacketKind::Respawn, State::Play, d, ProtocolVersion::V1_20_3), Some(0x45));
    assert_eq!(packet_id(PacketKind::ChatCommand, State::Play, Direction::Serverbound, ProtocolVersion::V1_19_4), Some(0x04));
}

#[test]
fn every_dispatched_kind_decodes_at_its_id() {
    let states = [State::Handshake, State::Status, State::Login, State::Play];
    let dirs = [Direction::Clientbound, Direction::Serverbound];
    let versions = [
        ProtocolVersion::V1_18_2,
        ProtocolVersion::V1_19_2,
        ProtocolVersion::V1_19_3,
        ProtocolVersion::V1_19_4,
        ProtocolVersion::V1_20,
        ProtocolVersion::V1_20_2,
        ProtocolVersion::V1_20_3,
    ];
    for s in states {
        for d in dirs {
            for v in versions {
                let reg = ProtocolRegistry::new(s, d, v);
                for i in 0..KIND_COUNT {
                    let k = PacketKind::from_index(i);
                    if let Ok(id) = reg.get_id(k) {
                        if k.is_dispatched() {
                            assert_eq!(reg.get_packet(id), Some(k));
                        }
                    }
                }
            }
        }
    }
}

#[test]
fn unknown_ids_are_raw() {
    let reg = ProtocolRegistry::new(State::Play, Direction::Clientbound, ProtocolVersion::V1_19_4);
    assert_eq!(reg.get_packet(0x28), None);
    assert_eq!(reg.get_packet(0x7f), None);
    assert_eq!(reg.get_packet(0xff), None);
    assert_eq!(reg.get_packet(0x17), Some(PacketKind::PluginMessage));
    assert_eq!(reg.get_id(PacketKind::ChatCommand), Err(ProtocolError::UnknownPacket));
    match dispatch(&reg, vec![0x55, 1, 2, 3]) {
        Ok(PacketType::Raw(raw)) => assert_eq!(raw.buffer, vec![0x55, 1, 2, 3]),
        _ => panic!("frame was not forwarded raw"),
    }
}

#[test]
fn dispatch_decodes_registered_ids() {
    let reg = ProtocolRegistry::new(State::Play, Direction::Clientbound, ProtocolVersion::V1_19_4);
    let frame = vec![0x17, 3, b'a', b':', b'b', 9];
    match dispatch(&reg, frame) {
        Ok(PacketType::PluginMessage(m)) => {
            assert_eq!(m.channel, "a:b");
            assert_eq!(m.data, vec![9]);
        }
        _ => panic!("plugin message was not dispatched"),
    }
    assert!(matches!(dispatch(&reg, vec![]), Err(ProtocolError::UnexpectedEnd)));
}

#[test]
fn expected_packet_checks_id() {
    let reg = ProtocolRegistry::new(State::Status, Direction::Serverbound, ProtocolVersion::V1_19_4);
    assert!(matches!(
        decode_expected(&reg, PacketKind::StatusRequest, vec![0x00]),
        Ok(PacketType::StatusRequest(_))
    ));
    assert!(matches!(
        decode_expected(&reg, PacketKind::StatusRequest, vec![0x01]),
        Err(ProtocolError::UnexpectedId)
    ));
    assert!(matches!(
        decode_expected(&reg, PacketKind::LoginStart, vec![0x00]),
        Err(ProtocolError::UnknownPacket)
    ));
}

#[test]
fn encode_uses_slice_id() {
    let reg = ProtocolRegistry::new(State::Play, Direction::Clientbound, ProtocolVersion::V1_19_4);
    let m = PluginMessage { channel: "c".to_string(), data: vec![7] };
    let raw = encode_packet(&reg, PacketType::PluginMessage(m)).ok().unwrap();
    assert_eq!(raw.buffer, vec![0x17, 1, b'c', 7]);
    let passthrough = RawPacket { buffer: vec![0x30, 1] };
    let raw = encode_packet(&reg, PacketType::Raw(passthrough)).ok().unwrap();
    assert_eq!(raw.buffer, vec![0x30, 1]);
    let serverbound = ProtocolRegistry::new(State::Play, Direction::Serverbound, ProtocolVersion::V1_19_4);
    let m = PluginMessage { channel: "c".to_string(), data: vec![] };
    assert!(matches!(
        encode_packet(&serverbound, PacketType::PluginMessage(m)),
        Err(ProtocolError::UnknownPacket)
    ));
}

#[test]
fn protocol_numbers() {
    assert_eq!(ProtocolVersion::from(762), ProtocolVersion::V1_19_4);
    assert_eq!(ProtocolVersion::from(759), ProtocolVersion::V1_19);
    assert_eq!(ProtocolVersion::from(4), ProtocolVersion::V1_7_2);
    assert_eq!(ProtocolVersion::from(1000), ProtocolVersion::Unknown);
    assert_eq!(i32::from(ProtocolVersion::V1_20_3), 765);
    assert_eq!(i32::from(ProtocolVersion::Unknown), -1);
    assert!(ProtocolVersion::V1_20_2.at_least(ProtocolVersion::V1_19_2));
    assert!(!ProtocolVersion::V1_19.at_least(ProtocolVersion::V1_19_2));
    assert_eq!(State::from_id(2), State::Login);
}
