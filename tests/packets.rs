use mcproxy::buffer::{put_string, Reader};
use mcproxy::error::ProtocolError;
use mcproxy::handshake::{Handshake, NextState};
use mcproxy::login::{
    Disconnect, EncryptionRequest, EncryptionResponse, LoginPluginResponse, LoginStart,
    LoginSuccess, Property, SetCompression,
};
use mcproxy::packet::{decode_body, PacketType, RawPacket};
use mcproxy::play::{
    BossBar, BossBarAction, BossBarColor, BossBarDivision, ChatCommand, PluginMessage, Respawn,
};
use mcproxy::protocol::ProtocolVersion;
use mcproxy::registry::PacketKind;
use mcproxy::status::Ping;

fn handshake_bytes() -> Vec<u8> {
    let h = Handshake {
        protocol: 762,
        server_address: "x".to_string(),
        port: 25565,
        state: NextState::Status,
    };
    let mut out = Vec::new();
    h.put_buf(&mut out);
    out
}

#[test]
fn handshake_layout_and_round_trip() {
    let bytes = handshake_bytes();
    assert_eq!(bytes, vec![0xfa, 0x05, 0x01, b'x', 0x63, 0xdd, 0x01]);
    match decode_body(PacketKind::Handshake, bytes, ProtocolVersion::Unknown) {
        Ok(PacketType::Handshake(h)) => {
            assert_eq!(h.protocol, 762);
            assert_eq!(h.server_address, "x");
            assert_eq!(h.port, 25565);
            assert_eq!(h.state, NextState::Status);
        }
        _ => panic!("handshake did not decode"),
    }
}

#[test]
fn trailing_bytes_are_an_error() {
    let mut bytes = handshake_bytes();
    bytes.push(0x00);
    assert!(matches!(
        decode_body(PacketKind::Handshake, bytes, ProtocolVersion::Unknown),
        Err(ProtocolError::TrailingBytes)
    ));
    let mut compression = Vec::new();
    SetCompression { threshold: 256 }.put_buf(&mut compression);
    compression.push(0x01);
    assert!(matches!(
        decode_body(PacketKind::SetCompression, compression, ProtocolVersion::V1_19_4),
        Err(ProtocolError::TrailingBytes)
    ));
    assert!(matches!(
        decode_body(PacketKind::StatusRequest, vec![0x00], ProtocolVersion::V1_19_4),
        Err(ProtocolError::TrailingBytes)
    ));
}

#[test]
fn unknown_next_state_is_invalid_tag() {
    let mut bytes = handshake_bytes();
    let last = bytes.len() - 1;
    bytes[last] = 3;
    assert!(matches!(
        decode_body(PacketKind::Handshake, bytes, ProtocolVersion::Unknown),
        Err(ProtocolError::InvalidTag)
    ));
}

#[test]
fn login_start_uuid_by_version() {
    let with_uuid = LoginStart { username: "Alice".to_string(), uuid: Some(0x0102) };
    let mut new_layout = Vec::new();
    with_uuid.put_buf(&mut new_layout, ProtocolVersion::V1_20_2);
    assert_eq!(new_layout.len(), 6 + 16);
    let mut optional_layout = Vec::new();
    with_uuid.put_buf(&mut optional_layout, ProtocolVersion::V1_19_4);
    assert_eq!(optional_layout.len(), 6 + 1 + 16);
    assert_eq!(optional_layout[6], 1);
    let without = LoginStart { username: "Alice".to_string(), uuid: None };
    let mut absent = Vec::new();
    without.put_buf(&mut absent, ProtocolVersion::V1_19_4);
    assert_eq!(absent, vec![5, b'A', b'l', b'i', b'c', b'e', 0]);
    let mut old_layout = Vec::new();
    with_uuid.put_buf(&mut old_layout, ProtocolVersion::V1_18_2);
    assert_eq!(old_layout.len(), 6);

    match decode_body(PacketKind::LoginStart, new_layout, ProtocolVersion::V1_20_2) {
        Ok(PacketType::LoginStart(l)) => {
            assert_eq!(l.username, "Alice");
            assert_eq!(l.uuid, Some(0x0102));
        }
        _ => panic!("login start did not decode"),
    }
    match decode_body(PacketKind::LoginStart, absent, ProtocolVersion::V1_19_4) {
        Ok(PacketType::LoginStart(l)) => assert_eq!(l.uuid, None),
        _ => panic!("login start did not decode"),
    }
}

#[test]
fn username_too_long() {
    let mut bytes = Vec::new();
    put_string(&mut bytes, &"a".repeat(49));
    assert!(matches!(
        decode_body(PacketKind::LoginStart, bytes, ProtocolVersion::V1_18_2),
        Err(ProtocolError::StringTooLong)
    ));
}

#[test]
fn string_errors() {
    let mut negative = Reader::new(vec![0xff, 0xff, 0xff, 0xff, 0x0f]);
    assert_eq!(negative.get_string(10), Err(ProtocolError::NegativeLength));
    let mut short = Reader::new(vec![0x03, b'a']);
    assert_eq!(short.get_string(10), Err(ProtocolError::UnexpectedEnd));
    let mut bad = Reader::new(vec![0x02, 0xc3, 0x28]);
    assert_eq!(bad.get_string(10), Err(ProtocolError::InvalidUtf8));
    let mut good = Reader::new(vec![0x02, 0xc3, 0xa9]);
    assert_eq!(good.get_string(1), Ok("é".to_string()));
}

#[test]
fn bool_and_byte_array_errors() {
    let mut b = Reader::new(vec![0x02]);
    assert_eq!(b.get_bool(), Err(ProtocolError::InvalidBool));
    let mut arr = Reader::new(vec![0x05, 1, 2]);
    assert_eq!(arr.get_bytes(), Err(ProtocolError::InvalidLength));
    let mut fixed = Reader::new(vec![0x03, 1, 2, 3]);
    assert_eq!(fixed.get_byte_array(4), Err(ProtocolError::InvalidLength));
    let mut ok = Reader::new(vec![0x04, 1, 2, 3, 4]);
    assert_eq!(ok.get_byte_array(4), Ok(vec![1, 2, 3, 4]));
}

#[test]
fn login_success_with_properties() {
    let p = LoginSuccess {
        uuid: 0x00112233445566778899aabbccddeeff,
        username: "Bob".to_string(),
        properties: vec![
            Property { name: "textures".to_string(), value: "v".to_string(), signature: None },
            Property {
                name: "n".to_string(),
                value: "w".to_string(),
                signature: Some("s".to_string()),
            },
        ],
    };
    let mut bytes = Vec::new();
    p.put_buf(&mut bytes);
    assert_eq!(bytes[0], 0x00);
    assert_eq!(bytes[15], 0xff);
    match decode_body(PacketKind::LoginSuccess, bytes, ProtocolVersion::V1_19_4) {
        Ok(PacketType::LoginSuccess(l)) => {
            assert_eq!(l.uuid, 0x00112233445566778899aabbccddeeff);
            assert_eq!(l.username, "Bob");
            assert_eq!(l.properties.len(), 2);
            assert_eq!(l.properties[0].name, "textures");
            assert_eq!(l.properties[0].signature, None);
            assert_eq!(l.properties[1].signature, Some("s".to_string()));
        }
        _ => panic!("login success did not decode"),
    }
}

#[test]
fn encryption_packets() {
    let req = EncryptionRequest {
        server_id: String::new(),
        public_key: vec![1, 2, 3],
        verify_token: vec![9, 8, 7, 6],
    };
    let mut bytes = Vec::new();
    req.put_buf(&mut bytes);
    assert_eq!(bytes, vec![0, 3, 1, 2, 3, 4, 9, 8, 7, 6]);
    match decode_body(PacketKind::EncryptionRequest, bytes, ProtocolVersion::V1_19_4) {
        Ok(PacketType::EncryptionRequest(r)) => assert_eq!(r.verify_token, vec![9, 8, 7, 6]),
        _ => panic!("encryption request did not decode"),
    }
    let resp = EncryptionResponse { shared_secret: vec![5; 16], verify_token: vec![1] };
    let mut bytes = Vec::new();
    resp.put_buf(&mut bytes);
    assert_eq!(bytes.len(), 1 + 16 + 1 + 1);
    match decode_body(PacketKind::EncryptionResponse, bytes, ProtocolVersion::V1_19_4) {
        Ok(PacketType::EncryptionResponse(r)) => assert_eq!(r.shared_secret, vec![5; 16]),
        _ => panic!("encryption response did not decode"),
    }
}

#[test]
fn login_plugin_response_data() {
    let r = LoginPluginResponse { message_id: 3, successful: true, data: Some(vec![1, 2]) };
    let mut bytes = Vec::new();
    r.put_buf(&mut bytes);
    assert_eq!(bytes, vec![3, 1, 1, 2]);
    match decode_body(PacketKind::LoginPluginResponse, bytes, ProtocolVersion::V1_19_4) {
        Ok(PacketType::LoginPluginResponse(r)) => assert_eq!(r.data, Some(vec![1, 2])),
        _ => panic!("login plugin response did not decode"),
    }
    let failed = LoginPluginResponse { message_id: 3, successful: false, data: Some(vec![1]) };
    let mut bytes = Vec::new();
    failed.put_buf(&mut bytes);
    assert_eq!(bytes, vec![3, 0]);
}

#[test]
fn login_plugin_request_needs_1_13() {
    assert!(matches!(
        decode_body(PacketKind::LoginPluginRequest, vec![0, 1, b'a'], ProtocolVersion::V1_12_2),
        Err(ProtocolError::UnknownPacket)
    ));
    match decode_body(PacketKind::LoginPluginRequest, vec![0, 1, b'a', 9, 9], ProtocolVersion::V1_13) {
        Ok(PacketType::LoginPluginRequest(r)) => {
            assert_eq!(r.channel, "a");
            assert_eq!(r.data, vec![9, 9]);
        }
        _ => panic!("login plugin request did not decode"),
    }
}

#[test]
fn disconnect_keeps_json_text() {
    let d = Disconnect { reason: "{\"text\":\"bye\"}".to_string() };
    let mut bytes = Vec::new();
    d.put_buf(&mut bytes);
    assert_eq!(bytes[0] as usize, d.reason.len());
    match decode_body(PacketKind::Disconnect, bytes, ProtocolVersion::V1_19_4) {
        Ok(PacketType::Disconnect(d)) => assert_eq!(d.reason, "{\"text\":\"bye\"}"),
        _ => panic!("disconnect did not decode"),
    }
}

#[test]
fn ping_round_trip() {
    let mut bytes = Vec::new();
    Ping(0x1234).put_buf(&mut bytes);
    assert_eq!(bytes, vec![0, 0, 0, 0, 0, 0, 0x12, 0x34]);
    match decode_body(PacketKind::Ping, bytes, ProtocolVersion::V1_19_4) {
        Ok(PacketType::Ping(p)) => assert_eq!(p.0, 0x1234),
        _ => panic!("ping did not decode"),
    }
    let mut negative = Vec::new();
    Ping(-2).put_buf(&mut negative);
    assert_eq!(negative, vec![0xff, 0xff, 0xff, 0xff, 0xff, 0xff, 0xff, 0xfe]);
    match decode_body(PacketKind::Ping, negative, ProtocolVersion::V1_19_4) {
        Ok(PacketType::Ping(p)) => assert_eq!(p.0, -2),
        _ => panic!("ping did not decode"),
    }
}

#[test]
fn plugin_message_keeps_rest() {
    let m = PluginMessage { channel: "a:b".to_string(), data: vec![1, 2, 3] };
    let mut bytes = Vec::new();
    m.put_buf(&mut bytes);
    assert_eq!(bytes, vec![3, b'a', b':', b'b', 1, 2, 3]);
    match decode_body(PacketKind::PluginMessage, bytes, ProtocolVersion::V1_19_4) {
        Ok(PacketType::PluginMessage(m)) => {
            assert_eq!(m.channel, "a:b");
            assert_eq!(m.data, vec![1, 2, 3]);
        }
        _ => panic!("plugin message did not decode"),
    }
}

#[test]
fn boss_bar_actions_round_trip() {
    let actions = vec![
        BossBarAction::Add {
            title: "{\"text\":\"t\"}".to_string(),
            health: 0x3f800000,
            color: BossBarColor::Purple,
            division: BossBarDivision::TwelveNotches,
            flags: 1,
        },
        BossBarAction::Remove,
        BossBarAction::UpdateHealth(0x3f000000),
        BossBarAction::UpdateTitle("{}".to_string()),
        BossBarAction::UpdateStyle(BossBarColor::Pink, BossBarDivision::NoDivision),
        BossBarAction::UpdateFlags(7),
    ];
    for (tag, action) in actions.into_iter().enumerate() {
        let bar = BossBar { uuid: 77, action };
        let mut bytes = Vec::new();
        bar.put_buf(&mut bytes);
        assert_eq!(bytes[16] as usize, tag);
        match decode_body(PacketKind::BossBar, bytes, ProtocolVersion::V1_19_4) {
            Ok(PacketType::BossBar(b)) => {
                assert_eq!(b.uuid, 77);
                match (tag, b.action) {
                    (0, BossBarAction::Add { health, color, division, flags, .. }) => {
                        assert_eq!(health, 0x3f800000);
                        assert_eq!(f32::from_bits(health), 1.0f32);
                        assert_eq!(color, BossBarColor::Purple);
                        assert_eq!(division, BossBarDivision::TwelveNotches);
                        assert_eq!(flags, 1);
                    }
                    (1, BossBarAction::Remove) => {}
                    (2, BossBarAction::UpdateHealth(h)) => assert_eq!(h, 0x3f000000),
                    (3, BossBarAction::UpdateTitle(t)) => assert_eq!(t, "{}"),
                    (4, BossBarAction::UpdateStyle(c, d)) => {
                        assert_eq!(c, BossBarColor::Pink);
                        assert_eq!(d, BossBarDivision::NoDivision);
                    }
                    (5, BossBarAction::UpdateFlags(f)) => assert_eq!(f, 7),
                    _ => panic!("wrong boss bar action"),
                }
            }
            _ => panic!("boss bar did not decode"),
        }
    }
}

#[test]
fn boss_bar_bad_tags() {
    let mut unknown_action = vec![0u8; 16];
    unknown_action.push(6);
    assert!(matches!(
        decode_body(PacketKind::BossBar, unknown_action, ProtocolVersion::V1_19_4),
        Err(ProtocolError::InvalidTag)
    ));
    let mut bad_color = vec![0u8; 16];
    bad_color.extend_from_slice(&[4, 7, 0]);
    assert!(matches!(
        decode_body(PacketKind::BossBar, bad_color, ProtocolVersion::V1_19_4),
        Err(ProtocolError::InvalidTag)
    ));
    let mut bad_division = vec![0u8; 16];
    bad_division.extend_from_slice(&[4, 0, 5]);
    assert!(matches!(
        decode_body(PacketKind::BossBar, bad_division, ProtocolVersion::V1_19_4),
        Err(ProtocolError::InvalidTag)
    ));
}

#[test]
fn chat_command_round_trip() {
    let c = ChatCommand {
        command: "switch lobby".to_string(),
        timestamp: 1700000000000,
        salt: -5,
        arguments: vec![("server".to_string(), vec![1, 2, 3])],
        message_count: 2,
        acknowledged: vec![0, 0, 1],
    };
    let mut bytes = Vec::new();
    c.put_buf(&mut bytes);
    match decode_body(PacketKind::ChatCommand, bytes, ProtocolVersion::V1_19_4) {
        Ok(PacketType::ChatCommand(d)) => {
            assert_eq!(d.command, "switch lobby");
            assert_eq!(d.timestamp, 1700000000000);
            assert_eq!(d.salt, -5);
            assert_eq!(d.arguments, vec![("server".to_string(), vec![1, 2, 3])]);
            assert_eq!(d.message_count, 2);
            assert_eq!(d.acknowledged, vec![0, 0, 1]);
        }
        _ => panic!("chat command did not decode"),
    }
}

#[test]
fn respawn_layout() {
    let r = Respawn {
        dimension_type: "t".to_string(),
        dimension_name: "n".to_string(),
        hashed_seed: 1,
        gamemode: 1,
        previous_gamemode: 255,
        is_debug: false,
        is_flat: true,
        data_kept: 0,
        last_death: None,
    };
    let mut bytes = Vec::new();
    r.put_buf(&mut bytes);
    assert_eq!(
        bytes,
        vec![1, b't', 1, b'n', 0, 0, 0, 0, 0, 0, 0, 1, 1, 255, 0, 1, 0, 0]
    );
}

#[test]
fn raw_packet_id_and_body() {
    let mut raw = RawPacket::new();
    assert_eq!(raw.id(), 0);
    raw.set_id(0x17);
    raw.buffer.extend_from_slice(&[1, 2]);
    assert_eq!(raw.id(), 0x17);
    assert_eq!(raw.data(), vec![1, 2]);
    assert_eq!(raw.buffer, vec![0x17]);
}
