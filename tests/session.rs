use mcproxy::buffer::put_string;
use mcproxy::component::{Component, Type};
use mcproxy::error::ProtocolError;
use mcproxy::handshake::{Handshake, NextState};
use mcproxy::login::{Disconnect, LoginSuccess, SetCompression};
use mcproxy::packet::{PacketType, RawPacket};
use mcproxy::play::{BossBar, BossBarAction, BossBarColor, BossBarDivision, PluginMessage};
use mcproxy::protocol::{ProtocolVersion, State};
use mcproxy::online::AuthError;
use mcproxy::session::{
    auth_failure_reason, backend_login_packets, join_check, JoinCheck,
    backend_login_step, compression_threshold, handle_server_packet, handshake_next,
    login_decision, rewrite_brand, same_text, BackendStep, ConnectionInfo, LoginDecision,
    ServerAction,
};

fn string_bytes(s: &str) -> Vec<u8> {
    let mut out = Vec::new();
    put_string(&mut out, s);
    out
}

fn add(uuid: u128) -> BossBar {
    BossBar {
        uuid,
        action: BossBarAction::Add {
            title: "{\"text\":\"bar\"}".to_string(),
            health: 0x3f800000,
            color: BossBarColor::Red,
            division: BossBarDivision::NoDivision,
            flags: 0,
        },
    }
}

fn remove(uuid: u128) -> BossBar {
    BossBar { uuid, action: BossBarAction::Remove }
}

#[test]
fn brand_rewrite_appends_suffix() {
    let msg = PluginMessage { channel: "minecraft:brand".to_string(), data: string_bytes("vanilla") };
    let out = rewrite_brand(msg).unwrap();
    assert_eq!(out.channel, "minecraft:brand");
    assert_eq!(out.data, string_bytes("vanilla inside a bike"));
    assert_eq!(out.data[0], 21);
}

#[test]
fn other_channels_are_untouched() {
    let data = vec![0xde, 0xad, 0xbe, 0xef];
    let msg = PluginMessage { channel: "minecraft:register".to_string(), data: data.clone() };
    let out = rewrite_brand(msg).unwrap();
    assert_eq!(out.channel, "minecraft:register");
    assert_eq!(out.data, data);
}

#[test]
fn malformed_brand_is_an_error() {
    let msg = PluginMessage { channel: "minecraft:brand".to_string(), data: vec![0x05, b'a'] };
    assert!(matches!(rewrite_brand(msg), Err(ProtocolError::UnexpectedEnd)));
}

#[test]
fn boss_bar_tracking_sequence() {
    let mut info = ConnectionInfo::new("Alice".to_string(), Some(1));
    info.track_boss_bar(&add(11));
    info.track_boss_bar(&add(22));
    info.track_boss_bar(&remove(11));
    info.track_boss_bar(&add(33));
    assert_eq!(info.boss_bars, vec![22, 33]);
}

#[test]
fn boss_bar_swap_remove_and_unknown() {
    let mut info = ConnectionInfo::new("Alice".to_string(), Some(1));
    for u in [1u128, 2, 3, 4] {
        info.track_boss_bar(&add(u));
    }
    info.track_boss_bar(&remove(2));
    assert_eq!(info.boss_bars, vec![1, 4, 3]);
    info.track_boss_bar(&remove(99));
    assert_eq!(info.boss_bars, vec![1, 4, 3]);
    info.track_boss_bar(&BossBar { uuid: 1, action: BossBarAction::UpdateFlags(2) });
    assert_eq!(info.boss_bars, vec![1, 4, 3]);
    let removals = info.remove_boss_bars();
    assert!(info.boss_bars.is_empty());
    assert_eq!(removals.iter().map(|b| b.uuid).collect::<Vec<_>>(), vec![1, 4, 3]);
    assert!(removals.iter().all(|b| matches!(b.action, BossBarAction::Remove)));
}

#[test]
fn server_policy_per_packet() {
    let mut info = ConnectionInfo::new("Alice".to_string(), None);
    match handle_server_packet(&mut info, PacketType::BossBar(add(5)), false) {
        Ok(ServerAction::Forward(PacketType::BossBar(b))) => assert_eq!(b.uuid, 5),
        _ => panic!("boss bar not forwarded"),
    }
    assert_eq!(info.boss_bars, vec![5]);
    let d = Disconnect { reason: "{\"text\":\"bye\"}".to_string() };
    match handle_server_packet(&mut info, PacketType::Disconnect(d), false) {
        Ok(ServerAction::ForwardAndClose(PacketType::Disconnect(d))) => {
            assert_eq!(d.reason, "{\"text\":\"bye\"}")
        }
        _ => panic!("disconnect not forwarded"),
    }
    let d = Disconnect { reason: "{}".to_string() };
    assert!(matches!(
        handle_server_packet(&mut info, PacketType::Disconnect(d), true),
        Ok(ServerAction::SwitchServer(PacketType::Disconnect(_)))
    ));
    let raw = RawPacket { buffer: vec![0x30, 1, 2] };
    match handle_server_packet(&mut info, PacketType::Raw(raw), false) {
        Ok(ServerAction::Forward(PacketType::Raw(r))) => assert_eq!(r.buffer, vec![0x30, 1, 2]),
        _ => panic!("raw frame not forwarded"),
    }
}

#[test]
fn offline_session_uuid() {
    let info = ConnectionInfo::new("Notch".to_string(), None);
    assert_eq!(info.uuid, 0xb50ad385_829d_3141_a216_7e7d7539ba7f);
    let given = ConnectionInfo::new("Notch".to_string(), Some(42));
    assert_eq!(given.uuid, 42);
}

#[test]
fn handshake_leads_to_state() {
    let h = Handshake { protocol: 762, server_address: "x".to_string(), port: 0, state: NextState::Status };
    assert_eq!(handshake_next(&h), (ProtocolVersion::V1_19_4, State::Status));
    let h = Handshake { protocol: 12345, server_address: "x".to_string(), port: 0, state: NextState::Login };
    assert_eq!(handshake_next(&h), (ProtocolVersion::Unknown, State::Login));
}

#[test]
fn login_decisions() {
    match login_decision(ProtocolVersion::V1_19, false) {
        LoginDecision::Reject(c) => match c.content {
            Some(Type::Text(t)) => assert_eq!(t, "We support versions above 1.19.1"),
            _ => panic!("reason is not text"),
        },
        _ => panic!("old client not rejected"),
    }
    assert!(matches!(login_decision(ProtocolVersion::Unknown, false), LoginDecision::Reject(_)));
    assert!(matches!(login_decision(ProtocolVersion::V1_19_2, false), LoginDecision::Proceed));
    assert!(matches!(login_decision(ProtocolVersion::V1_20_3, true), LoginDecision::Authenticate));
    assert_eq!(compression_threshold(-1), None);
    assert_eq!(compression_threshold(0), Some(0));
    assert_eq!(compression_threshold(256), Some(256));
}

#[test]
fn backend_login_steps() {
    assert!(matches!(
        backend_login_step(PacketType::SetCompression(SetCompression { threshold: 256 })),
        BackendStep::EnableCompression(256)
    ));
    assert!(matches!(
        backend_login_step(PacketType::SetCompression(SetCompression { threshold: -1 })),
        BackendStep::Continue
    ));
    let ok = LoginSuccess { uuid: 1, username: "A".to_string(), properties: vec![] };
    assert!(matches!(backend_login_step(PacketType::LoginSuccess(ok)), BackendStep::Joined));
    match backend_login_step(PacketType::Disconnect(Disconnect { reason: "{}".to_string() })) {
        BackendStep::Disconnected(r) => assert_eq!(r, "{}"),
        _ => panic!("disconnect not reported"),
    }
    let raw = RawPacket { buffer: vec![9] };
    assert!(matches!(backend_login_step(PacketType::Raw(raw)), BackendStep::Unsupported));
}

#[test]
fn component_builders() {
    let c = Component::text("hi").bold(true).underlined(false).strikethrough(true).obfuscated(false);
    assert_eq!(c.bold, Some(true));
    assert_eq!(c.underlined, Some(false));
    assert_eq!(c.strikethrough, Some(true));
    assert_eq!(c.obfuscated, Some(false));
    let c = c.push(Component::translate("key")).append(vec![Component::text("a"), Component::text("b")]);
    assert_eq!(c.extra.len(), 3);
    assert!(matches!(c.content, Some(Type::Text(ref t)) if t == "hi"));
    assert!(same_text("minecraft:brand", "minecraft:brand"));
    assert!(!same_text("minecraft:brand", "minecraft:brand2"));
}

fn text_of(c: &Component) -> String {
    match &c.content {
        Some(Type::Text(t)) => t.clone(),
        _ => panic!("not a text component"),
    }
}

#[test]
fn session_server_answers() {
    assert!(matches!(join_check(200), JoinCheck::Joined));
    match join_check(204) {
        JoinCheck::Refused(c) => assert_eq!(text_of(&c), "Server is in online mode"),
        _ => panic!("204 accepted"),
    }
    match join_check(500) {
        JoinCheck::Refused(c) => assert_eq!(text_of(&c), "Failed to authenticate with Mojang"),
        _ => panic!("500 accepted"),
    }
    assert_eq!(text_of(&auth_failure_reason(AuthError::InvalidVerifyToken)), "Invalid verify token");
    assert_eq!(text_of(&auth_failure_reason(AuthError::InvalidSharedSecret)), "Invalid shared secret");
    assert_eq!(
        text_of(&auth_failure_reason(AuthError::DecryptFailed)),
        "Could not decrypt the encryption response"
    );
}

#[test]
fn backend_login_opening() {
    let info = ConnectionInfo::new("Alice".to_string(), None);
    let (h, l) = backend_login_packets("127.0.0.1".to_string(), 25566, ProtocolVersion::V1_19_4, &info);
    assert_eq!(h.protocol, 762);
    assert_eq!(h.server_address, "127.0.0.1");
    assert_eq!(h.port, 25566);
    assert_eq!(h.state, NextState::Login);
    assert_eq!(l.username, "Alice");
    assert_eq!(l.uuid, Some(0x10920508_d5d8_3eed_93d2_92f193afe7d7));
}
