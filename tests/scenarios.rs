use mcproxy::buffer::put_string;
use mcproxy::connection::Connection;
use mcproxy::handshake::{Handshake, NextState};
use mcproxy::login::{Disconnect, LoginStart, LoginSuccess, SetCompression};
use mcproxy::packet::{PacketType, RawPacket};
use mcproxy::play::PluginMessage;
use mcproxy::protocol::{Direction, ProtocolVersion, State};
use mcproxy::registry::PacketKind;
use mcproxy::session::{
    backend_login_step, compression_threshold, handle_server_packet, handshake_next,
    login_decision, BackendStep, ConnectionInfo, LoginDecision, ServerAction,
};
use mcproxy::status::{Ping, StatusRequest, StatusResponse};

fn string_bytes(s: &str) -> Vec<u8> {
    let mut out = Vec::new();
    put_string(&mut out, s);
    out
}

fn send(from: &mut Connection, to: &mut Connection, p: PacketType) {
    let bytes = from.send_packet(p).ok().unwrap();
    to.feed(&bytes).unwrap();
}

fn recv(conn: &mut Connection, k: PacketKind) -> PacketType {
    conn.recv_packet(k).ok().unwrap().unwrap()
}

/// A client at `protocol` and the proxy's client-facing connection, both in
/// the handshake state.
fn client_pair() -> (Connection, Connection) {
    (
        Connection::new(ProtocolVersion::V1_19_4, Direction::Serverbound),
        Connection::new(ProtocolVersion::Unknown, Direction::Clientbound),
    )
}

fn handshake(client: &mut Connection, proxy: &mut Connection, protocol: i32, next: NextState) -> State {
    let h = Handshake { protocol, server_address: "x".to_string(), port: 0, state: next };
    send(client, proxy, PacketType::Handshake(h));
    let h = match recv(proxy, PacketKind::Handshake) {
        PacketType::Handshake(h) => h,
        _ => panic!("no handshake"),
    };
    let (version, state) = handshake_next(&h);
    proxy.set_protocol(version);
    proxy.change_state(state);
    client.change_state(state);
    state
}

/// The proxy's backend connection and a backend, logged in and in play.
fn backend_pair(threshold: Option<u32>) -> (Connection, Connection) {
    let mut proxy_side = Connection::new(ProtocolVersion::V1_19_4, Direction::Serverbound);
    let mut backend = Connection::new(ProtocolVersion::V1_19_4, Direction::Clientbound);
    let h = Handshake { protocol: 762, server_address: "127.0.0.1".to_string(), port: 25566, state: NextState::Login };
    send(&mut proxy_side, &mut backend, PacketType::Handshake(h));
    assert!(matches!(recv(&mut backend, PacketKind::Handshake), PacketType::Handshake(_)));
    proxy_side.change_state(State::Login);
    backend.change_state(State::Login);
    let start = LoginStart { username: "Alice".to_string(), uuid: Some(5) };
    send(&mut proxy_side, &mut backend, PacketType::LoginStart(start));
    assert!(matches!(recv(&mut backend, PacketKind::LoginStart), PacketType::LoginStart(_)));
    if let Some(t) = threshold {
        send(&mut backend, &mut proxy_side, PacketType::SetCompression(SetCompression { threshold: t as i32 }));
        backend.enable_compression(t, 6);
        match backend_login_step(proxy_side.auto_read().ok().unwrap().unwrap()) {
            BackendStep::EnableCompression(n) => proxy_side.enable_compression(n, 6),
            _ => panic!("compression not followed"),
        }
    }
    let ok = LoginSuccess { uuid: 5, username: "Alice".to_string(), properties: vec![] };
    send(&mut backend, &mut proxy_side, PacketType::LoginSuccess(ok));
    assert!(matches!(
        backend_login_step(proxy_side.auto_read().ok().unwrap().unwrap()),
        BackendStep::Joined
    ));
    proxy_side.change_state(State::Play);
    backend.change_state(State::Play);
    (proxy_side, backend)
}

#[test]
fn scenario_status_ping() {
    let (mut client, mut proxy) = client_pair();
    assert_eq!(handshake(&mut client, &mut proxy, 762, NextState::Status), State::Status);
    assert_eq!(proxy.protocol, ProtocolVersion::V1_19_4);
    send(&mut client, &mut proxy, PacketType::StatusRequest(StatusRequest));
    assert!(matches!(recv(&mut proxy, PacketKind::StatusRequest), PacketType::StatusRequest(_)));
    let json = b"{\"version\":{\"name\":\"1.19.4\",\"protocol\":762}}".to_vec();
    send(&mut proxy, &mut client, PacketType::StatusResponse(StatusResponse { status: json.clone() }));
    let raw = client.recv_raw_packet().ok().unwrap().unwrap();
    assert_eq!(raw.buffer[0], 0x00);
    assert_eq!(raw.buffer[1] as usize, json.len());
    assert_eq!(&raw.buffer[2..], &json[..]);
    send(&mut client, &mut proxy, PacketType::Ping(Ping(0x1234)));
    let ping = match recv(&mut proxy, PacketKind::Ping) {
        PacketType::Ping(p) => p,
        _ => panic!("no ping"),
    };
    send(&mut proxy, &mut client, PacketType::Ping(ping));
    match recv(&mut client, PacketKind::Ping) {
        PacketType::Ping(p) => assert_eq!(p.0, 0x1234),
        _ => panic!("no pong"),
    }
    assert_eq!(proxy.decoder.finish(), Ok(()));
}

#[test]
fn scenario_offline_login_without_compression() {
    let (mut client, mut proxy) = client_pair();
    handshake(&mut client, &mut proxy, 762, NextState::Login);
    send(&mut client, &mut proxy, PacketType::LoginStart(LoginStart { username: "Alice".to_string(), uuid: None }));
    let start = match recv(&mut proxy, PacketKind::LoginStart) {
        PacketType::LoginStart(l) => l,
        _ => panic!("no login start"),
    };
    assert!(matches!(login_decision(proxy.protocol, false), LoginDecision::Proceed));
    assert_eq!(compression_threshold(-1), None);
    let info = ConnectionInfo::new(start.username, start.uuid);
    let (server, mut backend) = backend_pair(None);
    let ok = LoginSuccess { uuid: info.uuid, username: info.username.clone(), properties: vec![] };
    send(&mut proxy, &mut client, PacketType::LoginSuccess(ok));
    match recv(&mut client, PacketKind::LoginSuccess) {
        PacketType::LoginSuccess(l) => {
            assert_eq!(l.uuid, 0x10920508_d5d8_3eed_93d2_92f193afe7d7);
            assert_eq!(l.username, "Alice");
        }
        _ => panic!("no login success"),
    }
    proxy.change_state(State::Play);
    client.change_state(State::Play);
    let (mut serverbound, mut clientbound) = proxy.mix(server);
    // a frame the registry does not know passes through untouched, each way
    let frame = vec![0x30, 1, 2, 3, 4];
    let wire = backend.send_raw_packet(RawPacket { buffer: frame.clone() }).ok().unwrap();
    clientbound.feed(&wire).unwrap();
    let mut info = info;
    let packet = clientbound.auto_read().ok().unwrap().unwrap();
    let out = match handle_server_packet(&mut info, packet, false) {
        Ok(ServerAction::Forward(p)) => clientbound.send_packet(p).ok().unwrap(),
        _ => panic!("frame not forwarded"),
    };
    assert_eq!(out, wire);
    client.feed(&out).unwrap();
    assert_eq!(client.recv_raw_packet().ok().unwrap().unwrap().buffer, frame);
    let up = client.send_raw_packet(RawPacket { buffer: vec![0x12, 9] }).ok().unwrap();
    serverbound.feed(&up).unwrap();
    let packet = serverbound.auto_read().ok().unwrap().unwrap();
    let relayed = serverbound.send_packet(packet).ok().unwrap();
    assert_eq!(relayed, up);
}

#[test]
fn scenario_offline_login_with_compression() {
    let (mut client, mut proxy) = client_pair();
    handshake(&mut client, &mut proxy, 762, NextState::Login);
    send(&mut client, &mut proxy, PacketType::LoginStart(LoginStart { username: "Alice".to_string(), uuid: None }));
    assert!(matches!(recv(&mut proxy, PacketKind::LoginStart), PacketType::LoginStart(_)));
    let threshold = compression_threshold(256).unwrap();
    send(&mut proxy, &mut client, PacketType::SetCompression(SetCompression { threshold: 256 }));
    proxy.enable_compression(threshold, 6);
    match recv(&mut client, PacketKind::SetCompression) {
        PacketType::SetCompression(s) => client.enable_compression(s.threshold as u32, 6),
        _ => panic!("no set compression"),
    }
    let small = RawPacket { buffer: vec![0x31; 100] };
    let wire = proxy.send_raw_packet(small).ok().unwrap();
    let mut expected = vec![101u8, 0x00];
    expected.extend_from_slice(&[0x31; 100]);
    assert_eq!(wire, expected);
    client.feed(&wire).unwrap();
    assert_eq!(client.recv_raw_packet().ok().unwrap().unwrap().buffer, vec![0x31; 100]);
    let large = RawPacket { buffer: vec![0x32; 1000] };
    let wire = proxy.send_raw_packet(large).ok().unwrap();
    assert!(wire.len() < 1000);
    assert_eq!(&wire[3..5], &[0xe8, 0x07]);
    client.feed(&wire).unwrap();
    assert_eq!(client.recv_raw_packet().ok().unwrap().unwrap().buffer, vec![0x32; 1000]);
}

#[test]
fn scenario_brand_rewrite_under_compression() {
    let (mut server, mut backend) = backend_pair(Some(256));
    let mut proxy = Connection::new(ProtocolVersion::V1_19_4, Direction::Clientbound);
    let mut client = Connection::new(ProtocolVersion::V1_19_4, Direction::Serverbound);
    proxy.change_state(State::Play);
    client.change_state(State::Play);
    proxy.enable_compression(256, 6);
    client.enable_compression(256, 6);
    let mut info = ConnectionInfo::new("Alice".to_string(), Some(5));
    let brand = PluginMessage { channel: "minecraft:brand".to_string(), data: string_bytes("vanilla") };
    send(&mut backend, &mut server, PacketType::PluginMessage(brand));
    let other = backend.send_raw_packet(RawPacket { buffer: vec![0x40; 300] }).ok().unwrap();
    server.feed(&other).unwrap();
    for _ in 0..2 {
        let packet = server.auto_read().ok().unwrap().unwrap();
        match handle_server_packet(&mut info, packet, false) {
            Ok(ServerAction::Forward(p)) => {
                let bytes = proxy.send_packet(p).ok().unwrap();
                client.feed(&bytes).unwrap();
            }
            _ => panic!("not forwarded"),
        }
    }
    let raw = client.recv_raw_packet().ok().unwrap().unwrap();
    let mut expected = vec![0x17];
    expected.extend(string_bytes("minecraft:brand"));
    expected.extend(string_bytes("vanilla inside a bike"));
    assert_eq!(raw.buffer, expected);
    let raw = client.recv_raw_packet().ok().unwrap().unwrap();
    assert_eq!(raw.buffer, vec![0x40; 300]);
}

#[test]
fn scenario_backend_disconnect_with_reason() {
    let (mut server, mut backend) = backend_pair(None);
    let mut proxy = Connection::new(ProtocolVersion::V1_19_4, Direction::Clientbound);
    let mut client = Connection::new(ProtocolVersion::V1_19_4, Direction::Serverbound);
    proxy.change_state(State::Play);
    client.change_state(State::Play);
    let mut info = ConnectionInfo::new("Alice".to_string(), Some(5));
    let reason = "{\"text\":\"bye\"}".to_string();
    send(&mut backend, &mut server, PacketType::Disconnect(Disconnect { reason: reason.clone() }));
    let packet = server.auto_read().ok().unwrap().unwrap();
    match handle_server_packet(&mut info, packet, false) {
        Ok(ServerAction::ForwardAndClose(p)) => {
            let bytes = proxy.send_packet(p).ok().unwrap();
            assert_eq!(bytes[1], 0x1a);
            client.feed(&bytes).unwrap();
        }
        _ => panic!("disconnect does not end the session"),
    }
    let raw = client.recv_raw_packet().ok().unwrap().unwrap();
    let mut expected = vec![0x1a];
    expected.extend(string_bytes(&reason));
    assert_eq!(raw.buffer, expected);
}

#[test]
fn scenario_version_gate() {
    let (mut client, mut proxy) = client_pair();
    handshake(&mut client, &mut proxy, 759, NextState::Login);
    assert_eq!(proxy.protocol, ProtocolVersion::V1_19);
    let reason = match login_decision(proxy.protocol, false) {
        LoginDecision::Reject(c) => c,
        _ => panic!("old client accepted"),
    };
    assert!(matches!(reason.content, Some(mcproxy::component::Type::Text(ref t)) if t == "We support versions above 1.19.1"));
    let json = "{\"text\":\"We support versions above 1.19.1\"}".to_string();
    let bytes = proxy.send_packet(PacketType::Disconnect(Disconnect { reason: json.clone() })).ok().unwrap();
    assert_eq!(bytes[1], 0x00);
    client.feed(&bytes).unwrap();
    match client.auto_read().ok().unwrap().unwrap() {
        PacketType::Disconnect(d) => assert_eq!(d.reason, json),
        _ => panic!("no login disconnect"),
    }
}
