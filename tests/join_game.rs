use mcproxy::error::ProtocolError;
use mcproxy::join_game::JoinGame;
use mcproxy::nbt::{skip_payload, skip_root};
use mcproxy::packet::{decode_body, encode_packet, PacketType};
use mcproxy::play::{BossBarAction, Death, Respawn};
use mcproxy::protocol::{Direction, ProtocolVersion, State};
use mcproxy::registry::{PacketKind, ProtocolRegistry};
use mcproxy::session::{switch_packets, ConnectionInfo};

/// A root compound named "" holding an int "a", a list of two strings "l",
/// and a nested compound "c" holding a long array.
fn sample_nbt() -> Vec<u8> {
    let mut v = vec![10, 0, 0];
    v.extend_from_slice(&[3, 0, 1, b'a', 0, 0, 0, 7]);
    v.extend_from_slice(&[9, 0, 1, b'l', 8, 0, 0, 0, 2, 0, 1, b'x', 0, 2, b'y', b'z']);
    v.extend_from_slice(&[10, 0, 1, b'c', 12, 0, 1, b'q', 0, 0, 0, 1, 1, 2, 3, 4, 5, 6, 7, 8, 0]);
    v.push(0);
    v
}

fn sample_join() -> JoinGame {
    JoinGame {
        entity_id: -3,
        is_hardcore: false,
        gamemode: 1,
        previous_gamemode: 255,
        dimensions_names: vec!["minecraft:overworld".to_string(), "minecraft:the_nether".to_string()],
        registry: sample_nbt(),
        dimension_type: "minecraft:overworld".to_string(),
        dimension_name: "minecraft:overworld".to_string(),
        hashed_seed: -123456789,
        max_players: 20,
        view_distance: 10,
        simulation_distance: 8,
        reduced_debug_info: false,
        respawn_screen: true,
        is_debug: false,
        is_flat: true,
        last_death: Some(Death { dimension_name: "minecraft:the_end".to_string(), position: 42 }),
    }
}

#[test]
fn nbt_root_length() {
    let nbt = sample_nbt();
    assert_eq!(skip_root(&nbt, 0), Some(nbt.len()));
    let mut longer = nbt.clone();
    longer.extend_from_slice(&[1, 2, 3]);
    assert_eq!(skip_root(&longer, 0), Some(nbt.len()));
    assert_eq!(skip_root(&nbt[..nbt.len() - 1], 0), None);
    assert_eq!(skip_root(&[8, 0, 0, 0], 0), None);
}

#[test]
fn nbt_payloads() {
    assert_eq!(skip_payload(&[1], 0, 1, 0), Some(1));
    assert_eq!(skip_payload(&[0, 0, 0, 0, 0, 0, 0, 0], 0, 6, 0), Some(8));
    assert_eq!(skip_payload(&[0, 0, 0, 2, 9, 9], 0, 7, 0), Some(6));
    assert_eq!(skip_payload(&[0xff, 0xff, 0xff, 0xff], 0, 7, 0), None);
    assert_eq!(skip_payload(&[0, 0, 0, 0, 0], 0, 9, 0), Some(5));
    assert_eq!(skip_payload(&[0, 0, 0, 0, 1], 0, 9, 0), None);
    assert_eq!(skip_payload(&[0], 0, 13, 0), None);
}

#[test]
fn nbt_depth_limit() {
    // lists of lists nested deeper than the limit
    let mut deep = Vec::new();
    for _ in 0..600 {
        deep.extend_from_slice(&[9, 0, 0, 0, 1]);
    }
    deep.extend_from_slice(&[0, 0, 0, 0, 0]);
    assert_eq!(skip_payload(&deep, 0, 9, 0), None);
}

#[test]
fn join_game_round_trip() {
    let join = sample_join();
    let mut bytes = Vec::new();
    join.put_buf(&mut bytes);
    assert_eq!(&bytes[..4], &[0xff, 0xff, 0xff, 0xfd]);
    match decode_body(PacketKind::JoinGame, bytes.clone(), ProtocolVersion::V1_19_4) {
        Ok(PacketType::JoinGame(j)) => {
            assert_eq!(j.entity_id, -3);
            assert_eq!(j.previous_gamemode, 255);
            assert_eq!(j.dimensions_names.len(), 2);
            assert_eq!(j.registry, sample_nbt());
            assert_eq!(j.hashed_seed, -123456789);
            assert_eq!(j.simulation_distance, 8);
            assert!(j.is_flat);
            let death = j.last_death.unwrap();
            assert_eq!(death.dimension_name, "minecraft:the_end");
            assert_eq!(death.position, 42);
            let mut again = Vec::new();
            let join2 = JoinGame { last_death: Some(death), ..j };
            join2.put_buf(&mut again);
            assert_eq!(again, bytes);
        }
        _ => panic!("join game did not decode"),
    }
    bytes.push(0);
    assert!(matches!(
        decode_body(PacketKind::JoinGame, bytes, ProtocolVersion::V1_19_4),
        Err(ProtocolError::TrailingBytes)
    ));
}

#[test]
fn respawn_from_join_game() {
    let join = sample_join();
    let r = Respawn::from_joingame(&join);
    assert_eq!(r.dimension_type, "minecraft:overworld");
    assert_eq!(r.hashed_seed, -123456789);
    assert_eq!(r.gamemode, 1);
    assert_eq!(r.previous_gamemode, 255);
    assert!(r.is_flat);
    assert_eq!(r.data_kept, 0);
    assert_eq!(r.last_death.unwrap().position, 42);
}

#[test]
fn switch_sequence() {
    let mut info = ConnectionInfo::new("Alice".to_string(), Some(1));
    info.boss_bars = vec![7, 8];
    let packets = switch_packets(sample_join(), &mut info);
    assert_eq!(packets.len(), 4);
    assert!(matches!(packets[0], PacketType::JoinGame(_)));
    assert!(matches!(packets[1], PacketType::Respawn(_)));
    match (&packets[2], &packets[3]) {
        (PacketType::BossBar(a), PacketType::BossBar(b)) => {
            assert_eq!((a.uuid, b.uuid), (7, 8));
            assert!(matches!(a.action, BossBarAction::Remove));
        }
        _ => panic!("boss bars not removed"),
    }
    assert!(info.boss_bars.is_empty());
    let reg = ProtocolRegistry::new(State::Play, Direction::Clientbound, ProtocolVersion::V1_19_4);
    let ids: Vec<u8> = packets
        .into_iter()
        .map(|p| encode_packet(&reg, p).ok().unwrap().buffer[0])
        .collect();
    assert_eq!(ids, vec![0x28, 0x41, 0x0b, 0x0b]);
}
