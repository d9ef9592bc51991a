use soldank::messages::{
    connection_accept, connection_authorized, connection_ready, connection_reject, connection_request,
    decode_message, encode_message, packet_verify, ComponentType, ComponentValue, Control, NetCommand,
    NetSnapshot, NetworkMessage, Nick, OperationCode, Position, Soldier,
};

fn le64(v: u64) -> Vec<u8> {
    v.to_le_bytes().to_vec()
}

fn string_bytes(s: &str) -> Vec<u8> {
    let mut out = le64(s.len() as u64);
    out.extend_from_slice(s.as_bytes());
    out
}

#[test]
fn op_code_bytes() {
    let all = [
        (OperationCode::CCREQ_CONNECT, 0x01u8),
        (OperationCode::CCREQ_AUTHORIZE, 0x02),
        (OperationCode::CCREQ_READY, 0x08),
        (OperationCode::STT_CONTROL, 0x10),
        (OperationCode::STT_ENTITIES, 0x11),
        (OperationCode::STT_SNAPSHOT, 0x12),
        (OperationCode::STT_COMMAND, 0x13),
        (OperationCode::STT_CVARS, 0x18),
        (OperationCode::CCREP_ACCEPT, 0x81),
        (OperationCode::CCREP_REJECT, 0x82),
        (OperationCode::CCREP_AUTHORIZED, 0x83),
    ];
    for (op, b) in all.iter() {
        assert_eq!(op.to_u8(), *b);
        assert_eq!(OperationCode::from_u8(*b), Some(*op));
    }
    assert_eq!(OperationCode::from_u8(0x00), None);
    assert_eq!(OperationCode::from_u8(0x7f), None);
}

#[test]
fn component_type_bytes() {
    assert_eq!(ComponentType::Soldier.to_u8(), 1);
    assert_eq!(ComponentType::Nick.to_u8(), 2);
    assert_eq!(ComponentType::Pos.to_u8(), 3);
    assert_eq!(ComponentType::from_u8(3), Some(ComponentType::Pos));
    assert_eq!(ComponentType::from_u8(4), None);
}

#[test]
fn control_flags() {
    let c = Control::left().union(Control::fire());
    assert_eq!(c.bits(), 0x0011);
    assert!(c.contains(Control::left()));
    assert!(!c.contains(Control::right()));
    assert_eq!(Control::flag_throw().bits(), 0x1000);
    assert_eq!(Control::from_bits(0x1fff).map(|c| c.bits()), Some(0x1fff));
    assert!(Control::from_bits(0x2000).is_none());
}

#[test]
fn handshake_packets() {
    assert_eq!(&connection_request()[..], &[0x01, 0x53, 0x4c, 0x44, 0x54, 0x01]);
    assert_eq!(&connection_accept()[..], &[0x81, 0x53, 0x4c, 0x44, 0x54, 0x01]);
    assert_eq!(&connection_reject()[..], &[0x82, 0x53, 0x4c, 0x44, 0x54, 0x01]);
    assert_eq!(&connection_ready()[..], &[0x08]);
    assert_eq!(&connection_authorized("hi")[..], &[0x83, 2, b'h', b'i']);
}

#[test]
fn verify_handshake() {
    assert!(packet_verify(&connection_request()));
    assert!(packet_verify(&connection_accept()));
    assert!(!packet_verify(&[0x01, 0x53, 0x4c, 0x44, 0x54, 0x02]));
    assert!(!packet_verify(&[0x01, b'X', 0x4c, 0x44, 0x54, 0x01]));
}

#[test]
fn encode_authorize() {
    let msg = NetworkMessage::ConnectionAuthorize { nick: "joe".to_string(), key: "k".to_string() };
    let bytes = encode_message(msg);
    let mut expected = vec![0x02u8];
    expected.extend(string_bytes("joe"));
    expected.extend(string_bytes("k"));
    assert_eq!(&bytes[..], &expected[..]);
    match decode_message(&bytes) {
        Some(NetworkMessage::ConnectionAuthorize { nick, key }) => {
            assert_eq!(nick, "joe");
            assert_eq!(key, "k");
        }
        other => panic!("unexpected {:?}", other),
    }
}

#[test]
fn encode_cvars_roundtrip() {
    let msg = NetworkMessage::Cvars(vec![
        ("net.send_keepalive".to_string(), "0".to_string()),
        ("phys.gravity".to_string(), "0.06".to_string()),
    ]);
    let bytes = encode_message(msg);
    assert_eq!(bytes[0], 0x18);
    assert_eq!(&bytes[1..9], &le64(2)[..]);
    match decode_message(&bytes) {
        Some(NetworkMessage::Cvars(cvars)) => {
            assert_eq!(cvars.len(), 2);
            assert_eq!(cvars[1].0, "phys.gravity");
            assert_eq!(cvars[1].1, "0.06");
        }
        other => panic!("unexpected {:?}", other),
    }
}

#[test]
fn encode_control_state() {
    let msg = NetworkMessage::ControlState {
        ack_tick: 5,
        begin_tick: 7,
        control: vec![(Control::up(), (10, 20)), (Control::down().union(Control::jets()), (0, 255))],
    };
    let bytes = encode_message(msg);
    let mut expected = vec![0x10u8];
    expected.extend(le64(5));
    expected.extend(le64(7));
    expected.extend(le64(2));
    expected.extend_from_slice(&[0x04, 0x00, 10, 20, 0x28, 0x00, 0, 255]);
    assert_eq!(&bytes[..], &expected[..]);
    match decode_message(&bytes) {
        Some(NetworkMessage::ControlState { ack_tick, begin_tick, control }) => {
            assert_eq!((ack_tick, begin_tick), (5, 7));
            assert_eq!(control.len(), 2);
            assert_eq!(control[1].0.bits(), 0x28);
            assert_eq!(control[1].1, (0, 255));
        }
        other => panic!("unexpected {:?}", other),
    }
}

#[test]
fn encode_game_state() {
    let id: u64 = (1u64 << 32) | 3;
    let msg = NetworkMessage::GameState {
        tick: 9,
        entities: vec![(
            id,
            vec![
                ComponentValue::Soldier(Soldier),
                ComponentValue::Nick(Nick("ann".to_string())),
                ComponentValue::Pos(Position { x: 1.5f32.to_bits(), y: (-2.0f32).to_bits() }),
            ],
        )],
    };
    let bytes = encode_message(msg);
    assert_eq!(bytes[0], 0x11);
    assert_eq!(&bytes[1..9], &le64(9)[..]);
    assert_eq!(bytes[9], 1);
    assert_eq!(&bytes[10..18], &id.to_be_bytes()[..]);
    assert_eq!(bytes[18], 3);
    match decode_message(&bytes) {
        Some(NetworkMessage::GameState { tick, entities }) => {
            assert_eq!(tick, 9);
            assert_eq!(entities.len(), 1);
            assert_eq!(entities[0].0, id);
            assert_eq!(entities[0].1.len(), 3);
            match &entities[0].1[2] {
                ComponentValue::Pos(p) => {
                    assert_eq!(f32::from_bits(p.x), 1.5);
                    assert_eq!(f32::from_bits(p.y), -2.0);
                }
                other => panic!("unexpected {:?}", other),
            }
        }
        other => panic!("unexpected {:?}", other),
    }
}

#[test]
fn encode_snapshot_and_command() {
    let snap = encode_message(NetworkMessage::Snapshot { timestamp: -2, snapshot: NetSnapshot {} });
    assert_eq!(&snap[..], &[0x12, 0xfe, 0xff]);
    assert!(matches!(decode_message(&snap), Some(NetworkMessage::Snapshot { timestamp: -2, .. })));
    let cmd = encode_message(NetworkMessage::Command {
        timestamp: 300,
        command: NetCommand::Command("spawn".to_string()),
    });
    let mut expected = vec![0x13u8, 0x2c, 0x01, 0x00, 0x00];
    expected.extend(string_bytes("spawn"));
    assert_eq!(&cmd[..], &expected[..]);
    match decode_message(&cmd) {
        Some(NetworkMessage::Command { timestamp, command: NetCommand::Command(c) }) => {
            assert_eq!(timestamp, 300);
            assert_eq!(c, "spawn");
        }
        other => panic!("unexpected {:?}", other),
    }
}

#[test]
fn decode_ignores_trailing_bytes() {
    let mut bytes = encode_message(NetworkMessage::Snapshot { timestamp: 4, snapshot: NetSnapshot {} }).to_vec();
    bytes.extend_from_slice(&[9, 9, 9]);
    assert!(matches!(decode_message(&bytes), Some(NetworkMessage::Snapshot { timestamp: 4, .. })));
}

#[test]
fn decode_rejects_garbage() {
    assert!(decode_message(&[0x7f]).is_none());
    assert!(decode_message(&[0x02, 1, 0]).is_none());
    assert!(decode_message(&[0x12, 1]).is_none());
    assert!(decode_message(&[0x13, 0, 0, 1, 0]).is_none());
}

#[test]
fn decode_keeps_last_of_each_entity() {
    let id_a: u64 = (1u64 << 32) | 1;
    let id_b: u64 = (1u64 << 32) | 2;
    let msg = NetworkMessage::GameState {
        tick: 1,
        entities: vec![
            (id_a, vec![ComponentValue::Nick(Nick("old".to_string()))]),
            (id_b, vec![]),
            (id_a, vec![ComponentValue::Nick(Nick("new".to_string()))]),
        ],
    };
    let bytes = encode_message(msg);
    match decode_message(&bytes) {
        Some(NetworkMessage::GameState { entities, .. }) => {
            assert_eq!(entities.len(), 2);
            assert_eq!(entities[0].0, id_b);
            assert_eq!(entities[1].0, id_a);
            match &entities[1].1[0] {
                ComponentValue::Nick(n) => assert_eq!(n.0, "new"),
                other => panic!("unexpected {:?}", other),
            }
        }
        other => panic!("unexpected {:?}", other),
    }
}
