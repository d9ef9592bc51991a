use soldank::messages::{
    connection_request, encode_message, Control, NetCommand, NetSnapshot, NetworkMessage, Nick, Position, Soldier,
};
use soldank::networking::{NetConfig, PacketStats, PeerAddr};
use soldank::server::{
    build_state_message, command_destinations, command_is_valid, cvars_message, lobby, process_network_messages,
    process_packet, process_simulation, Connection, ControlBuffer, EntityComponents, GameState, OutgoingCommand,
    PacketOutcome,
};

fn addr(n: u8) -> PeerAddr {
    PeerAddr::V4 { ip: 0x0a00_0000 | n as u32, port: 23073 }
}

fn key() -> String {
    "1337".to_string()
}

fn authorize(nick: &str, key: &str) -> Vec<u8> {
    encode_message(NetworkMessage::ConnectionAuthorize { nick: nick.to_string(), key: key.to_string() }).to_vec()
}

#[test]
fn stats_count_traffic() {
    let mut s = PacketStats::default();
    s.add_tx(10);
    s.add_tx(5);
    s.add_rx(7);
    assert_eq!((s.packets_tx, s.bytes_tx, s.packets_rx, s.bytes_rx), (2, 15, 1, 7));
}

#[test]
fn net_config_default() {
    assert_eq!(NetConfig::default(), NetConfig { send_keepalive: 0, keepalive_timeout: 0 });
}

#[test]
fn fresh_connection() {
    let c = Connection::new();
    assert!(!c.authorized && !c.ready);
    assert!(c.nick.is_empty());
    assert!(c.entity.is_none());
    assert_eq!((c.ack_tick, c.last_processed_tick), (0, 0));
}

#[test]
fn connect_request_is_accepted() {
    let world = hecs::World::new();
    let mut none: Option<Connection> = None;
    match process_packet(&connection_request(), &mut none, &key(), "motd", &world) {
        PacketOutcome::ConnectReply(b) => assert_eq!(b[0], 0x81),
        _ => panic!("expected a connect reply"),
    }
    let bad = [0x01u8, 0x53, 0x4c, 0x44, 0x54, 0x09];
    match process_packet(&bad, &mut none, &key(), "motd", &world) {
        PacketOutcome::ConnectReply(b) => assert_eq!(b[0], 0x82),
        _ => panic!("expected a connect reply"),
    }
    assert!(none.is_none());
}

#[test]
fn unknown_client_is_ignored() {
    let world = hecs::World::new();
    let mut none: Option<Connection> = None;
    assert!(matches!(process_packet(&[0x08], &mut none, &key(), "m", &world), PacketOutcome::Ignored));
    assert!(matches!(process_packet(&authorize("a", "1337"), &mut none, &key(), "m", &world), PacketOutcome::Ignored));
    assert!(matches!(process_packet(&[], &mut none, &key(), "m", &world), PacketOutcome::Ignored));
    assert!(matches!(process_packet(&[0x77], &mut none, &key(), "m", &world), PacketOutcome::Ignored));
}

#[test]
fn ready_and_authorize() {
    let world = hecs::World::new();
    let mut conn = Some(Connection::new());
    assert!(matches!(process_packet(&[0x08], &mut conn, &key(), "hi", &world), PacketOutcome::Ready));
    assert!(conn.as_ref().unwrap().ready);
    match process_packet(&authorize("bob", "nope"), &mut conn, &key(), "hi", &world) {
        PacketOutcome::AuthorizeReply(b) => assert_eq!(b[0], 0x82),
        _ => panic!("expected a reject"),
    }
    assert!(!conn.as_ref().unwrap().authorized);
    match process_packet(&authorize("bob", "1337"), &mut conn, &key(), "hi", &world) {
        PacketOutcome::AuthorizeReply(b) => assert_eq!(&b[..], &[0x83, 2, b'h', b'i']),
        _ => panic!("expected the motd"),
    }
    let c = conn.as_ref().unwrap();
    assert!(c.authorized);
    assert_eq!(c.nick, "bob");
    assert!(c.entity.is_some());
    let entity = c.entity;
    // a second authorization keeps the first nick and entity
    process_packet(&authorize("eve", "1337"), &mut conn, &key(), "hi", &world);
    assert_eq!(conn.as_ref().unwrap().nick, "bob");
    assert_eq!(conn.as_ref().unwrap().entity, entity);
}

#[test]
fn messages_only_from_authorized() {
    let world = hecs::World::new();
    let snap = encode_message(NetworkMessage::Snapshot { timestamp: 3, snapshot: NetSnapshot {} }).to_vec();
    let mut conn = Some(Connection::new());
    assert!(matches!(process_packet(&snap, &mut conn, &key(), "", &world), PacketOutcome::Ignored));
    conn.as_mut().unwrap().authorized = true;
    match process_packet(&snap, &mut conn, &key(), "", &world) {
        PacketOutcome::Deliver(NetworkMessage::Snapshot { timestamp, .. }) => assert_eq!(timestamp, 3),
        _ => panic!("expected the message"),
    }
}

#[test]
fn settings_for_clients() {
    let settings = vec![
        ("server.motd".to_string(), "hi".to_string()),
        ("net.send_keepalive".to_string(), "0".to_string()),
        ("serverx".to_string(), "1".to_string()),
    ];
    let b = cvars_message(&settings);
    let expected = encode_message(NetworkMessage::Cvars(vec![
        ("net.send_keepalive".to_string(), "0".to_string()),
        ("serverx".to_string(), "1".to_string()),
    ]));
    assert_eq!(b, expected);
}

#[test]
fn localhost_commands_only() {
    let cmd = NetCommand::Command("spawn".to_string());
    assert!(command_is_valid(&cmd, PeerAddr::V4 { ip: 0x7f00_0001, port: 9 }));
    assert!(!command_is_valid(&cmd, PeerAddr::V4 { ip: 0x7f00_0002, port: 9 }));
    assert!(!command_is_valid(&cmd, PeerAddr::V6 { ip: 1, port: 9, flowinfo: 0, scope_id: 0 }));
}

#[test]
fn destinations() {
    let addrs = vec![addr(1), addr(2), addr(3)];
    assert_eq!(command_destinations(&addrs, None, Some(addr(2))), vec![addr(2)]);
    assert_eq!(command_destinations(&addrs, None, Some(addr(9))), vec![]);
    assert_eq!(command_destinations(&addrs, Some(addr(1)), None), vec![addr(2), addr(3)]);
    assert_eq!(command_destinations(&addrs, None, None), addrs);
    assert_eq!(command_destinations(&addrs, Some(addr(1)), Some(addr(1))), vec![addr(1)]);
}

fn ready_connection(world: &hecs::World, nick: &str) -> Connection {
    let mut c = Connection::new();
    c.authorized = true;
    c.ready = true;
    c.nick = nick.to_string();
    c.entity = Some(world.reserve_entity());
    c
}

#[test]
fn lobby_waits_for_everybody() {
    let world = hecs::World::new();
    let mut state = GameState::Lobby;
    assert!(lobby(&mut state, &vec![]).is_empty());
    assert_eq!(state, GameState::Lobby);
    let mut not_ready = ready_connection(&world, "b");
    not_ready.ready = false;
    let conns = vec![(addr(1), ready_connection(&world, "a")), (addr(2), not_ready)];
    assert!(lobby(&mut state, &conns).is_empty());
    assert_eq!(state, GameState::Lobby);
}

#[test]
fn lobby_starts_game() {
    let world = hecs::World::new();
    let mut state = GameState::Lobby;
    let conns = vec![(addr(1), ready_connection(&world, "a")), (addr(2), ready_connection(&world, "b"))];
    let spawns = lobby(&mut state, &conns);
    assert_eq!(state, GameState::InGame);
    assert_eq!(spawns.len(), 2);
    assert_eq!(spawns[1].nick, "b");
    assert_eq!(spawns[1].addr, addr(2));
    assert_eq!(Some(spawns[0].entity), conns[0].1.entity);
}

fn control_state(ack: usize, begin: usize, n: u16) -> NetworkMessage {
    NetworkMessage::ControlState {
        ack_tick: ack,
        begin_tick: begin,
        control: (0..n).map(|i| (Control::from_bits(i).unwrap(), (i as u8, 0))).collect(),
    }
}

#[test]
fn control_messages_fill_buffers() {
    let mut conn = Connection::new();
    conn.last_processed_tick = 11;
    let mut connections = vec![(addr(1), conn), (addr(2), Connection::new())];
    let mut messages = vec![
        (addr(1), control_state(3, 8, 2)),
        (addr(2), NetworkMessage::Snapshot { timestamp: 1, snapshot: NetSnapshot {} }),
        (addr(1), control_state(4, 10, 4)),
        (addr(3), control_state(9, 0, 1)),
    ];
    let mut old = ControlBuffer::new();
    old.insert(5, (Control::empty(), (0, 0)));
    let mut buffers = vec![(addr(1), old), (addr(2), ControlBuffer::new()), (addr(3), ControlBuffer::new())];
    process_network_messages(&mut messages, &mut connections, &mut buffers);
    assert_eq!(messages.len(), 1);
    assert!(matches!(messages[0].1, NetworkMessage::Snapshot { timestamp: 1, .. }));
    assert_eq!(connections[0].1.ack_tick, 4);
    assert_eq!(connections[1].1.ack_tick, 0);
    let b = &buffers[0].1;
    let mut ticks: Vec<usize> = b.keys().copied().collect();
    ticks.sort();
    assert_eq!(ticks, vec![5, 12, 13]);
    assert_eq!(b.get(&12).unwrap().0.bits(), 2);
    assert_eq!(b.get(&13).unwrap().1, (3, 0));
    assert!(buffers[1].1.is_empty());
    assert!(buffers[2].1.is_empty());
}

#[test]
fn simulation_packets() {
    let world = hecs::World::new();
    let mut connections = vec![
        (addr(1), ready_connection(&world, "a")),
        (addr(2), Connection::new()),
        (addr(3), ready_connection(&world, "c")),
    ];
    let snapshots = vec![(7i16, NetSnapshot {})];
    let commands = vec![OutgoingCommand {
        from: Some(addr(1)),
        to: None,
        timestamp: 8,
        command: NetCommand::Command("x".to_string()),
    }];
    let packets = process_simulation(&mut connections, &snapshots, &commands);
    let summary: Vec<(PeerAddr, bool)> = packets.iter().map(|p| (p.addr, p.reliable)).collect();
    assert_eq!(summary, vec![(addr(1), false), (addr(3), false), (addr(2), true), (addr(3), true)]);
    assert_eq!(packets[0].payload, encode_message(NetworkMessage::Snapshot { timestamp: 7, snapshot: NetSnapshot {} }));
    assert_eq!(
        packets[3].payload,
        encode_message(NetworkMessage::Command { timestamp: 8, command: NetCommand::Command("x".to_string()) })
    );
}

#[test]
fn state_message() {
    let entities = vec![
        EntityComponents {
            entity: (1u64 << 32) | 1,
            soldier: Some(Soldier),
            nick: Some(Nick("a".to_string())),
            position: Some(Position { x: 0, y: 1 }),
        },
        EntityComponents { entity: (1u64 << 32) | 2, soldier: None, nick: None, position: None },
    ];
    let b = build_state_message(4, &entities);
    let expected = encode_message(NetworkMessage::GameState {
        tick: 4,
        entities: vec![
            (
                (1u64 << 32) | 1,
                vec![
                    soldank::messages::ComponentValue::Soldier(Soldier),
                    soldank::messages::ComponentValue::Nick(Nick("a".to_string())),
                    soldank::messages::ComponentValue::Pos(Position { x: 0, y: 1 }),
                ],
            ),
            ((1u64 << 32) | 2, vec![]),
        ],
    });
    assert_eq!(b, expected);
}

#[test]
fn connect_and_disconnect() {
    let mut conns: Vec<(PeerAddr, Connection)> = Vec::new();
    soldank::server::connect(&mut conns, addr(1));
    soldank::server::connect(&mut conns, addr(2));
    conns[0].1.ready = true;
    soldank::server::connect(&mut conns, addr(1));
    assert_eq!(conns.len(), 2);
    assert!(conns[0].1.ready);
    assert_eq!(soldank::server::find_connection_index(&conns, addr(2)), Some(1));
    soldank::server::disconnect(&mut conns, addr(1));
    assert_eq!(conns.len(), 1);
    assert_eq!(conns[0].0, addr(2));
    assert_eq!(soldank::server::find_connection_index(&conns, addr(1)), None);
    soldank::server::disconnect(&mut conns, addr(9));
    assert_eq!(conns.len(), 1);
}

#[test]
fn latest_control_is_max_tick() {
    let mut b = ControlBuffer::new();
    b.insert(3, (Control::left(), (0, 0)));
    b.insert(9, (Control::right(), (1, 1)));
    b.insert(5, (Control::up(), (2, 2)));
    let (tick, control) = soldank::server::latest_control(&b);
    assert_eq!(tick, 9);
    assert_eq!(control.bits(), Control::right().bits());
}

#[test]
fn stats_take_the_time() {
    let mut s = PacketStats::default();
    let then = std::time::Instant::now();
    let rx_before = s.last_rx;
    s.add_tx_at(3, then);
    assert_eq!(s.last_tx, then);
    assert_eq!(s.last_rx, rx_before);
    s.add_rx_at(4, then);
    assert_eq!(s.last_rx, then);
    assert_eq!((s.packets_tx, s.bytes_tx, s.packets_rx, s.bytes_rx), (1, 3, 1, 4));
}
