use vstd::prelude::*;
use crate::networking::{PacketStats, PeerAddr, instant_now};
use crate::messages::{NetCommand, NetworkMessage, MessageView, OperationCode, bytes_contents, spec_decode, decode_message, handshake_packet, spec_packet_verify, packet_verify, connection_accept, connection_reject, connection_authorized, authorized_packet, op_code_of_byte, is_handshake_op_code, cvar_view, encode_message, spec_encode, message_wf, lemma_decode_encode, lemma_handshake_verifies, string_wf};
use vstd::utf8::encode_utf8;
use crate::messages::{Control, control_view, NetSnapshot, Soldier, Nick, Position, ComponentValue, ComponentView};
use std::collections::HashMap;
use vstd::string::*;

verus! {

broadcast use vstd::std_specs::hash::group_hash_axioms;

#[verifier::external_type_specification]
#[verifier::external_body]
pub struct ExWorld(hecs::World);

#[verifier::external_type_specification]
#[verifier::external_body]
pub struct ExEntity(hecs::Entity);

/// `hecs::World::reserve_entity`: a fresh entity handle, reserved in the
/// world. Nothing is claimed of which handle comes back.
#[verifier::external_body]
fn world_reserve_entity(world: &hecs::World) -> (e: hecs::Entity) {
    world.reserve_entity()
}

/// Where the server stands: waiting for players, or running the game.
#[derive(Debug, Clone, Copy, PartialEq, Eq, Structural, Hash)]
pub enum GameState {
    Lobby,
    InGame,
}

/// The cheats a connection was caught at, as bits.
#[derive(Debug, Clone, Copy, PartialEq, Eq, Structural)]
pub struct Cheats {
    pub bits: u32,
}

impl Cheats {
    /// Aiming with the mouse where the rules do not allow it.
    pub fn mouse_aim() -> (c: Cheats)
        ensures
            c.bits == 1,
    {
        Cheats { bits: 1 }
    }

    /// No cheat.
    pub fn empty() -> (c: Cheats)
        ensures
            c.bits == 0,
    {
        Cheats { bits: 0 }
    }
}

/// What the server knows of a client.
#[derive(Debug)]
pub struct Connection {
    pub stats: PacketStats,
    pub ack_tick: usize,
    pub last_processed_tick: usize,
    pub last_broadcast: std::time::Instant,
    pub authorized: bool,
    pub ready: bool,
    pub nick: String,
    pub cheats: Cheats,
    pub entity: Option<hecs::Entity>,
}

impl Connection {
    /// A client that just connected: nothing counted, not authorized, not
    /// ready, no nick and no entity.
    pub fn new() -> (c: Connection)
        ensures
            c.stats.packets_tx == 0,
            c.stats.packets_rx == 0,
            c.stats.bytes_tx == 0,
            c.stats.bytes_rx == 0,
            c.ack_tick == 0,
            c.last_processed_tick == 0,
            !c.authorized,
            !c.ready,
            c.nick@ == Seq::<char>::empty(),
            c.cheats.bits == 0,
            c.entity is None,
    {
        Connection {
            stats: PacketStats::default(),
            ack_tick: 0,
            last_processed_tick: 0,
            last_broadcast: instant_now(),
            authorized: false,
            ready: false,
            nick: String::new(),
            cheats: Cheats::empty(),
            entity: None,
        }
    }
}

/// The address is the IPv4 loopback address 127.0.0.1.
pub open spec fn is_localhost(addr: PeerAddr) -> bool {
    match addr {
        PeerAddr::V4 { ip, port } => ip == 0x7f00_0001u32,
        PeerAddr::V6 { .. } => false,
    }
}

/// Only the local host may send commands.
pub fn command_is_valid(command: &NetCommand, client: PeerAddr) -> (ok: bool)
    ensures
        ok == is_localhost(client),
{
    match command {
        NetCommand::Command(_) => match client {
            PeerAddr::V4 { ip, port } => ip == 0x7f00_0001u32,
            PeerAddr::V6 { .. } => false,
        },
    }
}

/// Everybody connected is authorized, has an entity and is ready.
pub open spec fn all_ready(connections: Seq<(PeerAddr, Connection)>) -> bool {
    &&& connections.len() > 0
    &&& forall|i: int|
        0 <= i < connections.len() ==> {
            let c = #[trigger] connections[i].1;
            c.authorized && c.entity is Some && c.ready
        }
}

/// A player to spawn when the game starts: the entity reserved at
/// authorization, the nick and the address.
pub struct Spawn {
    pub entity: hecs::Entity,
    pub nick: String,
    pub addr: PeerAddr,
}

/// The lobby: once at least one client is connected and every client is
/// authorized, has an entity and is ready, the game starts and each client's
/// soldier is to be spawned (the result lists them in connection order);
/// until then nothing happens.
pub fn lobby(game_state: &mut GameState, connections: &Vec<(PeerAddr, Connection)>) -> (spawns: Vec<Spawn>)
    ensures
        all_ready(connections@) ==> {
            &&& *final(game_state) == GameState::InGame
            &&& spawns@.len() == connections@.len()
            &&& forall|i: int|
                0 <= i < spawns@.len() ==> {
                    let s = #[trigger] spawns@[i];
                    &&& connections@[i].1.entity == Some(s.entity)
                    &&& s.nick@ == connections@[i].1.nick@
                    &&& s.addr == connections@[i].0
                }
        },
        !all_ready(connections@) ==> *final(game_state) == *old(game_state) && spawns@.len() == 0,
{
    let n: usize = connections.len();
    let mut ready: bool = n > 0;
    let mut i: usize = 0;
    while i < n
        invariant
            n == connections.len(),
            i <= n,
            ready == (n > 0 && forall|j: int|
                0 <= j < i ==> {
                    let c = #[trigger] connections@[j].1;
                    c.authorized && c.entity is Some && c.ready
                }),
        decreases n - i,
    {
        let c = &connections[i].1;
        if !(c.authorized && c.entity.is_some() && c.ready) {
            ready = false;
        }
        i = i + 1;
    }
    let mut spawns: Vec<Spawn> = Vec::new();
    if ready {
        *game_state = GameState::InGame;
        let mut k: usize = 0;
        while k < n
            invariant
                n == connections.len(),
                k <= n,
                all_ready(connections@),
                spawns@.len() == k,
                forall|i: int|
                    0 <= i < k ==> {
                        let s = #[trigger] spawns@[i];
                        &&& connections@[i].1.entity == Some(s.entity)
                        &&& s.nick@ == connections@[i].1.nick@
                        &&& s.addr == connections@[i].0
                    },
            decreases n - k,
        {
            let c = &connections[k].1;
            assert(connections@[k as int].1.entity is Some);
            let entity = c.entity.unwrap();
            spawns.push(Spawn { entity, nick: c.nick.clone(), addr: connections[k].0 });
            k = k + 1;
        }
    }
    spawns
}

/// Where a command goes: to `to` alone if it is connected, else (with a
/// sender) to everybody but the sender, else to everybody.
pub open spec fn command_destination(addr: PeerAddr, from: Option<PeerAddr>, to: Option<PeerAddr>) -> bool {
    match to {
        Some(t) => addr == t,
        None => match from {
            Some(f) => addr != f,
            None => true,
        },
    }
}

/// The connected addresses a command goes to, in connection order.
pub open spec fn command_destinations_spec(
    addrs: Seq<PeerAddr>,
    from: Option<PeerAddr>,
    to: Option<PeerAddr>,
) -> Seq<PeerAddr> {
    addrs.filter(|a: PeerAddr| command_destination(a, from, to))
}

/// The connected addresses that a command from `from` to `to` is sent to.
pub fn command_destinations(addrs: &Vec<PeerAddr>, from: Option<PeerAddr>, to: Option<PeerAddr>) -> (r: Vec<PeerAddr>)
    ensures
        r@ == command_destinations_spec(addrs@, from, to),
{
    let mut r: Vec<PeerAddr> = Vec::new();
    let mut i: usize = 0;
    while i < addrs.len()
        invariant
            i <= addrs.len(),
            r@ == addrs@.subrange(0, i as int).filter(|a: PeerAddr| command_destination(a, from, to)),
        decreases addrs.len() - i,
    {
        let a = addrs[i];
        let keep: bool = match to {
            Some(t) => a == t,
            None => match from {
                Some(f) => a != f,
                None => true,
            },
        };
        proof {
            let s = addrs@.subrange(0, i as int + 1);
            assert(s.drop_last() =~= addrs@.subrange(0, i as int));
            reveal(Seq::filter);
        }
        if keep {
            r.push(a);
        }
        i = i + 1;
    }
    proof {
        assert(addrs@.subrange(0, addrs.len() as int) =~= addrs@);
    }
    r
}

/// What the server does with a packet.
pub enum PacketOutcome {
    /// Nothing is sent and nothing handed on.
    Ignored,
    /// The answer to a connection request, to be sent unreliably.
    ConnectReply(bytes::Bytes),
    /// The client is now ready.
    Ready,
    /// The answer to an authorization request, to be sent reliably and
    /// followed by the client-side settings.
    AuthorizeReply(bytes::Bytes),
    /// A message of an authorized client, for the game to process.
    Deliver(NetworkMessage),
}

/// The outcome of a packet, as far as it does not hold a message.
pub enum OutcomeKind {
    Ignored,
    ConnectReply(Seq<u8>),
    Ready,
    AuthorizeReply(Seq<u8>),
    Deliver(MessageView),
}

impl View for PacketOutcome {
    type V = OutcomeKind;

    open spec fn view(&self) -> OutcomeKind {
        match self {
            PacketOutcome::Ignored => OutcomeKind::Ignored,
            PacketOutcome::ConnectReply(b) => OutcomeKind::ConnectReply(bytes_contents(*b)),
            PacketOutcome::Ready => OutcomeKind::Ready,
            PacketOutcome::AuthorizeReply(b) => OutcomeKind::AuthorizeReply(bytes_contents(*b)),
            PacketOutcome::Deliver(m) => OutcomeKind::Deliver(m@),
        }
    }
}

/// The packets on which the server gives up: a connection request shorter
/// than a handshake, and, from a known client, a packet that carries one of
/// the server's own handshake answers.
pub open spec fn packet_aborts(data: Seq<u8>, known: bool) -> bool {
    ||| (data.len() > 0 && data[0] == 0x01 && data.len() < 6)
    ||| (known && data.len() > 0 && data[0] != 0x01 && data[0] != 0x08 && is_handshake_op_code(data[0]))
}

/// What the server answers to a packet from a client, and how the client's
/// connection changes (`None` for an address with no connection).
pub open spec fn packet_outcome(
    data: Seq<u8>,
    conn_authorized: Option<bool>,
    key: Seq<char>,
    motd: Seq<char>,
) -> OutcomeKind {
    if data.len() == 0 || op_code_of_byte(data[0]) is None {
        OutcomeKind::Ignored
    } else if data[0] == 0x01 {
        OutcomeKind::ConnectReply(
            handshake_packet(
                if spec_packet_verify(data) {
                    0x81u8
                } else {
                    0x82u8
                },
            ),
        )
    } else {
        match conn_authorized {
            None => OutcomeKind::Ignored,
            Some(authorized) => if data[0] == 0x08 {
                OutcomeKind::Ready
            } else {
                match spec_decode(data) {
                    None => OutcomeKind::Ignored,
                    Some(MessageView::ConnectionAuthorize(nick, k)) => OutcomeKind::AuthorizeReply(
                        if k == key {
                            authorized_packet(motd)
                        } else {
                            handshake_packet(0x82u8)
                        },
                    ),
                    Some(m) => if authorized {
                        OutcomeKind::Deliver(m)
                    } else {
                        OutcomeKind::Ignored
                    },
                }
            },
        }
    }
}

/// Handles one packet from a client. A connection request is answered
/// with an accept or a reject, whether or not the client is known; other
/// packets of unknown clients are ignored. A known client may say it is
/// ready, and authorize itself with the server's key: the first time it
/// does, it is marked authorized, takes its nick and reserves an entity in
/// the world; the answer carries the message of the day, or rejects a wrong
/// key. Other messages are handed on only from authorized clients.
pub fn process_packet(
    data: &[u8],
    connection: &mut Option<Connection>,
    connection_key: &String,
    motd: &str,
    world: &hecs::World,
) -> (r: PacketOutcome)
    requires
        !packet_aborts(data@, (*old(connection)) is Some),
        motd.spec_bytes().len() <= 255,
    ensures
        r@ == packet_outcome(
            data@,
            match *old(connection) {
                Some(c) => Some(c.authorized),
                None => None,
            },
            connection_key@,
            motd@,
        ),
        (*final(connection)) is Some <==> (*old(connection)) is Some,
        ({
            match (*old(connection), *final(connection)) {
                (Some(c0), Some(c1)) => {
                    &&& c1.stats == c0.stats
                    &&& c1.ack_tick == c0.ack_tick
                    &&& c1.last_processed_tick == c0.last_processed_tick
                    &&& c1.last_broadcast == c0.last_broadcast
                    &&& c1.cheats == c0.cheats
                    &&& c1.ready == (c0.ready || (data@.len() > 0 && data@[0] == 0x08))
                    &&& if data@.len() > 0 && data@[0] != 0x01 && data@[0] != 0x08 && !c0.authorized
                        && (spec_decode(data@) matches Some(MessageView::ConnectionAuthorize(nick, k))
                        && k == connection_key@) {
                        &&& c1.authorized
                        &&& spec_decode(data@) matches Some(MessageView::ConnectionAuthorize(nick, k))
                            && c1.nick@ == nick
                        &&& c1.entity is Some
                    } else {
                        &&& c1.authorized == c0.authorized
                        &&& c1.nick == c0.nick
                        &&& c1.entity == c0.entity
                    }
                },
                _ => true,
            }
        }),
{
    if data.len() == 0 {
        return PacketOutcome::Ignored;
    }
    let code = data[0];
    let op = OperationCode::from_u8(code);
    if op.is_none() {
        return PacketOutcome::Ignored;
    }
    if code == 0x01 {
        let reply = if packet_verify(data) {
            connection_accept()
        } else {
            connection_reject()
        };
        return PacketOutcome::ConnectReply(reply);
    }
    match connection {
        None => PacketOutcome::Ignored,
        Some(c) => {
            if code == 0x08 {
                c.ready = true;
                PacketOutcome::Ready
            } else {
                match decode_message(data) {
                    None => PacketOutcome::Ignored,
                    Some(NetworkMessage::ConnectionAuthorize { nick, key }) => {
                        let reply = if key == *connection_key {
                            if !c.authorized {
                                c.authorized = true;
                                c.nick = nick;
                                c.entity = Some(world_reserve_entity(world));
                            }
                            connection_authorized(motd)
                        } else {
                            connection_reject()
                        };
                        PacketOutcome::AuthorizeReply(reply)
                    },
                    Some(m) => {
                        if c.authorized {
                            PacketOutcome::Deliver(m)
                        } else {
                            PacketOutcome::Ignored
                        }
                    },
                }
            }
        },
    }
}

/// The bytes `server.`, which start the paths of server-side settings.
pub open spec fn server_prefix() -> Seq<u8> {
    seq![0x73u8, 0x65u8, 0x72u8, 0x76u8, 0x65u8, 0x72u8, 0x2eu8]
}

/// A setting path that starts with `server.`: such settings stay on the
/// server.
pub open spec fn is_server_setting(path: Seq<char>) -> bool {
    server_prefix().is_prefix_of(encode_utf8(path))
}

fn starts_with_server(path: &String) -> (b: bool)
    ensures
        b == is_server_setting(path@),
{
    let s: &str = path.as_str();
    let bytes: &[u8] = s.as_bytes();
    if bytes.len() < 7 {
        return false;
    }
    let b = bytes[0] == 0x73u8 && bytes[1] == 0x65u8 && bytes[2] == 0x72u8 && bytes[3] == 0x76u8
        && bytes[4] == 0x65u8 && bytes[5] == 0x72u8 && bytes[6] == 0x2eu8;
    proof {
        if b {
            assert(bytes@.subrange(0, 7) =~= server_prefix());
        } else {
            if server_prefix().is_prefix_of(encode_utf8(path@)) {
                assert(bytes@.subrange(0, 7) == server_prefix());
                assert(bytes@[0] == bytes@.subrange(0, 7)[0]);
                assert(bytes@[1] == bytes@.subrange(0, 7)[1]);
                assert(bytes@[2] == bytes@.subrange(0, 7)[2]);
                assert(bytes@[3] == bytes@.subrange(0, 7)[3]);
                assert(bytes@[4] == bytes@.subrange(0, 7)[4]);
                assert(bytes@[5] == bytes@.subrange(0, 7)[5]);
                assert(bytes@[6] == bytes@.subrange(0, 7)[6]);
            }
        }
    }
    b
}

/// The settings a client is told of: all but those under `server.`.
pub open spec fn client_settings(all: Seq<(Seq<char>, Seq<char>)>) -> Seq<(Seq<char>, Seq<char>)> {
    all.filter(|c: (Seq<char>, Seq<char>)| !is_server_setting(c.0))
}

/// The message that tells an authorized client the settings (path and
/// value) it shares with the server: every setting but those under
/// `server.`, in order.
pub fn cvars_message(settings: &Vec<(String, String)>) -> (b: bytes::Bytes)
    ensures
        bytes_contents(b) == spec_encode(
            MessageView::Cvars(client_settings(settings@.map_values(|c: (String, String)| cvar_view(c)))),
        ),
{
    let ghost all = settings@.map_values(|c: (String, String)| cvar_view(c));
    let mut out: Vec<(String, String)> = Vec::new();
    let mut i: usize = 0;
    while i < settings.len()
        invariant
            i <= settings.len(),
            all == settings@.map_values(|c: (String, String)| cvar_view(c)),
            out@.map_values(|c: (String, String)| cvar_view(c)) == client_settings(all.subrange(0, i as int)),
        decreases settings.len() - i,
    {
        let keep = !starts_with_server(&settings[i].0);
        proof {
            let s = all.subrange(0, i as int + 1);
            assert(s.drop_last() =~= all.subrange(0, i as int));
            reveal(Seq::filter);
        }
        if keep {
            let ghost before = out@;
            out.push((settings[i].0.clone(), settings[i].1.clone()));
            proof {
                assert(out@.map_values(|c: (String, String)| cvar_view(c)) =~= before.map_values(
                    |c: (String, String)| cvar_view(c),
                ).push(all[i as int]));
            }
        }
        i = i + 1;
    }
    proof {
        assert(all.subrange(0, settings.len() as int) =~= all);
    }
    encode_message(NetworkMessage::Cvars(out))
}

/// The controls a soldier is to play, by tick, each with its aim.
pub type ControlBuffer = HashMap<usize, (Control, (u8, u8))>;

/// A control buffer as values: tick to (control bits, aim).
pub open spec fn buffer_view(b: ControlBuffer) -> Map<usize, (u16, u8, u8)> {
    b@.map_values(|v: (Control, (u8, u8))| control_view(v))
}

/// The acknowledged tick, first tick and controls of a control message.
pub open spec fn control_of(m: MessageView) -> Option<(usize, usize, Seq<(u16, u8, u8)>)> {
    match m {
        MessageView::ControlState(ack, begin, cs) => Some((ack, begin, cs)),
        _ => None,
    }
}

pub open spec fn messages_view(msgs: Seq<(PeerAddr, NetworkMessage)>) -> Seq<(PeerAddr, MessageView)> {
    msgs.map_values(|p: (PeerAddr, NetworkMessage)| (p.0, p.1@))
}

/// The last control message from `a`.
pub open spec fn last_control(msgs: Seq<(PeerAddr, MessageView)>, a: PeerAddr) -> Option<
    (usize, usize, Seq<(u16, u8, u8)>),
>
    decreases msgs.len(),
{
    if msgs.len() == 0 {
        None
    } else if msgs.last().0 == a && control_of(msgs.last().1) is Some {
        control_of(msgs.last().1)
    } else {
        last_control(msgs.drop_last(), a)
    }
}

/// Position `i` holds the first entry for its address.
pub open spec fn first_with_addr<T>(s: Seq<(PeerAddr, T)>, i: int) -> bool {
    forall|j: int| 0 <= j < i ==> (#[trigger] s[j]).0 != s[i].0
}

/// The first connection with address `a`.
pub open spec fn find_connection(conns: Seq<(PeerAddr, Connection)>, a: PeerAddr) -> Option<int> {
    if exists|i: int| 0 <= i < conns.len() && conns[i].0 == a && first_with_addr(conns, i) {
        Some(choose|i: int| 0 <= i < conns.len() && conns[i].0 == a && first_with_addr(conns, i))
    } else {
        None
    }
}

/// A buffer after the controls from `tick` on were queued into it: each
/// control for a tick after `last_processed` takes its tick's place; the
/// others are dropped.
pub open spec fn queue_controls(
    buf: Map<usize, (u16, u8, u8)>,
    tick: usize,
    cs: Seq<(u16, u8, u8)>,
    last_processed: usize,
) -> Map<usize, (u16, u8, u8)> {
    Map::new(
        |t: usize| buf.contains_key(t) || (tick <= t < tick + cs.len() && t > last_processed),
        |t: usize|
            if tick <= t < tick + cs.len() && t > last_processed {
                cs[t - tick]
            } else {
                buf[t]
            },
    )
}

/// A connection after `c0` with only the acknowledged tick changed.
pub open spec fn same_but_ack(c0: Connection, c1: Connection) -> bool {
    &&& c1.stats == c0.stats
    &&& c1.last_processed_tick == c0.last_processed_tick
    &&& c1.last_broadcast == c0.last_broadcast
    &&& c1.authorized == c0.authorized
    &&& c1.ready == c0.ready
    &&& c1.nick == c0.nick
    &&& c1.cheats == c0.cheats
    &&& c1.entity == c0.entity
}

/// The position of the last control message from `a`.
fn find_last_control(messages: &Vec<(PeerAddr, NetworkMessage)>, a: PeerAddr) -> (r: Option<usize>)
    ensures
        match r {
            Some(k) => k < messages.len() && last_control(messages_view(messages@), a) == control_of(
                messages@[k as int].1@,
            ) && control_of(messages@[k as int].1@) is Some,
            None => last_control(messages_view(messages@), a) is None,
        },
{
    let ghost mv = messages_view(messages@);
    let mut k: usize = messages.len();
    proof {
        assert(mv.subrange(0, k as int) =~= mv);
    }
    while k > 0
        invariant
            k <= messages.len(),
            mv == messages_view(messages@),
            last_control(mv, a) == last_control(mv.subrange(0, k as int), a),
        decreases k,
    {
        let p = &messages[k - 1];
        let is_control: bool = match &p.1 {
            NetworkMessage::ControlState { .. } => true,
            _ => false,
        };
        proof {
            let s = mv.subrange(0, k as int);
            assert(s.drop_last() =~= mv.subrange(0, k as int - 1));
            assert(s.last() == (p.0, p.1@));
        }
        if p.0 == a && is_control {
            return Some(k - 1);
        }
        k = k - 1;
    }
    None
}

/// Queues the controls from `tick` on into `buffer`, skipping the ticks
/// that were processed already.
fn queue_into(
    buffer: &mut ControlBuffer,
    tick: usize,
    controls: &Vec<(Control, (u8, u8))>,
    last_processed: usize,
)
    requires
        tick + controls.len() <= usize::MAX + 1,
    ensures
        buffer_view(*final(buffer)) == queue_controls(
            buffer_view(*old(buffer)),
            tick,
            controls@.map_values(|v: (Control, (u8, u8))| control_view(v)),
            last_processed,
        ),
{
    let ghost cs = controls@.map_values(|v: (Control, (u8, u8))| control_view(v));
    let ghost b0 = buffer_view(*old(buffer));
    let mut i: usize = 0;
    while i < controls.len()
        invariant
            i <= controls.len(),
            tick + controls.len() <= usize::MAX + 1,
            cs == controls@.map_values(|v: (Control, (u8, u8))| control_view(v)),
            b0 == buffer_view(*old(buffer)),
            buffer_view(*buffer) == queue_controls(b0, tick, cs.subrange(0, i as int), last_processed),
        decreases controls.len() - i,
    {
        let t: usize = tick + i;
        let ghost before = buffer_view(*buffer);
        let ghost raw = buffer@;
        if t > last_processed {
            buffer.insert(t, controls[i]);
            proof {
                assert(buffer@ == raw.insert(t, controls@[i as int]));
                assert(buffer_view(*buffer) =~= before.insert(t, cs[i as int]));
            }
        }
        proof {
            assert(buffer_view(*buffer) =~= queue_controls(
                b0,
                tick,
                cs.subrange(0, i as int + 1),
                last_processed,
            ));
        }
        i = i + 1;
    }
    proof {
        assert(cs.subrange(0, controls.len() as int) =~= cs);
    }
}

/// The messages that are not control messages, in order.
pub open spec fn non_control(messages: Seq<(PeerAddr, NetworkMessage)>) -> Seq<(PeerAddr, NetworkMessage)> {
    messages.filter(|p: (PeerAddr, NetworkMessage)| control_of(p.1@) is None)
}

/// Whether position `i` holds the first entry for its address.
fn is_first_with_addr<T>(s: &Vec<(PeerAddr, T)>, i: usize) -> (b: bool)
    requires
        i < s.len(),
    ensures
        b == first_with_addr(s@, i as int),
{
    let a = s[i].0;
    let mut j: usize = 0;
    while j < i
        invariant
            i < s.len(),
            a == s@[i as int].0,
            j <= i,
            forall|k: int| 0 <= k < j ==> (#[trigger] s@[k]).0 != a,
        decreases i - j,
    {
        if s[j].0 == a {
            return false;
        }
        j = j + 1;
    }
    true
}

proof fn lemma_first_unique<T>(s: Seq<(PeerAddr, T)>, i: int, k: int)
    requires
        0 <= i < s.len(),
        0 <= k < s.len(),
        s[i].0 == s[k].0,
        first_with_addr(s, i),
        first_with_addr(s, k),
    ensures
        i == k,
{
    if i < k {
        assert(s[i].0 != s[k].0);
    }
    if k < i {
        assert(s[k].0 != s[i].0);
    }
}

/// The position of the first connection with address `a`.
pub fn find_connection_index(conns: &Vec<(PeerAddr, Connection)>, a: PeerAddr) -> (r: Option<usize>)
    ensures
        find_connection(conns@, a) == match r {
            Some(i) => Some(i as int),
            None => None::<int>,
        },
        match r {
            Some(i) => i < conns.len(),
            None => true,
        },
{
    let mut i: usize = 0;
    while i < conns.len()
        invariant
            i <= conns.len(),
            forall|k: int| 0 <= k < i ==> (#[trigger] conns@[k]).0 != a,
        decreases conns.len() - i,
    {
        if conns[i].0 == a {
            proof {
                assert(first_with_addr(conns@, i as int));
                let c = choose|c: int| 0 <= c < conns@.len() && conns@[c].0 == a && first_with_addr(conns@, c);
                lemma_first_unique(conns@, i as int, c);
            }
            return Some(i);
        }
        i = i + 1;
    }
    None
}

proof fn lemma_same_addrs_same_find(s1: Seq<(PeerAddr, Connection)>, s2: Seq<(PeerAddr, Connection)>, a: PeerAddr)
    requires
        s1.len() == s2.len(),
        forall|j: int| 0 <= j < s1.len() ==> (#[trigger] s1[j]).0 == s2[j].0,
    ensures
        find_connection(s1, a) == find_connection(s2, a),
{
    assert forall|c: int| 0 <= c < s1.len() implies first_with_addr(s1, c) == first_with_addr(s2, c) by {
        if first_with_addr(s1, c) {
            assert forall|j: int| 0 <= j < c implies (#[trigger] s2[j]).0 != s2[c].0 by {
                assert(s1[j].0 != s1[c].0);
            }
        }
        if first_with_addr(s2, c) {
            assert forall|j: int| 0 <= j < c implies (#[trigger] s1[j]).0 != s1[c].0 by {
                assert(s2[j].0 != s2[c].0);
            }
        }
    }
    if exists|i: int| 0 <= i < s1.len() && s1[i].0 == a && first_with_addr(s1, i) {
        let i = choose|i: int| 0 <= i < s1.len() && s1[i].0 == a && first_with_addr(s1, i);
        assert(s2[i].0 == a && first_with_addr(s2, i));
        let i1 = choose|i: int| 0 <= i < s1.len() && s1[i].0 == a && first_with_addr(s1, i);
        let i2 = choose|i: int| 0 <= i < s2.len() && s2[i].0 == a && first_with_addr(s2, i);
        lemma_first_unique(s2, i1, i2);
    } else {
        if exists|i: int| 0 <= i < s2.len() && s2[i].0 == a && first_with_addr(s2, i) {
            let i = choose|i: int| 0 <= i < s2.len() && s2[i].0 == a && first_with_addr(s2, i);
            assert(s1[i].0 == a && first_with_addr(s1, i));
        }
    }
}

/// Takes the control messages out of the queue: each client's connection
/// acknowledges the tick of its last control message, and the controls of
/// that message are queued into the client's control buffer for the ticks
/// not processed yet. A client with no connection only has its buffer left
/// alone. The other messages stay queued, in order.
pub fn process_network_messages(
    messages: &mut Vec<(PeerAddr, NetworkMessage)>,
    connections: &mut Vec<(PeerAddr, Connection)>,
    buffers: &mut Vec<(PeerAddr, ControlBuffer)>,
)
    requires
        forall|k: int|
            0 <= k < old(buffers).len() && first_with_addr(old(buffers)@, k) ==> match (
                last_control(messages_view(old(messages)@), (#[trigger] old(buffers)@[k]).0),
                find_connection(old(connections)@, old(buffers)@[k].0),
            ) {
                (Some((_, tick, cs)), Some(_)) => tick + cs.len() <= usize::MAX + 1,
                _ => true,
            },
    ensures
        final(messages)@ == non_control(old(messages)@),
        final(connections)@.len() == old(connections)@.len(),
        forall|i: int|
            0 <= i < old(connections)@.len() ==> {
                let (a0, c0) = #[trigger] old(connections)@[i];
                let (a1, c1) = final(connections)@[i];
                &&& a1 == a0
                &&& same_but_ack(c0, c1)
                &&& c1.ack_tick == if first_with_addr(old(connections)@, i) && last_control(
                    messages_view(old(messages)@),
                    a0,
                ) is Some {
                    last_control(messages_view(old(messages)@), a0).unwrap().0
                } else {
                    c0.ack_tick
                }
            },
        final(buffers)@.len() == old(buffers)@.len(),
        forall|k: int|
            0 <= k < old(buffers)@.len() ==> {
                let (a0, b0) = #[trigger] old(buffers)@[k];
                let (a1, b1) = final(buffers)@[k];
                &&& a1 == a0
                &&& buffer_view(b1) == match (
                    last_control(messages_view(old(messages)@), a0),
                    find_connection(old(connections)@, a0),
                ) {
                    (Some((_, tick, cs)), Some(ci)) => if first_with_addr(old(buffers)@, k) {
                        queue_controls(buffer_view(b0), tick, cs, old(connections)@[ci].1.last_processed_tick)
                    } else {
                        buffer_view(b0)
                    },
                    _ => buffer_view(b0),
                }
            },
{
    let ghost mv = messages_view(messages@);
    // acknowledged ticks
    let nc: usize = connections.len();
    let mut i: usize = 0;
    while i < nc
        invariant
            nc == connections.len(),
            nc == old(connections).len(),
            i <= nc,
            *messages == *old(messages),
            mv == messages_view(messages@),
            forall|j: int|
                0 <= j < nc ==> (#[trigger] connections@[j]).0 == old(connections)@[j].0
                    && connections@[j].1.last_processed_tick == old(connections)@[j].1.last_processed_tick,
            forall|j: int|
                0 <= j < nc ==> {
                    let (a0, c0) = #[trigger] old(connections)@[j];
                    let (a1, c1) = connections@[j];
                    &&& same_but_ack(c0, c1)
                    &&& c1.ack_tick == if j < i && first_with_addr(old(connections)@, j) && last_control(
                        mv,
                        a0,
                    ) is Some {
                        last_control(mv, a0).unwrap().0
                    } else {
                        c0.ack_tick
                    }
                },
        decreases nc - i,
    {
        proof {
            assert(first_with_addr(connections@, i as int) == first_with_addr(old(connections)@, i as int));
        }
        if is_first_with_addr(connections, i) {
            let a = connections[i].0;
            match find_last_control(messages, a) {
                Some(k) => {
                    match &messages[k].1 {
                        NetworkMessage::ControlState { ack_tick, .. } => {
                            connections[i].1.ack_tick = *ack_tick;
                        },
                        _ => {},
                    }
                },
                None => {},
            }
        }
        i = i + 1;
    }
    // control buffers
    let nb: usize = buffers.len();
    let mut k: usize = 0;
    while k < nb
        invariant
            nb == buffers.len(),
            nb == old(buffers).len(),
            k <= nb,
            *messages == *old(messages),
            mv == messages_view(messages@),
            connections@.len() == old(connections)@.len(),
            forall|j: int|
                0 <= j < connections@.len() ==> (#[trigger] connections@[j]).0 == old(connections)@[j].0
                    && connections@[j].1.last_processed_tick == old(connections)@[j].1.last_processed_tick,
            forall|j: int|
                0 <= j < nb && first_with_addr(old(buffers)@, j) ==> match (
                    last_control(mv, (#[trigger] old(buffers)@[j]).0),
                    find_connection(old(connections)@, old(buffers)@[j].0),
                ) {
                    (Some((_, tick, cs)), Some(_)) => tick + cs.len() <= usize::MAX + 1,
                    _ => true,
                },
            forall|j: int| 0 <= j < nb ==> (#[trigger] buffers@[j]).0 == old(buffers)@[j].0,
            forall|j: int| k <= j < nb ==> (#[trigger] buffers@[j]) == old(buffers)@[j],
            forall|j: int|
                0 <= j < k ==> {
                    let (a0, b0) = #[trigger] old(buffers)@[j];
                    buffer_view(buffers@[j].1) == match (
                        last_control(mv, a0),
                        find_connection(old(connections)@, a0),
                    ) {
                        (Some((_, tick, cs)), Some(ci)) => if first_with_addr(old(buffers)@, j) {
                            queue_controls(buffer_view(b0), tick, cs, old(connections)@[ci].1.last_processed_tick)
                        } else {
                            buffer_view(b0)
                        },
                        _ => buffer_view(b0),
                    }
                },
        decreases nb - k,
    {
        proof {
            assert(connections@.map_values(|p: (PeerAddr, Connection)| p.0) =~= old(connections)@.map_values(
                |p: (PeerAddr, Connection)| p.0,
            ));
            assert(first_with_addr(buffers@, k as int) == first_with_addr(old(buffers)@, k as int));
        }
        if is_first_with_addr(buffers, k) {
            let a = buffers[k].0;
            match find_last_control(messages, a) {
                Some(m) => {
                    proof {
                        lemma_same_addrs_same_find(connections@, old(connections)@, a);
                    }
                    match find_connection_index(connections, a) {
                        Some(ci) => {
                            let lp: usize = connections[ci].1.last_processed_tick;
                            match &messages[m].1 {
                                NetworkMessage::ControlState { begin_tick, control, .. } => {
                                    queue_into(&mut buffers[k].1, *begin_tick, control, lp);
                                },
                                _ => {},
                            }
                        },
                        None => {},
                    }
                },
                None => {},
            }
        }
        k = k + 1;
    }
    // the other messages stay queued
    let mut taken: Vec<(PeerAddr, NetworkMessage)> = Vec::new();
    std::mem::swap(messages, &mut taken);
    let ghost all = taken@;
    let mut reversed: Vec<(PeerAddr, NetworkMessage)> = Vec::new();
    while taken.len() > 0
        invariant
            all == old(messages)@,
            all == taken@ + reversed@.reverse(),
        decreases taken.len(),
    {
        let p = taken.pop().unwrap();
        let ghost r0 = reversed@;
        reversed.push(p);
        proof {
            assert(reversed@.reverse() =~= seq![p] + r0.reverse());
            assert(all =~= taken@ + reversed@.reverse());
        }
    }
    proof {
        assert(all =~= reversed@.reverse());
    }
    while reversed.len() > 0
        invariant
            all == old(messages)@,
            reversed@.reverse() == all.subrange(all.len() - reversed@.len(), all.len() as int),
            reversed@.len() <= all.len(),
            messages@ == all.subrange(0, all.len() - reversed@.len()).filter(
                |p: (PeerAddr, NetworkMessage)| control_of(p.1@) is None,
            ),
        decreases reversed.len(),
    {
        let ghost n0 = reversed@.len();
        let ghost old_rev = reversed@;
        let p = reversed.pop().unwrap();
        let is_control: bool = match &p.1 {
            NetworkMessage::ControlState { .. } => true,
            _ => false,
        };
        proof {
            let idx = all.len() - n0;
            assert(old_rev.reverse()[0] == old_rev[n0 - 1]);
            assert(all.subrange(idx, all.len() as int)[0] == all[idx]);
            assert(all[idx] == p);
            assert forall|q: int| 0 <= q < reversed@.len() implies reversed@.reverse()[q] == all.subrange(
                all.len() - reversed@.len(),
                all.len() as int,
            )[q] by {
                assert(reversed@.reverse()[q] == reversed@[reversed@.len() - 1 - q]);
                assert(old_rev.reverse()[q + 1] == old_rev[n0 - 1 - (q + 1)]);
                assert(all.subrange(idx, all.len() as int)[q + 1] == all[idx + 1 + q]);
            }
            assert(reversed@.reverse() =~= all.subrange(all.len() - reversed@.len(), all.len() as int));
            let pre = all.subrange(0, idx + 1);
            assert(pre.drop_last() =~= all.subrange(0, idx));
            assert(pre.last() == p);
            assert(is_control == (control_of(p.1@) is Some));
            reveal(Seq::filter);
        }
        let ghost m0 = messages@;
        if !is_control {
            messages.push(p);
        }
        proof {
            let idx = all.len() - n0;
            let pre = all.subrange(0, idx + 1);
            assert(pre.filter(|p: (PeerAddr, NetworkMessage)| control_of(p.1@) is None) == if control_of(
                p.1@,
            ) is None {
                m0.push(p)
            } else {
                m0
            });
            assert(all.len() - reversed@.len() == idx + 1);
        }
    }
    proof {
        assert(all.subrange(0, all.len() as int) =~= all);
    }
}

/// A packet to send: where, whether reliably, and its bytes.
pub struct OutPacket {
    pub addr: PeerAddr,
    pub reliable: bool,
    pub payload: bytes::Bytes,
}

pub open spec fn out_view(p: OutPacket) -> (PeerAddr, bool, Seq<u8>) {
    (p.addr, p.reliable, bytes_contents(p.payload))
}

/// A command the simulation sends out: from whom (if a client), to whom
/// (if one client), when, and what.
pub struct OutgoingCommand {
    pub from: Option<PeerAddr>,
    pub to: Option<PeerAddr>,
    pub timestamp: i16,
    pub command: NetCommand,
}

/// The addresses of the connections that have an entity, in order.
pub open spec fn addrs_with_entity(conns: Seq<(PeerAddr, Connection)>) -> Seq<PeerAddr>
    decreases conns.len(),
{
    if conns.len() == 0 {
        Seq::empty()
    } else {
        let rest = addrs_with_entity(conns.drop_last());
        if conns.last().1.entity is Some {
            rest.push(conns.last().0)
        } else {
            rest
        }
    }
}

/// The same payload, unreliably, to each address in turn.
pub open spec fn unreliable_to(addrs: Seq<PeerAddr>, payload: Seq<u8>) -> Seq<(PeerAddr, bool, Seq<u8>)> {
    addrs.map_values(|a: PeerAddr| (a, false, payload))
}

/// The same payload, reliably, to each address in turn.
pub open spec fn reliable_to(addrs: Seq<PeerAddr>, payload: Seq<u8>) -> Seq<(PeerAddr, bool, Seq<u8>)> {
    addrs.map_values(|a: PeerAddr| (a, true, payload))
}

/// The packets for a run of snapshots: each snapshot goes to every client
/// with an entity.
pub open spec fn snapshot_packets(dests: Seq<PeerAddr>, stamps: Seq<i16>) -> Seq<(PeerAddr, bool, Seq<u8>)>
    decreases stamps.len(),
{
    if stamps.len() == 0 {
        Seq::empty()
    } else {
        snapshot_packets(dests, stamps.drop_last()) + unreliable_to(
            dests,
            spec_encode(MessageView::Snapshot(stamps.last())),
        )
    }
}

pub open spec fn command_view(c: OutgoingCommand) -> (Option<PeerAddr>, Option<PeerAddr>, MessageView) {
    (c.from, c.to, match c.command {
        NetCommand::Command(s) => MessageView::Command(c.timestamp, s@),
    })
}

/// The packets for a run of commands: each goes reliably to its
/// destinations among the connected addresses.
pub open spec fn command_packets(
    addrs: Seq<PeerAddr>,
    cmds: Seq<(Option<PeerAddr>, Option<PeerAddr>, MessageView)>,
) -> Seq<(PeerAddr, bool, Seq<u8>)>
    decreases cmds.len(),
{
    if cmds.len() == 0 {
        Seq::empty()
    } else {
        let (from, to, m) = cmds.last();
        command_packets(addrs, cmds.drop_last()) + reliable_to(
            command_destinations_spec(addrs, from, to),
            spec_encode(m),
        )
    }
}

/// Sends what the simulation produced: every snapshot to each client
/// with an entity (whose last broadcast becomes now), then every command
/// to its destinations (see `command_destinations`).
pub fn process_simulation(
    connections: &mut Vec<(PeerAddr, Connection)>,
    snapshots: &Vec<(i16, NetSnapshot)>,
    commands: &Vec<OutgoingCommand>,
) -> (packets: Vec<OutPacket>)
    ensures
        packets@.map_values(|p: OutPacket| out_view(p)) == snapshot_packets(
            addrs_with_entity(old(connections)@),
            snapshots@.map_values(|s: (i16, NetSnapshot)| s.0),
        ) + command_packets(
            old(connections)@.map_values(|c: (PeerAddr, Connection)| c.0),
            commands@.map_values(|c: OutgoingCommand| command_view(c)),
        ),
        final(connections)@.len() == old(connections)@.len(),
        forall|i: int|
            0 <= i < old(connections)@.len() ==> {
                let (a0, c0) = #[trigger] old(connections)@[i];
                let (a1, c1) = final(connections)@[i];
                &&& a1 == a0
                &&& c1.stats == c0.stats
                &&& c1.ack_tick == c0.ack_tick
                &&& c1.last_processed_tick == c0.last_processed_tick
                &&& c1.authorized == c0.authorized
                &&& c1.ready == c0.ready
                &&& c1.nick == c0.nick
                &&& c1.cheats == c0.cheats
                &&& c1.entity == c0.entity
                &&& (c0.entity is None || snapshots@.len() == 0) ==> c1.last_broadcast == c0.last_broadcast
            },
{
    let ghost conns0 = connections@;
    let ghost dests = addrs_with_entity(conns0);
    let ghost stamps = snapshots@.map_values(|s: (i16, NetSnapshot)| s.0);
    let mut packets: Vec<OutPacket> = Vec::new();
    let n: usize = connections.len();
    let mut s: usize = 0;
    while s < snapshots.len()
        invariant
            n == connections.len(),
            s <= snapshots.len(),
            connections@.len() == conns0.len(),
            conns0 == old(connections)@,
            dests == addrs_with_entity(conns0),
            stamps == snapshots@.map_values(|s: (i16, NetSnapshot)| s.0),
            packets@.map_values(|p: OutPacket| out_view(p)) == snapshot_packets(dests, stamps.subrange(0, s as int)),
            forall|i: int|
                0 <= i < conns0.len() ==> {
                    let (a0, c0) = #[trigger] conns0[i];
                    let (a1, c1) = connections@[i];
                    &&& a1 == a0
                    &&& c1.stats == c0.stats
                    &&& c1.ack_tick == c0.ack_tick
                    &&& c1.last_processed_tick == c0.last_processed_tick
                    &&& c1.authorized == c0.authorized
                    &&& c1.ready == c0.ready
                    &&& c1.nick == c0.nick
                    &&& c1.cheats == c0.cheats
                    &&& c1.entity == c0.entity
                    &&& (c0.entity is None || s == 0) ==> c1.last_broadcast == c0.last_broadcast
                },
        decreases snapshots.len() - s,
    {
        let ts: i16 = snapshots[s].0;
        let ghost before = packets@.map_values(|p: OutPacket| out_view(p));
        let mut i: usize = 0;
        while i < n
            invariant
                n == connections.len(),
                i <= n,
                s < snapshots.len(),
                ts == stamps[s as int],
                connections@.len() == conns0.len(),
                conns0 == old(connections)@,
                dests == addrs_with_entity(conns0),
                packets@.map_values(|p: OutPacket| out_view(p)) == before + unreliable_to(
                    addrs_with_entity(conns0.subrange(0, i as int)),
                    spec_encode(MessageView::Snapshot(ts)),
                ),
                forall|j: int|
                    0 <= j < conns0.len() ==> {
                        let (a0, c0) = #[trigger] conns0[j];
                        let (a1, c1) = connections@[j];
                        &&& a1 == a0
                        &&& c1.stats == c0.stats
                        &&& c1.ack_tick == c0.ack_tick
                        &&& c1.last_processed_tick == c0.last_processed_tick
                        &&& c1.authorized == c0.authorized
                        &&& c1.ready == c0.ready
                        &&& c1.nick == c0.nick
                        &&& c1.cheats == c0.cheats
                        &&& c1.entity == c0.entity
                        &&& (c0.entity is None || (s == 0 && j >= i)) ==> c1.last_broadcast == c0.last_broadcast
                    },
            decreases n - i,
        {
            let ghost pv = packets@.map_values(|p: OutPacket| out_view(p));
            proof {
                let pre = conns0.subrange(0, i as int + 1);
                assert(pre.drop_last() =~= conns0.subrange(0, i as int));
                assert(pre.last() == conns0[i as int]);
            }
            if connections[i].1.entity.is_some() {
                connections[i].1.last_broadcast = instant_now();
                let payload = encode_message(NetworkMessage::Snapshot { timestamp: ts, snapshot: NetSnapshot {} });
                packets.push(OutPacket { addr: connections[i].0, reliable: false, payload });
                proof {
                    assert(packets@.map_values(|p: OutPacket| out_view(p)) =~= pv.push(
                        (conns0[i as int].0, false, spec_encode(MessageView::Snapshot(ts))),
                    ));
                    let pre = conns0.subrange(0, i as int + 1);
                    assert(unreliable_to(addrs_with_entity(pre), spec_encode(MessageView::Snapshot(ts))) =~= unreliable_to(
                        addrs_with_entity(conns0.subrange(0, i as int)),
                        spec_encode(MessageView::Snapshot(ts)),
                    ).push((conns0[i as int].0, false, spec_encode(MessageView::Snapshot(ts)))));
                }
            }
            i = i + 1;
        }
        proof {
            assert(conns0.subrange(0, n as int) =~= conns0);
            let pre = stamps.subrange(0, s as int + 1);
            assert(pre.drop_last() =~= stamps.subrange(0, s as int));
            assert(pre.last() == ts);
        }
        s = s + 1;
    }
    proof {
        assert(stamps.subrange(0, snapshots@.len() as int) =~= stamps);
    }
    let mut addrs: Vec<PeerAddr> = Vec::new();
    let mut i: usize = 0;
    while i < n
        invariant
            n == connections.len(),
            i <= n,
            connections@.len() == conns0.len(),
            forall|j: int| 0 <= j < n ==> (#[trigger] connections@[j]).0 == conns0[j].0,
            addrs@ == conns0.map_values(|c: (PeerAddr, Connection)| c.0).subrange(0, i as int),
        decreases n - i,
    {
        addrs.push(connections[i].0);
        proof {
            assert(addrs@ =~= conns0.map_values(|c: (PeerAddr, Connection)| c.0).subrange(0, i as int + 1));
        }
        i = i + 1;
    }
    proof {
        assert(addrs@ =~= conns0.map_values(|c: (PeerAddr, Connection)| c.0));
    }
    let ghost cmds = commands@.map_values(|c: OutgoingCommand| command_view(c));
    let ghost after_snaps = packets@.map_values(|p: OutPacket| out_view(p));
    let mut k: usize = 0;
    while k < commands.len()
        invariant
            k <= commands.len(),
            addrs@ == conns0.map_values(|c: (PeerAddr, Connection)| c.0),
            cmds == commands@.map_values(|c: OutgoingCommand| command_view(c)),
            packets@.map_values(|p: OutPacket| out_view(p)) == after_snaps + command_packets(
                addrs@,
                cmds.subrange(0, k as int),
            ),
        decreases commands.len() - k,
    {
        let c = &commands[k];
        let dests = command_destinations(&addrs, c.from, c.to);
        let ghost base = packets@.map_values(|p: OutPacket| out_view(p));
        let ghost payload = spec_encode(cmds[k as int].2);
        let mut d: usize = 0;
        while d < dests.len()
            invariant
                d <= dests.len(),
                k < commands.len(),
                c == &commands[k as int],
                cmds == commands@.map_values(|c: OutgoingCommand| command_view(c)),
                payload == spec_encode(cmds[k as int].2),
                packets@.map_values(|p: OutPacket| out_view(p)) == base + reliable_to(
                    dests@.subrange(0, d as int),
                    payload,
                ),
            decreases dests.len() - d,
        {
            let msg = match &c.command {
                NetCommand::Command(text) => NetworkMessage::Command {
                    timestamp: c.timestamp,
                    command: NetCommand::Command(text.clone()),
                },
            };
            let payload_bytes = encode_message(msg);
            let ghost pv = packets@.map_values(|p: OutPacket| out_view(p));
            packets.push(OutPacket { addr: dests[d], reliable: true, payload: payload_bytes });
            proof {
                assert(packets@.map_values(|p: OutPacket| out_view(p)) =~= pv.push((dests@[d as int], true, payload)));
                assert(reliable_to(dests@.subrange(0, d as int + 1), payload) =~= reliable_to(
                    dests@.subrange(0, d as int),
                    payload,
                ).push((dests@[d as int], true, payload)));
            }
            d = d + 1;
        }
        proof {
            assert(dests@.subrange(0, dests@.len() as int) =~= dests@);
            let pre = cmds.subrange(0, k as int + 1);
            assert(pre.drop_last() =~= cmds.subrange(0, k as int));
            assert(pre.last() == cmds[k as int]);
        }
        k = k + 1;
    }
    proof {
        assert(cmds.subrange(0, commands@.len() as int) =~= cmds);
    }
    packets
}

/// The components of an entity that a game state message carries.
pub struct EntityComponents {
    pub entity: u64,
    pub soldier: Option<Soldier>,
    pub nick: Option<Nick>,
    pub position: Option<Position>,
}

/// The components of an entity as sent: soldier, nick, position, each where
/// the entity has it.
pub open spec fn components_view(e: EntityComponents) -> (u64, Seq<ComponentView>) {
    let s1: Seq<ComponentView> = if e.soldier is Some {
        seq![ComponentView::Soldier]
    } else {
        Seq::empty()
    };
    let s2 = match e.nick {
        Some(n) => s1.push(ComponentView::Nick(n.0@)),
        None => s1,
    };
    let s3 = match e.position {
        Some(p) => s2.push(ComponentView::Pos(p.x, p.y)),
        None => s2,
    };
    (e.entity, s3)
}

/// The message that tells a client the state of the world at `tick`: each
/// entity with its soldier, nick and position components.
pub fn build_state_message(tick: usize, entities: &Vec<EntityComponents>) -> (b: bytes::Bytes)
    ensures
        bytes_contents(b) == spec_encode(
            MessageView::GameState(tick, entities@.map_values(|e: EntityComponents| components_view(e))),
        ),
{
    let mut out: Vec<(u64, Vec<ComponentValue>)> = Vec::new();
    let mut i: usize = 0;
    while i < entities.len()
        invariant
            i <= entities.len(),
            out@.len() == i,
            out@.map_values(|e: (u64, Vec<ComponentValue>)| crate::messages::entity_view(e)) == entities@.map_values(
                |e: EntityComponents| components_view(e),
            ).subrange(0, i as int),
        decreases entities.len() - i,
    {
        let e = &entities[i];
        let mut cs: Vec<ComponentValue> = Vec::new();
        if e.soldier.is_some() {
            cs.push(ComponentValue::Soldier(Soldier));
        }
        match &e.nick {
            Some(n) => {
                cs.push(ComponentValue::Nick(Nick(n.0.clone())));
            },
            None => {},
        }
        match e.position {
            Some(p) => {
                cs.push(ComponentValue::Pos(Position { x: p.x, y: p.y }));
            },
            None => {},
        }
        proof {
            assert(cs@.map_values(|c: ComponentValue| c@) =~= components_view(*e).1);
            assert(crate::messages::entity_view((e.entity, cs)) == components_view(*e));
        }
        let ghost before = out@;
        out.push((e.entity, cs));
        proof {
            assert(out@[i as int] == (e.entity, cs));
            assert(entities@.map_values(|e: EntityComponents| components_view(e))[i as int] == components_view(*e));
            assert(out@.map_values(|e: (u64, Vec<ComponentValue>)| crate::messages::entity_view(e)) =~= entities@.map_values(
                |e: EntityComponents| components_view(e),
            ).subrange(0, i as int + 1));
        }
        i = i + 1;
    }
    proof {
        assert(entities@.map_values(|e: EntityComponents| components_view(e)).subrange(0, entities@.len() as int)
            =~= entities@.map_values(|e: EntityComponents| components_view(e)));
    }
    encode_message(NetworkMessage::GameState { tick, entities: out })
}

/// A connection request as a client builds it is accepted, whether or not
/// the client is known.
pub proof fn lemma_request_accepted(conn_authorized: Option<bool>, key: Seq<char>, motd: Seq<char>)
    ensures
        packet_outcome(handshake_packet(0x01), conn_authorized, key, motd) == OutcomeKind::ConnectReply(
            handshake_packet(0x81),
        ),
{
    lemma_handshake_verifies(0x01);
}

/// A known client that sends its nick with the server's key is answered
/// with the message of the day; with another key, it is rejected.
pub proof fn lemma_authorize_answer(
    nick: Seq<char>,
    key: Seq<char>,
    server_key: Seq<char>,
    authorized: bool,
    motd: Seq<char>,
)
    requires
        string_wf(nick),
        string_wf(key),
    ensures
        packet_outcome(
            spec_encode(MessageView::ConnectionAuthorize(nick, key)),
            Some(authorized),
            server_key,
            motd,
        ) == OutcomeKind::AuthorizeReply(
            if key == server_key {
                authorized_packet(motd)
            } else {
                handshake_packet(0x82)
            },
        ),
{
    let m = MessageView::ConnectionAuthorize(nick, key);
    lemma_decode_encode(m, Seq::empty());
    assert(spec_encode(m) + Seq::<u8>::empty() =~= spec_encode(m));
}

/// Nothing a client that is not authorized sends is handed on to the game.
pub proof fn lemma_unauthorized_not_delivered(data: Seq<u8>, key: Seq<char>, motd: Seq<char>)
    ensures
        !(packet_outcome(data, Some(false), key, motd) is Deliver),
        !(packet_outcome(data, None, key, motd) is Deliver),
{
}

/// Once the messages are processed, no control message is left queued.
pub proof fn lemma_no_control_left(messages: Seq<(PeerAddr, NetworkMessage)>)
    ensures
        forall|i: int| 0 <= i < non_control(messages).len() ==> control_of((#[trigger] non_control(messages)[i]).1@) is None,
{
    let pred = |p: (PeerAddr, NetworkMessage)| control_of(p.1@) is None;
    assert forall|i: int| 0 <= i < non_control(messages).len() implies control_of(
        (#[trigger] non_control(messages)[i]).1@,
    ) is None by {
        messages.lemma_filter_pred(pred, i);
    }
}

/// Each address has at most one connection.
pub open spec fn addrs_unique(conns: Seq<(PeerAddr, Connection)>) -> bool {
    forall|i: int, j: int|
        0 <= i < conns.len() && 0 <= j < conns.len() && (#[trigger] conns[i]).0 == (#[trigger] conns[j]).0 ==> i == j
}

/// Some connection has address `a`.
pub open spec fn has_connection(conns: Seq<(PeerAddr, Connection)>, a: PeerAddr) -> bool {
    exists|i: int| 0 <= i < conns.len() && (#[trigger] conns[i]).0 == a
}

proof fn lemma_first_exists(conns: Seq<(PeerAddr, Connection)>, a: PeerAddr, i: int)
    requires
        0 <= i < conns.len(),
        conns[i].0 == a,
    ensures
        exists|k: int| 0 <= k < conns.len() && conns[k].0 == a && first_with_addr(conns, k),
    decreases i,
{
    if exists|j: int| 0 <= j < i && (#[trigger] conns[j]).0 == a {
        let j = choose|j: int| 0 <= j < i && (#[trigger] conns[j]).0 == a;
        lemma_first_exists(conns, a, j);
    } else {
        assert(first_with_addr(conns, i));
    }
}

/// A client connects: it gets a fresh connection unless it has one.
pub fn connect(connections: &mut Vec<(PeerAddr, Connection)>, addr: PeerAddr)
    ensures
        has_connection(old(connections)@, addr) ==> final(connections)@ == old(connections)@,
        !has_connection(old(connections)@, addr) ==> {
            &&& final(connections)@.len() == old(connections)@.len() + 1
            &&& final(connections)@.subrange(0, old(connections)@.len() as int) == old(connections)@
            &&& final(connections)@.last().0 == addr
            &&& !final(connections)@.last().1.authorized
            &&& !final(connections)@.last().1.ready
            &&& final(connections)@.last().1.entity is None
        },
        has_connection(final(connections)@, addr),
        addrs_unique(old(connections)@) ==> addrs_unique(final(connections)@),
{
    match find_connection_index(connections, addr) {
        Some(i) => {
            proof {
                assert(connections@[i as int].0 == addr);
            }
        },
        None => {
            proof {
                if has_connection(connections@, addr) {
                    let i = choose|i: int| 0 <= i < connections@.len() && (#[trigger] connections@[i]).0 == addr;
                    lemma_first_exists(connections@, addr, i);
                }
            }
            let ghost before = connections@;
            connections.push((addr, Connection::new()));
            proof {
                assert(connections@.subrange(0, before.len() as int) =~= before);
                assert(connections@[before.len() as int].0 == addr);
                if addrs_unique(before) {
                    assert forall|i: int, j: int|
                        0 <= i < connections@.len() && 0 <= j < connections@.len() && (#[trigger] connections@[i]).0
                            == (#[trigger] connections@[j]).0 implies i == j by {
                        if i < before.len() && j < before.len() {
                            assert(before[i] == connections@[i]);
                            assert(before[j] == connections@[j]);
                        } else if i < before.len() {
                            assert(before[i] == connections@[i]);
                        } else if j < before.len() {
                            assert(before[j] == connections@[j]);
                        }
                    }
                }
            }
        },
    }
}

/// A client disconnects: its connection goes; the others stay, in order.
pub fn disconnect(connections: &mut Vec<(PeerAddr, Connection)>, addr: PeerAddr)
    ensures
        final(connections)@ == old(connections)@.filter(|c: (PeerAddr, Connection)| c.0 != addr),
        !has_connection(final(connections)@, addr),
{
    let mut kept: Vec<(PeerAddr, Connection)> = Vec::new();
    let mut taken: Vec<(PeerAddr, Connection)> = Vec::new();
    std::mem::swap(connections, &mut taken);
    let ghost all = taken@;
    let mut reversed: Vec<(PeerAddr, Connection)> = Vec::new();
    while taken.len() > 0
        invariant
            all == taken@ + reversed@.reverse(),
        decreases taken.len(),
    {
        let c = taken.pop().unwrap();
        let ghost r0 = reversed@;
        reversed.push(c);
        proof {
            assert(reversed@.reverse() =~= seq![c] + r0.reverse());
            assert(all =~= taken@ + reversed@.reverse());
        }
    }
    proof {
        assert(all =~= reversed@.reverse());
    }
    while reversed.len() > 0
        invariant
            reversed@.len() <= all.len(),
            reversed@.reverse() == all.subrange(all.len() - reversed@.len(), all.len() as int),
            kept@ == all.subrange(0, all.len() - reversed@.len()).filter(|c: (PeerAddr, Connection)| c.0 != addr),
        decreases reversed.len(),
    {
        let ghost n0 = reversed@.len();
        let ghost old_rev = reversed@;
        let c = reversed.pop().unwrap();
        proof {
            let idx = all.len() - n0;
            assert(old_rev.reverse()[0] == old_rev[n0 - 1]);
            assert(all.subrange(idx, all.len() as int)[0] == all[idx]);
            assert forall|p: int| 0 <= p < reversed@.len() implies reversed@.reverse()[p] == all.subrange(
                all.len() - reversed@.len(),
                all.len() as int,
            )[p] by {
                assert(reversed@.reverse()[p] == reversed@[reversed@.len() - 1 - p]);
                assert(old_rev.reverse()[p + 1] == old_rev[n0 - 1 - (p + 1)]);
                assert(all.subrange(idx, all.len() as int)[p + 1] == all[idx + 1 + p]);
            }
            assert(reversed@.reverse() =~= all.subrange(all.len() - reversed@.len(), all.len() as int));
            let pre = all.subrange(0, idx + 1);
            assert(pre.drop_last() =~= all.subrange(0, idx));
            assert(pre.last() == c);
            reveal(Seq::filter);
        }
        let ghost k0 = kept@;
        if c.0 != addr {
            kept.push(c);
        }
        proof {
            let idx = all.len() - n0;
            let pre = all.subrange(0, idx + 1);
            assert(pre.filter(|c: (PeerAddr, Connection)| c.0 != addr) == if pre.last().0 != addr {
                k0.push(pre.last())
            } else {
                k0
            });
        }
    }
    proof {
        assert(all.subrange(0, all.len() as int) =~= all);
        let f = all.filter(|c: (PeerAddr, Connection)| c.0 != addr);
        if has_connection(f, addr) {
            let i = choose|i: int| 0 <= i < f.len() && (#[trigger] f[i]).0 == addr;
            all.lemma_filter_pred(|c: (PeerAddr, Connection)| c.0 != addr, i);
        }
    }
    *connections = kept;
}

/// The latest tick queued in a buffer, with its control: the one a soldier
/// plays now. The buffer must not be empty.
pub fn latest_control(buffer: &ControlBuffer) -> (r: (usize, Control))
    requires
        buffer@.dom().len() > 0,
    ensures
        buffer@.contains_key(r.0),
        forall|t: usize| buffer@.contains_key(t) ==> t <= r.0,
        r.1 == buffer@[r.0].0,
{
    let mut best: usize = 0;
    let mut found: bool = false;
    for k in it: buffer.keys()
        invariant
            found <==> it.index() > 0,
            found ==> exists|i: int| 0 <= i < it.index() && *it.seq()[i] == best,
            forall|i: int| 0 <= i < it.index() ==> *it.seq()[i] <= best,
            it.seq().unref().to_set() == buffer@.dom(),
            found ==> buffer@.contains_key(best),
    {
        proof {
            assert(it.seq().unref()[it.index() as int] == *k);
            assert(it.seq().unref().contains(*k));
            assert(it.seq().unref().to_set().contains(*k));
        }
        if !found || *k > best {
            best = *k;
            found = true;
        }
    }
    assert(found) by {
        if !found {
            assert(buffer@.dom().len() > 0);
            let t = buffer@.dom().choose();
            assert(buffer@.dom().contains(t));
        }
    }
    let c = buffer.get(&best);
    match c {
        Some(v) => (best, v.0),
        None => (best, Control::empty()),
    }
}

} // verus!
