use vstd::prelude::*;
use vstd::bytes::*;
use vstd::slice::*;
use vstd::string::*;
use vstd::utf8::*;

verus! {

/// The version of the wire protocol, sent in connection handshakes.
pub const NET_PROTOCOL_VERSION: u8 = 0x01;

/// The first byte of every packet: what the packet carries.
#[allow(non_camel_case_types)]
#[derive(Debug, Clone, Copy, PartialEq, Eq, Structural)]
pub enum OperationCode {
    CCREQ_CONNECT,
    CCREQ_AUTHORIZE,
    CCREQ_READY,
    STT_CONTROL,
    STT_ENTITIES,
    STT_SNAPSHOT,
    STT_COMMAND,
    STT_CVARS,
    CCREP_ACCEPT,
    CCREP_REJECT,
    CCREP_AUTHORIZED,
}

/// The byte that stands for each operation code on the wire.
pub open spec fn op_code_byte(op: OperationCode) -> u8 {
    match op {
        OperationCode::CCREQ_CONNECT => 0x01,
        OperationCode::CCREQ_AUTHORIZE => 0x02,
        OperationCode::CCREQ_READY => 0x08,
        OperationCode::STT_CONTROL => 0x10,
        OperationCode::STT_ENTITIES => 0x11,
        OperationCode::STT_SNAPSHOT => 0x12,
        OperationCode::STT_COMMAND => 0x13,
        OperationCode::STT_CVARS => 0x18,
        OperationCode::CCREP_ACCEPT => 0x81,
        OperationCode::CCREP_REJECT => 0x82,
        OperationCode::CCREP_AUTHORIZED => 0x83,
    }
}

/// The operation code that a byte stands for, if any.
pub open spec fn op_code_of_byte(b: u8) -> Option<OperationCode> {
    if b == 0x01 {
        Some(OperationCode::CCREQ_CONNECT)
    } else if b == 0x02 {
        Some(OperationCode::CCREQ_AUTHORIZE)
    } else if b == 0x08 {
        Some(OperationCode::CCREQ_READY)
    } else if b == 0x10 {
        Some(OperationCode::STT_CONTROL)
    } else if b == 0x11 {
        Some(OperationCode::STT_ENTITIES)
    } else if b == 0x12 {
        Some(OperationCode::STT_SNAPSHOT)
    } else if b == 0x13 {
        Some(OperationCode::STT_COMMAND)
    } else if b == 0x18 {
        Some(OperationCode::STT_CVARS)
    } else if b == 0x81 {
        Some(OperationCode::CCREP_ACCEPT)
    } else if b == 0x82 {
        Some(OperationCode::CCREP_REJECT)
    } else if b == 0x83 {
        Some(OperationCode::CCREP_AUTHORIZED)
    } else {
        None
    }
}

impl OperationCode {
    /// The byte of this operation code.
    pub fn to_u8(&self) -> (b: u8)
        ensures
            b == op_code_byte(*self),
    {
        match self {
            OperationCode::CCREQ_CONNECT => 0x01,
            OperationCode::CCREQ_AUTHORIZE => 0x02,
            OperationCode::CCREQ_READY => 0x08,
            OperationCode::STT_CONTROL => 0x10,
            OperationCode::STT_ENTITIES => 0x11,
            OperationCode::STT_SNAPSHOT => 0x12,
            OperationCode::STT_COMMAND => 0x13,
            OperationCode::STT_CVARS => 0x18,
            OperationCode::CCREP_ACCEPT => 0x81,
            OperationCode::CCREP_REJECT => 0x82,
            OperationCode::CCREP_AUTHORIZED => 0x83,
        }
    }

    /// The operation code of a byte, or `None` for a byte that stands for none.
    pub fn from_u8(code: u8) -> (op: Option<OperationCode>)
        ensures
            op == op_code_of_byte(code),
    {
        if code == 0x01 {
            Some(OperationCode::CCREQ_CONNECT)
        } else if code == 0x02 {
            Some(OperationCode::CCREQ_AUTHORIZE)
        } else if code == 0x08 {
            Some(OperationCode::CCREQ_READY)
        } else if code == 0x10 {
            Some(OperationCode::STT_CONTROL)
        } else if code == 0x11 {
            Some(OperationCode::STT_ENTITIES)
        } else if code == 0x12 {
            Some(OperationCode::STT_SNAPSHOT)
        } else if code == 0x13 {
            Some(OperationCode::STT_COMMAND)
        } else if code == 0x18 {
            Some(OperationCode::STT_CVARS)
        } else if code == 0x81 {
            Some(OperationCode::CCREP_ACCEPT)
        } else if code == 0x82 {
            Some(OperationCode::CCREP_REJECT)
        } else if code == 0x83 {
            Some(OperationCode::CCREP_AUTHORIZED)
        } else {
            None
        }
    }
}

/// Decoding the byte of an operation code gives it back, and a byte that
/// decodes to an operation code is that code's byte.
pub proof fn lemma_op_code_roundtrip(op: OperationCode, b: u8)
    ensures
        op_code_of_byte(op_code_byte(op)) == Some(op),
        op_code_of_byte(b) == Some(op) ==> op_code_byte(op) == b,
{
}

/// The kind of an entity component on the wire.
#[derive(Debug, Clone, Copy, PartialEq, Eq, Structural)]
pub enum ComponentType {
    Soldier,
    Nick,
    Pos,
}

pub open spec fn component_type_byte(t: ComponentType) -> u8 {
    match t {
        ComponentType::Soldier => 1,
        ComponentType::Nick => 2,
        ComponentType::Pos => 3,
    }
}

impl ComponentType {
    pub fn to_u8(&self) -> (b: u8)
        ensures
            b == component_type_byte(*self),
    {
        match self {
            ComponentType::Soldier => 1,
            ComponentType::Nick => 2,
            ComponentType::Pos => 3,
        }
    }

    pub fn from_u8(b: u8) -> (t: Option<ComponentType>)
        ensures
            t matches Some(t) ==> component_type_byte(t) == b,
            t is None <==> !(1 <= b <= 3),
    {
        if b == 1 {
            Some(ComponentType::Soldier)
        } else if b == 2 {
            Some(ComponentType::Nick)
        } else if b == 3 {
            Some(ComponentType::Pos)
        } else {
            None
        }
    }
}

/// Marks an entity as a soldier; it has no data.
#[derive(Debug, Clone, Copy)]
pub struct Soldier;

/// The nickname of a player.
#[derive(Debug, Clone)]
pub struct Nick(pub String);

/// The position of an entity: the IEEE-754 bit patterns of its `f32`
/// coordinates, as they travel on the wire.
#[derive(Debug, Clone, Copy)]
pub struct Position {
    pub x: u32,
    pub y: u32,
}

/// A component of an entity in a game state message.
#[derive(Debug)]
pub enum ComponentValue {
    Soldier(Soldier),
    Nick(Nick),
    Pos(Position),
}

/// What a component value holds.
pub enum ComponentView {
    Soldier,
    Nick(Seq<char>),
    Pos(u32, u32),
}

impl View for ComponentValue {
    type V = ComponentView;

    open spec fn view(&self) -> ComponentView {
        match self {
            ComponentValue::Soldier(_) => ComponentView::Soldier,
            ComponentValue::Nick(n) => ComponentView::Nick(n.0@),
            ComponentValue::Pos(p) => ComponentView::Pos(p.x, p.y),
        }
    }
}

/// The state of a player's controls: one bit per key.
#[derive(Debug, Clone, Copy, PartialEq, Eq, Structural)]
pub struct Control {
    bits: u16,
}

impl Control {
    pub closed spec fn spec_bits(&self) -> u16 {
        self.bits
    }

    /// Only the bits that name controls are ever set.
    #[verifier::type_invariant]
    closed spec fn known_bits(self) -> bool {
        self.bits < 0x2000
    }

    pub fn empty() -> (c: Control)
        ensures
            c.spec_bits() == 0,
    {
        Control { bits: 0 }
    }

    pub fn left() -> (c: Control)
        ensures
            c.spec_bits() == 0x0001,
    {
        Control { bits: 0x0001 }
    }

    pub fn right() -> (c: Control)
        ensures
            c.spec_bits() == 0x0002,
    {
        Control { bits: 0x0002 }
    }

    pub fn up() -> (c: Control)
        ensures
            c.spec_bits() == 0x0004,
    {
        Control { bits: 0x0004 }
    }

    pub fn down() -> (c: Control)
        ensures
            c.spec_bits() == 0x0008,
    {
        Control { bits: 0x0008 }
    }

    pub fn fire() -> (c: Control)
        ensures
            c.spec_bits() == 0x0010,
    {
        Control { bits: 0x0010 }
    }

    pub fn jets() -> (c: Control)
        ensures
            c.spec_bits() == 0x0020,
    {
        Control { bits: 0x0020 }
    }

    pub fn grenade() -> (c: Control)
        ensures
            c.spec_bits() == 0x0040,
    {
        Control { bits: 0x0040 }
    }

    pub fn change() -> (c: Control)
        ensures
            c.spec_bits() == 0x0080,
    {
        Control { bits: 0x0080 }
    }

    pub fn throw() -> (c: Control)
        ensures
            c.spec_bits() == 0x0100,
    {
        Control { bits: 0x0100 }
    }

    pub fn drop() -> (c: Control)
        ensures
            c.spec_bits() == 0x0200,
    {
        Control { bits: 0x0200 }
    }

    pub fn reload() -> (c: Control)
        ensures
            c.spec_bits() == 0x0400,
    {
        Control { bits: 0x0400 }
    }

    pub fn prone() -> (c: Control)
        ensures
            c.spec_bits() == 0x0800,
    {
        Control { bits: 0x0800 }
    }

    pub fn flag_throw() -> (c: Control)
        ensures
            c.spec_bits() == 0x1000,
    {
        Control { bits: 0x1000 }
    }

    /// The raw bits.
    pub fn bits(&self) -> (b: u16)
        ensures
            b == self.spec_bits(),
    {
        self.bits
    }

    /// The controls whose bits are `bits`, or `None` when `bits` holds a bit
    /// that names no control.
    pub fn from_bits(bits: u16) -> (c: Option<Control>)
        ensures
            c is Some <==> bits < 0x2000,
            c matches Some(c) ==> c.spec_bits() == bits,
    {
        if bits < 0x2000 {
            Some(Control { bits })
        } else {
            None
        }
    }

    /// The union of two sets of controls.
    pub fn union(&self, other: Control) -> (c: Control)
        ensures
            c.spec_bits() == self.spec_bits() | other.spec_bits(),
    {
        proof {
            use_type_invariant(self);
            use_type_invariant(&other);
        }
        let a = self.bits;
        let o = other.bits;
        let b = a | o;
        assert((a < 0x2000u16 && o < 0x2000u16) ==> (a | o) < 0x2000u16) by (bit_vector);
        Control { bits: b }
    }

    /// Whether every control of `other` is set in `self`.
    pub fn contains(&self, other: Control) -> (b: bool)
        ensures
            b == (self.spec_bits() & other.spec_bits() == other.spec_bits()),
    {
        self.bits & other.bits == other.bits
    }
}

/// The union of two sets of controls contains each of them, and a set
/// contains itself.
pub proof fn lemma_union_contains(a: Control, b: Control)
    ensures
        (a.spec_bits() | b.spec_bits()) & a.spec_bits() == a.spec_bits(),
        (a.spec_bits() | b.spec_bits()) & b.spec_bits() == b.spec_bits(),
        a.spec_bits() & a.spec_bits() == a.spec_bits(),
{
    let x = a.spec_bits();
    let y = b.spec_bits();
    assert((x | y) & x == x && (x | y) & y == y && x & x == x) by (bit_vector);
}

/// A console command sent to the server.
#[derive(Debug, Clone)]
pub enum NetCommand {
    Command(String),
}

/// A snapshot of the simulation; it carries no data yet.
#[derive(Debug, Clone, Copy)]
pub struct NetSnapshot {}

/// A message of the game protocol.
#[derive(Debug)]
pub enum NetworkMessage {
    ConnectionAuthorize { nick: String, key: String },
    Cvars(Vec<(String, String)>),
    /// Controls for the ticks from `begin_tick` on, each with the aim
    /// direction quantized to two bytes.
    ControlState { ack_tick: usize, begin_tick: usize, control: Vec<(Control, (u8, u8))> },
    /// The entities (by their 64-bit ids) and their components at a tick.
    GameState { tick: usize, entities: Vec<(u64, Vec<ComponentValue>)> },
    Snapshot { timestamp: i16, snapshot: NetSnapshot },
    Command { timestamp: i16, command: NetCommand },
}

/// What a message holds.
pub enum MessageView {
    ConnectionAuthorize(Seq<char>, Seq<char>),
    Cvars(Seq<(Seq<char>, Seq<char>)>),
    ControlState(usize, usize, Seq<(u16, u8, u8)>),
    GameState(usize, Seq<(u64, Seq<ComponentView>)>),
    Snapshot(i16),
    Command(i16, Seq<char>),
}

pub open spec fn cvar_view(c: (String, String)) -> (Seq<char>, Seq<char>) {
    (c.0@, c.1@)
}

pub open spec fn control_view(c: (Control, (u8, u8))) -> (u16, u8, u8) {
    (c.0.spec_bits(), c.1.0, c.1.1)
}

pub open spec fn entity_view(e: (u64, Vec<ComponentValue>)) -> (u64, Seq<ComponentView>) {
    (e.0, e.1@.map_values(|c: ComponentValue| c@))
}

impl View for NetworkMessage {
    type V = MessageView;

    open spec fn view(&self) -> MessageView {
        match self {
            NetworkMessage::ConnectionAuthorize { nick, key } => MessageView::ConnectionAuthorize(
                nick@,
                key@,
            ),
            NetworkMessage::Cvars(c) => MessageView::Cvars(c@.map_values(|x| cvar_view(x))),
            NetworkMessage::ControlState { ack_tick, begin_tick, control } => MessageView::ControlState(
                *ack_tick,
                *begin_tick,
                control@.map_values(|x| control_view(x)),
            ),
            NetworkMessage::GameState { tick, entities } => MessageView::GameState(
                *tick,
                entities@.map_values(|e| entity_view(e)),
            ),
            NetworkMessage::Snapshot { timestamp, snapshot: _ } => MessageView::Snapshot(*timestamp),
            NetworkMessage::Command { timestamp, command } => match command {
                NetCommand::Command(c) => MessageView::Command(*timestamp, c@),
            },
        }
    }
}

// ---------------------------------------------------------------------------
// The wire format
// ---------------------------------------------------------------------------
/// A `usize` on the wire: 8 bytes, little-endian.
pub open spec fn enc_usize(v: usize) -> Seq<u8> {
    spec_u64_to_le_bytes(v as u64)
}

/// A string on the wire: its UTF-8 length as a `usize`, then its UTF-8 bytes.
pub open spec fn enc_string(s: Seq<char>) -> Seq<u8> {
    spec_u64_to_le_bytes(encode_utf8(s).len() as u64) + encode_utf8(s)
}

pub open spec fn enc_component(c: ComponentView) -> Seq<u8> {
    match c {
        ComponentView::Soldier => seq![1u8],
        ComponentView::Nick(s) => seq![2u8] + enc_string(s),
        ComponentView::Pos(x, y) => seq![3u8] + spec_u32_to_le_bytes(x) + spec_u32_to_le_bytes(y),
    }
}

pub open spec fn enc_components(cs: Seq<ComponentView>) -> Seq<u8>
    decreases cs.len(),
{
    if cs.len() == 0 {
        seq![]
    } else {
        enc_components(cs.drop_last()) + enc_component(cs.last())
    }
}

/// An entity on the wire: its id (8 bytes, big-endian), the number of its
/// components (one byte, truncated), and its components.
pub open spec fn enc_entity(e: (u64, Seq<ComponentView>)) -> Seq<u8> {
    spec_u64_to_le_bytes(e.0).reverse() + seq![(e.1.len() % 256) as u8] + enc_components(e.1)
}

pub open spec fn enc_entities(es: Seq<(u64, Seq<ComponentView>)>) -> Seq<u8>
    decreases es.len(),
{
    if es.len() == 0 {
        seq![]
    } else {
        enc_entities(es.drop_last()) + enc_entity(es.last())
    }
}

pub open spec fn enc_cvars(cs: Seq<(Seq<char>, Seq<char>)>) -> Seq<u8>
    decreases cs.len(),
{
    if cs.len() == 0 {
        seq![]
    } else {
        enc_cvars(cs.drop_last()) + enc_string(cs.last().0) + enc_string(cs.last().1)
    }
}

pub open spec fn enc_controls(cs: Seq<(u16, u8, u8)>) -> Seq<u8>
    decreases cs.len(),
{
    if cs.len() == 0 {
        seq![]
    } else {
        enc_controls(cs.drop_last()) + spec_u16_to_le_bytes(cs.last().0) + seq![
            cs.last().1,
            cs.last().2,
        ]
    }
}

/// The bytes of a message: its operation code, then its fields.
pub open spec fn spec_encode(m: MessageView) -> Seq<u8> {
    match m {
        MessageView::ConnectionAuthorize(nick, key) => seq![0x02u8] + enc_string(nick) + enc_string(
            key,
        ),
        MessageView::Cvars(cs) => seq![0x18u8] + spec_u64_to_le_bytes(cs.len() as u64) + enc_cvars(
            cs,
        ),
        MessageView::ControlState(ack, begin, cs) => seq![0x10u8] + enc_usize(ack) + enc_usize(begin)
            + spec_u64_to_le_bytes(cs.len() as u64) + enc_controls(cs),
        MessageView::GameState(tick, es) => seq![0x11u8] + enc_usize(tick) + seq![
            (es.len() % 256) as u8,
        ] + enc_entities(es),
        MessageView::Snapshot(ts) => seq![0x12u8] + spec_u16_to_le_bytes(#[verifier::truncate] (ts as u16)),
        MessageView::Command(ts, c) => seq![0x13u8] + spec_u16_to_le_bytes(#[verifier::truncate] (ts as u16))
            + spec_u16_to_le_bytes(0u16) + enc_string(c),
    }
}

// ---------------------------------------------------------------------------
// Bytes
// ---------------------------------------------------------------------------
#[verifier::external_type_specification]
#[verifier::external_body]
pub struct ExBytes(bytes::Bytes);

/// The bytes that a `Bytes` buffer holds.
pub uninterp spec fn bytes_contents(b: bytes::Bytes) -> Seq<u8>;

/// `Bytes::from(Vec<u8>)`: a buffer that holds the bytes of the vector.
#[verifier::external_body]
fn bytes_from_vec(v: Vec<u8>) -> (b: bytes::Bytes)
    ensures
        bytes_contents(b) == v@,
{
    bytes::Bytes::from(v)
}

// ---------------------------------------------------------------------------
// Encoding
// ---------------------------------------------------------------------------
fn put_u64(out: &mut Vec<u8>, v: u64)
    ensures
        final(out)@ == old(out)@ + spec_u64_to_le_bytes(v),
{
    let mut b = u64_to_le_bytes(v);
    out.append(&mut b);
}

fn put_u32(out: &mut Vec<u8>, v: u32)
    ensures
        final(out)@ == old(out)@ + spec_u32_to_le_bytes(v),
{
    let mut b = u32_to_le_bytes(v);
    out.append(&mut b);
}

fn put_u16(out: &mut Vec<u8>, v: u16)
    ensures
        final(out)@ == old(out)@ + spec_u16_to_le_bytes(v),
{
    let mut b = u16_to_le_bytes(v);
    out.append(&mut b);
}

fn put_string(out: &mut Vec<u8>, s: &String)
    ensures
        final(out)@ == old(out)@ + enc_string(s@),
{
    let st = s.as_str();
    let bytes = st.as_bytes();
    put_u64(out, bytes.len() as u64);
    let mut v = slice_to_vec(bytes);
    out.append(&mut v);
}

fn put_component(out: &mut Vec<u8>, c: &ComponentValue)
    ensures
        final(out)@ == old(out)@ + enc_component(c@),
{
    match c {
        ComponentValue::Soldier(_) => {
            out.push(1u8);
            assert(out@ =~= old(out)@ + seq![1u8]);
        },
        ComponentValue::Nick(n) => {
            out.push(2u8);
            put_string(out, &n.0);
            assert(out@ =~= old(out)@ + (seq![2u8] + enc_string(n.0@)));
        },
        ComponentValue::Pos(p) => {
            out.push(3u8);
            put_u32(out, p.x);
            put_u32(out, p.y);
            assert(out@ =~= old(out)@ + (seq![3u8] + spec_u32_to_le_bytes(p.x) + spec_u32_to_le_bytes(
                p.y,
            )));
        },
    }
}

fn put_entity(out: &mut Vec<u8>, e: &(u64, Vec<ComponentValue>))
    ensures
        final(out)@ == old(out)@ + enc_entity(entity_view(*e)),
{
    let le = u64_to_le_bytes(e.0);
    proof {
        lemma_auto_spec_u64_to_from_le_bytes();
    }
    let mut k: usize = 8;
    let ghost start = out@;
    while k > 0
        invariant
            k <= 8,
            le@ == spec_u64_to_le_bytes(e.0),
            le@.len() == 8,
            out@ == start + le@.reverse().subrange(0, 8 - k as int),
        decreases k,
    {
        k -= 1;
        let ghost before = out@;
        out.push(le[k]);
        assert(le@.reverse().subrange(0, 8 - k as int) =~= le@.reverse().subrange(0, 8 - (k + 1) as int).push(
            le@[k as int],
        ));
    }
    assert(le@.reverse().subrange(0, 8) =~= le@.reverse());
    let n = e.1.len();
    out.push((n % 256) as u8);
    let ghost mid = out@;
    let mut i: usize = 0;
    let ghost cs = e.1@.map_values(|c: ComponentValue| c@);
    while i < n
        invariant
            n == e.1@.len(),
            i <= n,
            cs == e.1@.map_values(|c: ComponentValue| c@),
            out@ == mid + enc_components(cs.subrange(0, i as int)),
        decreases n - i,
    {
        put_component(out, &e.1[i]);
        assert(cs.subrange(0, i + 1).drop_last() =~= cs.subrange(0, i as int));
        assert(cs.subrange(0, i + 1).last() == e.1@[i as int]@);
        i += 1;
    }
    assert(cs.subrange(0, n as int) =~= cs);
    assert(out@ =~= start + enc_entity(entity_view(*e)));
}

/// The bytes of a message.
fn encode_to_vec(msg: &NetworkMessage) -> (out: Vec<u8>)
    ensures
        out@ == spec_encode(msg@),
{
    let mut out: Vec<u8> = Vec::new();
    match msg {
        NetworkMessage::ConnectionAuthorize { nick, key } => {
            out.push(0x02u8);
            put_string(&mut out, nick);
            put_string(&mut out, key);
            assert(out@ =~= spec_encode(msg@));
        },
        NetworkMessage::Cvars(cvars) => {
            out.push(0x18u8);
            let n = cvars.len();
            put_u64(&mut out, n as u64);
            let ghost mid = out@;
            let ghost cs = cvars@.map_values(|x| cvar_view(x));
            let mut i: usize = 0;
            while i < n
                invariant
                    n == cvars@.len(),
                    i <= n,
                    cs == cvars@.map_values(|x| cvar_view(x)),
                    out@ == mid + enc_cvars(cs.subrange(0, i as int)),
                decreases n - i,
            {
                put_string(&mut out, &cvars[i].0);
                put_string(&mut out, &cvars[i].1);
                assert(cs.subrange(0, i + 1).drop_last() =~= cs.subrange(0, i as int));
                i += 1;
            }
            assert(cs.subrange(0, n as int) =~= cs);
            assert(out@ =~= spec_encode(msg@));
        },
        NetworkMessage::ControlState { ack_tick, begin_tick, control } => {
            out.push(0x10u8);
            put_u64(&mut out, *ack_tick as u64);
            put_u64(&mut out, *begin_tick as u64);
            let n = control.len();
            put_u64(&mut out, n as u64);
            let ghost mid = out@;
            let ghost cs = control@.map_values(|x| control_view(x));
            let mut i: usize = 0;
            while i < n
                invariant
                    n == control@.len(),
                    i <= n,
                    cs == control@.map_values(|x| control_view(x)),
                    out@ == mid + enc_controls(cs.subrange(0, i as int)),
                decreases n - i,
            {
                let (c, (x, y)) = control[i];
                put_u16(&mut out, c.bits());
                out.push(x);
                out.push(y);
                assert(cs.subrange(0, i + 1).drop_last() =~= cs.subrange(0, i as int));
                assert(out@ =~= mid + enc_controls(cs.subrange(0, i + 1)));
                i += 1;
            }
            assert(cs.subrange(0, n as int) =~= cs);
            assert(out@ =~= spec_encode(msg@));
        },
        NetworkMessage::GameState { tick, entities } => {
            out.push(0x11u8);
            put_u64(&mut out, *tick as u64);
            let n = entities.len();
            out.push((n % 256) as u8);
            let ghost mid = out@;
            let ghost es = entities@.map_values(|e| entity_view(e));
            let mut i: usize = 0;
            while i < n
                invariant
                    n == entities@.len(),
                    i <= n,
                    es == entities@.map_values(|e| entity_view(e)),
                    out@ == mid + enc_entities(es.subrange(0, i as int)),
                decreases n - i,
            {
                put_entity(&mut out, &entities[i]);
                assert(es.subrange(0, i + 1).drop_last() =~= es.subrange(0, i as int));
                i += 1;
            }
            assert(es.subrange(0, n as int) =~= es);
            assert(out@ =~= spec_encode(msg@));
        },
        NetworkMessage::Snapshot { timestamp, snapshot: _ } => {
            out.push(0x12u8);
            put_u16(&mut out, *timestamp as u16);
            assert(out@ =~= spec_encode(msg@));
        },
        NetworkMessage::Command { timestamp, command } => {
            out.push(0x13u8);
            put_u16(&mut out, *timestamp as u16);
            match command {
                NetCommand::Command(c) => {
                    put_u16(&mut out, 0u16);
                    put_string(&mut out, c);
                },
            }
            assert(out@ =~= spec_encode(msg@));
        },
    }
    out
}

pub open spec fn entities_view(v: Seq<(u64, Vec<ComponentValue>)>) -> Seq<(u64, Seq<ComponentView>)> {
    v.map_values(|e: (u64, Vec<ComponentValue>)| entity_view(e))
}

/// Keeps, of entities sharing an id, the last one, in order.
fn keep_last_of_each(entities: Vec<(u64, Vec<ComponentValue>)>) -> (r: Vec<(u64, Vec<ComponentValue>)>)
    ensures
        entities_view(r@) == last_of_each(entities_view(entities@), Set::empty()),
{
    let ghost all = entities_view(entities@);
    let mut rest = entities;
    let mut seen: Vec<u64> = Vec::new();
    let mut rev: Vec<(u64, Vec<ComponentValue>)> = Vec::new();
    proof {
        assert(seen@.to_set() =~= Set::<u64>::empty());
        assert(entities_view(rev@).reverse() =~= Seq::<(u64, Seq<ComponentView>)>::empty());
        assert(all.subrange(0, rest@.len() as int) =~= all);
        assert(last_of_each(entities_view(rest@), seen@.to_set()) + entities_view(rev@).reverse()
            =~= last_of_each(all, Set::empty()));
    }
    while rest.len() > 0
        invariant
            all.len() >= rest@.len(),
            entities_view(rest@) == all.subrange(0, rest@.len() as int),
            last_of_each(all, Set::empty()) == last_of_each(entities_view(rest@), seen@.to_set()) + entities_view(
                rev@,
            ).reverse(),
        decreases rest.len(),
    {
        let ghost rv = entities_view(rest@);
        let ghost seen0 = seen@;
        let ghost sv = seen@.to_set();
        let ghost before = entities_view(rev@);
        let e = rest.pop().unwrap();
        let id: u64 = e.0;
        let mut found: bool = false;
        let mut k: usize = 0;
        while k < seen.len()
            invariant
                k <= seen@.len(),
                found <==> exists|j: int| 0 <= j < k && seen@[j] == id,
            decreases seen@.len() - k,
        {
            if seen[k] == id {
                found = true;
            }
            k = k + 1;
        }
        proof {
            if found {
                let j = choose|j: int| 0 <= j < seen@.len() && seen@[j] == id;
                assert(seen@.contains(id));
            } else {
                assert(!seen@.contains(id));
            }
            assert(found == sv.contains(id));
            assert(rv.drop_last() =~= entities_view(rest@));
            assert(rv.last() == entity_view(e));
            assert(entities_view(rest@) =~= all.subrange(0, rest@.len() as int));
        }
        if !found {
            seen.push(id);
            rev.push(e);
            proof {
                let old_seen = seen@.drop_last();
                assert(old_seen =~= seen0);
                assert(old_seen.to_set() == sv);
                assert forall|x: u64| seen@.to_set().contains(x) <==> sv.insert(id).contains(x) by {
                    if seen@.contains(x) {
                        let j = choose|j: int| 0 <= j < seen@.len() && seen@[j] == x;
                        if j < old_seen.len() {
                            assert(old_seen[j] == x);
                            assert(old_seen.contains(x));
                        }
                    }
                    if old_seen.contains(x) {
                        let j = choose|j: int| 0 <= j < old_seen.len() && old_seen[j] == x;
                        assert(seen@[j] == x);
                    }
                    if x == id {
                        assert(seen@[seen@.len() - 1] == id);
                    }
                }
                assert(seen@.to_set() =~= sv.insert(id));
                assert(entities_view(rev@) =~= before.push(entity_view(e)));
                assert(entities_view(rev@).reverse() =~= seq![entity_view(e)] + before.reverse());
                assert(last_of_each(rv, sv) == last_of_each(rv.drop_last(), sv.insert(id)).push(entity_view(e)));
                assert(last_of_each(rv.drop_last(), sv.insert(id)).push(entity_view(e)) + before.reverse()
                    =~= last_of_each(rv.drop_last(), sv.insert(id)) + entities_view(rev@).reverse());
            }
        }
    }
    proof {
        assert(entities_view(rest@) =~= Seq::<(u64, Seq<ComponentView>)>::empty());
    }
    let ghost mid = entities_view(rev@);
    let mut out: Vec<(u64, Vec<ComponentValue>)> = Vec::new();
    while rev.len() > 0
        invariant
            entities_view(out@) + entities_view(rev@).reverse() == mid.reverse(),
        decreases rev.len(),
    {
        let ghost rv = entities_view(rev@);
        let ghost ov = entities_view(out@);
        let e = rev.pop().unwrap();
        out.push(e);
        proof {
            assert(rv.drop_last() =~= entities_view(rev@));
            assert(rv.last() == entity_view(e));
            assert(rv.reverse() =~= seq![entity_view(e)] + entities_view(rev@).reverse());
            assert(entities_view(out@) =~= ov.push(entity_view(e)));
            assert(entities_view(out@) + entities_view(rev@).reverse() =~= ov + rv.reverse());
        }
    }
    proof {
        assert(entities_view(out@) =~= mid.reverse());
    }
    out
}

/// A string held in memory is one the wire can carry.
fn string_fits(s: &String)
    ensures
        string_wf(s@),
{
    let b: &[u8] = s.as_str().as_bytes();
    let n: usize = b.len();
    assert(b@ == encode_utf8(s@));
}

/// Every message but a game state, as held in memory, is one the wire can
/// carry.
fn message_fits(msg: &NetworkMessage)
    ensures
        !(msg@ is GameState) ==> message_wf(msg@),
{
    match msg {
        NetworkMessage::ConnectionAuthorize { nick, key } => {
            string_fits(nick);
            string_fits(key);
        },
        NetworkMessage::Cvars(cvars) => {
            let mut i: usize = 0;
            while i < cvars.len()
                invariant
                    i <= cvars@.len(),
                    forall|j: int|
                        0 <= j < i ==> string_wf((#[trigger] cvars@[j]).0@) && string_wf(cvars@[j].1@),
                decreases cvars@.len() - i,
            {
                string_fits(&cvars[i].0);
                string_fits(&cvars[i].1);
                i = i + 1;
            }
            let ghost cs = cvars@.map_values(|c: (String, String)| cvar_view(c));
            assert forall|j: int| 0 <= j < cs.len() implies string_wf((#[trigger] cs[j]).0) && string_wf(
                cs[j].1,
            ) by {
                assert(string_wf(cvars@[j].0@) && string_wf(cvars@[j].1@));
            }
        },
        NetworkMessage::ControlState { control, .. } => {
            let mut i: usize = 0;
            while i < control.len()
                invariant
                    i <= control@.len(),
                    forall|j: int| 0 <= j < i ==> (#[trigger] control@[j]).0.spec_bits() < 0x2000,
                decreases control@.len() - i,
            {
                let c: Control = control[i].0;
                proof {
                    use_type_invariant(&c);
                }
                i = i + 1;
            }
            let ghost cs = control@.map_values(|c: (Control, (u8, u8))| control_view(c));
            assert forall|j: int| 0 <= j < cs.len() implies (#[trigger] cs[j]).0 < 0x2000 by {
                assert(control@[j].0.spec_bits() < 0x2000);
            }
        },
        NetworkMessage::GameState { .. } => {},
        NetworkMessage::Snapshot { .. } => {},
        NetworkMessage::Command { command, .. } => {
            match command {
                NetCommand::Command(c) => {
                    string_fits(c);
                },
            }
        },
    }
}

/// Encodes a message for the wire: its operation code, then its fields in
/// the binary layout of the protocol. Decoding the bytes gives the message
/// back, for every message but a game state, and for a game state that the
/// wire can carry.
pub fn encode_message(msg: NetworkMessage) -> (b: bytes::Bytes)
    ensures
        bytes_contents(b) == spec_encode(msg@),
        !(msg@ is GameState) || message_wf(msg@) ==> spec_decode(bytes_contents(b)) == Some(msg@),
{
    message_fits(&msg);
    proof {
        if message_wf(msg@) {
            lemma_decode_encode(msg@, Seq::empty());
            assert(spec_encode(msg@) + Seq::<u8>::empty() =~= spec_encode(msg@));
        }
    }
    bytes_from_vec(encode_to_vec(&msg))
}

// ---------------------------------------------------------------------------
// Decoding: the grammar
// ---------------------------------------------------------------------------
/// A parse of a `T` that starts at offset `o`: the value and the offset after it.
pub open spec fn p_u8(d: Seq<u8>, o: int) -> Option<(u8, int)> {
    if 0 <= o < d.len() {
        Some((d[o], o + 1))
    } else {
        None
    }
}

pub open spec fn p_u16(d: Seq<u8>, o: int) -> Option<(u16, int)> {
    if 0 <= o && o + 2 <= d.len() {
        Some((spec_u16_from_le_bytes(d.subrange(o, o + 2)), o + 2))
    } else {
        None
    }
}

pub open spec fn p_u32(d: Seq<u8>, o: int) -> Option<(u32, int)> {
    if 0 <= o && o + 4 <= d.len() {
        Some((spec_u32_from_le_bytes(d.subrange(o, o + 4)), o + 4))
    } else {
        None
    }
}

pub open spec fn p_u64(d: Seq<u8>, o: int) -> Option<(u64, int)> {
    if 0 <= o && o + 8 <= d.len() {
        Some((spec_u64_from_le_bytes(d.subrange(o, o + 8)), o + 8))
    } else {
        None
    }
}

pub open spec fn p_usize(d: Seq<u8>, o: int) -> Option<(usize, int)> {
    match p_u64(d, o) {
        Some((v, o1)) => Some((v as usize, o1)),
        None => None,
    }
}

/// A string: a `usize` length, then that many bytes of valid UTF-8.
pub open spec fn p_string(d: Seq<u8>, o: int) -> Option<(Seq<char>, int)> {
    match p_usize(d, o) {
        Some((n, o1)) => if o1 + n <= d.len() && valid_utf8(d.subrange(o1, o1 + n)) {
            Some((decode_utf8(d.subrange(o1, o1 + n)), o1 + n))
        } else {
            None
        },
        None => None,
    }
}

pub open spec fn p_component(d: Seq<u8>, o: int) -> Option<(ComponentView, int)> {
    match p_u8(d, o) {
        Some((t, o1)) => if t == 1 {
            Some((ComponentView::Soldier, o1))
        } else if t == 2 {
            match p_string(d, o1) {
                Some((s, o2)) => Some((ComponentView::Nick(s), o2)),
                None => None,
            }
        } else if t == 3 {
            match p_u32(d, o1) {
                Some((x, o2)) => match p_u32(d, o2) {
                    Some((y, o3)) => Some((ComponentView::Pos(x, y), o3)),
                    None => None,
                },
                None => None,
            }
        } else {
            None
        },
        None => None,
    }
}

/// `n` components in a row.
pub open spec fn p_components(d: Seq<u8>, o: int, n: nat) -> Option<(Seq<ComponentView>, int)>
    decreases n,
{
    if n == 0 {
        Some((seq![], o))
    } else {
        match p_components(d, o, (n - 1) as nat) {
            Some((cs, o1)) => match p_component(d, o1) {
                Some((c, o2)) => Some((cs.push(c), o2)),
                None => None,
            },
            None => None,
        }
    }
}

/// An entity id names an entity when its upper half (the generation) is not 0.
pub open spec fn entity_id_valid(id: u64) -> bool {
    id >= 0x1_0000_0000
}

/// An entity: an id (8 bytes, big-endian) followed by at least one more
/// byte, the number of components, and the components.
pub open spec fn p_entity(d: Seq<u8>, o: int) -> Option<((u64, Seq<ComponentView>), int)> {
    if 0 <= o && o + 8 < d.len() {
        let id = spec_u64_from_le_bytes(d.subrange(o, o + 8).reverse());
        if entity_id_valid(id) {
            match p_components(d, o + 9, d[o + 8] as nat) {
                Some((cs, o2)) => Some(((id, cs), o2)),
                None => None,
            }
        } else {
            None
        }
    } else {
        None
    }
}

pub open spec fn p_entities(d: Seq<u8>, o: int, n: nat) -> Option<
    (Seq<(u64, Seq<ComponentView>)>, int),
>
    decreases n,
{
    if n == 0 {
        Some((seq![], o))
    } else {
        match p_entities(d, o, (n - 1) as nat) {
            Some((es, o1)) => match p_entity(d, o1) {
                Some((e, o2)) => Some((es.push(e), o2)),
                None => None,
            },
            None => None,
        }
    }
}

pub open spec fn p_cvars(d: Seq<u8>, o: int, n: nat) -> Option<(Seq<(Seq<char>, Seq<char>)>, int)>
    decreases n,
{
    if n == 0 {
        Some((seq![], o))
    } else {
        match p_cvars(d, o, (n - 1) as nat) {
            Some((cs, o1)) => match p_string(d, o1) {
                Some((a, o2)) => match p_string(d, o2) {
                    Some((b, o3)) => Some((cs.push((a, b)), o3)),
                    None => None,
                },
                None => None,
            },
            None => None,
        }
    }
}

/// A control entry: the control bits (which must name controls only) and
/// the two bytes of the aim direction.
pub open spec fn p_control(d: Seq<u8>, o: int) -> Option<((u16, u8, u8), int)> {
    match p_u16(d, o) {
        Some((bits, o1)) => if bits < 0x2000 {
            match p_u8(d, o1) {
                Some((x, o2)) => match p_u8(d, o2) {
                    Some((y, o3)) => Some(((bits, x, y), o3)),
                    None => None,
                },
                None => None,
            }
        } else {
            None
        },
        None => None,
    }
}

pub open spec fn p_controls(d: Seq<u8>, o: int, n: nat) -> Option<(Seq<(u16, u8, u8)>, int)>
    decreases n,
{
    if n == 0 {
        Some((seq![], o))
    } else {
        match p_controls(d, o, (n - 1) as nat) {
            Some((cs, o1)) => match p_control(d, o1) {
                Some((c, o2)) => Some((cs.push(c), o2)),
                None => None,
            },
            None => None,
        }
    }
}

/// The entities of `es` whose id is not in `seen` and does not come again
/// later: of entities sharing an id, the last one stands.
pub open spec fn last_of_each(es: Seq<(u64, Seq<ComponentView>)>, seen: Set<u64>) -> Seq<
    (u64, Seq<ComponentView>),
>
    decreases es.len(),
{
    if es.len() == 0 {
        Seq::empty()
    } else {
        let e = es.last();
        if seen.contains(e.0) {
            last_of_each(es.drop_last(), seen)
        } else {
            last_of_each(es.drop_last(), seen.insert(e.0)).push(e)
        }
    }
}

/// No two entities share an id.
pub open spec fn ids_distinct(es: Seq<(u64, Seq<ComponentView>)>) -> bool {
    forall|i: int, j: int| 0 <= i < es.len() && 0 <= j < es.len() && i != j ==> (#[trigger] es[i]).0 != (#[trigger] es[j]).0
}

proof fn lemma_last_of_each_distinct(es: Seq<(u64, Seq<ComponentView>)>, seen: Set<u64>)
    requires
        ids_distinct(es),
        forall|i: int| 0 <= i < es.len() ==> !seen.contains((#[trigger] es[i]).0),
    ensures
        last_of_each(es, seen) == es,
    decreases es.len(),
{
    if es.len() > 0 {
        let e = es.last();
        let p = es.drop_last();
        assert forall|i: int| 0 <= i < p.len() implies !seen.insert(e.0).contains((#[trigger] p[i]).0) by {
            assert(p[i] == es[i]);
            assert(es[i].0 != es[es.len() - 1].0);
        }
        assert forall|i: int, j: int| 0 <= i < p.len() && 0 <= j < p.len() && i != j implies (#[trigger] p[i]).0
            != (#[trigger] p[j]).0 by {
            assert(p[i] == es[i] && p[j] == es[j]);
        }
        lemma_last_of_each_distinct(p, seen.insert(e.0));
        assert(p.push(e) =~= es);
    }
}

/// A game state: the tick, then (if at least one more byte follows) the
/// number of entities and the entities; of entities sharing an id, the last
/// one stands.
pub open spec fn p_game_state(d: Seq<u8>) -> Option<MessageView> {
    match p_usize(d, 1) {
        Some((tick, o1)) => if o1 < d.len() {
            match p_entities(d, o1 + 1, d[o1] as nat) {
                Some((es, _)) => Some(MessageView::GameState(tick, last_of_each(es, Set::empty()))),
                None => None,
            }
        } else {
            None
        },
        None => None,
    }
}

/// The opcodes of the connection handshake, which the message decoder is
/// not meant to see.
pub open spec fn is_handshake_op_code(b: u8) -> bool {
    b == 0x01 || b == 0x81 || b == 0x82 || b == 0x83 || b == 0x08
}

/// The message at the start of a packet, if the packet starts with one.
/// Bytes after the message are ignored.
pub open spec fn spec_decode(d: Seq<u8>) -> Option<MessageView> {
    if d.len() == 0 {
        None
    } else if d[0] == 0x02 {
        match p_string(d, 1) {
            Some((nick, o1)) => match p_string(d, o1) {
                Some((key, _)) => Some(MessageView::ConnectionAuthorize(nick, key)),
                None => None,
            },
            None => None,
        }
    } else if d[0] == 0x18 {
        match p_usize(d, 1) {
            Some((n, o1)) => match p_cvars(d, o1, n as nat) {
                Some((cs, _)) => Some(MessageView::Cvars(cs)),
                None => None,
            },
            None => None,
        }
    } else if d[0] == 0x10 {
        match p_usize(d, 1) {
            Some((ack, o1)) => match p_usize(d, o1) {
                Some((begin, o2)) => match p_usize(d, o2) {
                    Some((n, o3)) => match p_controls(d, o3, n as nat) {
                        Some((cs, _)) => Some(MessageView::ControlState(ack, begin, cs)),
                        None => None,
                    },
                    None => None,
                },
                None => None,
            },
            None => None,
        }
    } else if d[0] == 0x11 {
        p_game_state(d)
    } else if d[0] == 0x12 {
        match p_u16(d, 1) {
            Some((ts, _)) => Some(MessageView::Snapshot(ts as i16)),
            None => None,
        }
    } else if d[0] == 0x13 {
        match p_u16(d, 1) {
            Some((ts, o1)) => match p_u16(d, o1) {
                Some((tag, o2)) => if tag == 0 {
                    match p_string(d, o2) {
                        Some((c, _)) => Some(MessageView::Command(ts as i16, c)),
                        None => None,
                    }
                } else {
                    None
                },
                None => None,
            },
            None => None,
        }
    } else {
        None
    }
}

// ---------------------------------------------------------------------------
// Decoding: the parser
// ---------------------------------------------------------------------------
/// `core::str::from_utf8`: the string slice of the bytes when they are valid
/// UTF-8, as its documentation says.
#[verifier::external_body]
fn str_from_utf8(v: &[u8]) -> (r: Option<&str>)
    ensures
        r is Some <==> valid_utf8(v@),
        r matches Some(s) ==> s.spec_bytes() == v@,
{
    core::str::from_utf8(v).ok()
}

pub open spec fn same_parse<T>(r: Option<(T, usize)>, s: Option<(T, int)>) -> bool {
    match (r, s) {
        (Some((a, o1)), Some((b, o2))) => a == b && o1 == o2,
        (None, None) => true,
        _ => false,
    }
}

fn get_u8(d: &[u8], o: usize) -> (r: Option<(u8, usize)>)
    ensures
        same_parse(r, p_u8(d@, o as int)),
{
    if o < d.len() {
        Some((d[o], o + 1))
    } else {
        None
    }
}

fn get_u16(d: &[u8], o: usize) -> (r: Option<(u16, usize)>)
    ensures
        same_parse(r, p_u16(d@, o as int)),
{
    if o <= d.len() && d.len() - o >= 2 {
        let s = slice_subrange(d, o, o + 2);
        Some((u16_from_le_bytes(s), o + 2))
    } else {
        None
    }
}

fn get_u32(d: &[u8], o: usize) -> (r: Option<(u32, usize)>)
    ensures
        same_parse(r, p_u32(d@, o as int)),
{
    if o <= d.len() && d.len() - o >= 4 {
        let s = slice_subrange(d, o, o + 4);
        Some((u32_from_le_bytes(s), o + 4))
    } else {
        None
    }
}

fn get_u64(d: &[u8], o: usize) -> (r: Option<(u64, usize)>)
    ensures
        same_parse(r, p_u64(d@, o as int)),
{
    if o <= d.len() && d.len() - o >= 8 {
        let s = slice_subrange(d, o, o + 8);
        Some((u64_from_le_bytes(s), o + 8))
    } else {
        None
    }
}

fn get_usize(d: &[u8], o: usize) -> (r: Option<(usize, usize)>)
    ensures
        same_parse(r, p_usize(d@, o as int)),
{
    match get_u64(d, o) {
        Some((v, o1)) => Some((v as usize, o1)),
        None => None,
    }
}

fn get_string(d: &[u8], o: usize) -> (r: Option<(String, usize)>)
    ensures
        r is Some <==> p_string(d@, o as int) is Some,
        r matches Some((s, o2)) ==> p_string(d@, o as int) == Some((s@, o2 as int)),
{
    match get_usize(d, o) {
        Some((n, o1)) => {
            if n <= d.len() - o1 {
                let bytes = slice_subrange(d, o1, o1 + n);
                match str_from_utf8(bytes) {
                    Some(st) => {
                        proof {
                            encode_utf8_decode_utf8(st@);
                        }
                        let s = st.to_owned();
                        Some((s, o1 + n))
                    },
                    None => None,
                }
            } else {
                None
            }
        },
        None => None,
    }
}

fn get_component(d: &[u8], o: usize) -> (r: Option<(ComponentValue, usize)>)
    ensures
        r is Some <==> p_component(d@, o as int) is Some,
        r matches Some((c, o2)) ==> p_component(d@, o as int) == Some((c@, o2 as int)),
{
    match get_u8(d, o) {
        Some((t, o1)) => {
            if t == 1 {
                Some((ComponentValue::Soldier(Soldier), o1))
            } else if t == 2 {
                match get_string(d, o1) {
                    Some((s, o2)) => Some((ComponentValue::Nick(Nick(s)), o2)),
                    None => None,
                }
            } else if t == 3 {
                match get_u32(d, o1) {
                    Some((x, o2)) => match get_u32(d, o2) {
                        Some((y, o3)) => Some((ComponentValue::Pos(Position { x, y }), o3)),
                        None => None,
                    },
                    None => None,
                }
            } else {
                None
            }
        },
        None => None,
    }
}

fn get_components(d: &[u8], o: usize, n: u8) -> (r: Option<(Vec<ComponentValue>, usize)>)
    ensures
        r is Some <==> p_components(d@, o as int, n as nat) is Some,
        r matches Some((cs, o2)) ==> p_components(d@, o as int, n as nat) == Some(
            (cs@.map_values(|c: ComponentValue| c@), o2 as int),
        ),
{
    let mut out: Vec<ComponentValue> = Vec::new();
    let mut off = o;
    let mut i: u8 = 0;
    while i < n
        invariant
            i <= n,
            p_components(d@, o as int, i as nat) == Some(
                (out@.map_values(|c: ComponentValue| c@), off as int),
            ),
        decreases n - i,
    {
        match get_component(d, off) {
            Some((c, o2)) => {
                let ghost before = out@.map_values(|c: ComponentValue| c@);
                out.push(c);
                assert(out@.map_values(|c: ComponentValue| c@) =~= before.push(c@));
                off = o2;
                i += 1;
            },
            None => {
                proof {
                    lemma_p_components_stuck(d@, o as int, (i + 1) as nat, n as nat);
                }
                return None;
            },
        }
    }
    Some((out, off))
}

proof fn lemma_p_components_stuck(d: Seq<u8>, o: int, k: nat, n: nat)
    requires
        k <= n,
        p_components(d, o, k) is None,
    ensures
        p_components(d, o, n) is None,
    decreases n - k,
{
    if k < n {
        lemma_p_components_stuck(d, o, k + 1, n);
    }
}

proof fn lemma_p_entities_stuck(d: Seq<u8>, o: int, k: nat, n: nat)
    requires
        k <= n,
        p_entities(d, o, k) is None,
    ensures
        p_entities(d, o, n) is None,
    decreases n - k,
{
    if k < n {
        lemma_p_entities_stuck(d, o, k + 1, n);
    }
}

proof fn lemma_p_cvars_stuck(d: Seq<u8>, o: int, k: nat, n: nat)
    requires
        k <= n,
        p_cvars(d, o, k) is None,
    ensures
        p_cvars(d, o, n) is None,
    decreases n - k,
{
    if k < n {
        lemma_p_cvars_stuck(d, o, k + 1, n);
    }
}

proof fn lemma_p_controls_stuck(d: Seq<u8>, o: int, k: nat, n: nat)
    requires
        k <= n,
        p_controls(d, o, k) is None,
    ensures
        p_controls(d, o, n) is None,
    decreases n - k,
{
    if k < n {
        lemma_p_controls_stuck(d, o, k + 1, n);
    }
}

fn get_entity(d: &[u8], o: usize) -> (r: Option<((u64, Vec<ComponentValue>), usize)>)
    ensures
        r is Some <==> p_entity(d@, o as int) is Some,
        r matches Some((e, o2)) ==> p_entity(d@, o as int) == Some((entity_view(e), o2 as int)),
{
    if o < d.len() && d.len() - o > 8 {
        let mut be: Vec<u8> = Vec::new();
        let mut k: usize = 0;
        let ghost idb = d@.subrange(o as int, o + 8);
        while k < 8
            invariant
                k <= 8,
                o + 8 < d.len(),
                idb == d@.subrange(o as int, o + 8),
                be@ == idb.reverse().subrange(0, k as int),
            decreases 8 - k,
        {
            be.push(d[o + (7 - k)]);
            assert(be@ =~= idb.reverse().subrange(0, k + 1));
            k += 1;
        }
        assert(be@ =~= idb.reverse());
        let id = u64_from_le_bytes(be.as_slice());
        if id < 0x1_0000_0000 {
            return None;
        }
        let count = d[o + 8];
        match get_components(d, o + 9, count) {
            Some((cs, o2)) => Some(((id, cs), o2)),
            None => None,
        }
    } else {
        None
    }
}

fn get_entities(d: &[u8], o: usize, n: u8) -> (r: Option<(Vec<(u64, Vec<ComponentValue>)>, usize)>)
    ensures
        r is Some <==> p_entities(d@, o as int, n as nat) is Some,
        r matches Some((es, o2)) ==> p_entities(d@, o as int, n as nat) == Some(
            (es@.map_values(|e| entity_view(e)), o2 as int),
        ),
{
    let mut out: Vec<(u64, Vec<ComponentValue>)> = Vec::new();
    let mut off = o;
    let mut i: u8 = 0;
    while i < n
        invariant
            i <= n,
            p_entities(d@, o as int, i as nat) == Some(
                (out@.map_values(|e| entity_view(e)), off as int),
            ),
        decreases n - i,
    {
        match get_entity(d, off) {
            Some((e, o2)) => {
                let ghost before = out@.map_values(|e| entity_view(e));
                let ghost ev = entity_view(e);
                out.push(e);
                assert(out@.map_values(|e| entity_view(e)) =~= before.push(ev));
                off = o2;
                i += 1;
            },
            None => {
                proof {
                    lemma_p_entities_stuck(d@, o as int, (i + 1) as nat, n as nat);
                }
                return None;
            },
        }
    }
    Some((out, off))
}

fn get_cvars(d: &[u8], o: usize, n: usize) -> (r: Option<(Vec<(String, String)>, usize)>)
    ensures
        r is Some <==> p_cvars(d@, o as int, n as nat) is Some,
        r matches Some((cs, o2)) ==> p_cvars(d@, o as int, n as nat) == Some(
            (cs@.map_values(|x| cvar_view(x)), o2 as int),
        ),
{
    let mut out: Vec<(String, String)> = Vec::new();
    let mut off = o;
    let mut i: usize = 0;
    while i < n
        invariant
            i <= n,
            p_cvars(d@, o as int, i as nat) == Some((out@.map_values(|x| cvar_view(x)), off as int)),
        decreases n - i,
    {
        match get_string(d, off) {
            Some((a, o2)) => match get_string(d, o2) {
                Some((b, o3)) => {
                    let ghost before = out@.map_values(|x| cvar_view(x));
                    let ghost cv = (a@, b@);
                    out.push((a, b));
                    assert(out@.map_values(|x| cvar_view(x)) =~= before.push(cv));
                    off = o3;
                    i += 1;
                },
                None => {
                    proof {
                        lemma_p_cvars_stuck(d@, o as int, (i + 1) as nat, n as nat);
                    }
                    return None;
                },
            },
            None => {
                proof {
                    lemma_p_cvars_stuck(d@, o as int, (i + 1) as nat, n as nat);
                }
                return None;
            },
        }
    }
    Some((out, off))
}

fn get_controls(d: &[u8], o: usize, n: usize) -> (r: Option<(Vec<(Control, (u8, u8))>, usize)>)
    ensures
        r is Some <==> p_controls(d@, o as int, n as nat) is Some,
        r matches Some((cs, o2)) ==> p_controls(d@, o as int, n as nat) == Some(
            (cs@.map_values(|x| control_view(x)), o2 as int),
        ),
{
    let mut out: Vec<(Control, (u8, u8))> = Vec::new();
    let mut off = o;
    let mut i: usize = 0;
    while i < n
        invariant
            i <= n,
            p_controls(d@, o as int, i as nat) == Some(
                (out@.map_values(|x| control_view(x)), off as int),
            ),
        decreases n - i,
    {
        let step = match get_u16(d, off) {
            Some((bits, o1)) => match Control::from_bits(bits) {
                Some(c) => match get_u8(d, o1) {
                    Some((x, o2)) => match get_u8(d, o2) {
                        Some((y, o3)) => Some((c, x, y, o3)),
                        None => None,
                    },
                    None => None,
                },
                None => None,
            },
            None => None,
        };
        match step {
            Some((c, x, y, o3)) => {
                let ghost before = out@.map_values(|x| control_view(x));
                out.push((c, (x, y)));
                assert(out@.map_values(|x| control_view(x)) =~= before.push(
                    (c.spec_bits(), x, y),
                ));
                off = o3;
                i += 1;
            },
            None => {
                proof {
                    lemma_p_controls_stuck(d@, o as int, (i + 1) as nat, n as nat);
                }
                return None;
            },
        }
    }
    Some((out, off))
}

/// Decodes the message at the start of a packet (bytes after it are
/// ignored). Returns `None` when the packet does not start with a message of
/// the protocol. The packet must not be empty, nor be one of the connection
/// handshake.
pub fn decode_message(data: &[u8]) -> (res: Option<NetworkMessage>)
    requires
        data@.len() >= 1,
        !is_handshake_op_code(data@[0]),
    ensures
        res is Some <==> spec_decode(data@) is Some,
        res matches Some(m) ==> spec_decode(data@) == Some(m@),
{
    let code = data[0];
    if code == 0x02 {
        match get_string(data, 1) {
            Some((nick, o1)) => match get_string(data, o1) {
                Some((key, _)) => Some(NetworkMessage::ConnectionAuthorize { nick, key }),
                None => None,
            },
            None => None,
        }
    } else if code == 0x18 {
        match get_usize(data, 1) {
            Some((n, o1)) => match get_cvars(data, o1, n) {
                Some((cs, _)) => Some(NetworkMessage::Cvars(cs)),
                None => None,
            },
            None => None,
        }
    } else if code == 0x10 {
        match get_usize(data, 1) {
            Some((ack_tick, o1)) => match get_usize(data, o1) {
                Some((begin_tick, o2)) => match get_usize(data, o2) {
                    Some((n, o3)) => match get_controls(data, o3, n) {
                        Some((control, _)) => Some(
                            NetworkMessage::ControlState { ack_tick, begin_tick, control },
                        ),
                        None => None,
                    },
                    None => None,
                },
                None => None,
            },
            None => None,
        }
    } else if code == 0x11 {
        match get_usize(data, 1) {
            Some((tick, o1)) => {
                if o1 < data.len() {
                    let count = data[o1];
                    match get_entities(data, o1 + 1, count) {
                        Some((entities, _)) => Some(
                            NetworkMessage::GameState { tick, entities: keep_last_of_each(entities) },
                        ),
                        None => None,
                    }
                } else {
                    None
                }
            },
            None => None,
        }
    } else if code == 0x12 {
        match get_u16(data, 1) {
            Some((ts, _)) => Some(
                NetworkMessage::Snapshot { timestamp: ts as i16, snapshot: NetSnapshot {  } },
            ),
            None => None,
        }
    } else if code == 0x13 {
        match get_u16(data, 1) {
            Some((ts, o1)) => match get_u16(data, o1) {
                Some((tag, o2)) => {
                    if tag == 0 {
                        match get_string(data, o2) {
                            Some((c, _)) => Some(
                                NetworkMessage::Command {
                                    timestamp: ts as i16,
                                    command: NetCommand::Command(c),
                                },
                            ),
                            None => None,
                        }
                    } else {
                        None
                    }
                },
                None => None,
            },
            None => None,
        }
    } else {
        None
    }
}

// ---------------------------------------------------------------------------
// What decoding gives back of encoding
// ---------------------------------------------------------------------------
/// A string that the wire can carry: its UTF-8 length fits in a `usize`.
pub open spec fn string_wf(s: Seq<char>) -> bool {
    encode_utf8(s).len() <= usize::MAX
}

pub open spec fn component_wf(c: ComponentView) -> bool {
    match c {
        ComponentView::Nick(s) => string_wf(s),
        _ => true,
    }
}

/// An entity that the wire can carry: a valid id and at most 255 components.
pub open spec fn entity_wf(e: (u64, Seq<ComponentView>)) -> bool {
    &&& entity_id_valid(e.0)
    &&& e.1.len() <= 255
    &&& forall|i: int| 0 <= i < e.1.len() ==> component_wf(#[trigger] e.1[i])
}

/// A message that the wire can carry: counts that fit their fields, valid
/// entity ids and control bits, strings of representable length.
pub open spec fn message_wf(m: MessageView) -> bool {
    match m {
        MessageView::ConnectionAuthorize(n, k) => string_wf(n) && string_wf(k),
        MessageView::Cvars(cs) => cs.len() <= usize::MAX && forall|i: int|
            0 <= i < cs.len() ==> string_wf(#[trigger] cs[i].0) && string_wf(cs[i].1),
        MessageView::ControlState(_, _, cs) => cs.len() <= usize::MAX && forall|i: int|
            0 <= i < cs.len() ==> #[trigger] cs[i].0 < 0x2000,
        MessageView::GameState(_, es) => es.len() <= 255 && ids_distinct(es) && forall|i: int|
            0 <= i < es.len() ==> entity_wf(#[trigger] es[i]),
        MessageView::Snapshot(_) => true,
        MessageView::Command(_, c) => string_wf(c),
    }
}

/// The bytes `e` stand in `d` at offset `o`.
pub open spec fn at(d: Seq<u8>, o: int, e: Seq<u8>) -> bool {
    &&& 0 <= o
    &&& o + e.len() <= d.len()
    &&& d.subrange(o, o + e.len()) == e
}

proof fn lemma_at_split(d: Seq<u8>, o: int, a: Seq<u8>, b: Seq<u8>)
    requires
        at(d, o, a + b),
    ensures
        at(d, o, a),
        at(d, o + a.len(), b),
{
    assert(d.subrange(o, o + a.len()) =~= (a + b).subrange(0, a.len() as int));
    assert((a + b).subrange(0, a.len() as int) =~= a);
    assert(d.subrange(o + a.len(), o + a.len() + b.len()) =~= (a + b).subrange(
        a.len() as int,
        (a.len() + b.len()) as int,
    ));
    assert((a + b).subrange(a.len() as int, (a.len() + b.len()) as int) =~= b);
}

proof fn lemma_p_u16_at(d: Seq<u8>, o: int, v: u16)
    requires
        at(d, o, spec_u16_to_le_bytes(v)),
    ensures
        p_u16(d, o) == Some((v, o + 2)),
{
    lemma_auto_spec_u16_to_from_le_bytes();
}

proof fn lemma_p_u32_at(d: Seq<u8>, o: int, v: u32)
    requires
        at(d, o, spec_u32_to_le_bytes(v)),
    ensures
        p_u32(d, o) == Some((v, o + 4)),
{
    lemma_auto_spec_u32_to_from_le_bytes();
}

proof fn lemma_p_u64_at(d: Seq<u8>, o: int, v: u64)
    requires
        at(d, o, spec_u64_to_le_bytes(v)),
    ensures
        p_u64(d, o) == Some((v, o + 8)),
{
    lemma_auto_spec_u64_to_from_le_bytes();
}

proof fn lemma_p_string_at(d: Seq<u8>, o: int, s: Seq<char>)
    requires
        string_wf(s),
        at(d, o, enc_string(s)),
    ensures
        p_string(d, o) == Some((s, o + enc_string(s).len())),
{
    let b = encode_utf8(s);
    let lb = spec_u64_to_le_bytes(b.len() as u64);
    lemma_auto_spec_u64_to_from_le_bytes();
    lemma_at_split(d, o, lb, b);
    lemma_p_u64_at(d, o, b.len() as u64);
    encode_utf8_valid_utf8(s);
    encode_utf8_decode_utf8(s);
}

proof fn lemma_p_component_at(d: Seq<u8>, o: int, c: ComponentView)
    requires
        component_wf(c),
        at(d, o, enc_component(c)),
    ensures
        p_component(d, o) == Some((c, o + enc_component(c).len())),
{
    match c {
        ComponentView::Soldier => {
            assert(d[o] == enc_component(c)[0]);
        },
        ComponentView::Nick(s) => {
            lemma_at_split(d, o, seq![2u8], enc_string(s));
            assert(d[o] == d.subrange(o, o + 1)[0]);
            lemma_p_string_at(d, o + 1, s);
        },
        ComponentView::Pos(x, y) => {
            lemma_auto_spec_u32_to_from_le_bytes();
            assert(enc_component(c) == seq![3u8] + spec_u32_to_le_bytes(x) + spec_u32_to_le_bytes(y));
            lemma_at_split(d, o, seq![3u8] + spec_u32_to_le_bytes(x), spec_u32_to_le_bytes(y));
            lemma_at_split(d, o, seq![3u8], spec_u32_to_le_bytes(x));
            assert(d[o] == d.subrange(o, o + 1)[0]);
            lemma_p_u32_at(d, o + 1, x);
            lemma_p_u32_at(d, o + 5, y);
        },
    }
}

proof fn lemma_p_components_at(d: Seq<u8>, o: int, cs: Seq<ComponentView>)
    requires
        forall|i: int| 0 <= i < cs.len() ==> component_wf(#[trigger] cs[i]),
        at(d, o, enc_components(cs)),
    ensures
        p_components(d, o, cs.len()) == Some((cs, o + enc_components(cs).len())),
    decreases cs.len(),
{
    if cs.len() > 0 {
        let init = cs.drop_last();
        lemma_at_split(d, o, enc_components(init), enc_component(cs.last()));
        assert forall|i: int| 0 <= i < init.len() implies component_wf(#[trigger] init[i]) by {
            assert(init[i] == cs[i]);
        }
        lemma_p_components_at(d, o, init);
        lemma_p_component_at(d, o + enc_components(init).len(), cs.last());
        assert(init.push(cs.last()) =~= cs);
    }
}

proof fn lemma_p_entity_at(d: Seq<u8>, o: int, e: (u64, Seq<ComponentView>))
    requires
        entity_wf(e),
        at(d, o, enc_entity(e)),
    ensures
        p_entity(d, o) == Some((e, o + enc_entity(e).len())),
{
    lemma_auto_spec_u64_to_from_le_bytes();
    let idb = spec_u64_to_le_bytes(e.0).reverse();
    let cnt = seq![(e.1.len() % 256) as u8];
    assert(enc_entity(e) == idb + cnt + enc_components(e.1));
    lemma_at_split(d, o, idb + cnt, enc_components(e.1));
    lemma_at_split(d, o, idb, cnt);
    assert(d.subrange(o, o + 8).reverse() =~= spec_u64_to_le_bytes(e.0));
    assert(d[o + 8] == d.subrange(o + 8, o + 9)[0]);
    lemma_p_components_at(d, o + 9, e.1);
}

proof fn lemma_p_entities_at(d: Seq<u8>, o: int, es: Seq<(u64, Seq<ComponentView>)>)
    requires
        forall|i: int| 0 <= i < es.len() ==> entity_wf(#[trigger] es[i]),
        at(d, o, enc_entities(es)),
    ensures
        p_entities(d, o, es.len()) == Some((es, o + enc_entities(es).len())),
    decreases es.len(),
{
    if es.len() > 0 {
        let init = es.drop_last();
        lemma_at_split(d, o, enc_entities(init), enc_entity(es.last()));
        assert forall|i: int| 0 <= i < init.len() implies entity_wf(#[trigger] init[i]) by {
            assert(init[i] == es[i]);
        }
        lemma_p_entities_at(d, o, init);
        lemma_p_entity_at(d, o + enc_entities(init).len(), es.last());
        assert(init.push(es.last()) =~= es);
    }
}

proof fn lemma_p_cvars_at(d: Seq<u8>, o: int, cs: Seq<(Seq<char>, Seq<char>)>)
    requires
        forall|i: int| 0 <= i < cs.len() ==> string_wf(#[trigger] cs[i].0) && string_wf(cs[i].1),
        at(d, o, enc_cvars(cs)),
    ensures
        p_cvars(d, o, cs.len()) == Some((cs, o + enc_cvars(cs).len())),
    decreases cs.len(),
{
    if cs.len() > 0 {
        let init = cs.drop_last();
        let l = cs.last();
        lemma_at_split(d, o, enc_cvars(init) + enc_string(l.0), enc_string(l.1));
        lemma_at_split(d, o, enc_cvars(init), enc_string(l.0));
        assert forall|i: int| 0 <= i < init.len() implies string_wf(#[trigger] init[i].0) && string_wf(
            init[i].1,
        ) by {
            assert(init[i] == cs[i]);
        }
        assert(string_wf(cs[cs.len() - 1].0));
        lemma_p_cvars_at(d, o, init);
        lemma_p_string_at(d, o + enc_cvars(init).len(), l.0);
        lemma_p_string_at(d, o + enc_cvars(init).len() + enc_string(l.0).len(), l.1);
        assert(init.push((l.0, l.1)) =~= cs);
    }
}

proof fn lemma_p_controls_at(d: Seq<u8>, o: int, cs: Seq<(u16, u8, u8)>)
    requires
        forall|i: int| 0 <= i < cs.len() ==> #[trigger] cs[i].0 < 0x2000,
        at(d, o, enc_controls(cs)),
    ensures
        p_controls(d, o, cs.len()) == Some((cs, o + enc_controls(cs).len())),
    decreases cs.len(),
{
    if cs.len() > 0 {
        let init = cs.drop_last();
        let l = cs.last();
        lemma_auto_spec_u16_to_from_le_bytes();
        lemma_at_split(d, o, enc_controls(init) + spec_u16_to_le_bytes(l.0), seq![l.1, l.2]);
        lemma_at_split(d, o, enc_controls(init), spec_u16_to_le_bytes(l.0));
        assert forall|i: int| 0 <= i < init.len() implies #[trigger] init[i].0 < 0x2000 by {
            assert(init[i] == cs[i]);
        }
        assert(cs[cs.len() - 1].0 < 0x2000);
        lemma_p_controls_at(d, o, init);
        let o1 = o + enc_controls(init).len();
        lemma_p_u16_at(d, o1, l.0);
        assert(d[o1 + 2] == d.subrange(o1 + 2, o1 + 4)[0]);
        assert(d[o1 + 3] == d.subrange(o1 + 2, o1 + 4)[1]);
        assert(init.push((l.0, l.1, l.2)) =~= cs);
    }
}

proof fn lemma_decode_encode_connectionauthorize(m: MessageView, rest: Seq<u8>)
    requires
        message_wf(m),
        m is ConnectionAuthorize,
    ensures
        spec_decode(spec_encode(m) + rest) == Some(m),
{
    let e = spec_encode(m);
    let d = e + rest;
    lemma_auto_spec_u64_to_from_le_bytes();
    lemma_auto_spec_u16_to_from_le_bytes();
    assert(at(d, 0, e)) by {
        assert(d.subrange(0, e.len() as int) =~= e);
    }
    assert(d[0] == e[0]);
    match m {
        MessageView::ConnectionAuthorize(nick, key) => {
            lemma_at_split(d, 0, seq![0x02u8] + enc_string(nick), enc_string(key));
            lemma_at_split(d, 0, seq![0x02u8], enc_string(nick));
            lemma_p_string_at(d, 1, nick);
            let o1: int = 1int + enc_string(nick).len();
            lemma_p_string_at(d, o1, key);
            assert(p_string(d, 1) == Some((nick, o1)));
            assert(p_string(d, o1) == Some((key, o1 + enc_string(key).len())));
            assert(d[0] == 0x02u8);
            assert(d.len() > 0);
            assert(spec_decode(d) == Some(MessageView::ConnectionAuthorize(nick, key)));
            assert(m == MessageView::ConnectionAuthorize(nick, key));
            assert(spec_decode(spec_encode(m) + rest) == Some(m));
        },
        _ => {},
    }
}

proof fn lemma_decode_encode_cvars(m: MessageView, rest: Seq<u8>)
    requires
        message_wf(m),
        m is Cvars,
    ensures
        spec_decode(spec_encode(m) + rest) == Some(m),
{
    let e = spec_encode(m);
    let d = e + rest;
    lemma_auto_spec_u64_to_from_le_bytes();
    lemma_auto_spec_u16_to_from_le_bytes();
    assert(at(d, 0, e)) by {
        assert(d.subrange(0, e.len() as int) =~= e);
    }
    assert(d[0] == e[0]);
    match m {
        MessageView::Cvars(cs) => {
            let lb = spec_u64_to_le_bytes(cs.len() as u64);
            lemma_at_split(d, 0, seq![0x18u8] + lb, enc_cvars(cs));
            lemma_at_split(d, 0, seq![0x18u8], lb);
            lemma_p_u64_at(d, 1, cs.len() as u64);
            lemma_p_cvars_at(d, 9, cs);
            assert(spec_decode(spec_encode(m) + rest) == Some(m));
        },
        _ => {},
    }
}

proof fn lemma_decode_encode_controlstate(m: MessageView, rest: Seq<u8>)
    requires
        message_wf(m),
        m is ControlState,
    ensures
        spec_decode(spec_encode(m) + rest) == Some(m),
{
    let e = spec_encode(m);
    let d = e + rest;
    lemma_auto_spec_u64_to_from_le_bytes();
    lemma_auto_spec_u16_to_from_le_bytes();
    assert(at(d, 0, e)) by {
        assert(d.subrange(0, e.len() as int) =~= e);
    }
    assert(d[0] == e[0]);
    match m {
        MessageView::ControlState(ack, begin, cs) => {
            let lb = spec_u64_to_le_bytes(cs.len() as u64);
            lemma_at_split(d, 0, seq![0x10u8] + enc_usize(ack) + enc_usize(begin) + lb, enc_controls(cs));
            lemma_at_split(d, 0, seq![0x10u8] + enc_usize(ack) + enc_usize(begin), lb);
            lemma_at_split(d, 0, seq![0x10u8] + enc_usize(ack), enc_usize(begin));
            lemma_at_split(d, 0, seq![0x10u8], enc_usize(ack));
            lemma_p_u64_at(d, 1, ack as u64);
            lemma_p_u64_at(d, 9, begin as u64);
            lemma_p_u64_at(d, 17, cs.len() as u64);
            lemma_p_controls_at(d, 25, cs);
            assert(spec_decode(spec_encode(m) + rest) == Some(m));
        },
        _ => {},
    }
}

/// Decoding the bytes of a game state gives back its tick and, of the
/// entities sharing an id, the last one, whatever bytes follow; where no two
/// entities share an id, that is the game state itself.
#[verifier::rlimit(60)]
pub proof fn lemma_decode_encode_game_state(tick: usize, es: Seq<(u64, Seq<ComponentView>)>, rest: Seq<u8>)
    requires
        es.len() <= 255,
        forall|i: int| 0 <= i < es.len() ==> entity_wf(#[trigger] es[i]),
    ensures
        spec_decode(spec_encode(MessageView::GameState(tick, es)) + rest) == Some(
            MessageView::GameState(tick, last_of_each(es, Set::empty())),
        ),
{
    let m = MessageView::GameState(tick, es);
    let e = spec_encode(m);
    let d = e + rest;
    lemma_auto_spec_u64_to_from_le_bytes();
    assert(at(d, 0, e)) by {
        assert(d.subrange(0, e.len() as int) =~= e);
    }
    assert(d[0] == e[0]);
    let cnt = seq![(es.len() % 256) as u8];
    lemma_at_split(d, 0, seq![0x11u8] + enc_usize(tick) + cnt, enc_entities(es));
    lemma_at_split(d, 0, seq![0x11u8] + enc_usize(tick), cnt);
    lemma_at_split(d, 0, seq![0x11u8], enc_usize(tick));
    lemma_p_u64_at(d, 1, tick as u64);
    assert(d[9] == d.subrange(9, 10)[0]);
    lemma_p_entities_at(d, 10, es);
    assert(d[0] == 0x11u8);
    assert(p_game_state(d) == Some(MessageView::GameState(tick, last_of_each(es, Set::empty()))));
    assert(spec_decode(d) == p_game_state(d));
}

proof fn lemma_decode_encode_gamestate(m: MessageView, rest: Seq<u8>)
    requires
        message_wf(m),
        m is GameState,
    ensures
        spec_decode(spec_encode(m) + rest) == Some(m),
{
    match m {
        MessageView::GameState(tick, es) => {
            lemma_decode_encode_game_state(tick, es, rest);
            lemma_last_of_each_distinct(es, Set::empty());
        },
        _ => {},
    }
}

proof fn lemma_decode_encode_snapshot(m: MessageView, rest: Seq<u8>)
    requires
        message_wf(m),
        m is Snapshot,
    ensures
        spec_decode(spec_encode(m) + rest) == Some(m),
{
    let e = spec_encode(m);
    let d = e + rest;
    lemma_auto_spec_u64_to_from_le_bytes();
    lemma_auto_spec_u16_to_from_le_bytes();
    assert(at(d, 0, e)) by {
        assert(d.subrange(0, e.len() as int) =~= e);
    }
    assert(d[0] == e[0]);
    match m {
        MessageView::Snapshot(ts) => {
            assert(((ts as u16) as i16) == ts) by (bit_vector);
            lemma_at_split(d, 0, seq![0x12u8], spec_u16_to_le_bytes(#[verifier::truncate] (ts as u16)));
            lemma_p_u16_at(d, 1, #[verifier::truncate] (ts as u16));
            assert(spec_decode(spec_encode(m) + rest) == Some(m));
        },
        _ => {},
    }
}

proof fn lemma_decode_encode_command(m: MessageView, rest: Seq<u8>)
    requires
        message_wf(m),
        m is Command,
    ensures
        spec_decode(spec_encode(m) + rest) == Some(m),
{
    let e = spec_encode(m);
    let d = e + rest;
    lemma_auto_spec_u64_to_from_le_bytes();
    lemma_auto_spec_u16_to_from_le_bytes();
    assert(at(d, 0, e)) by {
        assert(d.subrange(0, e.len() as int) =~= e);
    }
    assert(d[0] == e[0]);
    match m {
        MessageView::Command(ts, c) => {
            assert(((ts as u16) as i16) == ts) by (bit_vector);
            let a = seq![0x13u8] + spec_u16_to_le_bytes(#[verifier::truncate] (ts as u16));
            lemma_at_split(d, 0, a + spec_u16_to_le_bytes(0u16), enc_string(c));
            lemma_at_split(d, 0, a, spec_u16_to_le_bytes(0u16));
            lemma_at_split(d, 0, seq![0x13u8], spec_u16_to_le_bytes(#[verifier::truncate] (ts as u16)));
            lemma_p_u16_at(d, 1, #[verifier::truncate] (ts as u16));
            lemma_p_u16_at(d, 3, 0u16);
            lemma_p_string_at(d, 5, c);
            assert(spec_decode(spec_encode(m) + rest) == Some(m));
        },
        _ => {},
    }
}

/// Decoding the bytes of a message that the wire can carry gives the message
/// back, whatever bytes follow it.
pub proof fn lemma_decode_encode(m: MessageView, rest: Seq<u8>)
    requires
        message_wf(m),
    ensures
        spec_decode(spec_encode(m) + rest) == Some(m),
{
    match m {
        MessageView::ConnectionAuthorize(..) => lemma_decode_encode_connectionauthorize(m, rest),
        MessageView::Cvars(..) => lemma_decode_encode_cvars(m, rest),
        MessageView::ControlState(..) => lemma_decode_encode_controlstate(m, rest),
        MessageView::GameState(..) => lemma_decode_encode_gamestate(m, rest),
        MessageView::Snapshot(..) => lemma_decode_encode_snapshot(m, rest),
        MessageView::Command(..) => lemma_decode_encode_command(m, rest),
    }
}

// ---------------------------------------------------------------------------
// Connection handshake
// ---------------------------------------------------------------------------
/// A handshake packet: the operation code, the magic `SLDT` and the
/// protocol version.
pub open spec fn handshake_packet(op: u8) -> Seq<u8> {
    seq![op, 0x53u8, 0x4Cu8, 0x44u8, 0x54u8, NET_PROTOCOL_VERSION]
}

/// The packet carries the magic `SLDT` and this protocol version after its
/// operation code.
pub open spec fn spec_packet_verify(p: Seq<u8>) -> bool {
    p[1] == 0x53u8 && p[2] == 0x4Cu8 && p[3] == 0x44u8 && p[4] == 0x54u8 && p[5]
        == NET_PROTOCOL_VERSION
}

fn handshake(op: u8) -> (b: bytes::Bytes)
    ensures
        bytes_contents(b) == handshake_packet(op),
{
    let v: Vec<u8> = vec![op, 0x53u8, 0x4Cu8, 0x44u8, 0x54u8, NET_PROTOCOL_VERSION];
    assert(v@ =~= handshake_packet(op));
    bytes_from_vec(v)
}

/// The packet with which a client asks to connect.
pub fn connection_request() -> (b: bytes::Bytes)
    ensures
        bytes_contents(b) == handshake_packet(0x01),
{
    handshake(0x01)
}

/// The server's answer that accepts a connection.
pub fn connection_accept() -> (b: bytes::Bytes)
    ensures
        bytes_contents(b) == handshake_packet(0x81),
{
    handshake(0x81)
}

/// The server's answer that rejects a connection.
pub fn connection_reject() -> (b: bytes::Bytes)
    ensures
        bytes_contents(b) == handshake_packet(0x82),
{
    handshake(0x82)
}

/// Whether a connection packet carries the right magic and protocol
/// version. The packet holds at least six bytes (shorter ones panic).
pub fn packet_verify(packet: &[u8]) -> (ok: bool)
    requires
        packet@.len() >= 6,
    ensures
        ok == spec_packet_verify(packet@),
{
    packet[1] == 0x53u8 && packet[2] == 0x4Cu8 && packet[3] == 0x44u8 && packet[4] == 0x54u8
        && packet[5] == NET_PROTOCOL_VERSION
}

/// Every handshake packet that this protocol sends verifies, and a packet
/// that differs from it in the magic or version does not.
pub proof fn lemma_handshake_verifies(op: u8)
    ensures
        spec_packet_verify(handshake_packet(op)),
        forall|k: int, b: u8|
            1 <= k < 6 && b != handshake_packet(op)[k] ==> !spec_packet_verify(
                #[trigger] handshake_packet(op).update(k, b),
            ),
{
}

/// The answer to an authorized client: the operation code, the length of
/// the message of the day, and its UTF-8 bytes.
pub open spec fn authorized_packet(motd: Seq<char>) -> Seq<u8> {
    seq![0x83u8, encode_utf8(motd).len() as u8] + encode_utf8(motd)
}

/// The server's answer to an authorized client, with the message of the
/// day. The message must be at most 255 bytes of UTF-8: its length
/// travels in one byte.
pub fn connection_authorized(motd: &str) -> (b: bytes::Bytes)
    requires
        motd.spec_bytes().len() <= 255,
    ensures
        bytes_contents(b) == authorized_packet(motd@),
{
    let m = motd.as_bytes();
    let mut msg: Vec<u8> = Vec::new();
    msg.push(0x83u8);
    msg.push(m.len() as u8);
    let mut rest = slice_to_vec(m);
    msg.append(&mut rest);
    assert(msg@ =~= authorized_packet(motd@));
    bytes_from_vec(msg)
}

/// The packet with which a client says that it is ready.
pub fn connection_ready() -> (b: bytes::Bytes)
    ensures
        bytes_contents(b) == seq![0x08u8],
{
    let v: Vec<u8> = vec![0x08u8];
    assert(v@ =~= seq![0x08u8]);
    bytes_from_vec(v)
}

} // verus!
