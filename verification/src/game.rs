use vstd::prelude::*;
use crate::messages::Control;

verus! {

/// The team a soldier plays for.
#[derive(Debug, Clone, Copy, PartialEq, Eq, Structural)]
pub enum Team {
    NoTeam,
    Alpha,
    Bravo,
    Charlie,
    Delta,
}

impl Default for Team {
    /// Soldiers start in no team.
    fn default() -> (t: Team)
        ensures
            t == Team::NoTeam,
    {
        Team::NoTeam
    }
}

/// The colour of a networked point.
#[derive(Debug, Clone, Copy, PartialEq, Eq, Structural)]
pub enum PointActorColor {
    Red,
    Blue,
    Yellow,
}

impl Default for PointActorColor {
    /// Points start red.
    fn default() -> (c: PointActorColor)
        ensures
            c == PointActorColor::Red,
    {
        PointActorColor::Red
    }
}

/// The movement keys a client holds.
#[derive(Debug, Clone, Copy, PartialEq, Eq, Structural)]
pub struct KeyCommand {
    pub w: bool,
    pub s: bool,
    pub a: bool,
    pub d: bool,
}

impl KeyCommand {
    pub fn new(w: bool, s: bool, a: bool, d: bool) -> (k: KeyCommand)
        ensures
            k == (KeyCommand { w, s, a, d }),
    {
        KeyCommand { w, s, a, d }
    }

    /// Key commands may be lost: the next one replaces them.
    pub fn is_guaranteed() -> (b: bool)
        ensures
            !b,
    {
        false
    }
}

/// A client's request to join: its nick and the server key.
#[derive(Debug)]
pub struct AuthEvent {
    pub nick: String,
    pub key: String,
}

impl AuthEvent {
    pub fn new(nick: &str, key: &str) -> (e: AuthEvent)
        ensures
            e.nick@ == nick@,
            e.key@ == key@,
    {
        AuthEvent { nick: nick.to_owned(), key: key.to_owned() }
    }

    /// An authorization must arrive.
    pub fn is_guaranteed() -> (b: bool)
        ensures
            b,
    {
        true
    }
}

/// An event a client sends to the server.
#[derive(Debug)]
pub enum NetworkEvent {
    KeyCommand(KeyCommand),
    AuthEvent(AuthEvent),
}

/// The step, in whole units, that held direction keys move an entity by:
/// left and up count down, right and down count up.
pub open spec fn input_step(left: bool, right: bool, up: bool, down: bool) -> (i32, i32) {
    (
        ((if right { 1int } else { 0int }) - (if left { 1int } else { 0int })) as i32,
        ((if down { 1int } else { 0int }) - (if up { 1int } else { 0int })) as i32,
    )
}

/// How far the controls move an entity this tick; the caller adds the step
/// to the entity's position.
pub fn apply_input(control: Control) -> (step: (i32, i32))
    ensures
        step == input_step(
            control.spec_bits() & 0x0001 == 0x0001,
            control.spec_bits() & 0x0002 == 0x0002,
            control.spec_bits() & 0x0004 == 0x0004,
            control.spec_bits() & 0x0008 == 0x0008,
        ),
{
    let mut x: i32 = 0;
    let mut y: i32 = 0;
    if control.contains(Control::left()) {
        x = x - 1;
    }
    if control.contains(Control::right()) {
        x = x + 1;
    }
    if control.contains(Control::up()) {
        y = y - 1;
    }
    if control.contains(Control::down()) {
        y = y + 1;
    }
    (x, y)
}

} // verus!
