use vstd::prelude::*;

verus! {

/// The keys a player holds and what the soldier remembers of the previous
/// ones.
#[derive(Debug, Clone, Copy, PartialEq, Eq, Structural)]
pub struct Control {
    pub left: bool,
    pub right: bool,
    pub up: bool,
    pub down: bool,
    pub fire: bool,
    pub jets: bool,
    pub grenade: bool,
    pub change: bool,
    pub throw: bool,
    pub reload: bool,
    pub prone: bool,
    pub flag_throw: bool,
    pub mouse_aim_x: i32,
    pub mouse_aim_y: i32,
    pub mouse_dist: i32,
    pub was_running_left: bool,
    pub was_jumping: bool,
    pub was_throwing_weapon: bool,
    pub was_changing_weapon: bool,
    pub was_throwing_grenade: bool,
    pub was_reloading_weapon: bool,
}

/// No key held, nothing remembered.
pub open spec fn released() -> Control {
    Control {
        left: false,
        right: false,
        up: false,
        down: false,
        fire: false,
        jets: false,
        grenade: false,
        change: false,
        throw: false,
        reload: false,
        prone: false,
        flag_throw: false,
        mouse_aim_x: 0,
        mouse_aim_y: 0,
        mouse_dist: 0,
        was_running_left: false,
        was_jumping: false,
        was_throwing_weapon: false,
        was_changing_weapon: false,
        was_throwing_grenade: false,
        was_reloading_weapon: false,
    }
}

impl Default for Control {
    fn default() -> (c: Control)
        ensures
            c == released(),
    {
        Control {
            left: false,
            right: false,
            up: false,
            down: false,
            fire: false,
            jets: false,
            grenade: false,
            change: false,
            throw: false,
            reload: false,
            prone: false,
            flag_throw: false,
            mouse_aim_x: 0,
            mouse_aim_y: 0,
            mouse_dist: 0,
            was_running_left: false,
            was_jumping: false,
            was_throwing_weapon: false,
            was_changing_weapon: false,
            was_throwing_grenade: false,
            was_reloading_weapon: false,
        }
    }
}

/// How many of the four weapon actions are held.
pub open spec fn actions_held(c: Control) -> int {
    (if c.grenade { 1int } else { 0int }) + (if c.change { 1int } else { 0int }) + (if c.throw {
        1int
    } else {
        0int
    }) + (if c.reload { 1int } else { 0int })
}

/// What `resolve_direction` makes of the controls: when both left and
/// right are held, a jumping soldier keeps its old direction and another
/// one takes the new direction; otherwise the direction and jump are
/// remembered.
pub open spec fn spec_resolve_direction(c: Control) -> Control {
    if c.left && c.right {
        if c.was_jumping {
            if c.was_running_left {
                Control { right: false, ..c }
            } else {
                Control { left: false, ..c }
            }
        } else {
            if c.was_running_left {
                Control { left: false, ..c }
            } else {
                Control { right: false, ..c }
            }
        }
    } else {
        Control { was_running_left: c.left, was_jumping: c.up, ..c }
    }
}

/// What `resolve_actions` makes of the controls: when two or more weapon
/// actions are held, the one held before is dropped, and then, if two or
/// more are still held, all are dropped; otherwise the held actions are
/// remembered.
pub open spec fn spec_resolve_actions(c: Control) -> Control {
    if actions_held(c) > 1 {
        let c1 = if c.was_throwing_grenade {
            Control { grenade: false, ..c }
        } else if c.was_changing_weapon {
            Control { change: false, ..c }
        } else if c.was_throwing_weapon {
            Control { throw: false, ..c }
        } else if c.was_reloading_weapon {
            Control { reload: false, ..c }
        } else {
            c
        };
        if actions_held(c1) > 1 {
            Control { grenade: false, change: false, throw: false, reload: false, ..c1 }
        } else {
            c1
        }
    } else {
        Control {
            was_throwing_grenade: c.grenade,
            was_changing_weapon: c.change,
            was_throwing_weapon: c.throw,
            was_reloading_weapon: c.reload,
            ..c
        }
    }
}

fn count_of(b: bool) -> (n: u8)
    ensures
        n == (if b { 1int } else { 0int }),
{
    if b {
        1
    } else {
        0
    }
}

impl Control {
    /// How many of the four weapon actions are held.
    pub fn count_actions(&self) -> (n: u8)
        ensures
            n == actions_held(*self),
    {
        count_of(self.grenade) + count_of(self.change) + count_of(self.throw) + count_of(self.reload)
    }

    /// Releases every key and forgets the previous ones.
    pub fn free_controls(&mut self)
        ensures
            *final(self) == released(),
    {
        *self = Control::default();
    }

    /// Settles left and right held together (see `spec_resolve_direction`).
    /// Returns whether both were held.
    pub fn resolve_direction(&mut self) -> (both: bool)
        ensures
            both == (old(self).left && old(self).right),
            *final(self) == spec_resolve_direction(*old(self)),
    {
        if self.left && self.right {
            if self.was_jumping {
                if self.was_running_left {
                    self.right = false;
                } else {
                    self.left = false;
                }
            } else {
                if self.was_running_left {
                    self.left = false;
                } else {
                    self.right = false;
                }
            }
            true
        } else {
            self.was_running_left = self.left;
            self.was_jumping = self.up;
            false
        }
    }

    /// Settles weapon actions held together (see `spec_resolve_actions`).
    #[verifier::rlimit(60)]
    pub fn resolve_actions(&mut self)
        ensures
            *final(self) == spec_resolve_actions(*old(self)),
    {
        if self.count_actions() > 1 {
            if self.was_throwing_grenade {
                self.grenade = false;
            } else if self.was_changing_weapon {
                self.change = false;
            } else if self.was_throwing_weapon {
                self.throw = false;
            } else if self.was_reloading_weapon {
                self.reload = false;
            }
            // One pass that drops each held action leaves none held.
            if self.count_actions() > 1 {
                self.reload = false;
                self.change = false;
                self.throw = false;
                self.grenade = false;
            }
        } else {
            self.was_throwing_grenade = self.grenade;
            self.was_changing_weapon = self.change;
            self.was_throwing_weapon = self.throw;
            self.was_reloading_weapon = self.reload;
        }
    }
}

/// The keys that steer a soldier.
#[derive(Debug, Clone, Copy, PartialEq, Eq, Structural)]
pub enum ControlKey {
    A,
    D,
    W,
    S,
    Q,
    E,
    X,
    Escape,
    Other,
}

/// The mouse buttons.
#[derive(Debug, Clone, Copy, PartialEq, Eq, Structural)]
pub enum MouseButton {
    Left,
    Right,
    Other,
}

impl Control {
    /// Holds or releases the control a key is bound to: A, D, W and S move
    /// left, right, up and down, Q changes weapon, E throws it and X goes
    /// prone. Returns whether the key asks to quit the game (Escape
    /// pressed).
    pub fn update_keys(&mut self, key: ControlKey, pressed: bool) -> (quit: bool)
        ensures
            quit == (pressed && key == ControlKey::Escape),
            *final(self) == match key {
                ControlKey::A => Control { left: pressed, ..*old(self) },
                ControlKey::D => Control { right: pressed, ..*old(self) },
                ControlKey::W => Control { up: pressed, ..*old(self) },
                ControlKey::S => Control { down: pressed, ..*old(self) },
                ControlKey::Q => Control { change: pressed, ..*old(self) },
                ControlKey::E => Control { throw: pressed, ..*old(self) },
                ControlKey::X => Control { prone: pressed, ..*old(self) },
                _ => *old(self),
            },
    {
        match key {
            ControlKey::A => {
                self.left = pressed;
            },
            ControlKey::D => {
                self.right = pressed;
            },
            ControlKey::W => {
                self.up = pressed;
            },
            ControlKey::S => {
                self.down = pressed;
            },
            ControlKey::Q => {
                self.change = pressed;
            },
            ControlKey::E => {
                self.throw = pressed;
            },
            ControlKey::X => {
                self.prone = pressed;
            },
            _ => {},
        }
        pressed && key == ControlKey::Escape
    }

    /// Fires with the left button and flies with the right one while they
    /// are held.
    pub fn update_mouse_button(&mut self, button: MouseButton, pressed: bool)
        ensures
            *final(self) == match button {
                MouseButton::Left => Control { fire: pressed, ..*old(self) },
                MouseButton::Right => Control { jets: pressed, ..*old(self) },
                MouseButton::Other => *old(self),
            },
    {
        match button {
            MouseButton::Left => self.fire = pressed,
            MouseButton::Right => self.jets = pressed,
            MouseButton::Other => {},
        }
    }
}

/// Left and right held together: a jumping soldier keeps going the way it
/// ran before, one on the ground turns to the new direction; a single
/// direction is kept and remembered, with the jump.
pub proof fn lemma_direction_choice(c: Control)
    ensures
        c.left && c.right && c.was_jumping ==> spec_resolve_direction(c).left == c.was_running_left
            && spec_resolve_direction(c).right == !c.was_running_left,
        c.left && c.right && !c.was_jumping ==> spec_resolve_direction(c).left == !c.was_running_left
            && spec_resolve_direction(c).right == c.was_running_left,
        !(c.left && c.right) ==> spec_resolve_direction(c).left == c.left && spec_resolve_direction(c).right
            == c.right && spec_resolve_direction(c).was_running_left == c.left
            && spec_resolve_direction(c).was_jumping == c.up,
        spec_resolve_direction(c).up == c.up && spec_resolve_direction(c).down == c.down
            && spec_resolve_direction(c).fire == c.fire && spec_resolve_direction(c).jets == c.jets,
{
}

/// After the conflicts are settled, the soldier never goes both left and
/// right, and holds at most one weapon action.
pub proof fn lemma_resolved_controls(c: Control)
    ensures
        !(spec_resolve_direction(c).left && spec_resolve_direction(c).right),
        actions_held(spec_resolve_actions(c)) <= 1,
        spec_resolve_direction(c).up == c.up,
        spec_resolve_actions(c).left == c.left && spec_resolve_actions(c).right == c.right,
{
}

} // verus!
