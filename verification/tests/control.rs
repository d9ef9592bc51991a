use soldank::control::Control;

fn held() -> Control {
    let mut c = Control::default();
    c.mouse_aim_x = 5;
    c
}

#[test]
fn free_controls_releases_all() {
    let mut c = held();
    c.left = true;
    c.fire = true;
    c.was_jumping = true;
    c.free_controls();
    assert_eq!(c, Control::default());
    assert_eq!(c.mouse_aim_x, 0);
}

#[test]
fn both_directions_while_jumping_keep_old() {
    let mut c = held();
    c.left = true;
    c.right = true;
    c.was_jumping = true;
    c.was_running_left = true;
    assert!(c.resolve_direction());
    assert!(c.left && !c.right);
}

#[test]
fn both_directions_on_ground_take_new() {
    let mut c = held();
    c.left = true;
    c.right = true;
    c.was_running_left = true;
    assert!(c.resolve_direction());
    assert!(!c.left && c.right);
}

#[test]
fn one_direction_is_remembered() {
    let mut c = held();
    c.left = true;
    c.up = true;
    assert!(!c.resolve_direction());
    assert!(c.was_running_left && c.was_jumping);
}

#[test]
fn count_actions() {
    let mut c = held();
    assert_eq!(c.count_actions(), 0);
    c.grenade = true;
    c.reload = true;
    assert_eq!(c.count_actions(), 2);
}

#[test]
fn previous_action_yields() {
    let mut c = held();
    c.grenade = true;
    c.change = true;
    c.was_throwing_grenade = true;
    c.resolve_actions();
    assert!(!c.grenade && c.change);
}

#[test]
fn new_actions_together_all_dropped() {
    let mut c = held();
    c.grenade = true;
    c.change = true;
    c.throw = true;
    c.resolve_actions();
    assert!(!c.grenade && !c.change && !c.throw && !c.reload);
}

#[test]
fn single_action_is_remembered() {
    let mut c = held();
    c.throw = true;
    c.resolve_actions();
    assert!(c.throw && c.was_throwing_weapon && !c.was_reloading_weapon);
}

use soldank::control::{ControlKey, MouseButton};

#[test]
fn keys_steer() {
    let mut c = held();
    assert!(!c.update_keys(ControlKey::A, true));
    assert!(!c.update_keys(ControlKey::X, true));
    assert!(c.left && c.prone);
    assert!(!c.update_keys(ControlKey::A, false));
    assert!(!c.left && c.prone);
    assert!(c.update_keys(ControlKey::Escape, true));
    assert!(!c.update_keys(ControlKey::Escape, false));
    let before = c;
    assert!(!c.update_keys(ControlKey::Other, true));
    assert_eq!(c, before);
}

#[test]
fn mouse_buttons() {
    let mut c = held();
    c.update_mouse_button(MouseButton::Left, true);
    c.update_mouse_button(MouseButton::Right, true);
    assert!(c.fire && c.jets);
    c.update_mouse_button(MouseButton::Left, false);
    assert!(!c.fire && c.jets);
}
