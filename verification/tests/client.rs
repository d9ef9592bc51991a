use soldank::debug::{checkbox_label, toggle_button_label, DebugState};
use soldank::game::{apply_input, AuthEvent, KeyCommand, NetworkEvent, PointActorColor, Team};
use soldank::mapfile::{MapColor, MapFile, MapProp, MapScenery};
use soldank::messages::Control;
use soldank::render::{
    black, cornflower_blue, is_prop_active, props_by_level, rgb, rgba, scenery_usage, white, Color, GostekSprite,
    MapGraphics, SoldierSprite,
};
use soldank::world::{CloneRegistry, CloneableWorld};

#[test]
fn labels() {
    assert_eq!(toggle_button_label(true, "Spawn"), "[Spawn]");
    assert_eq!(toggle_button_label(false, "Spawn"), " Spawn ");
    assert_eq!(checkbox_label(true, "Grid"), "[x] Grid");
    assert_eq!(checkbox_label(false, "Grid"), "[ ] Grid");
}

#[test]
fn frame_counter() {
    let mut s = DebugState::default();
    s.count_frame(0);
    s.count_frame(0);
    s.count_frame(0);
    assert_eq!((s.fps, s.fps_count), (0, 3));
    s.count_frame(1);
    assert_eq!((s.fps, s.fps_count, s.fps_second), (3, 1, 1));
}

#[test]
fn colors() {
    assert_eq!(rgb(1, 2, 3), Color { r: 1, g: 2, b: 3, a: 255 });
    assert_eq!(rgba(1, 2, 3, 4), Color { r: 1, g: 2, b: 3, a: 4 });
    assert_eq!(black(), Color { r: 0, g: 0, b: 0, a: 255 });
    assert_eq!(white(), Color { r: 255, g: 255, b: 255, a: 255 });
    assert_eq!(cornflower_blue(), Color { r: 100, g: 149, b: 237, a: 255 });
}

#[test]
fn sprites_none() {
    assert!(SoldierSprite::NoSprite.is_none());
    assert!(!SoldierSprite::Weapon(3).is_none());
    assert!(GostekSprite::NoSprite.is_none());
    assert!(!GostekSprite::Gostek(0).is_none());
}

#[test]
fn empty_graphics() {
    let g = MapGraphics::empty();
    assert_eq!(g.background(), 0..0);
    assert_eq!(g.scenery_front(), 0..0);
    let g2 = MapGraphics { polys_back: 3..9, ..MapGraphics::empty() };
    assert_eq!(g2.polys_back(), 3..9);
}

fn prop(active: bool, style: u16, level: u8) -> MapProp {
    MapProp {
        active,
        style,
        width: 1,
        height: 1,
        x: 0,
        y: 0,
        rotation: 0,
        scale_x: 0,
        scale_y: 0,
        alpha: 255,
        color: MapColor { r: 0, g: 0, b: 0, a: 255 },
        level,
    }
}

fn map_with(props: Vec<MapProp>, scenery: usize) -> MapFile {
    MapFile {
        filename: String::new(),
        version: 0,
        mapname: String::new(),
        texture_name: String::new(),
        bg_color_top: MapColor { r: 0, g: 0, b: 0, a: 0 },
        bg_color_bottom: MapColor { r: 0, g: 0, b: 0, a: 0 },
        start_jet: 0,
        grenade_packs: 0,
        medikits: 0,
        weather: 0,
        steps: 0,
        random_id: 0,
        polygons: vec![],
        sectors_division: 0,
        sectors_num: 0,
        sectors: vec![],
        props,
        scenery: (0..scenery).map(|i| MapScenery { filename: format!("s{}.bmp", i), date: 0 }).collect(),
        colliders: vec![],
        spawnpoints: vec![],
        sectors_poly: vec![],
    }
}

#[test]
fn prop_activity() {
    let m = map_with(vec![], 2);
    assert!(is_prop_active(&m, &prop(true, 1, 0)));
    assert!(is_prop_active(&m, &prop(true, 2, 2)));
    assert!(!is_prop_active(&m, &prop(false, 1, 0)));
    assert!(!is_prop_active(&m, &prop(true, 0, 0)));
    assert!(!is_prop_active(&m, &prop(true, 3, 0)));
    assert!(!is_prop_active(&m, &prop(true, 1, 3)));
}

#[test]
fn scenery_and_levels() {
    let m = map_with(
        vec![prop(true, 3, 1), prop(true, 1, 0), prop(false, 2, 0), prop(true, 3, 2), prop(true, 1, 1)],
        4,
    );
    let (used, index) = scenery_usage(&m);
    assert_eq!(used, vec![true, false, true, false]);
    assert_eq!(index, vec![0, 0, 1, 0]);
    let (back, mid, front) = props_by_level(&m);
    assert_eq!(back, vec![1]);
    assert_eq!(mid, vec![0, 4]);
    assert_eq!(front, vec![3]);
}

#[test]
fn defaults_and_events() {
    assert_eq!(Team::default(), Team::NoTeam);
    assert_eq!(PointActorColor::default(), PointActorColor::Red);
    let k = KeyCommand::new(true, false, true, false);
    assert!(k.w && k.a && !k.s && !k.d);
    assert!(!KeyCommand::is_guaranteed());
    let a = AuthEvent::new("nick", "key");
    assert_eq!((a.nick.as_str(), a.key.as_str()), ("nick", "key"));
    assert!(AuthEvent::is_guaranteed());
    assert!(matches!(NetworkEvent::KeyCommand(k), NetworkEvent::KeyCommand(_)));
}

#[test]
fn input_steps() {
    assert_eq!(apply_input(Control::empty()), (0, 0));
    assert_eq!(apply_input(Control::left()), (-1, 0));
    assert_eq!(apply_input(Control::right().union(Control::down())), (1, 1));
    assert_eq!(apply_input(Control::left().union(Control::right()).union(Control::up())), (0, -1));
    assert_eq!(apply_input(Control::fire()), (0, 0));
}

#[test]
fn registry_registers_once() {
    let r: CloneRegistry<u8> = CloneRegistry::default();
    let r = r.register::<u32>(1).register::<String>(2).register::<u32>(3);
    assert_eq!(r.entries.len(), 2);
    assert_eq!(r.entries[0].hooks, 1);
    assert_eq!(r.entries[1].hooks, 2);
    let w = CloneableWorld::new(r);
    assert_eq!(w.clone_registry().entries.len(), 2);
    assert_eq!(w.inner().len(), 0);
}

#[test]
fn overlay_toggle() {
    let mut s = DebugState::default();
    s.toggle_ui(false);
    assert!(!s.ui_visible);
    s.toggle_ui(true);
    assert!(s.ui_visible);
    s.toggle_ui(true);
    assert!(!s.ui_visible);
}
