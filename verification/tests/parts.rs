use soldank::anims::Anim;
use soldank::parts::{parts_visibility, PartIds, SoldierLook};
use soldank::weapons::WeaponKind;

fn ids() -> PartIds {
    PartIds {
        left_thigh_dmg: 0,
        left_lowerleg_dmg: 1,
        left_forearm_dmg: 2,
        left_arm_dmg: 3,
        chest_dmg: 4,
        hip_dmg: 5,
        head_dmg: 6,
        right_thigh_dmg: 7,
        right_lowerleg_dmg: 8,
        right_forearm_dmg: 9,
        right_arm_dmg: 10,
        left_foot: 11,
        right_foot: 12,
        left_jetfoot: 13,
        right_jetfoot: 14,
        vest: 15,
        frag_grenade1: 40,
        cluster_grenade1: 50,
        cigar: 18,
        head: 19,
        head_dead: 20,
        head_dead_dmg: 21,
        rambo_badge: 22,
        grabbed_helmet: 23,
        helmet: 24,
        mr_t: 25,
        secondary_deagles: 60,
        primary_minigun: 27,
        primary_minigun_clip: 28,
        primary_minigun_fire: 29,
        primary_bow_arrow_reload: 30,
        primary_bow_arrow: 31,
        primary_bow_reload: 32,
        primary_bow_string_reload: 33,
        primary_bow: 34,
        primary_bow_string: 35,
        primary_bow_fire: 36,
        primary_deagles: 100,
        primary_flamer: 160,
    }
}

fn look() -> SoldierLook {
    SoldierLook {
        jets: false,
        jets_count: 0,
        wears_vest: false,
        tertiary_kind: WeaponKind::FragGrenade,
        tertiary_ammo: 3,
        body_anim: Anim::Stand,
        body_frame: 1,
        has_cigar: 0,
        dead_meat: false,
        wear_helmet: 1,
        secondary_kind: WeaponKind::USSOCOM,
        primary_kind: WeaponKind::Ak74,
        primary_ammo: 10,
        primary_reload_count: 0,
        primary_clip_in: 0,
        primary_clip_out: 0,
        primary_has_clip: true,
        fired: 0,
    }
}

fn shown(v: &[bool]) -> Vec<usize> {
    v.iter().enumerate().filter(|(_, b)| **b).map(|(i, _)| i).collect()
}

#[test]
fn soldier_with_rifle() {
    let v = parts_visibility(&vec![false; 256], &ids(), &look(), false);
    // three grenades, helmet, hair, the USSOCOM on the back, the rifle and its clip
    assert_eq!(shown(&v), vec![24, 25, 40, 41, 42, 70, 106, 107]);
}

#[test]
fn throwing_jets_blood_and_death() {
    let mut s = look();
    s.body_anim = Anim::Throw;
    s.jets = true;
    s.jets_count = 5;
    s.dead_meat = true;
    s.primary_kind = WeaponKind::Flamer;
    let mut base = vec![false; 256];
    base[11] = true;
    base[19] = true;
    let v = parts_visibility(&base, &ids(), &s, true);
    assert!((0..11).all(|i| v[i] || i == 6));
    assert!(!v[11] && !v[12] && v[13] && v[14]);
    assert!(v[40] && v[41] && !v[42]);
    assert!(!v[19] && !v[6] && v[20] && v[21]);
    assert!(!v[160]);
}

#[test]
fn bow_and_minigun() {
    let mut s = look();
    s.primary_kind = WeaponKind::Bow;
    s.primary_ammo = 0;
    s.fired = 1;
    let v = parts_visibility(&vec![false; 256], &ids(), &s, false);
    assert!(v[22] && !v[24] && !v[25]);
    assert!(v[30] && !v[31] && v[34] && v[35] && v[36]);
    s.primary_kind = WeaponKind::Minigun;
    s.primary_reload_count = 70;
    let v = parts_visibility(&vec![false; 256], &ids(), &s, false);
    assert!(v[27] && !v[28] && v[29]);
}

#[test]
fn deagles_fire_and_clip_timing() {
    let mut s = look();
    s.primary_kind = WeaponKind::DesertEagles;
    s.primary_ammo = 0;
    s.primary_reload_count = 50;
    s.primary_clip_in = 20;
    s.primary_clip_out = 60;
    s.fired = 2;
    s.wear_helmet = 0;
    s.body_anim = Anim::Wipe;
    s.body_frame = 6;
    let v = parts_visibility(&vec![false; 256], &ids(), &s, false);
    assert!(v[100] && !v[101] && v[102]);
    assert!(!v[23] && !v[24] && v[25]);
}
