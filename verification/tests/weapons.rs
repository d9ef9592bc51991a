use soldank::weapons::{weapon_stats, Weapon, WeaponGroup, WeaponKind, WeaponSprite};

#[test]
fn kinds_in_index_order() {
    let kinds = WeaponKind::values();
    assert_eq!(kinds.len(), 23);
    for (i, k) in kinds.iter().enumerate() {
        assert_eq!(k.index(), i);
    }
    assert_eq!(kinds[0], WeaponKind::DesertEagles);
    assert_eq!(kinds[22], WeaponKind::ThrownKnife);
    assert_eq!(WeaponKind::NoWeapon.index(), 18);
}

#[test]
fn default_kind() {
    assert_eq!(WeaponKind::default(), WeaponKind::NoWeapon);
}

#[test]
fn groups() {
    assert_eq!(WeaponKind::DesertEagles.group(), WeaponGroup::Primary);
    assert_eq!(WeaponKind::Minigun.group(), WeaponGroup::Primary);
    assert_eq!(WeaponKind::USSOCOM.group(), WeaponGroup::Secondary);
    assert_eq!(WeaponKind::LAW.group(), WeaponGroup::Secondary);
    assert_eq!(WeaponKind::Bow.group(), WeaponGroup::Other);
    assert_eq!(WeaponKind::ThrownKnife.group(), WeaponGroup::Other);
}

#[test]
fn desert_eagles() {
    let w = Weapon::new(WeaponKind::DesertEagles, false);
    assert_eq!(w.name, "Desert Eagles");
    assert_eq!(w.ini_name, "Desert Eagles");
    assert!(w.clip_reload);
    assert_eq!(w.fire_mode, 2);
    assert_eq!(w.fire_interval, 24);
    assert_eq!(w.ammo, 7);
    assert_eq!(w.ammo_count, 7);
    assert_eq!(w.reload_time, 87);
    assert_eq!(w.reload_time_count, 87);
    assert_eq!(f32::from_bits(w.hit_multiply), 1.81);
    assert_eq!(f32::from_bits(w.speed), 19.0);
    assert_eq!(f32::from_bits(w.movement_acc), 0.009);
    assert_eq!(w.sprite, Some(WeaponSprite::Deagles));
    assert_eq!(w.clip_sprite, Some(WeaponSprite::DeaglesClip));
    assert_eq!(w.timeout, 60 * 7);
    assert_eq!(w.clip_out_time, (87f32 * 0.8).trunc() as u16);
    assert_eq!(w.clip_in_time, (87f32 * 0.3).trunc() as u16);
}

#[test]
fn desert_eagles_realistic() {
    let w = Weapon::new(WeaponKind::DesertEagles, true);
    assert_eq!(w.fire_interval, 27);
    assert_eq!(w.reload_time, 106);
    assert_eq!(f32::from_bits(w.hit_multiply), 1.66);
    assert_eq!(f32::from_bits(w.modifier_legs), 0.6);
}

#[test]
fn grenade_launcher_starts_empty() {
    let w = Weapon::new(WeaponKind::M79, false);
    assert_eq!(w.ammo_count, 0);
    assert!(w.ammo > 0);
}

#[test]
fn clip_times_match_float_rule() {
    for kind in WeaponKind::values() {
        for realistic in [false, true] {
            let w = Weapon::new(kind, realistic);
            if w.clip_reload {
                assert_eq!(w.clip_out_time, (f32::from(w.reload_time) * 0.8).trunc() as u16);
                assert_eq!(w.clip_in_time, (f32::from(w.reload_time) * 0.3).trunc() as u16);
            } else {
                assert_eq!((w.clip_out_time, w.clip_in_time), (0, 0));
            }
        }
    }
}

#[test]
fn integer_clip_rule_agrees_with_float_rule() {
    for r in 0..=u16::MAX {
        let out = ((r as u32) * 4 / 5) as u16;
        let inn = ((r as u32) * 3 / 10) as u16;
        assert_eq!(out, (f32::from(r) * 0.8).trunc() as u16, "out {}", r);
        assert_eq!(inn, (f32::from(r) * 0.3).trunc() as u16, "in {}", r);
    }
}

#[test]
fn bullet_timeouts() {
    for kind in WeaponKind::values() {
        for realistic in [false, true] {
            let w = Weapon::new(kind, realistic);
            let s = weapon_stats(kind, realistic);
            assert_eq!(w.bullet_style, s.bullet_style);
            let expected = match s.bullet_style {
                2 | 9 => 180,
                5 => 1920,
                6 | 11 => 1,
                14 => 60,
                _ => 420,
            };
            assert_eq!(w.timeout, expected);
            assert_eq!(w.fire_interval_prev, w.fire_interval);
            assert_eq!(w.start_up_time_count, w.start_up_time);
        }
    }
}

#[test]
fn weapon_cycle() {
    assert_eq!(WeaponKind::DesertEagles.next_in_cycle(), WeaponKind::MP5);
    assert_eq!(WeaponKind::Flamer.next_in_cycle(), WeaponKind::M2);
    assert_eq!(WeaponKind::NoWeapon.next_in_cycle(), WeaponKind::DesertEagles);
    assert_eq!(WeaponKind::ThrownKnife.next_in_cycle(), WeaponKind::Spas12);
}
