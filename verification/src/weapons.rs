use vstd::prelude::*;

verus! {

/// Ticks per second of the game clock.
pub const SECOND: u16 = 60;

pub const BULLET_TIMEOUT: u16 = SECOND * 7;

pub const GRENADE_TIMEOUT: u16 = SECOND * 3;

pub const M2BULLET_TIMEOUT: u16 = SECOND;

pub const FLAMER_TIMEOUT: u16 = SECOND * 32;

pub const MELEE_TIMEOUT: u16 = 1;

/// The slot a weapon goes in.
#[derive(Debug, Copy, Clone, PartialEq, Eq, Structural)]
pub enum WeaponGroup {
    Primary,
    Secondary,
    Other,
}

/// The kinds of weapons, in the order of their indices.
#[derive(Debug, Copy, Clone, PartialEq, Eq, Structural)]
pub enum WeaponKind {
    DesertEagles,
    MP5,
    Ak74,
    SteyrAUG,
    Spas12,
    Ruger77,
    M79,
    Barrett,
    Minimi,
    Minigun,
    USSOCOM,
    Knife,
    Chainsaw,
    LAW,
    FlameBow,
    Bow,
    Flamer,
    M2,
    NoWeapon,
    FragGrenade,
    ClusterGrenade,
    Cluster,
    ThrownKnife,
}

/// The index of a weapon kind: its position in the list of kinds.
pub open spec fn kind_index(k: WeaponKind) -> nat {
    match k {
        WeaponKind::DesertEagles => 0,
        WeaponKind::MP5 => 1,
        WeaponKind::Ak74 => 2,
        WeaponKind::SteyrAUG => 3,
        WeaponKind::Spas12 => 4,
        WeaponKind::Ruger77 => 5,
        WeaponKind::M79 => 6,
        WeaponKind::Barrett => 7,
        WeaponKind::Minimi => 8,
        WeaponKind::Minigun => 9,
        WeaponKind::USSOCOM => 10,
        WeaponKind::Knife => 11,
        WeaponKind::Chainsaw => 12,
        WeaponKind::LAW => 13,
        WeaponKind::FlameBow => 14,
        WeaponKind::Bow => 15,
        WeaponKind::Flamer => 16,
        WeaponKind::M2 => 17,
        WeaponKind::NoWeapon => 18,
        WeaponKind::FragGrenade => 19,
        WeaponKind::ClusterGrenade => 20,
        WeaponKind::Cluster => 21,
        WeaponKind::ThrownKnife => 22,
    }
}

/// The slot of each weapon kind: the first ten are primary weapons, the next
/// four secondary ones, the rest neither.
pub open spec fn kind_group(k: WeaponKind) -> WeaponGroup {
    if kind_index(k) < 10 {
        WeaponGroup::Primary
    } else if kind_index(k) < 14 {
        WeaponGroup::Secondary
    } else {
        WeaponGroup::Other
    }
}

impl Default for WeaponKind {
    fn default() -> (k: WeaponKind)
        ensures
            k == WeaponKind::NoWeapon,
    {
        WeaponKind::NoWeapon
    }
}

impl WeaponKind {
    /// The position of this kind in the list of kinds.
    pub fn index(&self) -> (i: usize)
        ensures
            i == kind_index(*self),
    {
        match self {
            WeaponKind::DesertEagles => 0,
            WeaponKind::MP5 => 1,
            WeaponKind::Ak74 => 2,
            WeaponKind::SteyrAUG => 3,
            WeaponKind::Spas12 => 4,
            WeaponKind::Ruger77 => 5,
            WeaponKind::M79 => 6,
            WeaponKind::Barrett => 7,
            WeaponKind::Minimi => 8,
            WeaponKind::Minigun => 9,
            WeaponKind::USSOCOM => 10,
            WeaponKind::Knife => 11,
            WeaponKind::Chainsaw => 12,
            WeaponKind::LAW => 13,
            WeaponKind::FlameBow => 14,
            WeaponKind::Bow => 15,
            WeaponKind::Flamer => 16,
            WeaponKind::M2 => 17,
            WeaponKind::NoWeapon => 18,
            WeaponKind::FragGrenade => 19,
            WeaponKind::ClusterGrenade => 20,
            WeaponKind::Cluster => 21,
            WeaponKind::ThrownKnife => 22,
        }
    }

    /// All weapon kinds, in the order of their indices.
    pub fn values() -> (v: Vec<WeaponKind>)
        ensures
            v@.len() == 23,
            forall|i: int| 0 <= i < v@.len() ==> kind_index(#[trigger] v@[i]) == i,
    {
        let v: Vec<WeaponKind> = vec![
            WeaponKind::DesertEagles,
            WeaponKind::MP5,
            WeaponKind::Ak74,
            WeaponKind::SteyrAUG,
            WeaponKind::Spas12,
            WeaponKind::Ruger77,
            WeaponKind::M79,
            WeaponKind::Barrett,
            WeaponKind::Minimi,
            WeaponKind::Minigun,
            WeaponKind::USSOCOM,
            WeaponKind::Knife,
            WeaponKind::Chainsaw,
            WeaponKind::LAW,
            WeaponKind::FlameBow,
            WeaponKind::Bow,
            WeaponKind::Flamer,
            WeaponKind::M2,
            WeaponKind::NoWeapon,
            WeaponKind::FragGrenade,
            WeaponKind::ClusterGrenade,
            WeaponKind::Cluster,
            WeaponKind::ThrownKnife,
        ];
        v
    }

    /// The next weapon when cycling through the weapons a soldier can hold
    /// (all kinds up to and including `NoWeapon`), wrapping around.
    pub fn next_in_cycle(&self) -> (k: WeaponKind)
        ensures
            kind_index(k) == (kind_index(*self) + 1) % (kind_index(WeaponKind::NoWeapon) + 1),
    {
        let all = WeaponKind::values();
        let i: usize = (self.index() + 1) % (WeaponKind::NoWeapon.index() + 1);
        all[i]
    }

    /// The slot of this weapon kind.
    pub fn group(&self) -> (g: WeaponGroup)
        ensures
            g == kind_group(*self),
    {
        match self {
            WeaponKind::DesertEagles => WeaponGroup::Primary,
            WeaponKind::MP5 => WeaponGroup::Primary,
            WeaponKind::Ak74 => WeaponGroup::Primary,
            WeaponKind::SteyrAUG => WeaponGroup::Primary,
            WeaponKind::Spas12 => WeaponGroup::Primary,
            WeaponKind::Ruger77 => WeaponGroup::Primary,
            WeaponKind::M79 => WeaponGroup::Primary,
            WeaponKind::Barrett => WeaponGroup::Primary,
            WeaponKind::Minimi => WeaponGroup::Primary,
            WeaponKind::Minigun => WeaponGroup::Primary,
            WeaponKind::USSOCOM => WeaponGroup::Secondary,
            WeaponKind::Knife => WeaponGroup::Secondary,
            WeaponKind::Chainsaw => WeaponGroup::Secondary,
            WeaponKind::LAW => WeaponGroup::Secondary,
            WeaponKind::FlameBow => WeaponGroup::Other,
            WeaponKind::Bow => WeaponGroup::Other,
            WeaponKind::Flamer => WeaponGroup::Other,
            WeaponKind::M2 => WeaponGroup::Other,
            WeaponKind::NoWeapon => WeaponGroup::Other,
            WeaponKind::FragGrenade => WeaponGroup::Other,
            WeaponKind::ClusterGrenade => WeaponGroup::Other,
            WeaponKind::Cluster => WeaponGroup::Other,
            WeaponKind::ThrownKnife => WeaponGroup::Other,
        }
    }
}

/// Every weapon kind stands in `values()` at its index, so the list holds
/// each kind exactly once.
pub proof fn lemma_index_injective(a: WeaponKind, b: WeaponKind)
    ensures
        kind_index(a) == kind_index(b) ==> a == b,
        kind_index(a) < 23,
{
}

/// The sprites that weapons are drawn with.
#[derive(Debug, Copy, Clone, PartialEq, Eq, Structural)]
pub enum WeaponSprite {
    Ak74,
    Ak74Bullet,
    Ak74Clip,
    Ak74Fire,
    Barrett,
    BarrettBullet,
    BarrettClip,
    BarrettFire,
    Bow,
    BowFire,
    BowS,
    Chainsaw,
    ChainsawFire,
    ColtBullet,
    Deagles,
    DeaglesBullet,
    DeaglesClip,
    DeaglesFire,
    Flamer,
    FlamerFire,
    FragGrenade,
    Knife,
    Law,
    LawFire,
    M79,
    M79Clip,
    M79Fire,
    Minigun,
    MinigunBullet,
    MinigunFire,
    Minimi,
    MinimiBullet,
    MinimiClip,
    MinimiFire,
    Mp5,
    Mp5Bullet,
    Mp5Clip,
    Mp5Fire,
    Ruger,
    RugerBullet,
    RugerFire,
    Socom,
    SocomClip,
    SocomFire,
    Spas,
    SpasFire,
    Steyr,
    SteyrBullet,
    SteyrClip,
    SteyrFire,
}

/// The fixed characteristics of a weapon kind in one game mode. The
/// `f32` characteristics are given by their IEEE-754 bit patterns.
#[derive(Debug, Copy, Clone)]
pub struct WeaponStats {
    pub name: &'static str,
    pub ini_name: &'static str,
    pub clip_reload: bool,
    pub fire_mode: u8,
    pub sprite: Option<WeaponSprite>,
    pub clip_sprite: Option<WeaponSprite>,
    pub bullet_sprite: Option<WeaponSprite>,
    pub fire_sprite: Option<WeaponSprite>,
    pub fire_interval: u16,
    pub ammo: u8,
    pub reload_time: u16,
    pub bullet_style: u8,
    pub start_up_time: u16,
    pub bink: i16,
    pub recoil: u16,
    pub hit_multiply: u32,
    pub speed: u32,
    pub movement_acc: u32,
    pub bullet_spread: u32,
    pub push: u32,
    pub inherited_velocity: u32,
    pub modifier_head: u32,
    pub modifier_chest: u32,
    pub modifier_legs: u32,
}

/// The characteristics of each weapon kind, in realistic mode and in
/// normal mode.
pub open spec fn spec_weapon_stats(kind: WeaponKind, realistic: bool) -> WeaponStats {
    match kind {
        WeaponKind::DesertEagles => if realistic {
            WeaponStats { name: "Desert Eagles", ini_name: "Desert Eagles", clip_reload: true, fire_mode: 2, sprite: Some(WeaponSprite::Deagles), clip_sprite: Some(WeaponSprite::DeaglesClip), bullet_sprite: Some(WeaponSprite::DeaglesBullet), fire_sprite: Some(WeaponSprite::DeaglesFire), fire_interval: 27, ammo: 7, reload_time: 106, bullet_style: 1, start_up_time: 0, bink: 0i16, recoil: 55, hit_multiply: 0x3FD47AE1, speed: 0x41980000, movement_acc: 0x3CA3D70A, bullet_spread: 0x3DCCCCCD, push: 0x3C86594B, inherited_velocity: 0x3F000000, modifier_head: 0x3F8CCCCD, modifier_chest: 0x3F800000, modifier_legs: 0x3F19999A }
        } else {
            WeaponStats { name: "Desert Eagles", ini_name: "Desert Eagles", clip_reload: true, fire_mode: 2, sprite: Some(WeaponSprite::Deagles), clip_sprite: Some(WeaponSprite::DeaglesClip), bullet_sprite: Some(WeaponSprite::DeaglesBullet), fire_sprite: Some(WeaponSprite::DeaglesFire), fire_interval: 24, ammo: 7, reload_time: 87, bullet_style: 1, start_up_time: 0, bink: 0i16, recoil: 0, hit_multiply: 0x3FE7AE14, speed: 0x41980000, movement_acc: 0x3C1374BC, bullet_spread: 0x3E19999A, push: 0x3C902DE0, inherited_velocity: 0x3F000000, modifier_head: 0x3F8CCCCD, modifier_chest: 0x3F733333, modifier_legs: 0x3F59999A }
        },
        WeaponKind::MP5 => if realistic {
            WeaponStats { name: "HK MP5", ini_name: "HK MP5", clip_reload: true, fire_mode: 0, sprite: Some(WeaponSprite::Mp5), clip_sprite: Some(WeaponSprite::Mp5Clip), bullet_sprite: Some(WeaponSprite::Mp5Bullet), fire_sprite: Some(WeaponSprite::Mp5Fire), fire_interval: 6, ammo: 30, reload_time: 110, bullet_style: 1, start_up_time: 0, bink: -10i16, recoil: 9, hit_multiply: 0x3F70A3D7, speed: 0x41973333, movement_acc: 0x3C23D70A, bullet_spread: 0x3CF5C28F, push: 0x3C86594B, inherited_velocity: 0x3F000000, modifier_head: 0x3F8CCCCD, modifier_chest: 0x3F800000, modifier_legs: 0x3F19999A }
        } else {
            WeaponStats { name: "HK MP5", ini_name: "HK MP5", clip_reload: true, fire_mode: 0, sprite: Some(WeaponSprite::Mp5), clip_sprite: Some(WeaponSprite::Mp5Clip), bullet_sprite: Some(WeaponSprite::Mp5Bullet), fire_sprite: Some(WeaponSprite::Mp5Fire), fire_interval: 6, ammo: 30, reload_time: 105, bullet_style: 1, start_up_time: 0, bink: 0i16, recoil: 0, hit_multiply: 0x3F8147AE, speed: 0x41973333, movement_acc: 0x00000000, bullet_spread: 0x3E0F5C29, push: 0x3C378034, inherited_velocity: 0x3F000000, modifier_head: 0x3F8CCCCD, modifier_chest: 0x3F733333, modifier_legs: 0x3F59999A }
        },
        WeaponKind::Ak74 => if realistic {
            WeaponStats { name: "Ak-74", ini_name: "Ak-74", clip_reload: true, fire_mode: 0, sprite: Some(WeaponSprite::Ak74), clip_sprite: Some(WeaponSprite::Ak74Clip), bullet_sprite: Some(WeaponSprite::Ak74Bullet), fire_sprite: Some(WeaponSprite::Ak74Fire), fire_interval: 11, ammo: 35, reload_time: 158, bullet_style: 1, start_up_time: 0, bink: -10i16, recoil: 13, hit_multiply: 0x3F8A3D71, speed: 0x41C00000, movement_acc: 0x3CA3D70A, bullet_spread: 0x00000000, push: 0x3C5844D0, inherited_velocity: 0x3F000000, modifier_head: 0x3F8CCCCD, modifier_chest: 0x3F800000, modifier_legs: 0x3F19999A }
        } else {
            WeaponStats { name: "Ak-74", ini_name: "Ak-74", clip_reload: true, fire_mode: 0, sprite: Some(WeaponSprite::Ak74), clip_sprite: Some(WeaponSprite::Ak74Clip), bullet_sprite: Some(WeaponSprite::Ak74Bullet), fire_sprite: Some(WeaponSprite::Ak74Fire), fire_interval: 10, ammo: 35, reload_time: 165, bullet_style: 1, start_up_time: 0, bink: -12i16, recoil: 0, hit_multiply: 0x3F808312, speed: 0x41C4CCCD, movement_acc: 0x3C343958, bullet_spread: 0x3CCCCCCD, push: 0x3C61719F, inherited_velocity: 0x3F000000, modifier_head: 0x3F8CCCCD, modifier_chest: 0x3F733333, modifier_legs: 0x3F59999A }
        },
        WeaponKind::SteyrAUG => if realistic {
            WeaponStats { name: "Steyr AUG", ini_name: "Steyr AUG", clip_reload: true, fire_mode: 0, sprite: Some(WeaponSprite::Steyr), clip_sprite: Some(WeaponSprite::SteyrClip), bullet_sprite: Some(WeaponSprite::SteyrBullet), fire_sprite: Some(WeaponSprite::SteyrFire), fire_interval: 7, ammo: 30, reload_time: 126, bullet_style: 1, start_up_time: 0, bink: -9i16, recoil: 11, hit_multiply: 0x3F2E147B, speed: 0x41D00000, movement_acc: 0x3C23D70A, bullet_spread: 0x00000000, push: 0x3C449BA6, inherited_velocity: 0x3F000000, modifier_head: 0x3F8CCCCD, modifier_chest: 0x3F800000, modifier_legs: 0x3F19999A }
        } else {
            WeaponStats { name: "Steyr AUG", ini_name: "Steyr AUG", clip_reload: true, fire_mode: 0, sprite: Some(WeaponSprite::Steyr), clip_sprite: Some(WeaponSprite::SteyrClip), bullet_sprite: Some(WeaponSprite::SteyrBullet), fire_sprite: Some(WeaponSprite::SteyrFire), fire_interval: 7, ammo: 25, reload_time: 125, bullet_style: 1, start_up_time: 0, bink: 0i16, recoil: 0, hit_multiply: 0x3F35C28F, speed: 0x41D00000, movement_acc: 0x00000000, bullet_spread: 0x3D99999A, push: 0x3C09A027, inherited_velocity: 0x3F000000, modifier_head: 0x3F8CCCCD, modifier_chest: 0x3F733333, modifier_legs: 0x3F59999A }
        },
        WeaponKind::Spas12 => if realistic {
            WeaponStats { name: "Spas-12", ini_name: "Spas-12", clip_reload: false, fire_mode: 2, sprite: Some(WeaponSprite::Spas), clip_sprite: None, bullet_sprite: None, fire_sprite: Some(WeaponSprite::SpasFire), fire_interval: 35, ammo: 7, reload_time: 175, bullet_style: 3, start_up_time: 0, bink: 0i16, recoil: 65, hit_multiply: 0x3F99999A, speed: 0x41533333, movement_acc: 0x3C23D70A, bullet_spread: 0x3F4CCCCD, push: 0x3CB78034, inherited_velocity: 0x3F000000, modifier_head: 0x3F8CCCCD, modifier_chest: 0x3F800000, modifier_legs: 0x3F19999A }
        } else {
            WeaponStats { name: "Spas-12", ini_name: "Spas-12", clip_reload: false, fire_mode: 2, sprite: Some(WeaponSprite::Spas), clip_sprite: None, bullet_sprite: None, fire_sprite: Some(WeaponSprite::SpasFire), fire_interval: 32, ammo: 7, reload_time: 175, bullet_style: 3, start_up_time: 0, bink: 0i16, recoil: 0, hit_multiply: 0x3F9C28F6, speed: 0x41600000, movement_acc: 0x00000000, bullet_spread: 0x3F4CCCCD, push: 0x3C9A0275, inherited_velocity: 0x3F000000, modifier_head: 0x3F8CCCCD, modifier_chest: 0x3F733333, modifier_legs: 0x3F59999A }
        },
        WeaponKind::Ruger77 => if realistic {
            WeaponStats { name: "Ruger 77", ini_name: "Ruger 77", clip_reload: false, fire_mode: 2, sprite: Some(WeaponSprite::Ruger), clip_sprite: None, bullet_sprite: Some(WeaponSprite::RugerBullet), fire_sprite: Some(WeaponSprite::RugerFire), fire_interval: 52, ammo: 4, reload_time: 104, bullet_style: 1, start_up_time: 0, bink: 14i16, recoil: 54, hit_multiply: 0x400E147B, speed: 0x42040000, movement_acc: 0x3CF5C28F, bullet_spread: 0x00000000, push: 0x3C1D4952, inherited_velocity: 0x3F000000, modifier_head: 0x3F8CCCCD, modifier_chest: 0x3F800000, modifier_legs: 0x3F19999A }
        } else {
            WeaponStats { name: "Ruger 77", ini_name: "Ruger 77", clip_reload: false, fire_mode: 2, sprite: Some(WeaponSprite::Ruger), clip_sprite: None, bullet_sprite: Some(WeaponSprite::RugerBullet), fire_sprite: Some(WeaponSprite::RugerFire), fire_interval: 45, ammo: 4, reload_time: 78, bullet_style: 1, start_up_time: 0, bink: 0i16, recoil: 0, hit_multiply: 0x401F5C29, speed: 0x42040000, movement_acc: 0x3CF5C28F, bullet_spread: 0x00000000, push: 0x3C449BA6, inherited_velocity: 0x3F000000, modifier_head: 0x3F99999A, modifier_chest: 0x3F866666, modifier_legs: 0x3F800000 }
        },
        WeaponKind::M79 => if realistic {
            WeaponStats { name: "M79", ini_name: "M79", clip_reload: true, fire_mode: 0, sprite: Some(WeaponSprite::M79), clip_sprite: Some(WeaponSprite::M79Clip), bullet_sprite: None, fire_sprite: Some(WeaponSprite::M79Fire), fire_interval: 6, ammo: 1, reload_time: 173, bullet_style: 4, start_up_time: 0, bink: 45i16, recoil: 420, hit_multiply: 0x44C80000, speed: 0x41366666, movement_acc: 0x3CF5C28F, bullet_spread: 0x00000000, push: 0x3CC49BA6, inherited_velocity: 0x3F000000, modifier_head: 0x3F8CCCCD, modifier_chest: 0x3F800000, modifier_legs: 0x3F19999A }
        } else {
            WeaponStats { name: "M79", ini_name: "M79", clip_reload: true, fire_mode: 0, sprite: Some(WeaponSprite::M79), clip_sprite: Some(WeaponSprite::M79Clip), bullet_sprite: None, fire_sprite: Some(WeaponSprite::M79Fire), fire_interval: 6, ammo: 1, reload_time: 178, bullet_style: 4, start_up_time: 0, bink: 0i16, recoil: 0, hit_multiply: 0x44C1C000, speed: 0x412B3333, movement_acc: 0x00000000, bullet_spread: 0x00000000, push: 0x3D1374BC, inherited_velocity: 0x3F000000, modifier_head: 0x3F933333, modifier_chest: 0x3F800000, modifier_legs: 0x3F666666 }
        },
        WeaponKind::Barrett => if realistic {
            WeaponStats { name: "Barrett M82A1", ini_name: "Barret M82A1", clip_reload: true, fire_mode: 2, sprite: Some(WeaponSprite::Barrett), clip_sprite: Some(WeaponSprite::BarrettClip), bullet_sprite: Some(WeaponSprite::BarrettBullet), fire_sprite: Some(WeaponSprite::BarrettFire), fire_interval: 200, ammo: 10, reload_time: 170, bullet_style: 1, start_up_time: 16, bink: 80i16, recoil: 0, hit_multiply: 0x409E6666, speed: 0x425C0000, movement_acc: 0x3D8F5C29, bullet_spread: 0x00000000, push: 0x3BB78034, inherited_velocity: 0x3F000000, modifier_head: 0x3F8CCCCD, modifier_chest: 0x3F800000, modifier_legs: 0x3F19999A }
        } else {
            WeaponStats { name: "Barrett M82A1", ini_name: "Barret M82A1", clip_reload: true, fire_mode: 2, sprite: Some(WeaponSprite::Barrett), clip_sprite: Some(WeaponSprite::BarrettClip), bullet_sprite: Some(WeaponSprite::BarrettBullet), fire_sprite: Some(WeaponSprite::BarrettFire), fire_interval: 225, ammo: 10, reload_time: 70, bullet_style: 1, start_up_time: 19, bink: 65i16, recoil: 0, hit_multiply: 0x408E6666, speed: 0x425C0000, movement_acc: 0x3D4CCCCD, bullet_spread: 0x00000000, push: 0x3C9374BC, inherited_velocity: 0x3F000000, modifier_head: 0x3F800000, modifier_chest: 0x3F800000, modifier_legs: 0x3F800000 }
        },
        WeaponKind::Minimi => if realistic {
            WeaponStats { name: "FN Minimi", ini_name: "FN Minimi", clip_reload: true, fire_mode: 0, sprite: Some(WeaponSprite::Minimi), clip_sprite: Some(WeaponSprite::MinimiClip), bullet_sprite: Some(WeaponSprite::MinimiBullet), fire_sprite: Some(WeaponSprite::MinimiFire), fire_interval: 10, ammo: 50, reload_time: 261, bullet_style: 1, start_up_time: 0, bink: -8i16, recoil: 8, hit_multiply: 0x3F4F5C29, speed: 0x41D80000, movement_acc: 0x3CA3D70A, bullet_spread: 0x00000000, push: 0x3C3E0DED, inherited_velocity: 0x3F000000, modifier_head: 0x3F8CCCCD, modifier_chest: 0x3F800000, modifier_legs: 0x3F19999A }
        } else {
            WeaponStats { name: "FN Minimi", ini_name: "FN Minimi", clip_reload: true, fire_mode: 0, sprite: Some(WeaponSprite::Minimi), clip_sprite: Some(WeaponSprite::MinimiClip), bullet_sprite: Some(WeaponSprite::MinimiBullet), fire_sprite: Some(WeaponSprite::MinimiFire), fire_interval: 9, ammo: 50, reload_time: 250, bullet_style: 1, start_up_time: 0, bink: 0i16, recoil: 0, hit_multiply: 0x3F59999A, speed: 0x41D80000, movement_acc: 0x3C54FDF4, bullet_spread: 0x3D83126F, push: 0x3C51B717, inherited_velocity: 0x3F000000, modifier_head: 0x3F8CCCCD, modifier_chest: 0x3F733333, modifier_legs: 0x3F59999A }
        },
        WeaponKind::Minigun => if realistic {
            WeaponStats { name: "XM214 Minigun", ini_name: "XM214 Minigun", clip_reload: false, fire_mode: 0, sprite: Some(WeaponSprite::Minigun), clip_sprite: None, bullet_sprite: Some(WeaponSprite::MinigunBullet), fire_sprite: Some(WeaponSprite::MinigunFire), fire_interval: 4, ammo: 100, reload_time: 320, bullet_style: 1, start_up_time: 33, bink: -2i16, recoil: 4, hit_multiply: 0x3EDC28F6, speed: 0x41E80000, movement_acc: 0x3C23D70A, bullet_spread: 0x3DCCCCCD, push: 0x3C30F27C, inherited_velocity: 0x3F000000, modifier_head: 0x3F8CCCCD, modifier_chest: 0x3F800000, modifier_legs: 0x3F19999A }
        } else {
            WeaponStats { name: "XM214 Minigun", ini_name: "XM214 Minigun", clip_reload: false, fire_mode: 0, sprite: Some(WeaponSprite::Minigun), clip_sprite: None, bullet_sprite: Some(WeaponSprite::MinigunBullet), fire_sprite: Some(WeaponSprite::MinigunFire), fire_interval: 3, ammo: 100, reload_time: 480, bullet_style: 1, start_up_time: 25, bink: 0i16, recoil: 0, hit_multiply: 0x3EEF9DB2, speed: 0x41E80000, movement_acc: 0x3D800000, bullet_spread: 0x3E99999A, push: 0x3C2A64C3, inherited_velocity: 0x3F000000, modifier_head: 0x3F8CCCCD, modifier_chest: 0x3F733333, modifier_legs: 0x3F59999A }
        },
        WeaponKind::USSOCOM => if realistic {
            WeaponStats { name: "USSOCOM", ini_name: "USSOCOM", clip_reload: true, fire_mode: 2, sprite: Some(WeaponSprite::Socom), clip_sprite: Some(WeaponSprite::SocomClip), bullet_sprite: Some(WeaponSprite::ColtBullet), fire_sprite: Some(WeaponSprite::SocomFire), fire_interval: 12, ammo: 12, reload_time: 72, bullet_style: 1, start_up_time: 0, bink: 0i16, recoil: 28, hit_multiply: 0x3FA66666, speed: 0x41900000, movement_acc: 0x3CA3D70A, bullet_spread: 0x00000000, push: 0x3C8CE704, inherited_velocity: 0x3F000000, modifier_head: 0x3F8CCCCD, modifier_chest: 0x3F800000, modifier_legs: 0x3F19999A }
        } else {
            WeaponStats { name: "USSOCOM", ini_name: "USSOCOM", clip_reload: true, fire_mode: 2, sprite: Some(WeaponSprite::Socom), clip_sprite: Some(WeaponSprite::SocomClip), bullet_sprite: Some(WeaponSprite::ColtBullet), fire_sprite: Some(WeaponSprite::SocomFire), fire_interval: 10, ammo: 14, reload_time: 60, bullet_style: 1, start_up_time: 0, bink: 0i16, recoil: 0, hit_multiply: 0x3FBEB852, speed: 0x41900000, movement_acc: 0x00000000, bullet_spread: 0x00000000, push: 0x3CA3D70A, inherited_velocity: 0x3F000000, modifier_head: 0x3F8CCCCD, modifier_chest: 0x3F733333, modifier_legs: 0x3F59999A }
        },
        WeaponKind::Knife => if realistic {
            WeaponStats { name: "Combat Knife", ini_name: "Combat Knife", clip_reload: false, fire_mode: 0, sprite: Some(WeaponSprite::Knife), clip_sprite: None, bullet_sprite: None, fire_sprite: None, fire_interval: 6, ammo: 1, reload_time: 3, bullet_style: 11, start_up_time: 0, bink: 0i16, recoil: 10, hit_multiply: 0x450CA000, speed: 0x40C00000, movement_acc: 0x3C23D70A, bullet_spread: 0x00000000, push: 0x3CE56042, inherited_velocity: 0x00000000, modifier_head: 0x3F8CCCCD, modifier_chest: 0x3F800000, modifier_legs: 0x3F19999A }
        } else {
            WeaponStats { name: "Combat Knife", ini_name: "Combat Knife", clip_reload: false, fire_mode: 0, sprite: Some(WeaponSprite::Knife), clip_sprite: None, bullet_sprite: None, fire_sprite: None, fire_interval: 6, ammo: 1, reload_time: 3, bullet_style: 11, start_up_time: 0, bink: 0i16, recoil: 0, hit_multiply: 0x45066000, speed: 0x40C00000, movement_acc: 0x00000000, bullet_spread: 0x00000000, push: 0x3DF5C28F, inherited_velocity: 0x00000000, modifier_head: 0x3F933333, modifier_chest: 0x3F800000, modifier_legs: 0x3F666666 }
        },
        WeaponKind::Chainsaw => if realistic {
            WeaponStats { name: "Chainsaw", ini_name: "Chainsaw", clip_reload: false, fire_mode: 0, sprite: Some(WeaponSprite::Chainsaw), clip_sprite: None, bullet_sprite: None, fire_sprite: Some(WeaponSprite::ChainsawFire), fire_interval: 2, ammo: 200, reload_time: 110, bullet_style: 11, start_up_time: 0, bink: 0i16, recoil: 1, hit_multiply: 0x41A80000, speed: 0x40F33333, movement_acc: 0x3C23D70A, bullet_spread: 0x00000000, push: 0x3B378034, inherited_velocity: 0x00000000, modifier_head: 0x3F8CCCCD, modifier_chest: 0x3F800000, modifier_legs: 0x3F19999A }
        } else {
            WeaponStats { name: "Chainsaw", ini_name: "Chainsaw", clip_reload: false, fire_mode: 0, sprite: Some(WeaponSprite::Chainsaw), clip_sprite: None, bullet_sprite: None, fire_sprite: Some(WeaponSprite::ChainsawFire), fire_interval: 2, ammo: 200, reload_time: 110, bullet_style: 11, start_up_time: 0, bink: 0i16, recoil: 0, hit_multiply: 0x42480000, speed: 0x41000000, movement_acc: 0x00000000, bullet_spread: 0x00000000, push: 0x3B378034, inherited_velocity: 0x00000000, modifier_head: 0x3F933333, modifier_chest: 0x3F800000, modifier_legs: 0x3F666666 }
        },
        WeaponKind::LAW => if realistic {
            WeaponStats { name: "LAW", ini_name: "M72 LAW", clip_reload: true, fire_mode: 0, sprite: Some(WeaponSprite::Law), clip_sprite: None, bullet_sprite: None, fire_sprite: Some(WeaponSprite::LawFire), fire_interval: 30, ammo: 1, reload_time: 495, bullet_style: 12, start_up_time: 12, bink: 0i16, recoil: 9, hit_multiply: 0x44BB8000, speed: 0x41B80000, movement_acc: 0x3C23D70A, bullet_spread: 0x00000000, push: 0x3C449BA6, inherited_velocity: 0x3F000000, modifier_head: 0x3F8CCCCD, modifier_chest: 0x3F800000, modifier_legs: 0x3F19999A }
        } else {
            WeaponStats { name: "LAW", ini_name: "M72 LAW", clip_reload: true, fire_mode: 0, sprite: Some(WeaponSprite::Law), clip_sprite: None, bullet_sprite: None, fire_sprite: Some(WeaponSprite::LawFire), fire_interval: 6, ammo: 1, reload_time: 300, bullet_style: 12, start_up_time: 13, bink: 0i16, recoil: 0, hit_multiply: 0x44C1C000, speed: 0x41B80000, movement_acc: 0x00000000, bullet_spread: 0x00000000, push: 0x3CE56042, inherited_velocity: 0x3F000000, modifier_head: 0x3F933333, modifier_chest: 0x3F800000, modifier_legs: 0x3F666666 }
        },
        WeaponKind::FlameBow => if realistic {
            WeaponStats { name: "Flame Bow", ini_name: "Flamed Arrows", clip_reload: false, fire_mode: 0, sprite: Some(WeaponSprite::Bow), clip_sprite: Some(WeaponSprite::BowS), bullet_sprite: None, fire_sprite: Some(WeaponSprite::BowFire), fire_interval: 10, ammo: 1, reload_time: 39, bullet_style: 8, start_up_time: 0, bink: 0i16, recoil: 10, hit_multiply: 0x41000000, speed: 0x41900000, movement_acc: 0x3C23D70A, bullet_spread: 0x00000000, push: 0x00000000, inherited_velocity: 0x3F000000, modifier_head: 0x3F8CCCCD, modifier_chest: 0x3F800000, modifier_legs: 0x3F19999A }
        } else {
            WeaponStats { name: "Flame Bow", ini_name: "Flamed Arrows", clip_reload: false, fire_mode: 0, sprite: Some(WeaponSprite::Bow), clip_sprite: Some(WeaponSprite::BowS), bullet_sprite: None, fire_sprite: Some(WeaponSprite::BowFire), fire_interval: 10, ammo: 1, reload_time: 39, bullet_style: 8, start_up_time: 0, bink: 0i16, recoil: 0, hit_multiply: 0x41000000, speed: 0x41900000, movement_acc: 0x00000000, bullet_spread: 0x00000000, push: 0x00000000, inherited_velocity: 0x3F000000, modifier_head: 0x3F933333, modifier_chest: 0x3F800000, modifier_legs: 0x3F666666 }
        },
        WeaponKind::Bow => if realistic {
            WeaponStats { name: "Bow", ini_name: "Rambo Bow", clip_reload: false, fire_mode: 0, sprite: Some(WeaponSprite::Bow), clip_sprite: Some(WeaponSprite::BowS), bullet_sprite: None, fire_sprite: Some(WeaponSprite::BowFire), fire_interval: 10, ammo: 1, reload_time: 25, bullet_style: 7, start_up_time: 0, bink: 0i16, recoil: 10, hit_multiply: 0x41400000, speed: 0x41A80000, movement_acc: 0x3C23D70A, bullet_spread: 0x00000000, push: 0x3C727BB3, inherited_velocity: 0x3F000000, modifier_head: 0x3F8CCCCD, modifier_chest: 0x3F800000, modifier_legs: 0x3F19999A }
        } else {
            WeaponStats { name: "Bow", ini_name: "Rambo Bow", clip_reload: false, fire_mode: 0, sprite: Some(WeaponSprite::Bow), clip_sprite: Some(WeaponSprite::BowS), bullet_sprite: None, fire_sprite: Some(WeaponSprite::BowFire), fire_interval: 10, ammo: 1, reload_time: 25, bullet_style: 7, start_up_time: 0, bink: 0i16, recoil: 0, hit_multiply: 0x41400000, speed: 0x41A80000, movement_acc: 0x00000000, bullet_spread: 0x00000000, push: 0x3C727BB3, inherited_velocity: 0x3F000000, modifier_head: 0x3F933333, modifier_chest: 0x3F800000, modifier_legs: 0x3F666666 }
        },
        WeaponKind::Flamer => if realistic {
            WeaponStats { name: "Flamer", ini_name: "Flamer", clip_reload: false, fire_mode: 0, sprite: Some(WeaponSprite::Flamer), clip_sprite: Some(WeaponSprite::Flamer), bullet_sprite: None, fire_sprite: Some(WeaponSprite::FlamerFire), fire_interval: 6, ammo: 200, reload_time: 5, bullet_style: 5, start_up_time: 0, bink: 0i16, recoil: 10, hit_multiply: 0x41400000, speed: 0x41480000, movement_acc: 0x3C23D70A, bullet_spread: 0x00000000, push: 0x3C83126F, inherited_velocity: 0x3F000000, modifier_head: 0x3F8CCCCD, modifier_chest: 0x3F800000, modifier_legs: 0x3F19999A }
        } else {
            WeaponStats { name: "Flamer", ini_name: "Flamer", clip_reload: false, fire_mode: 0, sprite: Some(WeaponSprite::Flamer), clip_sprite: Some(WeaponSprite::Flamer), bullet_sprite: None, fire_sprite: Some(WeaponSprite::FlamerFire), fire_interval: 6, ammo: 200, reload_time: 5, bullet_style: 5, start_up_time: 0, bink: 0i16, recoil: 0, hit_multiply: 0x41980000, speed: 0x41280000, movement_acc: 0x00000000, bullet_spread: 0x00000000, push: 0x3C83126F, inherited_velocity: 0x3F000000, modifier_head: 0x3F933333, modifier_chest: 0x3F800000, modifier_legs: 0x3F666666 }
        },
        WeaponKind::M2 => if realistic {
            WeaponStats { name: "M2 MG", ini_name: "Stationary Gun", clip_reload: false, fire_mode: 0, sprite: Some(WeaponSprite::Minigun), clip_sprite: None, bullet_sprite: None, fire_sprite: None, fire_interval: 14, ammo: 100, reload_time: 366, bullet_style: 14, start_up_time: 21, bink: 0i16, recoil: 10, hit_multiply: 0x3FC66666, speed: 0x42100000, movement_acc: 0x3C23D70A, bullet_spread: 0x00000000, push: 0x3C102DE0, inherited_velocity: 0x00000000, modifier_head: 0x3F8CCCCD, modifier_chest: 0x3F800000, modifier_legs: 0x3F19999A }
        } else {
            WeaponStats { name: "M2 MG", ini_name: "Stationary Gun", clip_reload: false, fire_mode: 0, sprite: Some(WeaponSprite::Minigun), clip_sprite: None, bullet_sprite: None, fire_sprite: None, fire_interval: 10, ammo: 100, reload_time: 366, bullet_style: 14, start_up_time: 0, bink: 0i16, recoil: 0, hit_multiply: 0x3FE66666, speed: 0x42100000, movement_acc: 0x00000000, bullet_spread: 0x00000000, push: 0x3C102DE0, inherited_velocity: 0x00000000, modifier_head: 0x3F8CCCCD, modifier_chest: 0x3F733333, modifier_legs: 0x3F59999A }
        },
        WeaponKind::NoWeapon => if realistic {
            WeaponStats { name: "Hands", ini_name: "Punch", clip_reload: false, fire_mode: 0, sprite: None, clip_sprite: None, bullet_sprite: None, fire_sprite: None, fire_interval: 6, ammo: 1, reload_time: 3, bullet_style: 6, start_up_time: 0, bink: 0i16, recoil: 10, hit_multiply: 0x43A50000, speed: 0x40A00000, movement_acc: 0x3C23D70A, bullet_spread: 0x00000000, push: 0x00000000, inherited_velocity: 0x00000000, modifier_head: 0x3F8CCCCD, modifier_chest: 0x3F800000, modifier_legs: 0x3F19999A }
        } else {
            WeaponStats { name: "Hands", ini_name: "Punch", clip_reload: false, fire_mode: 0, sprite: None, clip_sprite: None, bullet_sprite: None, fire_sprite: None, fire_interval: 6, ammo: 1, reload_time: 3, bullet_style: 6, start_up_time: 0, bink: 0i16, recoil: 0, hit_multiply: 0x43A50000, speed: 0x40A00000, movement_acc: 0x00000000, bullet_spread: 0x00000000, push: 0x00000000, inherited_velocity: 0x00000000, modifier_head: 0x3F933333, modifier_chest: 0x3F800000, modifier_legs: 0x3F666666 }
        },
        WeaponKind::FragGrenade => if realistic {
            WeaponStats { name: "Frag Grenade", ini_name: "Grenade", clip_reload: false, fire_mode: 0, sprite: Some(WeaponSprite::FragGrenade), clip_sprite: Some(WeaponSprite::FragGrenade), bullet_sprite: None, fire_sprite: Some(WeaponSprite::Ak74Fire), fire_interval: 80, ammo: 1, reload_time: 20, bullet_style: 2, start_up_time: 0, bink: 0i16, recoil: 10, hit_multiply: 0x44BB8000, speed: 0x40A00000, movement_acc: 0x3C23D70A, bullet_spread: 0x00000000, push: 0x00000000, inherited_velocity: 0x3F800000, modifier_head: 0x3F8CCCCD, modifier_chest: 0x3F800000, modifier_legs: 0x3F19999A }
        } else {
            WeaponStats { name: "Frag Grenade", ini_name: "Grenade", clip_reload: false, fire_mode: 0, sprite: Some(WeaponSprite::FragGrenade), clip_sprite: Some(WeaponSprite::FragGrenade), bullet_sprite: None, fire_sprite: Some(WeaponSprite::Ak74Fire), fire_interval: 80, ammo: 1, reload_time: 20, bullet_style: 2, start_up_time: 0, bink: 0i16, recoil: 0, hit_multiply: 0x44BB8000, speed: 0x40A00000, movement_acc: 0x00000000, bullet_spread: 0x00000000, push: 0x00000000, inherited_velocity: 0x3F800000, modifier_head: 0x3F800000, modifier_chest: 0x3F800000, modifier_legs: 0x3F800000 }
        },
        WeaponKind::ClusterGrenade => if realistic {
            WeaponStats { name: "Frag Grenade", ini_name: "", clip_reload: false, fire_mode: 0, sprite: Some(WeaponSprite::FragGrenade), clip_sprite: Some(WeaponSprite::FragGrenade), bullet_sprite: None, fire_sprite: Some(WeaponSprite::Ak74Fire), fire_interval: 80, ammo: 1, reload_time: 20, bullet_style: 9, start_up_time: 0, bink: 0i16, recoil: 10, hit_multiply: 0x44BB8000, speed: 0x40A00000, movement_acc: 0x3C23D70A, bullet_spread: 0x00000000, push: 0x00000000, inherited_velocity: 0x3F800000, modifier_head: 0x3F8CCCCD, modifier_chest: 0x3F800000, modifier_legs: 0x3F19999A }
        } else {
            WeaponStats { name: "Frag Grenade", ini_name: "", clip_reload: false, fire_mode: 0, sprite: Some(WeaponSprite::FragGrenade), clip_sprite: Some(WeaponSprite::FragGrenade), bullet_sprite: None, fire_sprite: Some(WeaponSprite::Ak74Fire), fire_interval: 80, ammo: 1, reload_time: 20, bullet_style: 9, start_up_time: 0, bink: 0i16, recoil: 0, hit_multiply: 0x44BB8000, speed: 0x40A00000, movement_acc: 0x00000000, bullet_spread: 0x00000000, push: 0x00000000, inherited_velocity: 0x3F800000, modifier_head: 0x3F800000, modifier_chest: 0x3F800000, modifier_legs: 0x3F800000 }
        },
        WeaponKind::Cluster => if realistic {
            WeaponStats { name: "Frag Grenade", ini_name: "", clip_reload: false, fire_mode: 0, sprite: Some(WeaponSprite::FragGrenade), clip_sprite: Some(WeaponSprite::FragGrenade), bullet_sprite: None, fire_sprite: Some(WeaponSprite::Ak74Fire), fire_interval: 80, ammo: 1, reload_time: 20, bullet_style: 10, start_up_time: 0, bink: 0i16, recoil: 10, hit_multiply: 0x44BB8000, speed: 0x40A00000, movement_acc: 0x3C23D70A, bullet_spread: 0x00000000, push: 0x00000000, inherited_velocity: 0x3F800000, modifier_head: 0x3F8CCCCD, modifier_chest: 0x3F800000, modifier_legs: 0x3F19999A }
        } else {
            WeaponStats { name: "Frag Grenade", ini_name: "", clip_reload: false, fire_mode: 0, sprite: Some(WeaponSprite::FragGrenade), clip_sprite: Some(WeaponSprite::FragGrenade), bullet_sprite: None, fire_sprite: Some(WeaponSprite::Ak74Fire), fire_interval: 80, ammo: 1, reload_time: 20, bullet_style: 10, start_up_time: 0, bink: 0i16, recoil: 0, hit_multiply: 0x44BB8000, speed: 0x40A00000, movement_acc: 0x00000000, bullet_spread: 0x00000000, push: 0x00000000, inherited_velocity: 0x3F800000, modifier_head: 0x3F800000, modifier_chest: 0x3F800000, modifier_legs: 0x3F800000 }
        },
        WeaponKind::ThrownKnife => if realistic {
            WeaponStats { name: "Combat Knife", ini_name: "", clip_reload: false, fire_mode: 0, sprite: Some(WeaponSprite::Knife), clip_sprite: None, bullet_sprite: None, fire_sprite: None, fire_interval: 6, ammo: 1, reload_time: 3, bullet_style: 13, start_up_time: 0, bink: 0i16, recoil: 10, hit_multiply: 0x450CA000, speed: 0x40C00000, movement_acc: 0x3C23D70A, bullet_spread: 0x00000000, push: 0x3CE56042, inherited_velocity: 0x00000000, modifier_head: 0x3F8CCCCD, modifier_chest: 0x3F800000, modifier_legs: 0x3F19999A }
        } else {
            WeaponStats { name: "Combat Knife", ini_name: "", clip_reload: false, fire_mode: 0, sprite: Some(WeaponSprite::Knife), clip_sprite: None, bullet_sprite: None, fire_sprite: None, fire_interval: 6, ammo: 1, reload_time: 3, bullet_style: 13, start_up_time: 0, bink: 0i16, recoil: 0, hit_multiply: 0x45066000, speed: 0x40C00000, movement_acc: 0x00000000, bullet_spread: 0x00000000, push: 0x3DF5C28F, inherited_velocity: 0x00000000, modifier_head: 0x3F933333, modifier_chest: 0x3F800000, modifier_legs: 0x3F666666 }
        },
    }
}

/// The characteristics of a weapon kind in the given mode.
pub fn weapon_stats(kind: WeaponKind, realistic: bool) -> (s: WeaponStats)
    ensures
        s == spec_weapon_stats(kind, realistic),
{
    match kind {
        WeaponKind::DesertEagles => if realistic {
            WeaponStats { name: "Desert Eagles", ini_name: "Desert Eagles", clip_reload: true, fire_mode: 2, sprite: Some(WeaponSprite::Deagles), clip_sprite: Some(WeaponSprite::DeaglesClip), bullet_sprite: Some(WeaponSprite::DeaglesBullet), fire_sprite: Some(WeaponSprite::DeaglesFire), fire_interval: 27, ammo: 7, reload_time: 106, bullet_style: 1, start_up_time: 0, bink: 0i16, recoil: 55, hit_multiply: 0x3FD47AE1, speed: 0x41980000, movement_acc: 0x3CA3D70A, bullet_spread: 0x3DCCCCCD, push: 0x3C86594B, inherited_velocity: 0x3F000000, modifier_head: 0x3F8CCCCD, modifier_chest: 0x3F800000, modifier_legs: 0x3F19999A }
        } else {
            WeaponStats { name: "Desert Eagles", ini_name: "Desert Eagles", clip_reload: true, fire_mode: 2, sprite: Some(WeaponSprite::Deagles), clip_sprite: Some(WeaponSprite::DeaglesClip), bullet_sprite: Some(WeaponSprite::DeaglesBullet), fire_sprite: Some(WeaponSprite::DeaglesFire), fire_interval: 24, ammo: 7, reload_time: 87, bullet_style: 1, start_up_time: 0, bink: 0i16, recoil: 0, hit_multiply: 0x3FE7AE14, speed: 0x41980000, movement_acc: 0x3C1374BC, bullet_spread: 0x3E19999A, push: 0x3C902DE0, inherited_velocity: 0x3F000000, modifier_head: 0x3F8CCCCD, modifier_chest: 0x3F733333, modifier_legs: 0x3F59999A }
        },
        WeaponKind::MP5 => if realistic {
            WeaponStats { name: "HK MP5", ini_name: "HK MP5", clip_reload: true, fire_mode: 0, sprite: Some(WeaponSprite::Mp5), clip_sprite: Some(WeaponSprite::Mp5Clip), bullet_sprite: Some(WeaponSprite::Mp5Bullet), fire_sprite: Some(WeaponSprite::Mp5Fire), fire_interval: 6, ammo: 30, reload_time: 110, bullet_style: 1, start_up_time: 0, bink: -10i16, recoil: 9, hit_multiply: 0x3F70A3D7, speed: 0x41973333, movement_acc: 0x3C23D70A, bullet_spread: 0x3CF5C28F, push: 0x3C86594B, inherited_velocity: 0x3F000000, modifier_head: 0x3F8CCCCD, modifier_chest: 0x3F800000, modifier_legs: 0x3F19999A }
        } else {
            WeaponStats { name: "HK MP5", ini_name: "HK MP5", clip_reload: true, fire_mode: 0, sprite: Some(WeaponSprite::Mp5), clip_sprite: Some(WeaponSprite::Mp5Clip), bullet_sprite: Some(WeaponSprite::Mp5Bullet), fire_sprite: Some(WeaponSprite::Mp5Fire), fire_interval: 6, ammo: 30, reload_time: 105, bullet_style: 1, start_up_time: 0, bink: 0i16, recoil: 0, hit_multiply: 0x3F8147AE, speed: 0x41973333, movement_acc: 0x00000000, bullet_spread: 0x3E0F5C29, push: 0x3C378034, inherited_velocity: 0x3F000000, modifier_head: 0x3F8CCCCD, modifier_chest: 0x3F733333, modifier_legs: 0x3F59999A }
        },
        WeaponKind::Ak74 => if realistic {
            WeaponStats { name: "Ak-74", ini_name: "Ak-74", clip_reload: true, fire_mode: 0, sprite: Some(WeaponSprite::Ak74), clip_sprite: Some(WeaponSprite::Ak74Clip), bullet_sprite: Some(WeaponSprite::Ak74Bullet), fire_sprite: Some(WeaponSprite::Ak74Fire), fire_interval: 11, ammo: 35, reload_time: 158, bullet_style: 1, start_up_time: 0, bink: -10i16, recoil: 13, hit_multiply: 0x3F8A3D71, speed: 0x41C00000, movement_acc: 0x3CA3D70A, bullet_spread: 0x00000000, push: 0x3C5844D0, inherited_velocity: 0x3F000000, modifier_head: 0x3F8CCCCD, modifier_chest: 0x3F800000, modifier_legs: 0x3F19999A }
        } else {
            WeaponStats { name: "Ak-74", ini_name: "Ak-74", clip_reload: true, fire_mode: 0, sprite: Some(WeaponSprite::Ak74), clip_sprite: Some(WeaponSprite::Ak74Clip), bullet_sprite: Some(WeaponSprite::Ak74Bullet), fire_sprite: Some(WeaponSprite::Ak74Fire), fire_interval: 10, ammo: 35, reload_time: 165, bullet_style: 1, start_up_time: 0, bink: -12i16, recoil: 0, hit_multiply: 0x3F808312, speed: 0x41C4CCCD, movement_acc: 0x3C343958, bullet_spread: 0x3CCCCCCD, push: 0x3C61719F, inherited_velocity: 0x3F000000, modifier_head: 0x3F8CCCCD, modifier_chest: 0x3F733333, modifier_legs: 0x3F59999A }
        },
        WeaponKind::SteyrAUG => if realistic {
            WeaponStats { name: "Steyr AUG", ini_name: "Steyr AUG", clip_reload: true, fire_mode: 0, sprite: Some(WeaponSprite::Steyr), clip_sprite: Some(WeaponSprite::SteyrClip), bullet_sprite: Some(WeaponSprite::SteyrBullet), fire_sprite: Some(WeaponSprite::SteyrFire), fire_interval: 7, ammo: 30, reload_time: 126, bullet_style: 1, start_up_time: 0, bink: -9i16, recoil: 11, hit_multiply: 0x3F2E147B, speed: 0x41D00000, movement_acc: 0x3C23D70A, bullet_spread: 0x00000000, push: 0x3C449BA6, inherited_velocity: 0x3F000000, modifier_head: 0x3F8CCCCD, modifier_chest: 0x3F800000, modifier_legs: 0x3F19999A }
        } else {
            WeaponStats { name: "Steyr AUG", ini_name: "Steyr AUG", clip_reload: true, fire_mode: 0, sprite: Some(WeaponSprite::Steyr), clip_sprite: Some(WeaponSprite::SteyrClip), bullet_sprite: Some(WeaponSprite::SteyrBullet), fire_sprite: Some(WeaponSprite::SteyrFire), fire_interval: 7, ammo: 25, reload_time: 125, bullet_style: 1, start_up_time: 0, bink: 0i16, recoil: 0, hit_multiply: 0x3F35C28F, speed: 0x41D00000, movement_acc: 0x00000000, bullet_spread: 0x3D99999A, push: 0x3C09A027, inherited_velocity: 0x3F000000, modifier_head: 0x3F8CCCCD, modifier_chest: 0x3F733333, modifier_legs: 0x3F59999A }
        },
        WeaponKind::Spas12 => if realistic {
            WeaponStats { name: "Spas-12", ini_name: "Spas-12", clip_reload: false, fire_mode: 2, sprite: Some(WeaponSprite::Spas), clip_sprite: None, bullet_sprite: None, fire_sprite: Some(WeaponSprite::SpasFire), fire_interval: 35, ammo: 7, reload_time: 175, bullet_style: 3, start_up_time: 0, bink: 0i16, recoil: 65, hit_multiply: 0x3F99999A, speed: 0x41533333, movement_acc: 0x3C23D70A, bullet_spread: 0x3F4CCCCD, push: 0x3CB78034, inherited_velocity: 0x3F000000, modifier_head: 0x3F8CCCCD, modifier_chest: 0x3F800000, modifier_legs: 0x3F19999A }
        } else {
            WeaponStats { name: "Spas-12", ini_name: "Spas-12", clip_reload: false, fire_mode: 2, sprite: Some(WeaponSprite::Spas), clip_sprite: None, bullet_sprite: None, fire_sprite: Some(WeaponSprite::SpasFire), fire_interval: 32, ammo: 7, reload_time: 175, bullet_style: 3, start_up_time: 0, bink: 0i16, recoil: 0, hit_multiply: 0x3F9C28F6, speed: 0x41600000, movement_acc: 0x00000000, bullet_spread: 0x3F4CCCCD, push: 0x3C9A0275, inherited_velocity: 0x3F000000, modifier_head: 0x3F8CCCCD, modifier_chest: 0x3F733333, modifier_legs: 0x3F59999A }
        },
        WeaponKind::Ruger77 => if realistic {
            WeaponStats { name: "Ruger 77", ini_name: "Ruger 77", clip_reload: false, fire_mode: 2, sprite: Some(WeaponSprite::Ruger), clip_sprite: None, bullet_sprite: Some(WeaponSprite::RugerBullet), fire_sprite: Some(WeaponSprite::RugerFire), fire_interval: 52, ammo: 4, reload_time: 104, bullet_style: 1, start_up_time: 0, bink: 14i16, recoil: 54, hit_multiply: 0x400E147B, speed: 0x42040000, movement_acc: 0x3CF5C28F, bullet_spread: 0x00000000, push: 0x3C1D4952, inherited_velocity: 0x3F000000, modifier_head: 0x3F8CCCCD, modifier_chest: 0x3F800000, modifier_legs: 0x3F19999A }
        } else {
            WeaponStats { name: "Ruger 77", ini_name: "Ruger 77", clip_reload: false, fire_mode: 2, sprite: Some(WeaponSprite::Ruger), clip_sprite: None, bullet_sprite: Some(WeaponSprite::RugerBullet), fire_sprite: Some(WeaponSprite::RugerFire), fire_interval: 45, ammo: 4, reload_time: 78, bullet_style: 1, start_up_time: 0, bink: 0i16, recoil: 0, hit_multiply: 0x401F5C29, speed: 0x42040000, movement_acc: 0x3CF5C28F, bullet_spread: 0x00000000, push: 0x3C449BA6, inherited_velocity: 0x3F000000, modifier_head: 0x3F99999A, modifier_chest: 0x3F866666, modifier_legs: 0x3F800000 }
        },
        WeaponKind::M79 => if realistic {
            WeaponStats { name: "M79", ini_name: "M79", clip_reload: true, fire_mode: 0, sprite: Some(WeaponSprite::M79), clip_sprite: Some(WeaponSprite::M79Clip), bullet_sprite: None, fire_sprite: Some(WeaponSprite::M79Fire), fire_interval: 6, ammo: 1, reload_time: 173, bullet_style: 4, start_up_time: 0, bink: 45i16, recoil: 420, hit_multiply: 0x44C80000, speed: 0x41366666, movement_acc: 0x3CF5C28F, bullet_spread: 0x00000000, push: 0x3CC49BA6, inherited_velocity: 0x3F000000, modifier_head: 0x3F8CCCCD, modifier_chest: 0x3F800000, modifier_legs: 0x3F19999A }
        } else {
            WeaponStats { name: "M79", ini_name: "M79", clip_reload: true, fire_mode: 0, sprite: Some(WeaponSprite::M79), clip_sprite: Some(WeaponSprite::M79Clip), bullet_sprite: None, fire_sprite: Some(WeaponSprite::M79Fire), fire_interval: 6, ammo: 1, reload_time: 178, bullet_style: 4, start_up_time: 0, bink: 0i16, recoil: 0, hit_multiply: 0x44C1C000, speed: 0x412B3333, movement_acc: 0x00000000, bullet_spread: 0x00000000, push: 0x3D1374BC, inherited_velocity: 0x3F000000, modifier_head: 0x3F933333, modifier_chest: 0x3F800000, modifier_legs: 0x3F666666 }
        },
        WeaponKind::Barrett => if realistic {
            WeaponStats { name: "Barrett M82A1", ini_name: "Barret M82A1", clip_reload: true, fire_mode: 2, sprite: Some(WeaponSprite::Barrett), clip_sprite: Some(WeaponSprite::BarrettClip), bullet_sprite: Some(WeaponSprite::BarrettBullet), fire_sprite: Some(WeaponSprite::BarrettFire), fire_interval: 200, ammo: 10, reload_time: 170, bullet_style: 1, start_up_time: 16, bink: 80i16, recoil: 0, hit_multiply: 0x409E6666, speed: 0x425C0000, movement_acc: 0x3D8F5C29, bullet_spread: 0x00000000, push: 0x3BB78034, inherited_velocity: 0x3F000000, modifier_head: 0x3F8CCCCD, modifier_chest: 0x3F800000, modifier_legs: 0x3F19999A }
        } else {
            WeaponStats { name: "Barrett M82A1", ini_name: "Barret M82A1", clip_reload: true, fire_mode: 2, sprite: Some(WeaponSprite::Barrett), clip_sprite: Some(WeaponSprite::BarrettClip), bullet_sprite: Some(WeaponSprite::BarrettBullet), fire_sprite: Some(WeaponSprite::BarrettFire), fire_interval: 225, ammo: 10, reload_time: 70, bullet_style: 1, start_up_time: 19, bink: 65i16, recoil: 0, hit_multiply: 0x408E6666, speed: 0x425C0000, movement_acc: 0x3D4CCCCD, bullet_spread: 0x00000000, push: 0x3C9374BC, inherited_velocity: 0x3F000000, modifier_head: 0x3F800000, modifier_chest: 0x3F800000, modifier_legs: 0x3F800000 }
        },
        WeaponKind::Minimi => if realistic {
            WeaponStats { name: "FN Minimi", ini_name: "FN Minimi", clip_reload: true, fire_mode: 0, sprite: Some(WeaponSprite::Minimi), clip_sprite: Some(WeaponSprite::MinimiClip), bullet_sprite: Some(WeaponSprite::MinimiBullet), fire_sprite: Some(WeaponSprite::MinimiFire), fire_interval: 10, ammo: 50, reload_time: 261, bullet_style: 1, start_up_time: 0, bink: -8i16, recoil: 8, hit_multiply: 0x3F4F5C29, speed: 0x41D80000, movement_acc: 0x3CA3D70A, bullet_spread: 0x00000000, push: 0x3C3E0DED, inherited_velocity: 0x3F000000, modifier_head: 0x3F8CCCCD, modifier_chest: 0x3F800000, modifier_legs: 0x3F19999A }
        } else {
            WeaponStats { name: "FN Minimi", ini_name: "FN Minimi", clip_reload: true, fire_mode: 0, sprite: Some(WeaponSprite::Minimi), clip_sprite: Some(WeaponSprite::MinimiClip), bullet_sprite: Some(WeaponSprite::MinimiBullet), fire_sprite: Some(WeaponSprite::MinimiFire), fire_interval: 9, ammo: 50, reload_time: 250, bullet_style: 1, start_up_time: 0, bink: 0i16, recoil: 0, hit_multiply: 0x3F59999A, speed: 0x41D80000, movement_acc: 0x3C54FDF4, bullet_spread: 0x3D83126F, push: 0x3C51B717, inherited_velocity: 0x3F000000, modifier_head: 0x3F8CCCCD, modifier_chest: 0x3F733333, modifier_legs: 0x3F59999A }
        },
        WeaponKind::Minigun => if realistic {
            WeaponStats { name: "XM214 Minigun", ini_name: "XM214 Minigun", clip_reload: false, fire_mode: 0, sprite: Some(WeaponSprite::Minigun), clip_sprite: None, bullet_sprite: Some(WeaponSprite::MinigunBullet), fire_sprite: Some(WeaponSprite::MinigunFire), fire_interval: 4, ammo: 100, reload_time: 320, bullet_style: 1, start_up_time: 33, bink: -2i16, recoil: 4, hit_multiply: 0x3EDC28F6, speed: 0x41E80000, movement_acc: 0x3C23D70A, bullet_spread: 0x3DCCCCCD, push: 0x3C30F27C, inherited_velocity: 0x3F000000, modifier_head: 0x3F8CCCCD, modifier_chest: 0x3F800000, modifier_legs: 0x3F19999A }
        } else {
            WeaponStats { name: "XM214 Minigun", ini_name: "XM214 Minigun", clip_reload: false, fire_mode: 0, sprite: Some(WeaponSprite::Minigun), clip_sprite: None, bullet_sprite: Some(WeaponSprite::MinigunBullet), fire_sprite: Some(WeaponSprite::MinigunFire), fire_interval: 3, ammo: 100, reload_time: 480, bullet_style: 1, start_up_time: 25, bink: 0i16, recoil: 0, hit_multiply: 0x3EEF9DB2, speed: 0x41E80000, movement_acc: 0x3D800000, bullet_spread: 0x3E99999A, push: 0x3C2A64C3, inherited_velocity: 0x3F000000, modifier_head: 0x3F8CCCCD, modifier_chest: 0x3F733333, modifier_legs: 0x3F59999A }
        },
        WeaponKind::USSOCOM => if realistic {
            WeaponStats { name: "USSOCOM", ini_name: "USSOCOM", clip_reload: true, fire_mode: 2, sprite: Some(WeaponSprite::Socom), clip_sprite: Some(WeaponSprite::SocomClip), bullet_sprite: Some(WeaponSprite::ColtBullet), fire_sprite: Some(WeaponSprite::SocomFire), fire_interval: 12, ammo: 12, reload_time: 72, bullet_style: 1, start_up_time: 0, bink: 0i16, recoil: 28, hit_multiply: 0x3FA66666, speed: 0x41900000, movement_acc: 0x3CA3D70A, bullet_spread: 0x00000000, push: 0x3C8CE704, inherited_velocity: 0x3F000000, modifier_head: 0x3F8CCCCD, modifier_chest: 0x3F800000, modifier_legs: 0x3F19999A }
        } else {
            WeaponStats { name: "USSOCOM", ini_name: "USSOCOM", clip_reload: true, fire_mode: 2, sprite: Some(WeaponSprite::Socom), clip_sprite: Some(WeaponSprite::SocomClip), bullet_sprite: Some(WeaponSprite::ColtBullet), fire_sprite: Some(WeaponSprite::SocomFire), fire_interval: 10, ammo: 14, reload_time: 60, bullet_style: 1, start_up_time: 0, bink: 0i16, recoil: 0, hit_multiply: 0x3FBEB852, speed: 0x41900000, movement_acc: 0x00000000, bullet_spread: 0x00000000, push: 0x3CA3D70A, inherited_velocity: 0x3F000000, modifier_head: 0x3F8CCCCD, modifier_chest: 0x3F733333, modifier_legs: 0x3F59999A }
        },
        WeaponKind::Knife => if realistic {
            WeaponStats { name: "Combat Knife", ini_name: "Combat Knife", clip_reload: false, fire_mode: 0, sprite: Some(WeaponSprite::Knife), clip_sprite: None, bullet_sprite: None, fire_sprite: None, fire_interval: 6, ammo: 1, reload_time: 3, bullet_style: 11, start_up_time: 0, bink: 0i16, recoil: 10, hit_multiply: 0x450CA000, speed: 0x40C00000, movement_acc: 0x3C23D70A, bullet_spread: 0x00000000, push: 0x3CE56042, inherited_velocity: 0x00000000, modifier_head: 0x3F8CCCCD, modifier_chest: 0x3F800000, modifier_legs: 0x3F19999A }
        } else {
            WeaponStats { name: "Combat Knife", ini_name: "Combat Knife", clip_reload: false, fire_mode: 0, sprite: Some(WeaponSprite::Knife), clip_sprite: None, bullet_sprite: None, fire_sprite: None, fire_interval: 6, ammo: 1, reload_time: 3, bullet_style: 11, start_up_time: 0, bink: 0i16, recoil: 0, hit_multiply: 0x45066000, speed: 0x40C00000, movement_acc: 0x00000000, bullet_spread: 0x00000000, push: 0x3DF5C28F, inherited_velocity: 0x00000000, modifier_head: 0x3F933333, modifier_chest: 0x3F800000, modifier_legs: 0x3F666666 }
        },
        WeaponKind::Chainsaw => if realistic {
            WeaponStats { name: "Chainsaw", ini_name: "Chainsaw", clip_reload: false, fire_mode: 0, sprite: Some(WeaponSprite::Chainsaw), clip_sprite: None, bullet_sprite: None, fire_sprite: Some(WeaponSprite::ChainsawFire), fire_interval: 2, ammo: 200, reload_time: 110, bullet_style: 11, start_up_time: 0, bink: 0i16, recoil: 1, hit_multiply: 0x41A80000, speed: 0x40F33333, movement_acc: 0x3C23D70A, bullet_spread: 0x00000000, push: 0x3B378034, inherited_velocity: 0x00000000, modifier_head: 0x3F8CCCCD, modifier_chest: 0x3F800000, modifier_legs: 0x3F19999A }
        } else {
            WeaponStats { name: "Chainsaw", ini_name: "Chainsaw", clip_reload: false, fire_mode: 0, sprite: Some(WeaponSprite::Chainsaw), clip_sprite: None, bullet_sprite: None, fire_sprite: Some(WeaponSprite::ChainsawFire), fire_interval: 2, ammo: 200, reload_time: 110, bullet_style: 11, start_up_time: 0, bink: 0i16, recoil: 0, hit_multiply: 0x42480000, speed: 0x41000000, movement_acc: 0x00000000, bullet_spread: 0x00000000, push: 0x3B378034, inherited_velocity: 0x00000000, modifier_head: 0x3F933333, modifier_chest: 0x3F800000, modifier_legs: 0x3F666666 }
        },
        WeaponKind::LAW => if realistic {
            WeaponStats { name: "LAW", ini_name: "M72 LAW", clip_reload: true, fire_mode: 0, sprite: Some(WeaponSprite::Law), clip_sprite: None, bullet_sprite: None, fire_sprite: Some(WeaponSprite::LawFire), fire_interval: 30, ammo: 1, reload_time: 495, bullet_style: 12, start_up_time: 12, bink: 0i16, recoil: 9, hit_multiply: 0x44BB8000, speed: 0x41B80000, movement_acc: 0x3C23D70A, bullet_spread: 0x00000000, push: 0x3C449BA6, inherited_velocity: 0x3F000000, modifier_head: 0x3F8CCCCD, modifier_chest: 0x3F800000, modifier_legs: 0x3F19999A }
        } else {
            WeaponStats { name: "LAW", ini_name: "M72 LAW", clip_reload: true, fire_mode: 0, sprite: Some(WeaponSprite::Law), clip_sprite: None, bullet_sprite: None, fire_sprite: Some(WeaponSprite::LawFire), fire_interval: 6, ammo: 1, reload_time: 300, bullet_style: 12, start_up_time: 13, bink: 0i16, recoil: 0, hit_multiply: 0x44C1C000, speed: 0x41B80000, movement_acc: 0x00000000, bullet_spread: 0x00000000, push: 0x3CE56042, inherited_velocity: 0x3F000000, modifier_head: 0x3F933333, modifier_chest: 0x3F800000, modifier_legs: 0x3F666666 }
        },
        WeaponKind::FlameBow => if realistic {
            WeaponStats { name: "Flame Bow", ini_name: "Flamed Arrows", clip_reload: false, fire_mode: 0, sprite: Some(WeaponSprite::Bow), clip_sprite: Some(WeaponSprite::BowS), bullet_sprite: None, fire_sprite: Some(WeaponSprite::BowFire), fire_interval: 10, ammo: 1, reload_time: 39, bullet_style: 8, start_up_time: 0, bink: 0i16, recoil: 10, hit_multiply: 0x41000000, speed: 0x41900000, movement_acc: 0x3C23D70A, bullet_spread: 0x00000000, push: 0x00000000, inherited_velocity: 0x3F000000, modifier_head: 0x3F8CCCCD, modifier_chest: 0x3F800000, modifier_legs: 0x3F19999A }
        } else {
            WeaponStats { name: "Flame Bow", ini_name: "Flamed Arrows", clip_reload: false, fire_mode: 0, sprite: Some(WeaponSprite::Bow), clip_sprite: Some(WeaponSprite::BowS), bullet_sprite: None, fire_sprite: Some(WeaponSprite::BowFire), fire_interval: 10, ammo: 1, reload_time: 39, bullet_style: 8, start_up_time: 0, bink: 0i16, recoil: 0, hit_multiply: 0x41000000, speed: 0x41900000, movement_acc: 0x00000000, bullet_spread: 0x00000000, push: 0x00000000, inherited_velocity: 0x3F000000, modifier_head: 0x3F933333, modifier_chest: 0x3F800000, modifier_legs: 0x3F666666 }
        },
        WeaponKind::Bow => if realistic {
            WeaponStats { name: "Bow", ini_name: "Rambo Bow", clip_reload: false, fire_mode: 0, sprite: Some(WeaponSprite::Bow), clip_sprite: Some(WeaponSprite::BowS), bullet_sprite: None, fire_sprite: Some(WeaponSprite::BowFire), fire_interval: 10, ammo: 1, reload_time: 25, bullet_style: 7, start_up_time: 0, bink: 0i16, recoil: 10, hit_multiply: 0x41400000, speed: 0x41A80000, movement_acc: 0x3C23D70A, bullet_spread: 0x00000000, push: 0x3C727BB3, inherited_velocity: 0x3F000000, modifier_head: 0x3F8CCCCD, modifier_chest: 0x3F800000, modifier_legs: 0x3F19999A }
        } else {
            WeaponStats { name: "Bow", ini_name: "Rambo Bow", clip_reload: false, fire_mode: 0, sprite: Some(WeaponSprite::Bow), clip_sprite: Some(WeaponSprite::BowS), bullet_sprite: None, fire_sprite: Some(WeaponSprite::BowFire), fire_interval: 10, ammo: 1, reload_time: 25, bullet_style: 7, start_up_time: 0, bink: 0i16, recoil: 0, hit_multiply: 0x41400000, speed: 0x41A80000, movement_acc: 0x00000000, bullet_spread: 0x00000000, push: 0x3C727BB3, inherited_velocity: 0x3F000000, modifier_head: 0x3F933333, modifier_chest: 0x3F800000, modifier_legs: 0x3F666666 }
        },
        WeaponKind::Flamer => if realistic {
            WeaponStats { name: "Flamer", ini_name: "Flamer", clip_reload: false, fire_mode: 0, sprite: Some(WeaponSprite::Flamer), clip_sprite: Some(WeaponSprite::Flamer), bullet_sprite: None, fire_sprite: Some(WeaponSprite::FlamerFire), fire_interval: 6, ammo: 200, reload_time: 5, bullet_style: 5, start_up_time: 0, bink: 0i16, recoil: 10, hit_multiply: 0x41400000, speed: 0x41480000, movement_acc: 0x3C23D70A, bullet_spread: 0x00000000, push: 0x3C83126F, inherited_velocity: 0x3F000000, modifier_head: 0x3F8CCCCD, modifier_chest: 0x3F800000, modifier_legs: 0x3F19999A }
        } else {
            WeaponStats { name: "Flamer", ini_name: "Flamer", clip_reload: false, fire_mode: 0, sprite: Some(WeaponSprite::Flamer), clip_sprite: Some(WeaponSprite::Flamer), bullet_sprite: None, fire_sprite: Some(WeaponSprite::FlamerFire), fire_interval: 6, ammo: 200, reload_time: 5, bullet_style: 5, start_up_time: 0, bink: 0i16, recoil: 0, hit_multiply: 0x41980000, speed: 0x41280000, movement_acc: 0x00000000, bullet_spread: 0x00000000, push: 0x3C83126F, inherited_velocity: 0x3F000000, modifier_head: 0x3F933333, modifier_chest: 0x3F800000, modifier_legs: 0x3F666666 }
        },
        WeaponKind::M2 => if realistic {
            WeaponStats { name: "M2 MG", ini_name: "Stationary Gun", clip_reload: false, fire_mode: 0, sprite: Some(WeaponSprite::Minigun), clip_sprite: None, bullet_sprite: None, fire_sprite: None, fire_interval: 14, ammo: 100, reload_time: 366, bullet_style: 14, start_up_time: 21, bink: 0i16, recoil: 10, hit_multiply: 0x3FC66666, speed: 0x42100000, movement_acc: 0x3C23D70A, bullet_spread: 0x00000000, push: 0x3C102DE0, inherited_velocity: 0x00000000, modifier_head: 0x3F8CCCCD, modifier_chest: 0x3F800000, modifier_legs: 0x3F19999A }
        } else {
            WeaponStats { name: "M2 MG", ini_name: "Stationary Gun", clip_reload: false, fire_mode: 0, sprite: Some(WeaponSprite::Minigun), clip_sprite: None, bullet_sprite: None, fire_sprite: None, fire_interval: 10, ammo: 100, reload_time: 366, bullet_style: 14, start_up_time: 0, bink: 0i16, recoil: 0, hit_multiply: 0x3FE66666, speed: 0x42100000, movement_acc: 0x00000000, bullet_spread: 0x00000000, push: 0x3C102DE0, inherited_velocity: 0x00000000, modifier_head: 0x3F8CCCCD, modifier_chest: 0x3F733333, modifier_legs: 0x3F59999A }
        },
        WeaponKind::NoWeapon => if realistic {
            WeaponStats { name: "Hands", ini_name: "Punch", clip_reload: false, fire_mode: 0, sprite: None, clip_sprite: None, bullet_sprite: None, fire_sprite: None, fire_interval: 6, ammo: 1, reload_time: 3, bullet_style: 6, start_up_time: 0, bink: 0i16, recoil: 10, hit_multiply: 0x43A50000, speed: 0x40A00000, movement_acc: 0x3C23D70A, bullet_spread: 0x00000000, push: 0x00000000, inherited_velocity: 0x00000000, modifier_head: 0x3F8CCCCD, modifier_chest: 0x3F800000, modifier_legs: 0x3F19999A }
        } else {
            WeaponStats { name: "Hands", ini_name: "Punch", clip_reload: false, fire_mode: 0, sprite: None, clip_sprite: None, bullet_sprite: None, fire_sprite: None, fire_interval: 6, ammo: 1, reload_time: 3, bullet_style: 6, start_up_time: 0, bink: 0i16, recoil: 0, hit_multiply: 0x43A50000, speed: 0x40A00000, movement_acc: 0x00000000, bullet_spread: 0x00000000, push: 0x00000000, inherited_velocity: 0x00000000, modifier_head: 0x3F933333, modifier_chest: 0x3F800000, modifier_legs: 0x3F666666 }
        },
        WeaponKind::FragGrenade => if realistic {
            WeaponStats { name: "Frag Grenade", ini_name: "Grenade", clip_reload: false, fire_mode: 0, sprite: Some(WeaponSprite::FragGrenade), clip_sprite: Some(WeaponSprite::FragGrenade), bullet_sprite: None, fire_sprite: Some(WeaponSprite::Ak74Fire), fire_interval: 80, ammo: 1, reload_time: 20, bullet_style: 2, start_up_time: 0, bink: 0i16, recoil: 10, hit_multiply: 0x44BB8000, speed: 0x40A00000, movement_acc: 0x3C23D70A, bullet_spread: 0x00000000, push: 0x00000000, inherited_velocity: 0x3F800000, modifier_head: 0x3F8CCCCD, modifier_chest: 0x3F800000, modifier_legs: 0x3F19999A }
        } else {
            WeaponStats { name: "Frag Grenade", ini_name: "Grenade", clip_reload: false, fire_mode: 0, sprite: Some(WeaponSprite::FragGrenade), clip_sprite: Some(WeaponSprite::FragGrenade), bullet_sprite: None, fire_sprite: Some(WeaponSprite::Ak74Fire), fire_interval: 80, ammo: 1, reload_time: 20, bullet_style: 2, start_up_time: 0, bink: 0i16, recoil: 0, hit_multiply: 0x44BB8000, speed: 0x40A00000, movement_acc: 0x00000000, bullet_spread: 0x00000000, push: 0x00000000, inherited_velocity: 0x3F800000, modifier_head: 0x3F800000, modifier_chest: 0x3F800000, modifier_legs: 0x3F800000 }
        },
        WeaponKind::ClusterGrenade => if realistic {
            WeaponStats { name: "Frag Grenade", ini_name: "", clip_reload: false, fire_mode: 0, sprite: Some(WeaponSprite::FragGrenade), clip_sprite: Some(WeaponSprite::FragGrenade), bullet_sprite: None, fire_sprite: Some(WeaponSprite::Ak74Fire), fire_interval: 80, ammo: 1, reload_time: 20, bullet_style: 9, start_up_time: 0, bink: 0i16, recoil: 10, hit_multiply: 0x44BB8000, speed: 0x40A00000, movement_acc: 0x3C23D70A, bullet_spread: 0x00000000, push: 0x00000000, inherited_velocity: 0x3F800000, modifier_head: 0x3F8CCCCD, modifier_chest: 0x3F800000, modifier_legs: 0x3F19999A }
        } else {
            WeaponStats { name: "Frag Grenade", ini_name: "", clip_reload: false, fire_mode: 0, sprite: Some(WeaponSprite::FragGrenade), clip_sprite: Some(WeaponSprite::FragGrenade), bullet_sprite: None, fire_sprite: Some(WeaponSprite::Ak74Fire), fire_interval: 80, ammo: 1, reload_time: 20, bullet_style: 9, start_up_time: 0, bink: 0i16, recoil: 0, hit_multiply: 0x44BB8000, speed: 0x40A00000, movement_acc: 0x00000000, bullet_spread: 0x00000000, push: 0x00000000, inherited_velocity: 0x3F800000, modifier_head: 0x3F800000, modifier_chest: 0x3F800000, modifier_legs: 0x3F800000 }
        },
        WeaponKind::Cluster => if realistic {
            WeaponStats { name: "Frag Grenade", ini_name: "", clip_reload: false, fire_mode: 0, sprite: Some(WeaponSprite::FragGrenade), clip_sprite: Some(WeaponSprite::FragGrenade), bullet_sprite: None, fire_sprite: Some(WeaponSprite::Ak74Fire), fire_interval: 80, ammo: 1, reload_time: 20, bullet_style: 10, start_up_time: 0, bink: 0i16, recoil: 10, hit_multiply: 0x44BB8000, speed: 0x40A00000, movement_acc: 0x3C23D70A, bullet_spread: 0x00000000, push: 0x00000000, inherited_velocity: 0x3F800000, modifier_head: 0x3F8CCCCD, modifier_chest: 0x3F800000, modifier_legs: 0x3F19999A }
        } else {
            WeaponStats { name: "Frag Grenade", ini_name: "", clip_reload: false, fire_mode: 0, sprite: Some(WeaponSprite::FragGrenade), clip_sprite: Some(WeaponSprite::FragGrenade), bullet_sprite: None, fire_sprite: Some(WeaponSprite::Ak74Fire), fire_interval: 80, ammo: 1, reload_time: 20, bullet_style: 10, start_up_time: 0, bink: 0i16, recoil: 0, hit_multiply: 0x44BB8000, speed: 0x40A00000, movement_acc: 0x00000000, bullet_spread: 0x00000000, push: 0x00000000, inherited_velocity: 0x3F800000, modifier_head: 0x3F800000, modifier_chest: 0x3F800000, modifier_legs: 0x3F800000 }
        },
        WeaponKind::ThrownKnife => if realistic {
            WeaponStats { name: "Combat Knife", ini_name: "", clip_reload: false, fire_mode: 0, sprite: Some(WeaponSprite::Knife), clip_sprite: None, bullet_sprite: None, fire_sprite: None, fire_interval: 6, ammo: 1, reload_time: 3, bullet_style: 13, start_up_time: 0, bink: 0i16, recoil: 10, hit_multiply: 0x450CA000, speed: 0x40C00000, movement_acc: 0x3C23D70A, bullet_spread: 0x00000000, push: 0x3CE56042, inherited_velocity: 0x00000000, modifier_head: 0x3F8CCCCD, modifier_chest: 0x3F800000, modifier_legs: 0x3F19999A }
        } else {
            WeaponStats { name: "Combat Knife", ini_name: "", clip_reload: false, fire_mode: 0, sprite: Some(WeaponSprite::Knife), clip_sprite: None, bullet_sprite: None, fire_sprite: None, fire_interval: 6, ammo: 1, reload_time: 3, bullet_style: 13, start_up_time: 0, bink: 0i16, recoil: 0, hit_multiply: 0x45066000, speed: 0x40C00000, movement_acc: 0x00000000, bullet_spread: 0x00000000, push: 0x3DF5C28F, inherited_velocity: 0x00000000, modifier_head: 0x3F933333, modifier_chest: 0x3F800000, modifier_legs: 0x3F666666 }
        },
    }
}

/// How long a bullet of each style lives, in ticks.
pub open spec fn timeout_of(bullet_style: u8) -> u16 {
    if bullet_style == 2 || bullet_style == 9 {
        GRENADE_TIMEOUT
    } else if bullet_style == 5 {
        FLAMER_TIMEOUT
    } else if bullet_style == 6 || bullet_style == 11 {
        MELEE_TIMEOUT
    } else if bullet_style == 14 {
        M2BULLET_TIMEOUT
    } else {
        BULLET_TIMEOUT
    }
}

/// A weapon held by a soldier: its characteristics and its counters. The
/// `f32` characteristics are given by their IEEE-754 bit patterns.
#[derive(Debug, Copy, Clone)]
pub struct Weapon {
    pub kind: WeaponKind,
    pub ammo: u8,
    pub ammo_count: u8,
    pub movement_acc: u32,
    pub bink: i16,
    pub recoil: u16,
    pub fire_interval: u16,
    pub fire_interval_prev: u16,
    pub fire_interval_count: u16,
    pub start_up_time: u16,
    pub start_up_time_count: u16,
    pub reload_time: u16,
    pub reload_time_prev: u16,
    pub reload_time_count: u16,
    pub clip_reload: bool,
    pub clip_in_time: u16,
    pub clip_out_time: u16,
    pub name: &'static str,
    pub ini_name: &'static str,
    pub speed: u32,
    pub hit_multiply: u32,
    pub bullet_spread: u32,
    pub push: u32,
    pub inherited_velocity: u32,
    pub modifier_legs: u32,
    pub modifier_chest: u32,
    pub modifier_head: u32,
    pub fire_mode: u8,
    pub timeout: u16,
    pub bullet_style: u8,
    pub sprite: Option<WeaponSprite>,
    pub clip_sprite: Option<WeaponSprite>,
    pub fire_sprite: Option<WeaponSprite>,
    pub bullet_sprite: Option<WeaponSprite>,
}

/// A fresh weapon of a kind: the kind's characteristics, counters that
/// start full (the grenade launcher starts unloaded), the clip out at 80%
/// and in at 30% of the reload time (truncated) for clip-reloaded weapons,
/// and the bullet lifetime of its style.
pub open spec fn spec_weapon(kind: WeaponKind, realistic: bool) -> Weapon {
    let s = spec_weapon_stats(kind, realistic);
    Weapon {
        kind,
        ammo: s.ammo,
        ammo_count: if kind == WeaponKind::M79 {
            0
        } else {
            s.ammo
        },
        movement_acc: s.movement_acc,
        bink: s.bink,
        recoil: s.recoil,
        fire_interval: s.fire_interval,
        fire_interval_prev: s.fire_interval,
        fire_interval_count: s.fire_interval,
        start_up_time: s.start_up_time,
        start_up_time_count: s.start_up_time,
        reload_time: s.reload_time,
        reload_time_prev: s.reload_time,
        reload_time_count: s.reload_time,
        clip_reload: s.clip_reload,
        clip_in_time: if s.clip_reload {
            (s.reload_time * 3 / 10) as u16
        } else {
            0
        },
        clip_out_time: if s.clip_reload {
            (s.reload_time * 4 / 5) as u16
        } else {
            0
        },
        name: s.name,
        ini_name: s.ini_name,
        speed: s.speed,
        hit_multiply: s.hit_multiply,
        bullet_spread: s.bullet_spread,
        push: s.push,
        inherited_velocity: s.inherited_velocity,
        modifier_legs: s.modifier_legs,
        modifier_chest: s.modifier_chest,
        modifier_head: s.modifier_head,
        fire_mode: s.fire_mode,
        timeout: timeout_of(s.bullet_style),
        bullet_style: s.bullet_style,
        sprite: s.sprite,
        clip_sprite: s.clip_sprite,
        fire_sprite: s.fire_sprite,
        bullet_sprite: s.bullet_sprite,
    }
}

/// Firearms shoot plain bullets, and a weapon is the same weapon in
/// realistic and normal mode: its name, sprites, firing mode, reloading by
/// clip and what it shoots do not depend on the mode.
pub proof fn lemma_weapon_identity(kind: WeaponKind)
    ensures
        (kind == WeaponKind::DesertEagles || kind == WeaponKind::MP5 || kind == WeaponKind::Ak74 || kind
            == WeaponKind::SteyrAUG || kind == WeaponKind::Ruger77 || kind == WeaponKind::Barrett || kind
            == WeaponKind::Minimi || kind == WeaponKind::Minigun || kind == WeaponKind::USSOCOM) ==> spec_weapon_stats(
            kind,
            true,
        ).bullet_style == 1 && spec_weapon_stats(kind, false).bullet_style == 1,
        spec_weapon_stats(kind, true).bullet_style == spec_weapon_stats(kind, false).bullet_style,
        spec_weapon_stats(kind, true).name == spec_weapon_stats(kind, false).name,
        spec_weapon_stats(kind, true).ini_name == spec_weapon_stats(kind, false).ini_name,
        spec_weapon_stats(kind, true).clip_reload == spec_weapon_stats(kind, false).clip_reload,
        spec_weapon_stats(kind, true).fire_mode == spec_weapon_stats(kind, false).fire_mode,
        spec_weapon_stats(kind, true).sprite == spec_weapon_stats(kind, false).sprite,
        spec_weapon_stats(kind, true).clip_sprite == spec_weapon_stats(kind, false).clip_sprite,
        spec_weapon_stats(kind, true).bullet_sprite == spec_weapon_stats(kind, false).bullet_sprite,
        spec_weapon_stats(kind, true).fire_sprite == spec_weapon_stats(kind, false).fire_sprite,
{
}

impl Weapon {
    /// A fresh weapon of the given kind, in realistic or normal mode.
    pub fn new(kind: WeaponKind, realistic: bool) -> (w: Weapon)
        ensures
            w == spec_weapon(kind, realistic),
    {
        let s = weapon_stats(kind, realistic);
        let timeout = if s.bullet_style == 2 || s.bullet_style == 9 {
            GRENADE_TIMEOUT
        } else if s.bullet_style == 5 {
            FLAMER_TIMEOUT
        } else if s.bullet_style == 6 || s.bullet_style == 11 {
            MELEE_TIMEOUT
        } else if s.bullet_style == 14 {
            M2BULLET_TIMEOUT
        } else {
            BULLET_TIMEOUT
        };
        let (clip_out_time, clip_in_time) = if s.clip_reload {
            (((s.reload_time as u32) * 4 / 5) as u16, ((s.reload_time as u32) * 3 / 10) as u16)
        } else {
            (0u16, 0u16)
        };
        let ammo_count = if kind == WeaponKind::M79 {
            0
        } else {
            s.ammo
        };
        Weapon {
            kind,
            ammo: s.ammo,
            ammo_count,
            movement_acc: s.movement_acc,
            bink: s.bink,
            recoil: s.recoil,
            fire_interval: s.fire_interval,
            fire_interval_prev: s.fire_interval,
            fire_interval_count: s.fire_interval,
            start_up_time: s.start_up_time,
            start_up_time_count: s.start_up_time,
            reload_time: s.reload_time,
            reload_time_prev: s.reload_time,
            reload_time_count: s.reload_time,
            clip_reload: s.clip_reload,
            clip_in_time,
            clip_out_time,
            name: s.name,
            ini_name: s.ini_name,
            speed: s.speed,
            hit_multiply: s.hit_multiply,
            bullet_spread: s.bullet_spread,
            push: s.push,
            inherited_velocity: s.inherited_velocity,
            modifier_legs: s.modifier_legs,
            modifier_chest: s.modifier_chest,
            modifier_head: s.modifier_head,
            fire_mode: s.fire_mode,
            timeout,
            bullet_style: s.bullet_style,
            sprite: s.sprite,
            clip_sprite: s.clip_sprite,
            fire_sprite: s.fire_sprite,
            bullet_sprite: s.bullet_sprite,
        }
    }
}

/// A fresh weapon is loaded (but for the grenade launcher), ready to fire,
/// and its clip leaves after it enters: `clip_in_time <= clip_out_time <=
/// reload_time`.
pub proof fn lemma_fresh_weapon(kind: WeaponKind, realistic: bool)
    ensures
        ({
            let w = spec_weapon(kind, realistic);
            &&& kind != WeaponKind::M79 ==> w.ammo_count == w.ammo
            &&& kind == WeaponKind::M79 ==> w.ammo_count == 0
            &&& w.fire_interval_count == w.fire_interval
            &&& w.reload_time_count == w.reload_time
            &&& w.clip_in_time <= w.clip_out_time <= w.reload_time
            &&& !w.clip_reload ==> w.clip_in_time == 0 && w.clip_out_time == 0
        }),
{
}

} // verus!
