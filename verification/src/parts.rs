use vstd::prelude::*;
use crate::anims::Anim;
use crate::weapons::{WeaponKind, kind_index};

verus! {

/// Where each soldier part that visibility depends on stands in the part
/// table (the bit that shows it).
#[derive(Debug, Clone, Copy, PartialEq, Eq, Structural)]
pub struct PartIds {
    pub left_thigh_dmg: usize,
    pub left_lowerleg_dmg: usize,
    pub left_forearm_dmg: usize,
    pub left_arm_dmg: usize,
    pub chest_dmg: usize,
    pub hip_dmg: usize,
    pub head_dmg: usize,
    pub right_thigh_dmg: usize,
    pub right_lowerleg_dmg: usize,
    pub right_forearm_dmg: usize,
    pub right_arm_dmg: usize,
    pub left_foot: usize,
    pub right_foot: usize,
    pub left_jetfoot: usize,
    pub right_jetfoot: usize,
    pub vest: usize,
    pub frag_grenade1: usize,
    pub cluster_grenade1: usize,
    pub cigar: usize,
    pub head: usize,
    pub head_dead: usize,
    pub head_dead_dmg: usize,
    pub rambo_badge: usize,
    pub grabbed_helmet: usize,
    pub helmet: usize,
    pub mr_t: usize,
    pub secondary_deagles: usize,
    pub primary_minigun: usize,
    pub primary_minigun_clip: usize,
    pub primary_minigun_fire: usize,
    pub primary_bow_arrow_reload: usize,
    pub primary_bow_arrow: usize,
    pub primary_bow_reload: usize,
    pub primary_bow_string_reload: usize,
    pub primary_bow: usize,
    pub primary_bow_string: usize,
    pub primary_bow_fire: usize,
    pub primary_deagles: usize,
    pub primary_flamer: usize,
}

/// What of a soldier decides which of its parts show.
#[derive(Debug, Clone, Copy, PartialEq, Eq, Structural)]
pub struct SoldierLook {
    pub jets: bool,
    pub jets_count: i32,
    pub wears_vest: bool,
    pub tertiary_kind: WeaponKind,
    pub tertiary_ammo: u8,
    pub body_anim: Anim,
    pub body_frame: usize,
    pub has_cigar: u8,
    pub dead_meat: bool,
    pub wear_helmet: u8,
    pub secondary_kind: WeaponKind,
    pub primary_kind: WeaponKind,
    pub primary_ammo: u8,
    pub primary_reload_count: u16,
    pub primary_clip_in: u16,
    pub primary_clip_out: u16,
    pub primary_has_clip: bool,
    pub fired: u8,
}

/// The part table has 256 parts and every part that visibility may show
/// lies in it, counting the runs of grenades, secondary weapons and primary
/// weapons that follow their first part.
pub open spec fn part_ids_wf(p: PartIds) -> bool {
    &&& p.left_thigh_dmg < 256
    &&& p.left_lowerleg_dmg < 256
    &&& p.left_forearm_dmg < 256
    &&& p.left_arm_dmg < 256
    &&& p.chest_dmg < 256
    &&& p.hip_dmg < 256
    &&& p.head_dmg < 256
    &&& p.right_thigh_dmg < 256
    &&& p.right_lowerleg_dmg < 256
    &&& p.right_forearm_dmg < 256
    &&& p.right_arm_dmg < 256
    &&& p.left_foot < 256
    &&& p.right_foot < 256
    &&& p.left_jetfoot < 256
    &&& p.right_jetfoot < 256
    &&& p.vest < 256
    &&& p.frag_grenade1 < 256
    &&& p.cluster_grenade1 < 256
    &&& p.cigar < 256
    &&& p.head < 256
    &&& p.head_dead < 256
    &&& p.head_dead_dmg < 256
    &&& p.rambo_badge < 256
    &&& p.grabbed_helmet < 256
    &&& p.helmet < 256
    &&& p.mr_t < 256
    &&& p.secondary_deagles < 256
    &&& p.primary_minigun < 256
    &&& p.primary_minigun_clip < 256
    &&& p.primary_minigun_fire < 256
    &&& p.primary_bow_arrow_reload < 256
    &&& p.primary_bow_arrow < 256
    &&& p.primary_bow_reload < 256
    &&& p.primary_bow_string_reload < 256
    &&& p.primary_bow < 256
    &&& p.primary_bow_string < 256
    &&& p.primary_bow_fire < 256
    &&& p.primary_deagles < 256
    &&& p.primary_flamer < 256
    &&& p.frag_grenade1 + 4 < 256
    &&& p.cluster_grenade1 + 4 < 256
    &&& p.secondary_deagles + 16 < 256
    &&& p.primary_deagles + 49 < 256
    &&& p.primary_deagles <= p.primary_flamer
    &&& p.primary_flamer + 1 < 256
    &&& p.primary_deagles + 2 < 256
}

/// `v` with the `n` bits from `start` on set (none where `n` is not
/// positive).
pub open spec fn set_run(v: Seq<bool>, start: int, n: int) -> Seq<bool>
    decreases n,
{
    if n <= 0 {
        v
    } else {
        set_run(v, start, n - 1).update(start + n - 1, true)
    }
}

/// Blood stains show on every damaged part.
pub open spec fn blood_step(v: Seq<bool>, p: PartIds, blood: bool) -> Seq<bool> {
    if blood {
        v.update(p.left_thigh_dmg as int, true).update(p.left_lowerleg_dmg as int, true).update(p.left_forearm_dmg as int, true).update(p.left_arm_dmg as int, true).update(p.chest_dmg as int, true).update(p.hip_dmg as int, true).update(p.head_dmg as int, true).update(p.right_thigh_dmg as int, true).update(p.right_lowerleg_dmg as int, true).update(p.right_forearm_dmg as int, true).update(p.right_arm_dmg as int, true)
    } else {
        v
    }
}

/// Flying on jets shows the jet feet instead of the feet; a vest shows.
pub open spec fn gear_step(v: Seq<bool>, p: PartIds, s: SoldierLook) -> Seq<bool> {
    let v1 = if s.jets && s.jets_count > 0 {
        v.update(p.left_foot as int, false).update(p.right_foot as int, false).update(p.left_jetfoot as int, true).update(
            p.right_jetfoot as int,
            true,
        )
    } else {
        v
    };
    if s.wears_vest {
        v1.update(p.vest as int, true)
    } else {
        v1
    }
}

/// How many grenades show on the belt: the grenades held, one fewer while
/// throwing, at most five.
pub open spec fn grenades_shown(s: SoldierLook) -> int {
    let ammo = s.tertiary_ammo as int - if s.body_anim == Anim::Throw {
        1int
    } else {
        0int
    };
    if ammo < 5 {
        ammo
    } else {
        5
    }
}

/// The grenades on the belt, a cigar, and the dead head.
pub open spec fn body_step(v: Seq<bool>, p: PartIds, s: SoldierLook) -> Seq<bool> {
    let first = if s.tertiary_kind == WeaponKind::FragGrenade {
        p.frag_grenade1
    } else {
        p.cluster_grenade1
    };
    let v1 = set_run(v, first as int, grenades_shown(s));
    let v2 = if s.has_cigar == 5 || s.has_cigar == 10 {
        v1.update(p.cigar as int, true)
    } else {
        v1
    };
    if s.dead_meat {
        v2.update(p.head as int, false).update(p.head_dmg as int, false).update(p.head_dead as int, true).update(
            p.head_dead_dmg as int,
            true,
        )
    } else {
        v2
    }
}

pub open spec fn is_bow(k: WeaponKind) -> bool {
    k == WeaponKind::Bow || k == WeaponKind::FlameBow
}

/// The helmet is in the soldier's hand during the last frames of wiping
/// and taking it off.
pub open spec fn helmet_grabbed(s: SoldierLook) -> bool {
    (s.body_anim == Anim::Wipe || s.body_anim == Anim::TakeOff) && s.body_frame > 4
}

/// The head: a Rambo badge with a bow; otherwise the helmet (worn or in the
/// hand) and the hair.
pub open spec fn head_step(v: Seq<bool>, p: PartIds, s: SoldierLook) -> Seq<bool> {
    if is_bow(s.primary_kind) {
        v.update(p.rambo_badge as int, true)
    } else {
        let v1 = if s.wear_helmet == 1 {
            if helmet_grabbed(s) {
                v.update(p.grabbed_helmet as int, true)
            } else {
                v.update(p.helmet as int, true)
            }
        } else {
            v
        };
        v1.update(p.mr_t as int, true)
    }
}

/// The secondary weapon on the back, for the kinds up to the flamer.
pub open spec fn secondary_step(v: Seq<bool>, p: PartIds, s: SoldierLook) -> Seq<bool> {
    if kind_index(s.secondary_kind) <= kind_index(WeaponKind::Flamer) {
        v.update(p.secondary_deagles + kind_index(s.secondary_kind), true)
    } else {
        v
    }
}

/// The primary weapon in the hands, with its clip and muzzle fire.
pub open spec fn primary_step(v: Seq<bool>, p: PartIds, s: SoldierLook) -> Seq<bool> {
    let ammo = s.primary_ammo;
    let reload = s.primary_reload_count;
    if s.primary_kind == WeaponKind::Minigun {
        let v1 = v.update(p.primary_minigun as int, true);
        let v2 = if ammo > 0 || (ammo == 0 && reload < 65) {
            v1.update(p.primary_minigun_clip as int, true)
        } else {
            v1
        };
        if s.fired > 0 {
            v2.update(p.primary_minigun_fire as int, true)
        } else {
            v2
        }
    } else if is_bow(s.primary_kind) {
        let v1 = if ammo == 0 {
            v.update(p.primary_bow_arrow_reload as int, true)
        } else {
            v.update(p.primary_bow_arrow as int, true)
        };
        let v2 = if s.body_anim == Anim::ReloadBow {
            v1.update(p.primary_bow_reload as int, true).update(p.primary_bow_string_reload as int, true)
        } else {
            v1.update(p.primary_bow as int, true).update(p.primary_bow_string as int, true)
        };
        if s.fired > 0 {
            v2.update(p.primary_bow_fire as int, true)
        } else {
            v2
        }
    } else if !s.dead_meat && kind_index(s.primary_kind) <= kind_index(WeaponKind::Flamer) {
        let off: int = if s.primary_kind == WeaponKind::Flamer {
            p.primary_flamer - p.primary_deagles
        } else {
            (kind_index(s.primary_kind) * 3) as int
        };
        let v1 = v.update(p.primary_deagles + off, true);
        let v2 = if s.primary_has_clip && (ammo > 0 || (ammo == 0 && (reload < s.primary_clip_in || reload
            > s.primary_clip_out))) {
            v1.update(p.primary_deagles + off + 1, true)
        } else {
            v1
        };
        if s.fired > 0 {
            v2.update(p.primary_deagles + 2, true)
        } else {
            v2
        }
    } else {
        v
    }
}

/// Which parts of a soldier show: the base visibility, then blood, gear,
/// belt and head, the head, and the weapons, in that order.
pub open spec fn spec_parts_visibility(base: Seq<bool>, p: PartIds, s: SoldierLook, blood: bool) -> Seq<bool> {
    primary_step(
        secondary_step(head_step(body_step(gear_step(blood_step(base, p, blood), p, s), p, s), p, s), p, s),
        p,
        s,
    )
}

fn apply_blood(v: &mut Vec<bool>, p: &PartIds, blood: bool)
    requires
        old(v)@.len() == 256,
        part_ids_wf(*p),
    ensures
        final(v)@ == blood_step(old(v)@, *p, blood),
        final(v)@.len() == 256,
{
    let ghost v0 = v@;
    if blood {
        v.set(p.left_thigh_dmg, true);
        v.set(p.left_lowerleg_dmg, true);
        v.set(p.left_forearm_dmg, true);
        v.set(p.left_arm_dmg, true);
        v.set(p.chest_dmg, true);
        v.set(p.hip_dmg, true);
        v.set(p.head_dmg, true);
        v.set(p.right_thigh_dmg, true);
        v.set(p.right_lowerleg_dmg, true);
        v.set(p.right_forearm_dmg, true);
        v.set(p.right_arm_dmg, true);
    }
    assert(v@ =~= blood_step(v0, *p, blood));
}

fn apply_gear(v: &mut Vec<bool>, p: &PartIds, s: &SoldierLook)
    requires
        old(v)@.len() == 256,
        part_ids_wf(*p),
    ensures
        final(v)@ == gear_step(old(v)@, *p, *s),
        final(v)@.len() == 256,
{
    let ghost v0 = v@;
    if s.jets && s.jets_count > 0 {
        v.set(p.left_foot, false);
        v.set(p.right_foot, false);
        v.set(p.left_jetfoot, true);
        v.set(p.right_jetfoot, true);
    }
    if s.wears_vest {
        v.set(p.vest, true);
    }
    assert(v@ =~= gear_step(v0, *p, *s));
}

fn apply_body(v: &mut Vec<bool>, p: &PartIds, s: &SoldierLook)
    requires
        old(v)@.len() == 256,
        part_ids_wf(*p),
    ensures
        final(v)@ == body_step(old(v)@, *p, *s),
        final(v)@.len() == 256,
{
    let ghost v0 = v@;
    let first: usize = if s.tertiary_kind == WeaponKind::FragGrenade {
        p.frag_grenade1
    } else {
        p.cluster_grenade1
    };
    let ammo: i32 = s.tertiary_ammo as i32;
    let n: i32 = if s.body_anim == Anim::Throw {
        if ammo - 1 < 5 {
            ammo - 1
        } else {
            5
        }
    } else {
        if ammo < 5 {
            ammo
        } else {
            5
        }
    };
    assert(n == grenades_shown(*s));
    let mut i: i32 = 0;
    while i < n
        invariant
            0 <= i,
            n < 0 ==> i == 0,
            n <= 5,
            i <= n || n < 0,
            first + 4 < 256,
            v@.len() == 256,
            v@ == set_run(v0, first as int, i as int),
        decreases n - i,
    {
        v.set(first + i as usize, true);
        i = i + 1;
    }
    assert(v@ == set_run(v0, first as int, n as int)) by {
        if n < 0 {
            assert(i == 0);
        }
    }
    if s.has_cigar == 5 || s.has_cigar == 10 {
        v.set(p.cigar, true);
    }
    if s.dead_meat {
        v.set(p.head, false);
        v.set(p.head_dmg, false);
        v.set(p.head_dead, true);
        v.set(p.head_dead_dmg, true);
    }
    assert(v@ =~= body_step(v0, *p, *s));
}

fn apply_head(v: &mut Vec<bool>, p: &PartIds, s: &SoldierLook)
    requires
        old(v)@.len() == 256,
        part_ids_wf(*p),
    ensures
        final(v)@ == head_step(old(v)@, *p, *s),
        final(v)@.len() == 256,
{
    let ghost v0 = v@;
    if s.primary_kind == WeaponKind::Bow || s.primary_kind == WeaponKind::FlameBow {
        v.set(p.rambo_badge, true);
    } else {
        let grabbed: bool = match s.body_anim {
            Anim::Wipe | Anim::TakeOff => s.body_frame > 4,
            _ => false,
        };
        if s.wear_helmet == 1 {
            if grabbed {
                v.set(p.grabbed_helmet, true);
            } else {
                v.set(p.helmet, true);
            }
        }
        v.set(p.mr_t, true);
    }
    assert(v@ =~= head_step(v0, *p, *s));
}

fn apply_secondary(v: &mut Vec<bool>, p: &PartIds, s: &SoldierLook)
    requires
        old(v)@.len() == 256,
        part_ids_wf(*p),
    ensures
        final(v)@ == secondary_step(old(v)@, *p, *s),
        final(v)@.len() == 256,
{
    let ghost v0 = v@;
    let index: usize = s.secondary_kind.index();
    if index <= WeaponKind::Flamer.index() {
        v.set(p.secondary_deagles + index, true);
    }
    assert(v@ =~= secondary_step(v0, *p, *s));
}

fn apply_primary(v: &mut Vec<bool>, p: &PartIds, s: &SoldierLook)
    requires
        old(v)@.len() == 256,
        part_ids_wf(*p),
    ensures
        final(v)@ == primary_step(old(v)@, *p, *s),
        final(v)@.len() == 256,
{
    let ghost v0 = v@;
    let ammo: u8 = s.primary_ammo;
    let reload: u16 = s.primary_reload_count;
    if s.primary_kind == WeaponKind::Minigun {
        v.set(p.primary_minigun, true);
        if ammo > 0 || (ammo == 0 && reload < 65) {
            v.set(p.primary_minigun_clip, true);
        }
        if s.fired > 0 {
            v.set(p.primary_minigun_fire, true);
        }
    } else if s.primary_kind == WeaponKind::Bow || s.primary_kind == WeaponKind::FlameBow {
        if ammo == 0 {
            v.set(p.primary_bow_arrow_reload, true);
        } else {
            v.set(p.primary_bow_arrow, true);
        }
        if s.body_anim == Anim::ReloadBow {
            v.set(p.primary_bow_reload, true);
            v.set(p.primary_bow_string_reload, true);
        } else {
            v.set(p.primary_bow, true);
            v.set(p.primary_bow_string, true);
        }
        if s.fired > 0 {
            v.set(p.primary_bow_fire, true);
        }
    } else if !s.dead_meat {
        let kind_index_now: usize = s.primary_kind.index();
        if kind_index_now <= WeaponKind::Flamer.index() {
            let off: usize = if s.primary_kind == WeaponKind::Flamer {
                p.primary_flamer - p.primary_deagles
            } else {
                kind_index_now * 3
            };
            v.set(p.primary_deagles + off, true);
            if s.primary_has_clip && (ammo > 0 || (ammo == 0 && (reload < s.primary_clip_in || reload
                > s.primary_clip_out))) {
                v.set(p.primary_deagles + off + 1, true);
            }
            if s.fired > 0 {
                v.set(p.primary_deagles + 2, true);
            }
        }
    }
    assert(v@ =~= primary_step(v0, *p, *s));
}

proof fn lemma_set_run_keeps(v: Seq<bool>, start: int, n: int, k: int)
    requires
        0 <= k < v.len(),
        v[k],
        0 <= start,
        start + n <= v.len(),
    ensures
        set_run(v, start, n).len() == v.len(),
        set_run(v, start, n)[k],
    decreases n,
{
    if n > 0 {
        lemma_set_run_keeps(v, start, n - 1, k);
    }
}

proof fn lemma_set_run_len(v: Seq<bool>, start: int, n: int)
    requires
        0 <= start,
        start + n <= v.len(),
    ensures
        set_run(v, start, n).len() == v.len(),
    decreases n,
{
    if n > 0 {
        lemma_set_run_len(v, start, n - 1);
    }
}

/// A part shown after the belt, cigar and head (`body_step`) stays shown
/// through the head and weapon steps.
proof fn lemma_later_steps_keep(v: Seq<bool>, p: PartIds, s: SoldierLook, k: int)
    requires
        v.len() == 256,
        part_ids_wf(p),
        0 <= k < 256,
        v[k],
    ensures
        primary_step(secondary_step(head_step(v, p, s), p, s), p, s)[k],
{
}

/// What a soldier's look shows, over every base visibility and part table:
/// a vest that is worn shows; flying on jets shows the jet feet and hides
/// the feet (unless another step shows them again); blood shows every
/// damaged body part but the head of a dead soldier; a dead soldier's head
/// is hidden and the dead head shown; a smoker shows the cigar.
pub proof fn lemma_visible_parts(base: Seq<bool>, p: PartIds, s: SoldierLook, blood: bool)
    requires
        base.len() == 256,
        part_ids_wf(p),
    ensures
        spec_parts_visibility(base, p, s, blood).len() == 256,
        s.wears_vest && p.vest != p.head && p.vest != p.head_dmg ==> spec_parts_visibility(base, p, s, blood)[p.vest as int],
        s.jets && s.jets_count > 0 && p.left_jetfoot != p.head && p.left_jetfoot != p.head_dmg
            && p.left_jetfoot != p.vest ==> spec_parts_visibility(base, p, s, blood)[p.left_jetfoot as int],
        s.jets && s.jets_count > 0 && p.right_jetfoot != p.head && p.right_jetfoot != p.head_dmg
            && p.right_jetfoot != p.vest ==> spec_parts_visibility(base, p, s, blood)[p.right_jetfoot as int],
        blood && p.chest_dmg != p.head && p.chest_dmg != p.head_dmg && p.chest_dmg != p.left_foot
            && p.chest_dmg != p.right_foot ==> spec_parts_visibility(base, p, s, blood)[p.chest_dmg as int],
        (s.has_cigar == 5 || s.has_cigar == 10) && p.cigar != p.head && p.cigar != p.head_dmg
            ==> spec_parts_visibility(base, p, s, blood)[p.cigar as int],
        s.dead_meat && p.head_dead != p.head && p.head_dead != p.head_dmg ==> spec_parts_visibility(
            base,
            p,
            s,
            blood,
        )[p.head_dead as int],
{
    let v1 = blood_step(base, p, blood);
    let v2 = gear_step(v1, p, s);
    let first = if s.tertiary_kind == WeaponKind::FragGrenade {
        p.frag_grenade1
    } else {
        p.cluster_grenade1
    };
    let v3 = body_step(v2, p, s);
    let g = set_run(v2, first as int, grenades_shown(s));
    lemma_set_run_len(v2, first as int, grenades_shown(s));
    assert(v3.len() == 256);
    assert(spec_parts_visibility(base, p, s, blood) == primary_step(secondary_step(head_step(v3, p, s), p, s), p, s));
    if s.wears_vest && p.vest != p.head && p.vest != p.head_dmg {
        assert(v2[p.vest as int]);
        lemma_set_run_keeps(v2, first as int, grenades_shown(s), p.vest as int);
        assert(v3[p.vest as int]);
        lemma_later_steps_keep(v3, p, s, p.vest as int);
    }
    if s.jets && s.jets_count > 0 && p.left_jetfoot != p.head && p.left_jetfoot != p.head_dmg && p.left_jetfoot
        != p.vest {
        assert(v2[p.left_jetfoot as int]);
        lemma_set_run_keeps(v2, first as int, grenades_shown(s), p.left_jetfoot as int);
        lemma_later_steps_keep(v3, p, s, p.left_jetfoot as int);
    }
    if s.jets && s.jets_count > 0 && p.right_jetfoot != p.head && p.right_jetfoot != p.head_dmg && p.right_jetfoot
        != p.vest {
        assert(v2[p.right_jetfoot as int]);
        lemma_set_run_keeps(v2, first as int, grenades_shown(s), p.right_jetfoot as int);
        lemma_later_steps_keep(v3, p, s, p.right_jetfoot as int);
    }
    if blood && p.chest_dmg != p.head && p.chest_dmg != p.head_dmg && p.chest_dmg != p.left_foot && p.chest_dmg
        != p.right_foot {
        assert(v1[p.chest_dmg as int]);
        assert(v2[p.chest_dmg as int]);
        lemma_set_run_keeps(v2, first as int, grenades_shown(s), p.chest_dmg as int);
        lemma_later_steps_keep(v3, p, s, p.chest_dmg as int);
    }
    if (s.has_cigar == 5 || s.has_cigar == 10) && p.cigar != p.head && p.cigar != p.head_dmg {
        assert(v3[p.cigar as int]);
        lemma_later_steps_keep(v3, p, s, p.cigar as int);
    }
    if s.dead_meat && p.head_dead != p.head && p.head_dead != p.head_dmg {
        assert(v3[p.head_dead as int]);
        lemma_later_steps_keep(v3, p, s, p.head_dead as int);
    }
}

/// Which parts of a soldier show, from the parts that show by default
/// (one flag per part of the 256-part table).
pub fn parts_visibility(base_visibility: &Vec<bool>, p: &PartIds, s: &SoldierLook, blood: bool) -> (v: Vec<bool>)
    requires
        base_visibility@.len() == 256,
        part_ids_wf(*p),
    ensures
        v@ == spec_parts_visibility(base_visibility@, *p, *s, blood),
{
    let mut v: Vec<bool> = base_visibility.clone();
    assert(v@ =~= base_visibility@);
    apply_blood(&mut v, p, blood);
    apply_gear(&mut v, p, s);
    apply_body(&mut v, p, s);
    apply_head(&mut v, p, s);
    apply_secondary(&mut v, p, s);
    apply_primary(&mut v, p, s);
    v
}

} // verus!
