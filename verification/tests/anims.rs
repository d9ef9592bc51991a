use soldank::anims::{anim_source, Anim, AnimData, AnimFrame, AnimState};

const ALL: [Anim; 44] = [
    Anim::Stand, Anim::Run, Anim::RunBack, Anim::Jump, Anim::JumpSide, Anim::Fall, Anim::Crouch,
    Anim::CrouchRun, Anim::Reload, Anim::Throw, Anim::Recoil, Anim::SmallRecoil, Anim::Shotgun,
    Anim::ClipOut, Anim::ClipIn, Anim::SlideBack, Anim::Change, Anim::ThrowWeapon, Anim::WeaponNone,
    Anim::Punch, Anim::ReloadBow, Anim::Barret, Anim::Roll, Anim::RollBack, Anim::CrouchRunBack,
    Anim::Cigar, Anim::Match, Anim::Smoke, Anim::Wipe, Anim::Groin, Anim::Piss, Anim::Mercy,
    Anim::Mercy2, Anim::TakeOff, Anim::Prone, Anim::Victory, Anim::Aim, Anim::HandsUpAim,
    Anim::ProneMove, Anim::GetUp, Anim::AimRecoil, Anim::HandsUpRecoil, Anim::Melee, Anim::Own,
];

/// A table in which animation `i` has `i % 3 + 2` frames.
fn table() -> Vec<AnimData> {
    ALL.iter()
        .enumerate()
        .map(|(i, a)| {
            let (_, speed, looped) = anim_source(*a);
            AnimData {
                id: *a,
                looped,
                speed,
                frames: (0..(i % 3 + 2)).map(|_| AnimFrame { positions: vec![(0, 0)] }).collect(),
            }
        })
        .collect()
}

#[test]
fn indices_follow_order() {
    for (i, a) in ALL.iter().enumerate() {
        assert_eq!(a.index(), i);
    }
}

#[test]
fn sources() {
    assert_eq!(anim_source(Anim::Stand), ("stoi.poa", 3, true));
    assert_eq!(anim_source(Anim::Barret), ("barret.poa", 9, false));
    assert_eq!(anim_source(Anim::Own), ("rucha.poa", 3, false));
}

#[test]
fn frame_counts() {
    let t = table();
    assert_eq!(Anim::Stand.num_frames(&t), 2);
    assert_eq!(Anim::Run.num_frames(&t), 3);
    assert_eq!(Anim::RunBack.num_frames(&t), 4);
}

#[test]
fn new_state() {
    let t = table();
    let s = AnimState::new(Anim::Stand, &t);
    assert_eq!(s.id, Anim::Stand);
    assert!(s.looped);
    assert_eq!(s.speed, 3);
    assert_eq!((s.count, s.frame), (0, 1));
    assert_eq!(s.num_frames(&t), 2);
}

#[test]
fn looped_animation_wraps() {
    let t = table();
    let mut s = AnimState::new(Anim::Run, &t);
    let mut frames = Vec::new();
    for _ in 0..4 {
        s.do_animation(&t);
        frames.push(s.frame);
    }
    assert_eq!(frames, vec![2, 3, 1, 2]);
}

#[test]
fn one_shot_animation_stops() {
    let t = table();
    let mut s = AnimState::new(Anim::Jump, &t);
    assert_eq!(s.num_frames(&t), 2);
    for _ in 0..5 {
        s.do_animation(&t);
    }
    assert_eq!(s.frame, 2);
}

#[test]
fn speed_counts_ticks() {
    let t = table();
    let mut s = AnimState::new(Anim::Stand, &t);
    s.do_animation(&t);
    assert_eq!((s.count, s.frame), (1, 1));
    s.do_animation(&t);
    assert_eq!((s.count, s.frame), (2, 1));
    s.do_animation(&t);
    assert_eq!((s.count, s.frame), (0, 2));
}

#[test]
fn is_any() {
    let t = table();
    let s = AnimState::new(Anim::Wipe, &t);
    assert!(s.is_any(&[Anim::Wipe, Anim::TakeOff]));
    assert!(!s.is_any(&[Anim::Run]));
    assert!(!s.is_any(&[]));
}

#[test]
fn all_in_order() {
    let all = Anim::all();
    assert_eq!(all.len(), 44);
    assert_eq!(&all[..], &ALL[..]);
}

#[test]
fn skeleton_positions() {
    let mut t = table();
    t[1].frames[1].positions = vec![(1, 2), (3, 4)];
    let mut s = AnimState::new(Anim::Run, &t);
    assert_eq!(s.pos(&t, 1), (0, 0));
    s.do_animation(&t);
    assert_eq!(s.frame, 2);
    assert_eq!(s.pos(&t, 2), (3, 4));
}
