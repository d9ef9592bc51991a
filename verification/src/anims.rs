use vstd::prelude::*;

verus! {

/// The animations of a soldier, in the order of their indices.
#[derive(Debug, Copy, Clone, PartialEq, Eq, Structural)]
pub enum Anim {
    Stand,
    Run,
    RunBack,
    Jump,
    JumpSide,
    Fall,
    Crouch,
    CrouchRun,
    Reload,
    Throw,
    Recoil,
    SmallRecoil,
    Shotgun,
    ClipOut,
    ClipIn,
    SlideBack,
    Change,
    ThrowWeapon,
    WeaponNone,
    Punch,
    ReloadBow,
    Barret,
    Roll,
    RollBack,
    CrouchRunBack,
    Cigar,
    Match,
    Smoke,
    Wipe,
    Groin,
    Piss,
    Mercy,
    Mercy2,
    TakeOff,
    Prone,
    Victory,
    Aim,
    HandsUpAim,
    ProneMove,
    GetUp,
    AimRecoil,
    HandsUpRecoil,
    Melee,
    Own,
}

pub open spec fn anim_index(a: Anim) -> nat {
    match a {
        Anim::Stand => 0,
        Anim::Run => 1,
        Anim::RunBack => 2,
        Anim::Jump => 3,
        Anim::JumpSide => 4,
        Anim::Fall => 5,
        Anim::Crouch => 6,
        Anim::CrouchRun => 7,
        Anim::Reload => 8,
        Anim::Throw => 9,
        Anim::Recoil => 10,
        Anim::SmallRecoil => 11,
        Anim::Shotgun => 12,
        Anim::ClipOut => 13,
        Anim::ClipIn => 14,
        Anim::SlideBack => 15,
        Anim::Change => 16,
        Anim::ThrowWeapon => 17,
        Anim::WeaponNone => 18,
        Anim::Punch => 19,
        Anim::ReloadBow => 20,
        Anim::Barret => 21,
        Anim::Roll => 22,
        Anim::RollBack => 23,
        Anim::CrouchRunBack => 24,
        Anim::Cigar => 25,
        Anim::Match => 26,
        Anim::Smoke => 27,
        Anim::Wipe => 28,
        Anim::Groin => 29,
        Anim::Piss => 30,
        Anim::Mercy => 31,
        Anim::Mercy2 => 32,
        Anim::TakeOff => 33,
        Anim::Prone => 34,
        Anim::Victory => 35,
        Anim::Aim => 36,
        Anim::HandsUpAim => 37,
        Anim::ProneMove => 38,
        Anim::GetUp => 39,
        Anim::AimRecoil => 40,
        Anim::HandsUpRecoil => 41,
        Anim::Melee => 42,
        Anim::Own => 43,
    }
}

impl Anim {
    /// Every animation, in the order of their indices.
    pub fn all() -> (v: Vec<Anim>)
        ensures
            v@.len() == 44,
            forall|i: int| 0 <= i < 44 ==> anim_index(#[trigger] v@[i]) == i,
    {
        let v: Vec<Anim> = vec![
            Anim::Stand,
            Anim::Run,
            Anim::RunBack,
            Anim::Jump,
            Anim::JumpSide,
            Anim::Fall,
            Anim::Crouch,
            Anim::CrouchRun,
            Anim::Reload,
            Anim::Throw,
            Anim::Recoil,
            Anim::SmallRecoil,
            Anim::Shotgun,
            Anim::ClipOut,
            Anim::ClipIn,
            Anim::SlideBack,
            Anim::Change,
            Anim::ThrowWeapon,
            Anim::WeaponNone,
            Anim::Punch,
            Anim::ReloadBow,
            Anim::Barret,
            Anim::Roll,
            Anim::RollBack,
            Anim::CrouchRunBack,
            Anim::Cigar,
            Anim::Match,
            Anim::Smoke,
            Anim::Wipe,
            Anim::Groin,
            Anim::Piss,
            Anim::Mercy,
            Anim::Mercy2,
            Anim::TakeOff,
            Anim::Prone,
            Anim::Victory,
            Anim::Aim,
            Anim::HandsUpAim,
            Anim::ProneMove,
            Anim::GetUp,
            Anim::AimRecoil,
            Anim::HandsUpRecoil,
            Anim::Melee,
            Anim::Own,
        ];
        assert(v@.len() == 44);
        v
    }

    /// The position of this animation in the list of animations.
    pub fn index(&self) -> (i: usize)
        ensures
            i == anim_index(*self),
    {
        match self {
            Anim::Stand => 0,
            Anim::Run => 1,
            Anim::RunBack => 2,
            Anim::Jump => 3,
            Anim::JumpSide => 4,
            Anim::Fall => 5,
            Anim::Crouch => 6,
            Anim::CrouchRun => 7,
            Anim::Reload => 8,
            Anim::Throw => 9,
            Anim::Recoil => 10,
            Anim::SmallRecoil => 11,
            Anim::Shotgun => 12,
            Anim::ClipOut => 13,
            Anim::ClipIn => 14,
            Anim::SlideBack => 15,
            Anim::Change => 16,
            Anim::ThrowWeapon => 17,
            Anim::WeaponNone => 18,
            Anim::Punch => 19,
            Anim::ReloadBow => 20,
            Anim::Barret => 21,
            Anim::Roll => 22,
            Anim::RollBack => 23,
            Anim::CrouchRunBack => 24,
            Anim::Cigar => 25,
            Anim::Match => 26,
            Anim::Smoke => 27,
            Anim::Wipe => 28,
            Anim::Groin => 29,
            Anim::Piss => 30,
            Anim::Mercy => 31,
            Anim::Mercy2 => 32,
            Anim::TakeOff => 33,
            Anim::Prone => 34,
            Anim::Victory => 35,
            Anim::Aim => 36,
            Anim::HandsUpAim => 37,
            Anim::ProneMove => 38,
            Anim::GetUp => 39,
            Anim::AimRecoil => 40,
            Anim::HandsUpRecoil => 41,
            Anim::Melee => 42,
            Anim::Own => 43,
        }
    }

    /// The number of frames of this animation in the loaded table.
    pub fn num_frames(&self, anims: &[AnimData]) -> (n: usize)
        requires
            anim_table_wf(anims@),
        ensures
            n == anims@[anim_index(*self) as int].frames@.len(),
    {
        anims[self.index()].frames.len()
    }
}

/// One frame of an animation: the positions of the skeleton points, as the
/// IEEE-754 bit patterns of their `f32` coordinates.
#[derive(Debug)]
pub struct AnimFrame {
    pub positions: Vec<(u32, u32)>,
}

/// A loaded animation.
#[derive(Debug)]
pub struct AnimData {
    pub id: Anim,
    pub looped: bool,
    pub speed: i32,
    pub frames: Vec<AnimFrame>,
}

/// The table of loaded animations: one per animation, at its index, each
/// with at least one frame.
pub open spec fn anim_table_wf(t: Seq<AnimData>) -> bool {
    &&& t.len() == 44
    &&& forall|i: int| 0 <= i < t.len() ==> anim_index(#[trigger] t[i].id) == i && t[i].frames@.len() >= 1
}

/// Where each animation is loaded from: its file, its speed and whether it
/// loops.
pub open spec fn spec_anim_source(a: Anim) -> (&'static str, i32, bool) {
    match a {
        Anim::Stand => ("stoi.poa", 3, true),
        Anim::Run => ("biega.poa", 1, true),
        Anim::RunBack => ("biegatyl.poa", 1, true),
        Anim::Jump => ("skok.poa", 1, false),
        Anim::JumpSide => ("skokwbok.poa", 1, false),
        Anim::Fall => ("spada.poa", 1, false),
        Anim::Crouch => ("kuca.poa", 1, false),
        Anim::CrouchRun => ("kucaidzie.poa", 2, true),
        Anim::Reload => ("laduje.poa", 2, false),
        Anim::Throw => ("rzuca.poa", 1, false),
        Anim::Recoil => ("odrzut.poa", 1, false),
        Anim::SmallRecoil => ("odrzut2.poa", 1, false),
        Anim::Shotgun => ("shotgun.poa", 1, false),
        Anim::ClipOut => ("clipout.poa", 3, false),
        Anim::ClipIn => ("clipin.poa", 3, false),
        Anim::SlideBack => ("slideback.poa", 2, false),
        Anim::Change => ("change.poa", 1, false),
        Anim::ThrowWeapon => ("wyrzuca.poa", 1, false),
        Anim::WeaponNone => ("bezbroni.poa", 3, false),
        Anim::Punch => ("bije.poa", 1, false),
        Anim::ReloadBow => ("strzala.poa", 1, false),
        Anim::Barret => ("barret.poa", 9, false),
        Anim::Roll => ("skokdolobrot.poa", 1, false),
        Anim::RollBack => ("skokdolobrottyl.poa", 1, false),
        Anim::CrouchRunBack => ("kucaidzietyl.poa", 2, true),
        Anim::Cigar => ("cigar.poa", 3, false),
        Anim::Match => ("match.poa", 3, false),
        Anim::Smoke => ("smoke.poa", 4, false),
        Anim::Wipe => ("wipe.poa", 4, false),
        Anim::Groin => ("krocze.poa", 2, false),
        Anim::Piss => ("szcza.poa", 8, false),
        Anim::Mercy => ("samo.poa", 3, false),
        Anim::Mercy2 => ("samo2.poa", 3, false),
        Anim::TakeOff => ("takeoff.poa", 2, false),
        Anim::Prone => ("lezy.poa", 1, false),
        Anim::Victory => ("cieszy.poa", 3, false),
        Anim::Aim => ("celuje.poa", 2, false),
        Anim::HandsUpAim => ("gora.poa", 2, false),
        Anim::ProneMove => ("lezyidzie.poa", 2, true),
        Anim::GetUp => ("wstaje.poa", 1, false),
        Anim::AimRecoil => ("celujeodrzut.poa", 1, false),
        Anim::HandsUpRecoil => ("goraodrzut.poa", 1, false),
        Anim::Melee => ("kolba.poa", 1, false),
        Anim::Own => ("rucha.poa", 3, false),
    }
}

/// The file, speed and looping of an animation.
pub fn anim_source(a: Anim) -> (s: (&'static str, i32, bool))
    ensures
        s == spec_anim_source(a),
{
    match a {
        Anim::Stand => ("stoi.poa", 3, true),
        Anim::Run => ("biega.poa", 1, true),
        Anim::RunBack => ("biegatyl.poa", 1, true),
        Anim::Jump => ("skok.poa", 1, false),
        Anim::JumpSide => ("skokwbok.poa", 1, false),
        Anim::Fall => ("spada.poa", 1, false),
        Anim::Crouch => ("kuca.poa", 1, false),
        Anim::CrouchRun => ("kucaidzie.poa", 2, true),
        Anim::Reload => ("laduje.poa", 2, false),
        Anim::Throw => ("rzuca.poa", 1, false),
        Anim::Recoil => ("odrzut.poa", 1, false),
        Anim::SmallRecoil => ("odrzut2.poa", 1, false),
        Anim::Shotgun => ("shotgun.poa", 1, false),
        Anim::ClipOut => ("clipout.poa", 3, false),
        Anim::ClipIn => ("clipin.poa", 3, false),
        Anim::SlideBack => ("slideback.poa", 2, false),
        Anim::Change => ("change.poa", 1, false),
        Anim::ThrowWeapon => ("wyrzuca.poa", 1, false),
        Anim::WeaponNone => ("bezbroni.poa", 3, false),
        Anim::Punch => ("bije.poa", 1, false),
        Anim::ReloadBow => ("strzala.poa", 1, false),
        Anim::Barret => ("barret.poa", 9, false),
        Anim::Roll => ("skokdolobrot.poa", 1, false),
        Anim::RollBack => ("skokdolobrottyl.poa", 1, false),
        Anim::CrouchRunBack => ("kucaidzietyl.poa", 2, true),
        Anim::Cigar => ("cigar.poa", 3, false),
        Anim::Match => ("match.poa", 3, false),
        Anim::Smoke => ("smoke.poa", 4, false),
        Anim::Wipe => ("wipe.poa", 4, false),
        Anim::Groin => ("krocze.poa", 2, false),
        Anim::Piss => ("szcza.poa", 8, false),
        Anim::Mercy => ("samo.poa", 3, false),
        Anim::Mercy2 => ("samo2.poa", 3, false),
        Anim::TakeOff => ("takeoff.poa", 2, false),
        Anim::Prone => ("lezy.poa", 1, false),
        Anim::Victory => ("cieszy.poa", 3, false),
        Anim::Aim => ("celuje.poa", 2, false),
        Anim::HandsUpAim => ("gora.poa", 2, false),
        Anim::ProneMove => ("lezyidzie.poa", 2, true),
        Anim::GetUp => ("wstaje.poa", 1, false),
        Anim::AimRecoil => ("celujeodrzut.poa", 1, false),
        Anim::HandsUpRecoil => ("goraodrzut.poa", 1, false),
        Anim::Melee => ("kolba.poa", 1, false),
        Anim::Own => ("rucha.poa", 3, false),
    }
}

/// The playback state of an animation: which frame shows (counted from 1)
/// and how many ticks it has shown.
#[derive(Debug, Copy, Clone)]
pub struct AnimState {
    pub id: Anim,
    pub looped: bool,
    pub speed: i32,
    pub count: i32,
    pub frame: usize,
}

impl AnimState {
    /// The start of an animation: its first frame, with the animation's
    /// speed and looping.
    pub fn new(id: Anim, anims: &[AnimData]) -> (s: AnimState)
        requires
            anim_table_wf(anims@),
        ensures
            s.id == id,
            s.looped == anims@[anim_index(id) as int].looped,
            s.speed == anims@[anim_index(id) as int].speed,
            s.count == 0,
            s.frame == 1,
    {
        let d = &anims[id.index()];
        AnimState { id, looped: d.looped, speed: d.speed, count: 0, frame: 1 }
    }

    /// Where skeleton point `index` (counted from 1) stands in the frame
    /// that shows.
    pub fn pos(&self, anims: &[AnimData], index: usize) -> (p: (u32, u32))
        requires
            anim_table_wf(anims@),
            1 <= self.frame <= anims@[anim_index(self.id) as int].frames@.len(),
            1 <= index <= anims@[anim_index(self.id) as int].frames@[self.frame - 1].positions@.len(),
        ensures
            p == anims@[anim_index(self.id) as int].frames@[self.frame - 1].positions@[index - 1],
    {
        let d = &anims[self.id.index()];
        d.frames[self.frame - 1].positions[index - 1]
    }

    /// The number of frames of the animation.
    pub fn num_frames(&self, anims: &[AnimData]) -> (n: usize)
        requires
            anim_table_wf(anims@),
        ensures
            n == anims@[anim_index(self.id) as int].frames@.len(),
    {
        self.id.num_frames(anims)
    }

    /// Advances the animation by one tick: every `speed` ticks it moves to
    /// the next frame; past the last frame a looped animation starts over
    /// and another one stays on its last frame.
    pub fn do_animation(&mut self, anims: &[AnimData])
        requires
            anim_table_wf(anims@),
            old(self).count < i32::MAX,
            old(self).frame < usize::MAX,
        ensures
            ({
                let n: int = anims@[anim_index(old(self).id) as int].frames@.len() as int;
                let c = old(self).count + 1;
                &&& final(self).id == old(self).id
                &&& final(self).looped == old(self).looped
                &&& final(self).speed == old(self).speed
                &&& if c == old(self).speed {
                    &&& final(self).count == 0
                    &&& final(self).frame as int == if old(self).frame + 1 > n {
                        if old(self).looped {
                            1
                        } else {
                            n
                        }
                    } else {
                        old(self).frame + 1int
                    }
                } else {
                    final(self).count == c && final(self).frame == old(self).frame
                }
            }),
    {
        self.count += 1;
        if self.count == self.speed {
            self.count = 0;
            self.frame += 1;
            if self.frame > self.num_frames(anims) {
                if self.looped {
                    self.frame = 1;
                } else {
                    self.frame = self.num_frames(anims);
                }
            }
        }
    }

    /// Whether the animation is one of `animations`.
    pub fn is_any(&self, animations: &[Anim]) -> (b: bool)
        ensures
            b == animations@.contains(self.id),
    {
        let mut i: usize = 0;
        while i < animations.len()
            invariant
                i <= animations@.len(),
                forall|k: int| 0 <= k < i ==> animations@[k] != self.id,
            decreases animations@.len() - i,
        {
            if animations[i] == self.id {
                return true;
            }
            i += 1;
        }
        false
    }
}

/// The movement animations (standing, running either way, crouch-running
/// either way, crawling) loop; every other animation plays once. Every
/// animation advances at least once every nine ticks.
pub proof fn lemma_looping_animations(a: Anim)
    ensures
        spec_anim_source(a).2 <==> (a == Anim::Stand || a == Anim::Run || a == Anim::RunBack || a
            == Anim::CrouchRun || a == Anim::CrouchRunBack || a == Anim::ProneMove),
        1 <= spec_anim_source(a).1 <= 9,
{
}

/// A playing animation stays on a valid frame: from a frame in `1..=n` and
/// a tick count in `0..speed`, one tick leads to a frame in `1..=n` and a
/// count in `0..speed`; an animation that does not loop never goes back.
pub proof fn lemma_animation_stays_in_range(
    frame: int,
    count: int,
    speed: int,
    n: int,
    looped: bool,
)
    requires
        1 <= frame <= n,
        0 <= count < speed,
    ensures
        ({
            let c = count + 1;
            let (frame2, count2) = if c == speed {
                (
                    if frame + 1 > n {
                        if looped {
                            1
                        } else {
                            n
                        }
                    } else {
                        frame + 1
                    },
                    0,
                )
            } else {
                (frame, c)
            };
            &&& 1 <= frame2 <= n
            &&& 0 <= count2 < speed
            &&& !looped ==> frame2 >= frame
        }),
{
}

} // verus!
