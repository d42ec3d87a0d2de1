//! The sound and music cues, and how each one is played: its restart
//! policy, the group of interpreter slots it uses and its first channel.
use vstd::prelude::*;

verus! {

pub const NUM_SOUND_IDX: usize = 32;
pub const NUM_OF_GROUPS: usize = 12;

/// The cues, in the order of the score table.
#[derive(PartialEq, Eq, Structural, PartialOrd, Ord, Debug, Clone, Copy)]
pub enum SoundIdx {
    FloorStart,
    FloorFinish,
    FinalFloorFinish,
    Zapped,
    IshtarFloor,
    NormalFloor,
    DragonFloor,
    DruagaFloor,
    Chime,
    SlimeMove,
    Spell,
    Fire,
    BreakWall,
    DragonFlame,
    Sword1,
    Sword2,
    Sword3,
    Sword4,
    CutMonster,
    NoUse1,
    BlockSpell,
    OpenDoor,
    GetKey,
    GetItem,
    NoUse2,
    GilWalk,
    CreditUpPost,
    Miss,
    GameOver,
    NameEntry,
    Extend,
    CreditUpPre,
}

/// How a cue answers a new request while it plays.
#[derive(PartialEq, Eq, Structural, Debug, Clone, Copy)]
pub enum SoundType {
    /// Plays to the end; a request while it plays changes nothing.
    OneShot,
    /// Starts over on every request.
    Retriggerable,
}

/// The position of a cue in the score table.
pub open spec fn idx_of(s: SoundIdx) -> nat {
    match s {
        SoundIdx::FloorStart => 0,
        SoundIdx::FloorFinish => 1,
        SoundIdx::FinalFloorFinish => 2,
        SoundIdx::Zapped => 3,
        SoundIdx::IshtarFloor => 4,
        SoundIdx::NormalFloor => 5,
        SoundIdx::DragonFloor => 6,
        SoundIdx::DruagaFloor => 7,
        SoundIdx::Chime => 8,
        SoundIdx::SlimeMove => 9,
        SoundIdx::Spell => 10,
        SoundIdx::Fire => 11,
        SoundIdx::BreakWall => 12,
        SoundIdx::DragonFlame => 13,
        SoundIdx::Sword1 => 14,
        SoundIdx::Sword2 => 15,
        SoundIdx::Sword3 => 16,
        SoundIdx::Sword4 => 17,
        SoundIdx::CutMonster => 18,
        SoundIdx::NoUse1 => 19,
        SoundIdx::BlockSpell => 20,
        SoundIdx::OpenDoor => 21,
        SoundIdx::GetKey => 22,
        SoundIdx::GetItem => 23,
        SoundIdx::NoUse2 => 24,
        SoundIdx::GilWalk => 25,
        SoundIdx::CreditUpPost => 26,
        SoundIdx::Miss => 27,
        SoundIdx::GameOver => 28,
        SoundIdx::NameEntry => 29,
        SoundIdx::Extend => 30,
        SoundIdx::CreditUpPre => 31,
    }
}

impl SoundIdx {
    pub fn index(self) -> (r: usize)
        ensures
            r == idx_of(self),
    {
        match self {
            SoundIdx::FloorStart => 0,
            SoundIdx::FloorFinish => 1,
            SoundIdx::FinalFloorFinish => 2,
            SoundIdx::Zapped => 3,
            SoundIdx::IshtarFloor => 4,
            SoundIdx::NormalFloor => 5,
            SoundIdx::DragonFloor => 6,
            SoundIdx::DruagaFloor => 7,
            SoundIdx::Chime => 8,
            SoundIdx::SlimeMove => 9,
            SoundIdx::Spell => 10,
            SoundIdx::Fire => 11,
            SoundIdx::BreakWall => 12,
            SoundIdx::DragonFlame => 13,
            SoundIdx::Sword1 => 14,
            SoundIdx::Sword2 => 15,
            SoundIdx::Sword3 => 16,
            SoundIdx::Sword4 => 17,
            SoundIdx::CutMonster => 18,
            SoundIdx::NoUse1 => 19,
            SoundIdx::BlockSpell => 20,
            SoundIdx::OpenDoor => 21,
            SoundIdx::GetKey => 22,
            SoundIdx::GetItem => 23,
            SoundIdx::NoUse2 => 24,
            SoundIdx::GilWalk => 25,
            SoundIdx::CreditUpPost => 26,
            SoundIdx::Miss => 27,
            SoundIdx::GameOver => 28,
            SoundIdx::NameEntry => 29,
            SoundIdx::Extend => 30,
            SoundIdx::CreditUpPre => 31,
        }
    }
}

/// The cue that rings when the pre-roll of a credit finishes.
pub const CREDIT_UP_PRE: usize = 31;
pub const CREDIT_UP_POST: usize = 26;

/// The number of interpreter slots of group `g`.
pub open spec fn group_size(g: int) -> nat {
    if g == 0 {
        7
    } else if g == 1 {
        2
    } else if g == 2 {
        4
    } else if g == 3 {
        4
    } else if g == 4 {
        4
    } else if g == 5 {
        4
    } else if g == 6 {
        2
    } else if g == 7 {
        2
    } else if g == 8 {
        1
    } else if g == 9 {
        8
    } else if g == 10 {
        4
    } else {
        3
    }
}

pub fn group_len(g: usize) -> (r: usize)
    requires
        g < NUM_OF_GROUPS,
    ensures
        r == group_size(g as int),
{
    match g {
        0 => 7,
        1 => 2,
        2 => 4,
        3 => 4,
        4 => 4,
        5 => 4,
        6 => 2,
        7 => 2,
        8 => 1,
        9 => 8,
        10 => 4,
        _ => 3,
    }
}

/// The restart policy, slot group and first channel of cue `idx`.
pub open spec fn sound_info(idx: int) -> (SoundType, usize, usize) {
    if idx == 0 {
        (SoundType::OneShot, 9, 0)
    } else if idx == 1 {
        (SoundType::OneShot, 9, 0)
    } else if idx == 2 {
        (SoundType::OneShot, 9, 0)
    } else if idx == 3 {
        (SoundType::OneShot, 9, 0)
    } else if idx == 4 {
        (SoundType::OneShot, 0, 0)
    } else if idx == 5 {
        (SoundType::OneShot, 0, 0)
    } else if idx == 6 {
        (SoundType::OneShot, 0, 0)
    } else if idx == 7 {
        (SoundType::OneShot, 0, 0)
    } else if idx == 8 {
        (SoundType::OneShot, 4, 0)
    } else if idx == 9 {
        (SoundType::Retriggerable, 1, 4)
    } else if idx == 10 {
        (SoundType::OneShot, 7, 4)
    } else if idx == 11 {
        (SoundType::Retriggerable, 6, 4)
    } else if idx == 12 {
        (SoundType::Retriggerable, 2, 3)
    } else if idx == 13 {
        (SoundType::OneShot, 11, 3)
    } else if idx == 14 {
        (SoundType::Retriggerable, 3, 5)
    } else if idx == 15 {
        (SoundType::Retriggerable, 3, 5)
    } else if idx == 16 {
        (SoundType::OneShot, 3, 5)
    } else if idx == 17 {
        (SoundType::Retriggerable, 3, 5)
    } else if idx == 18 {
        (SoundType::Retriggerable, 3, 4)
    } else if idx == 19 {
        (SoundType::Retriggerable, 3, 5)
    } else if idx == 20 {
        (SoundType::OneShot, 3, 5)
    } else if idx == 21 {
        (SoundType::OneShot, 4, 0)
    } else if idx == 22 {
        (SoundType::OneShot, 4, 0)
    } else if idx == 23 {
        (SoundType::OneShot, 4, 0)
    } else if idx == 24 {
        (SoundType::OneShot, 0, 0)
    } else if idx == 25 {
        (SoundType::OneShot, 8, 7)
    } else if idx == 26 {
        (SoundType::OneShot, 10, 4)
    } else if idx == 27 {
        (SoundType::OneShot, 9, 0)
    } else if idx == 28 {
        (SoundType::OneShot, 9, 0)
    } else if idx == 29 {
        (SoundType::OneShot, 9, 0)
    } else if idx == 30 {
        (SoundType::OneShot, 10, 4)
    } else {
        (SoundType::OneShot, 5, 4)
    }
}

pub fn sound_info_of(idx: usize) -> (r: (SoundType, usize, usize))
    requires
        idx < NUM_SOUND_IDX,
    ensures
        r == sound_info(idx as int),
        r.1 < NUM_OF_GROUPS,
        r.2 < 8,
{
    match idx {
        0 => (SoundType::OneShot, 9, 0),
        1 => (SoundType::OneShot, 9, 0),
        2 => (SoundType::OneShot, 9, 0),
        3 => (SoundType::OneShot, 9, 0),
        4 => (SoundType::OneShot, 0, 0),
        5 => (SoundType::OneShot, 0, 0),
        6 => (SoundType::OneShot, 0, 0),
        7 => (SoundType::OneShot, 0, 0),
        8 => (SoundType::OneShot, 4, 0),
        9 => (SoundType::Retriggerable, 1, 4),
        10 => (SoundType::OneShot, 7, 4),
        11 => (SoundType::Retriggerable, 6, 4),
        12 => (SoundType::Retriggerable, 2, 3),
        13 => (SoundType::OneShot, 11, 3),
        14 => (SoundType::Retriggerable, 3, 5),
        15 => (SoundType::Retriggerable, 3, 5),
        16 => (SoundType::OneShot, 3, 5),
        17 => (SoundType::Retriggerable, 3, 5),
        18 => (SoundType::Retriggerable, 3, 4),
        19 => (SoundType::Retriggerable, 3, 5),
        20 => (SoundType::OneShot, 3, 5),
        21 => (SoundType::OneShot, 4, 0),
        22 => (SoundType::OneShot, 4, 0),
        23 => (SoundType::OneShot, 4, 0),
        24 => (SoundType::OneShot, 0, 0),
        25 => (SoundType::OneShot, 8, 7),
        26 => (SoundType::OneShot, 10, 4),
        27 => (SoundType::OneShot, 9, 0),
        28 => (SoundType::OneShot, 9, 0),
        29 => (SoundType::OneShot, 9, 0),
        30 => (SoundType::OneShot, 10, 4),
        _ => (SoundType::OneShot, 5, 4),
    }
}

} // verus!
