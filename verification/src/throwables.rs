//! Hand grenades and mines: carried in limited numbers, thrown rather than
//! fired, and capped per team for mines.
use vstd::prelude::*;

use crate::loadout::ArmorClass;

verus! {

/// Projectile kinds of a thrown hand grenade and mine.
pub const GRENADE_KIND: u8 = 6;
pub const MINE_KIND: u8 = 7;

/// Mines a team may have out at once.
pub const MINE_TEAM_MAX: usize = 12;

/// What a player throws.
pub const THROW_NONE: u8 = 0;
pub const THROW_GRENADE: u8 = 1;
pub const THROW_MINE: u8 = 2;

/// Grenades and mines carried: light 5 grenades, heavy 8; 3 mines each.
pub open spec fn throwable_limit(class: ArmorClass) -> [u8; 2] {
    match class {
        ArmorClass::Light => [5, 3],
        ArmorClass::Heavy => [8, 3],
    }
}

pub fn max_throwables(class: ArmorClass) -> (r: [u8; 2])
    ensures
        r == throwable_limit(class),
{
    match class {
        ArmorClass::Light => [5, 3],
        ArmorClass::Heavy => [8, 3],
    }
}

pub fn is_throwable(kind: u8) -> (r: bool)
    ensures
        r == (kind == GRENADE_KIND || kind == MINE_KIND),
{
    kind == GRENADE_KIND || kind == MINE_KIND
}

/// Why a throw does not happen.
#[derive(Clone, Copy, Debug, PartialEq, Eq, Structural)]
pub enum ThrowRefused {
    /// Dead, or still finishing the last throw; nothing is said.
    NotReady,
    NoGrenades,
    NoMines,
    /// The team already has MINE_TEAM_MAX mines out.
    TeamMinesOut,
}

impl ThrowRefused {
    pub open spec fn message_text(self) -> Seq<char> {
        match self {
            ThrowRefused::NotReady => ""@,
            ThrowRefused::NoGrenades => "NO GRENADES LEFT"@,
            ThrowRefused::NoMines => "NO MINES LEFT"@,
            ThrowRefused::TeamMinesOut => "YOUR TEAM HAS THE MAXIMUM OF MINES OUT"@,
        }
    }

    pub fn message(self) -> (r: &'static str)
        ensures
            r@ == self.message_text(),
    {
        match self {
            ThrowRefused::NotReady => "",
            ThrowRefused::NoGrenades => "NO GRENADES LEFT",
            ThrowRefused::NoMines => "NO MINES LEFT",
            ThrowRefused::TeamMinesOut => "YOUR TEAM HAS THE MAXIMUM OF MINES OUT",
        }
    }
}

/// The carried slot a throw of `what` draws on: 1 for a mine, else 0.
pub open spec fn throw_slot(what: u8) -> int {
    if what == THROW_MINE {
        1
    } else {
        0
    }
}

pub open spec fn throw_check(alive: bool, ready: bool, what: u8, carried: [u8; 2], team_mines: usize) -> Result<
    u8,
    ThrowRefused,
> {
    if !alive || !ready {
        Err(ThrowRefused::NotReady)
    } else if carried[throw_slot(what)] == 0 {
        Err(
            if what == THROW_MINE {
                ThrowRefused::NoMines
            } else {
                ThrowRefused::NoGrenades
            },
        )
    } else if what == THROW_MINE && team_mines >= MINE_TEAM_MAX {
        Err(ThrowRefused::TeamMinesOut)
    } else {
        Ok(
            if what == THROW_MINE {
                MINE_KIND
            } else {
                GRENADE_KIND
            },
        )
    }
}

/// Whether a player may throw `what`, and the projectile kind it becomes:
/// `alive` and `ready` (the last throw is done), `carried` grenades and
/// mines, and `team_mines` of their team's mines already out.
pub fn check_throw(alive: bool, ready: bool, what: u8, carried: [u8; 2], team_mines: usize) -> (r: Result<
    u8,
    ThrowRefused,
>)
    ensures
        r == throw_check(alive, ready, what, carried, team_mines),
{
    if !alive || !ready {
        return Err(ThrowRefused::NotReady);
    }
    let slot: usize = if what == THROW_MINE {
        1
    } else {
        0
    };
    if carried[slot] == 0 {
        return Err(
            if what == THROW_MINE {
                ThrowRefused::NoMines
            } else {
                ThrowRefused::NoGrenades
            },
        );
    }
    if what == THROW_MINE && team_mines >= MINE_TEAM_MAX {
        return Err(ThrowRefused::TeamMinesOut);
    }
    Ok(
        if what == THROW_MINE {
            MINE_KIND
        } else {
            GRENADE_KIND
        },
    )
}

} // verus!
