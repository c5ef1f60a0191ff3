//! Bot navigation choices that need no geometry: which navigation graph a
//! map uses, which armor bots plan their jets with, and bot temperament.
use vstd::prelude::*;

use crate::map_catalog::PackInfo;
use crate::terrain::MapId;

verus! {

/// The navigation graph a map uses; Valley, the open procedural map, has
/// none.
pub fn slot(map: MapId) -> (r: Option<usize>)
    ensures
        r == match map {
            MapId::Valley => None::<usize>,
            MapId::Raindance => Some(0usize),
            MapId::BroadsideClone => Some(1usize),
            MapId::StonehengeClone => Some(2usize),
            MapId::SnowblindClone => Some(3usize),
            MapId::DesertOfDeathClone => Some(4usize),
            MapId::Longfield => Some(5usize),
            MapId::Highgoal => Some(6usize),
            MapId::OzarkticBlast => Some(7usize),
            MapId::Reefbreak => Some(8usize),
        },
{
    match map {
        MapId::Valley => None,
        MapId::Raindance => Some(0),
        MapId::BroadsideClone => Some(1),
        MapId::StonehengeClone => Some(2),
        MapId::SnowblindClone => Some(3),
        MapId::DesertOfDeathClone => Some(4),
        MapId::Longfield => Some(5),
        MapId::Highgoal => Some(6),
        MapId::OzarkticBlast => Some(7),
        MapId::Reefbreak => Some(8),
    }
}

/// The armor whose jet bots plan their flights with.
#[derive(Clone, Copy, Debug, PartialEq, Eq, Structural)]
pub enum PlanArmor {
    Standard,
    Football,
}

/// Bots plan with football armor on a map whose pack declares a field.
pub fn plan_armor(pack: Option<PackInfo>) -> (r: PlanArmor)
    ensures
        r == (if crate::football::has_field_spec(pack) {
            PlanArmor::Football
        } else {
            PlanArmor::Standard
        }),
{
    if crate::football::has_field(pack) {
        PlanArmor::Football
    } else {
        PlanArmor::Standard
    }
}

/// How a bot archetype prefers to move.
#[derive(Clone, Copy, Debug, PartialEq, Eq, Structural)]
pub enum MoveStyle {
    Ground,
    Skier,
    Jetter,
    Flyer,
}

/// Offline difficulty: which archetypes fill the bot slots.
#[derive(Clone, Copy, Debug, PartialEq, Eq, Structural)]
pub enum Difficulty {
    Easy,
    Normal,
    Hard,
    Mixed,
}

impl Difficulty {
    pub const ALL: [Difficulty; 4] = [
        Difficulty::Easy,
        Difficulty::Normal,
        Difficulty::Hard,
        Difficulty::Mixed,
    ];

    pub fn label(self) -> (r: &'static str)
        ensures
            r@ == (match self {
                Difficulty::Easy => "Easy"@,
                Difficulty::Normal => "Normal"@,
                Difficulty::Hard => "Hard"@,
                Difficulty::Mixed => "Mixed"@,
            }),
    {
        match self {
            Difficulty::Easy => "Easy",
            Difficulty::Normal => "Normal",
            Difficulty::Hard => "Hard",
            Difficulty::Mixed => "Mixed",
        }
    }
}

/// What a bot is for: pressing the attack, guarding home, or chasing
/// enemies.
#[derive(Clone, Copy, Debug, PartialEq, Eq, Structural)]
pub enum BotRole {
    Offense,
    Defense,
    Hunter,
}

/// Where a bot heads before sight of an enemy changes its mind. The exact
/// spot (the nearest point, a jittered guard post) is picked by the caller.
#[derive(Clone, Copy, Debug, PartialEq, Eq, Structural)]
pub enum BotGoal {
    /// The nearest active control point its team holds.
    HeldPoint,
    /// The nearest active control point its team does not hold.
    OpenPoint,
    /// Its own flag stand, to score the flag it carries.
    OwnHome,
    /// Escort its team's carrier, the player in this slot.
    OwnCarrier(usize),
    /// Guard near its own flag stand.
    GuardHome,
    /// Chase the enemy carrier, the player in this slot.
    EnemyCarrier(usize),
    /// The enemy flag.
    EnemyFlag,
}

/// The goal rule. In Capture & Hold (`cnh`), when any active point exists,
/// defenders go to a point their team holds and everyone else to one it does
/// not, each falling back to the other kind. Otherwise: a carrier heads
/// home; when a teammate carries, all but attackers escort them; defenders
/// guard home; the rest chase the enemy carrier, or go for the enemy flag.
/// A carrier slot outside the `players` seats is ignored.
pub open spec fn goal_of(
    cnh: bool,
    has_held: bool,
    has_open: bool,
    role: BotRole,
    carrying: bool,
    own_carrier: Option<usize>,
    enemy_carrier: Option<usize>,
    players: usize,
) -> BotGoal {
    if cnh && (has_held || has_open) {
        if role == BotRole::Defense {
            if has_held {
                BotGoal::HeldPoint
            } else {
                BotGoal::OpenPoint
            }
        } else if has_open {
            BotGoal::OpenPoint
        } else {
            BotGoal::HeldPoint
        }
    } else if carrying {
        BotGoal::OwnHome
    } else if own_carrier is Some && role != BotRole::Offense {
        match own_carrier {
            Some(c) => if c < players {
                BotGoal::OwnCarrier(c)
            } else {
                BotGoal::EnemyFlag
            },
            None => BotGoal::EnemyFlag,
        }
    } else if role == BotRole::Defense {
        BotGoal::GuardHome
    } else {
        match enemy_carrier {
            Some(c) => if c < players {
                BotGoal::EnemyCarrier(c)
            } else {
                BotGoal::EnemyFlag
            },
            None => BotGoal::EnemyFlag,
        }
    }
}

pub fn bot_goal(
    cnh: bool,
    has_held: bool,
    has_open: bool,
    role: BotRole,
    carrying: bool,
    own_carrier: Option<usize>,
    enemy_carrier: Option<usize>,
    players: usize,
) -> (r: BotGoal)
    ensures
        r == goal_of(cnh, has_held, has_open, role, carrying, own_carrier, enemy_carrier, players),
        own_carrier matches Some(c) ==> (c < players && !(cnh && (has_held || has_open))
            && !carrying && role != BotRole::Offense ==> r == BotGoal::OwnCarrier(c)),
        !(cnh && (has_held || has_open)) && carrying ==> r == BotGoal::OwnHome,
        cnh && (has_held || has_open) ==> (r == BotGoal::HeldPoint || r == BotGoal::OpenPoint),
        role == BotRole::Offense ==> !(r is OwnCarrier),
        r matches BotGoal::OwnCarrier(c) ==> own_carrier == Some(c) && c < players,
        r matches BotGoal::EnemyCarrier(c) ==> enemy_carrier == Some(c) && c < players,
{
    if cnh && (has_held || has_open) {
        if role == BotRole::Defense {
            if has_held {
                BotGoal::HeldPoint
            } else {
                BotGoal::OpenPoint
            }
        } else if has_open {
            BotGoal::OpenPoint
        } else {
            BotGoal::HeldPoint
        }
    } else if carrying {
        BotGoal::OwnHome
    } else if own_carrier.is_some() && role != BotRole::Offense {
        match own_carrier {
            Some(c) => if c < players {
                BotGoal::OwnCarrier(c)
            } else {
                BotGoal::EnemyFlag
            },
            None => BotGoal::EnemyFlag,
        }
    } else if role == BotRole::Defense {
        BotGoal::GuardHome
    } else {
        match enemy_carrier {
            Some(c) => if c < players {
                BotGoal::EnemyCarrier(c)
            } else {
                BotGoal::EnemyFlag
            },
            None => BotGoal::EnemyFlag,
        }
    }
}

/// Outside Capture & Hold (or with no active point), a bot that is not
/// carrying a flag and whose teammate in a seated slot carries the enemy flag
/// escorts that teammate, whatever its role, attackers alone excepted.
pub proof fn lemma_escort_own_carrier(
    cnh: bool,
    has_held: bool,
    has_open: bool,
    role: BotRole,
    enemy_carrier: Option<usize>,
    c: usize,
    players: usize,
)
    requires
        !(cnh && (has_held || has_open)),
        role != BotRole::Offense,
        c < players,
    ensures
        goal_of(cnh, has_held, has_open, role, false, Some(c), enemy_carrier, players)
            == BotGoal::OwnCarrier(c),
{
}

/// Outside Capture & Hold a flag carrier always heads home; in Capture &
/// Hold with an active point every bot heads for a point, defenders for a
/// held one when there is one and everyone else for an open one when there
/// is one; an attacker never escorts; a named player is always a seated one,
/// the very one that carries.
pub proof fn lemma_goal_shape(
    cnh: bool,
    has_held: bool,
    has_open: bool,
    role: BotRole,
    carrying: bool,
    own_carrier: Option<usize>,
    enemy_carrier: Option<usize>,
    players: usize,
)
    ensures
        ({
            let g = goal_of(cnh, has_held, has_open, role, carrying, own_carrier, enemy_carrier, players);
            &&& !(cnh && (has_held || has_open)) && carrying ==> g == BotGoal::OwnHome
            &&& cnh && has_held && role == BotRole::Defense ==> g == BotGoal::HeldPoint
            &&& cnh && has_open && role != BotRole::Defense ==> g == BotGoal::OpenPoint
            &&& cnh && (has_held || has_open) ==> (g == BotGoal::HeldPoint || g == BotGoal::OpenPoint)
            &&& role == BotRole::Offense ==> !(g is OwnCarrier)
            &&& (g matches BotGoal::OwnCarrier(c) ==> own_carrier == Some(c) && c < players)
            &&& (g matches BotGoal::EnemyCarrier(c) ==> enemy_carrier == Some(c) && c < players)
            &&& (g == BotGoal::GuardHome ==> role == BotRole::Defense && !carrying)
        }),
{
}

/// Whether a bot turns to fight an enemy it sees (or saw a moment ago):
/// hunters always, others unless carrying, defenders never.
pub fn bot_hunts(role: BotRole, carrying: bool) -> (r: bool)
    ensures
        r == ((role == BotRole::Hunter || !carrying) && role != BotRole::Defense),
{
    (role == BotRole::Hunter || !carrying) && role != BotRole::Defense
}

} // verus!
