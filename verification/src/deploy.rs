//! Deployables: turrets, walls, force fields and ammo stations bought at an
//! inventory station and placed where you aim. Each team may have only so
//! many of each standing.
use vstd::prelude::*;

verus! {

#[derive(Clone, Copy, Debug, PartialEq, Eq, Structural)]
pub enum DeployKind {
    Turret,
    Wall,
    Field,
    Ammo,
}

/// Standing deployables of one kind a team may have at once.
pub open spec fn limit_of(kind: DeployKind) -> usize {
    match kind {
        DeployKind::Turret => 4,
        DeployKind::Wall => 6,
        DeployKind::Field => 4,
        DeployKind::Ammo => 5,
    }
}

pub fn team_limit(kind: DeployKind) -> (r: usize)
    ensures
        r == limit_of(kind),
{
    match kind {
        DeployKind::Turret => 4,
        DeployKind::Wall => 6,
        DeployKind::Field => 4,
        DeployKind::Ammo => 5,
    }
}

/// Half-extents of a box, in millimetres.
#[derive(Clone, Copy, Debug, PartialEq, Eq, Structural)]
pub struct HalfExtents {
    pub x_mm: u32,
    pub y_mm: u32,
    pub z_mm: u32,
}

/// A box-shaped deployable's half-extents: an ammo station crate is
/// 1.1 x 0.9 x 0.8 m; a wall or field panel 4 m wide, 3.2 m tall and
/// 0.36 m thick; a turret is a post instead.
pub open spec fn extents_of(kind: DeployKind) -> Option<HalfExtents> {
    match kind {
        DeployKind::Turret => None,
        DeployKind::Ammo => Some(HalfExtents { x_mm: 550, y_mm: 450, z_mm: 400 }),
        _ => Some(HalfExtents { x_mm: 2000, y_mm: 1600, z_mm: 180 }),
    }
}

pub fn half_extents(kind: DeployKind) -> (r: Option<HalfExtents>)
    ensures
        r == extents_of(kind),
{
    match kind {
        DeployKind::Turret => None,
        DeployKind::Ammo => Some(HalfExtents { x_mm: 550, y_mm: 450, z_mm: 400 }),
        _ => Some(HalfExtents { x_mm: 2000, y_mm: 1600, z_mm: 180 }),
    }
}

/// Why a deployable cannot go where it is aimed, in the order the checks run.
#[derive(Clone, Copy, Debug, PartialEq, Eq, Structural)]
pub enum PlacementProblem {
    TeamLimit,
    NoRoom,
    NotFlat,
    NearFlag,
    NearSpawn,
    NearDeployable,
    SomeoneInTheWay,
}

impl PlacementProblem {
    pub open spec fn message_text(self) -> Seq<char> {
        match self {
            PlacementProblem::TeamLimit => "YOUR TEAM HAS THE MAXIMUM OF THOSE DEPLOYED"@,
            PlacementProblem::NoRoom => "NO ROOM THERE"@,
            PlacementProblem::NotFlat => "NO FLAT GROUND THERE"@,
            PlacementProblem::NearFlag => "TOO CLOSE TO A FLAG"@,
            PlacementProblem::NearSpawn => "TOO CLOSE TO A SPAWN"@,
            PlacementProblem::NearDeployable => "TOO CLOSE TO ANOTHER DEPLOYABLE"@,
            PlacementProblem::SomeoneInTheWay => "SOMEONE IS IN THE WAY"@,
        }
    }

    pub fn message(self) -> (r: &'static str)
        ensures
            r@ == self.message_text(),
    {
        match self {
            PlacementProblem::TeamLimit => "YOUR TEAM HAS THE MAXIMUM OF THOSE DEPLOYED",
            PlacementProblem::NoRoom => "NO ROOM THERE",
            PlacementProblem::NotFlat => "NO FLAT GROUND THERE",
            PlacementProblem::NearFlag => "TOO CLOSE TO A FLAG",
            PlacementProblem::NearSpawn => "TOO CLOSE TO A SPAWN",
            PlacementProblem::NearDeployable => "TOO CLOSE TO ANOTHER DEPLOYABLE",
            PlacementProblem::SomeoneInTheWay => "SOMEONE IS IN THE WAY",
        }
    }
}

/// What the placement survey found where a unit is aimed. The geometry is
/// measured by the caller.
#[derive(Clone, Copy, Debug, PartialEq, Eq, Structural)]
pub struct Survey {
    /// The aim meets another deployable first.
    pub on_unit: bool,
    /// Level ground (a floor within 0.6 m and a normal at most ~32 degrees off vertical).
    pub flat: bool,
    /// Within 12 m of a flag stand.
    pub near_flag: bool,
    /// Within 6 m of either team's spawn point.
    pub near_spawn: bool,
    /// Within 3 m of another deployable.
    pub near_deployable: bool,
    /// Something solid 0.3 to 1.2 m above the spot.
    pub blocked_overhead: bool,
    /// For a wall or field: something solid across the panel.
    pub panel_blocked: bool,
    /// For a wall or field: the floor under an end differs by more than 1 m.
    pub panel_uneven: bool,
    /// A living player stands inside the unit.
    pub occupied: bool,
}

pub open spec fn problem_of(kind: DeployKind, standing: usize, s: Survey) -> Option<PlacementProblem> {
    let panel = kind == DeployKind::Wall || kind == DeployKind::Field;
    if standing >= limit_of(kind) {
        Some(PlacementProblem::TeamLimit)
    } else if s.on_unit {
        Some(PlacementProblem::NoRoom)
    } else if !s.flat {
        Some(PlacementProblem::NotFlat)
    } else if s.near_flag {
        Some(PlacementProblem::NearFlag)
    } else if s.near_spawn {
        Some(PlacementProblem::NearSpawn)
    } else if s.near_deployable {
        Some(PlacementProblem::NearDeployable)
    } else if s.blocked_overhead {
        Some(PlacementProblem::NoRoom)
    } else if panel && s.panel_blocked {
        Some(PlacementProblem::NoRoom)
    } else if panel && s.panel_uneven {
        Some(PlacementProblem::NotFlat)
    } else if s.occupied {
        Some(PlacementProblem::SomeoneInTheWay)
    } else {
        None
    }
}

/// The first reason a `kind` cannot go down, when the team already has
/// `standing` of that kind and the survey found `s`; None when it can.
pub fn placement_problem(kind: DeployKind, standing: usize, s: Survey) -> (r: Option<PlacementProblem>)
    ensures
        r == problem_of(kind, standing, s),
        r is None <==> {
            &&& standing < match kind {
                DeployKind::Turret => 4usize,
                DeployKind::Wall => 6usize,
                DeployKind::Field => 4usize,
                DeployKind::Ammo => 5usize,
            }
            &&& !s.on_unit && s.flat && !s.near_flag && !s.near_spawn
            &&& !s.near_deployable && !s.blocked_overhead && !s.occupied
            &&& (kind == DeployKind::Wall || kind == DeployKind::Field) ==> !s.panel_blocked
                && !s.panel_uneven
        },
        (kind == DeployKind::Wall || kind == DeployKind::Field) && r is None ==> !s.panel_blocked,
{
    let panel = match kind {
        DeployKind::Wall | DeployKind::Field => true,
        _ => false,
    };
    if standing >= team_limit(kind) {
        Some(PlacementProblem::TeamLimit)
    } else if s.on_unit {
        Some(PlacementProblem::NoRoom)
    } else if !s.flat {
        Some(PlacementProblem::NotFlat)
    } else if s.near_flag {
        Some(PlacementProblem::NearFlag)
    } else if s.near_spawn {
        Some(PlacementProblem::NearSpawn)
    } else if s.near_deployable {
        Some(PlacementProblem::NearDeployable)
    } else if s.blocked_overhead {
        Some(PlacementProblem::NoRoom)
    } else if panel && s.panel_blocked {
        Some(PlacementProblem::NoRoom)
    } else if panel && s.panel_uneven {
        Some(PlacementProblem::NotFlat)
    } else if s.occupied {
        Some(PlacementProblem::SomeoneInTheWay)
    } else {
        None
    }
}

/// A deployable goes down exactly when its team stands below the limit for
/// its kind (four turrets, six walls, four force fields, five ammo stations)
/// and the survey found nothing that applies to that kind: every finding
/// applies to every kind, and the panel findings (something across the
/// panel, uneven ground under an end) to walls and fields alone. The limit
/// is refused first, and refused exactly when it is reached.
pub proof fn lemma_placement_clear(kind: DeployKind, standing: usize, s: Survey)
    ensures
        ({
            let limit: usize = match kind {
                DeployKind::Turret => 4usize,
                DeployKind::Wall => 6usize,
                DeployKind::Field => 4usize,
                DeployKind::Ammo => 5usize,
            };
            let panel = kind == DeployKind::Wall || kind == DeployKind::Field;
            &&& problem_of(kind, standing, s) is None <==> {
                &&& standing < limit
                &&& !s.on_unit && s.flat && !s.near_flag && !s.near_spawn
                &&& !s.near_deployable && !s.blocked_overhead && !s.occupied
                &&& panel ==> !s.panel_blocked && !s.panel_uneven
            }
            &&& (problem_of(kind, standing, s) == Some(PlacementProblem::TeamLimit)) <==> standing
                >= limit
        }),
{
}

/// A wall or force field whose panel something solid crosses has no room,
/// when the team is below its limit and no check that runs earlier (the aim
/// on another unit, level ground, the distances to flags, spawns and other
/// units, room overhead) has refused it already.
pub proof fn lemma_panel_blocked_no_room(kind: DeployKind, standing: usize, s: Survey)
    requires
        kind == DeployKind::Wall || kind == DeployKind::Field,
        standing < (if kind == DeployKind::Wall { 6usize } else { 4usize }),
        s.panel_blocked,
        !s.on_unit,
        s.flat,
        !s.near_flag,
        !s.near_spawn,
        !s.near_deployable,
        !s.blocked_overhead,
    ensures
        problem_of(kind, standing, s) == Some(PlacementProblem::NoRoom),
{
}

} // verus!
