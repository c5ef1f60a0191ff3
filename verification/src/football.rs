//! Football rules: who loses a hit, fumbles and tackles, catches and
//! interceptions, touchdowns and half time, after the classic football mod.
use vstd::prelude::*;

use crate::map_catalog::PackInfo;
use crate::team::Team;

verus! {

/// First team to this many touchdowns wins.
pub const TOUCHDOWNS_TO_WIN: u32 = 40;

/// Points a touchdown and a tackle of the carrier earn the player.
pub const TOUCHDOWN_POINTS: u32 = 5;
pub const TACKLE_POINTS: u32 = 1;

/// Closing speeds (whole m/s): a losing carrier fumbles from FUMBLE_SPEED;
/// from TACKLE_SPEED the loser is tackled.
pub const FUMBLE_SPEED: u32 = 2;
pub const TACKLE_SPEED: u32 = 15;

pub open spec fn team_label(t: Team) -> Seq<char> {
    if t == Team::Ember {
        "EMBER"@
    } else {
        "GLACIER"@
    }
}

pub fn team_name(t: Team) -> (r: &'static str)
    ensures
        r@ == team_label(t),
{
    match t {
        Team::Ember => "EMBER",
        Team::Glacier => "GLACIER",
    }
}

/// Whether a map offers football: its pack declares a field.
pub open spec fn has_field_spec(pack: Option<PackInfo>) -> bool {
    pack matches Some(p) && p.football
}

pub fn has_field(pack: Option<PackInfo>) -> (r: bool)
    ensures
        r == has_field_spec(pack),
{
    match pack {
        Some(p) => p.football,
        None => false,
    }
}

/// Who loses a hit between enemies.
#[derive(Clone, Copy, Debug, PartialEq, Eq, Structural)]
pub enum Losers {
    First,
    Second,
    Both,
}

/// The classic rule: speeds rounded to whole m/s; the slower player loses,
/// and on a tie both do.
pub fn hit_losers(speed_a: u32, speed_b: u32) -> (r: Losers)
    ensures
        r == (if speed_a > speed_b {
            Losers::Second
        } else if speed_b > speed_a {
            Losers::First
        } else {
            Losers::Both
        }),
{
    if speed_a > speed_b {
        Losers::Second
    } else if speed_b > speed_a {
        Losers::First
    } else {
        Losers::Both
    }
}

/// What a lost hit does to the loser.
#[derive(Clone, Copy, Debug, PartialEq, Eq, Structural)]
pub enum HitEffect {
    Unhurt,
    /// The carrier fumbles the ball.
    KnockLoose,
    /// The loser is knocked down (and fumbles if carrying).
    Tackle,
}

/// A losing carrier fumbles at a closing speed of FUMBLE_SPEED up to
/// TACKLE_SPEED; at TACKLE_SPEED or more the loser is tackled, but nobody
/// is tackled while no ball is in play.
pub fn hit_effect(closing: u32, carrier: bool, in_play: bool) -> (r: HitEffect)
    ensures
        r == (if carrier && FUMBLE_SPEED <= closing && closing < TACKLE_SPEED {
            HitEffect::KnockLoose
        } else if closing >= TACKLE_SPEED && in_play {
            HitEffect::Tackle
        } else {
            HitEffect::Unhurt
        }),
{
    if carrier && FUMBLE_SPEED <= closing && closing < TACKLE_SPEED {
        HitEffect::KnockLoose
    } else if closing >= TACKLE_SPEED && in_play {
        HitEffect::Tackle
    } else {
        HitEffect::Unhurt
    }
}

/// How a player comes to hold the ball.
#[derive(Clone, Copy, Debug, PartialEq, Eq, Structural)]
pub enum CatchKind {
    PickUp,
    Intercept,
    Catch,
}

/// The classic wording: a ball nobody threw or dropped, or one barely
/// moving (`slow`: under 1.1 m/s), is picked up; a moving ball from an
/// enemy is intercepted; anything else is caught.
pub open spec fn catch_of(thrower: Option<Team>, slow: bool, catcher: Team) -> CatchKind {
    match thrower {
        None => CatchKind::PickUp,
        Some(t) => if slow {
            CatchKind::PickUp
        } else if t != catcher {
            CatchKind::Intercept
        } else {
            CatchKind::Catch
        },
    }
}

pub fn catch_kind(thrower: Option<Team>, slow: bool, catcher: Team) -> (r: CatchKind)
    ensures
        r == catch_of(thrower, slow, catcher),
{
    match thrower {
        None => CatchKind::PickUp,
        Some(t) => if slow {
            CatchKind::PickUp
        } else if t != catcher {
            CatchKind::Intercept
        } else {
            CatchKind::Catch
        },
    }
}

pub fn catch_text(name: &str, kind: CatchKind) -> (r: String)
    ensures
        r@ == name@ + (match kind {
            CatchKind::PickUp => " picks up the ball"@,
            CatchKind::Intercept => " intercepts the ball!"@,
            CatchKind::Catch => " catches the ball"@,
        }),
{
    let mut out = name.to_owned();
    match kind {
        CatchKind::PickUp => out.append(" picks up the ball"),
        CatchKind::Intercept => out.append(" intercepts the ball!"),
        CatchKind::Catch => out.append(" catches the ball"),
    }
    out
}

pub fn touchdown_text(name: &str, team: Team) -> (r: String)
    ensures
        r@ == name@ + " scores a touchdown for "@ + team_label(team) + "!"@,
{
    let mut out = name.to_owned();
    out.append(" scores a touchdown for ");
    out.append(team_name(team));
    out.append("!");
    out
}

pub fn knock_loose_text(winner: &str, loser: &str) -> (r: String)
    ensures
        r@ == winner@ + " knocks the ball loose from "@ + loser@,
{
    let mut out = winner.to_owned();
    out.append(" knocks the ball loose from ");
    out.append(loser);
    out
}

pub fn tackle_text(winner: &str, loser: &str) -> (r: String)
    ensures
        r@ == winner@ + " tackles "@ + loser@,
{
    let mut out = winner.to_owned();
    out.append(" tackles ");
    out.append(loser);
    out
}

/// A touchdown by `team`'s carrier: one for the team, TOUCHDOWN_POINTS for
/// the scorer. Returns whether the team has won.
pub fn touchdown(score: &mut [u32; 2], points: &mut u32, team: Team) -> (won: bool)
    requires
        old(score)@[team.index() as int] < u32::MAX,
        *old(points) <= u32::MAX - TOUCHDOWN_POINTS,
    ensures
        final(score)@ == old(score)@.update(team.index() as int, (old(score)@[team.index() as int] + 1) as u32),
        *final(points) == *old(points) + TOUCHDOWN_POINTS,
        won == (old(score)@[team.index() as int] + 1 >= TOUCHDOWNS_TO_WIN),
{
    let t = team.idx();
    score[t] = score[t] + 1;
    *points = *points + TOUCHDOWN_POINTS;
    score[t] >= TOUCHDOWNS_TO_WIN
}

/// Half time: the side that did not get the first ball gets the next.
pub fn halftime_side(first_side: u8) -> (r: Team)
    ensures
        r == (if first_side == 0 {
            Team::Glacier
        } else {
            Team::Ember
        }),
{
    if first_side == 0 {
        Team::Glacier
    } else {
        Team::Ember
    }
}

} // verus!
