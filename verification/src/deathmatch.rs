//! Frags and match results: who may hurt whom, how kills are tallied, the
//! Deathmatch and Team Deathmatch frag limits, flag captures and the
//! leader.
use vstd::prelude::*;

use crate::team::{MatchState, Team};

verus! {

/// Deathmatch: the first to this many frags wins.
pub const FFA_FRAG_LIMIT: u32 = 20;

/// Team Deathmatch: the first team to this many frags wins.
pub const TDM_FRAG_LIMIT: u32 = 40;

/// Capture the Flag: the first team to this many captures wins.
pub const CAPTURES: u32 = 3;

/// A player's side and tallies.
#[derive(Clone, Copy, Debug, PartialEq, Eq, Structural)]
pub struct Fragger {
    pub team: Team,
    pub frags: u32,
    pub losses: u32,
    /// Shown on the scoreboard: a connected or local player, not an empty seat.
    pub listed: bool,
}

/// Whether a shot or blast from `owner` (of `team`) may hurt player
/// `victim`. Nobody is hostile to themselves; in Deathmatch (`ffa`) every
/// other player is; otherwise the other team is. An owner that isn't a
/// player (a turret) goes by team.
pub open spec fn hostile_to(ffa: bool, players: Seq<Fragger>, owner: usize, team: Team, victim: usize) -> bool {
    owner != victim && ((ffa && owner < players.len()) || (victim < players.len()
        && players[victim as int].team != team))
}

pub fn hostile(ffa: bool, players: &[Fragger], owner: usize, team: Team, victim: usize) -> (r: bool)
    ensures
        r == hostile_to(ffa, players@, owner, team, victim),
{
    if owner == victim {
        return false;
    }
    if ffa && owner < players.len() {
        return true;
    }
    victim < players.len() && players[victim].team != team
}

/// The killer credited with a kill of `victim`: a player other than the
/// victim, on the other team.
pub open spec fn credited(players: Seq<Fragger>, victim: usize, killer: Option<usize>) -> Option<usize> {
    match killer {
        Some(k) => if k < players.len() && k != victim && players[k as int].team
            != players[victim as int].team {
            Some(k)
        } else {
            None
        },
        None => None,
    }
}

/// Tally a death: the victim's losses grow by one, and an enemy killer's
/// frags by one.
pub fn record_kill(players: &mut Vec<Fragger>, victim: usize, killer: Option<usize>)
    requires
        victim < old(players)@.len(),
        old(players)@[victim as int].losses < u32::MAX,
        forall|k: int| 0 <= k < old(players)@.len() ==> #[trigger] old(players)@[k].frags < u32::MAX,
    ensures
        final(players)@.len() == old(players)@.len(),
        final(players)@[victim as int] == (Fragger { losses: (old(players)@[victim as int].losses + 1) as u32, ..old(players)@[victim as int] }),
        credited(old(players)@, victim, killer) matches Some(k) ==> final(players)@[k as int] == (Fragger {
            frags: (old(players)@[k as int].frags + 1) as u32,
            ..old(players)@[k as int]
        }),
        forall|j: int|
            0 <= j < old(players)@.len() && j != victim && credited(old(players)@, victim, killer) != Some(j as usize)
                ==> #[trigger] final(players)@[j] == old(players)@[j],
{
    let v = players[victim];
    players.set(victim, Fragger { losses: v.losses + 1, ..v });
    match killer {
        Some(k) => {
            if k < players.len() && k != victim && players[k].team != players[victim].team {
                let f = players[k];
                players.set(k, Fragger { frags: f.frags + 1, ..f });
            }
        },
        None => {},
    }
}

/// Deathmatch scoring after `killer` frags `victim` (only during play in
/// either deathmatch mode). Killing yourself costs a Deathmatch frag; an
/// enemy frag in Team Deathmatch scores one for the team. Returns whether
/// the match is won: the killer has FFA_FRAG_LIMIT frags (Deathmatch) or
/// the team TDM_FRAG_LIMIT (Team Deathmatch).
pub fn deathmatch_frag(
    ffa: bool,
    players: &mut Vec<Fragger>,
    score: &mut [u32; 2],
    killer: Option<usize>,
    victim: usize,
) -> (ended: bool)
    requires
        forall|t: int| 0 <= t < 2 ==> #[trigger] old(score)@[t] < u32::MAX,
    ensures
        ({
            let ps = old(players)@;
            match killer {
                Some(k) if k < ps.len() => if k == victim {
                    &&& !ended
                    &&& final(score)@ == old(score)@
                    &&& if ffa {
                        final(players)@ == ps.update(
                            k as int,
                            Fragger {
                                frags: if ps[k as int].frags > 0 {
                                    (ps[k as int].frags - 1) as u32
                                } else {
                                    0
                                },
                                ..ps[k as int]
                            },
                        )
                    } else {
                        final(players)@ == ps
                    }
                } else if !hostile_to(ffa, ps, k, ps[k as int].team, victim) {
                    !ended && final(score)@ == old(score)@ && final(players)@ == ps
                } else if ffa {
                    ended == (ps[k as int].frags >= FFA_FRAG_LIMIT) && final(score)@ == old(score)@
                        && final(players)@ == ps
                } else {
                    let t = ps[k as int].team.index() as int;
                    &&& final(score)@ == old(score)@.update(t, (old(score)@[t] + 1) as u32)
                    &&& ended == (old(score)@[t] + 1 >= TDM_FRAG_LIMIT)
                    &&& final(players)@ == ps
                },
                _ => !ended && final(score)@ == old(score)@ && final(players)@ == ps,
            }
        }),
{
    let k = match killer {
        Some(k) => if k < players.len() {
            k
        } else {
            return false;
        },
        None => {
            return false;
        },
    };
    if k == victim {
        if ffa {
            let f = players[k];
            players.set(k, Fragger { frags: if f.frags > 0 { f.frags - 1 } else { 0 }, ..f });
        }
        return false;
    }
    if !hostile(ffa, players.as_slice(), k, players[k].team, victim) {
        return false;
    }
    if ffa {
        players[k].frags >= FFA_FRAG_LIMIT
    } else {
        let t = players[k].team.idx();
        score[t] = score[t] + 1;
        score[t] >= TDM_FRAG_LIMIT
    }
}

/// `a` ranks above `b` on the Deathmatch board: more frags, then fewer
/// deaths.
pub open spec fn ranks_above(a: Fragger, b: Fragger) -> bool {
    a.frags > b.frags || (a.frags == b.frags && a.losses < b.losses)
}

/// Player `i` leads: listed, nobody listed ranks above them, and they come
/// last among those who rank equal.
pub open spec fn leads(players: Seq<Fragger>, i: int) -> bool {
    &&& 0 <= i < players.len()
    &&& players[i].listed
    &&& forall|j: int| 0 <= j < players.len() && #[trigger] players[j].listed ==> !ranks_above(players[j], players[i])
    &&& forall|j: int| i < j < players.len() && #[trigger] players[j].listed ==> ranks_above(players[i], players[j])
}

/// The Deathmatch leader: most frags, then fewest deaths; the last listed
/// of equals. None when nobody is listed.
pub fn ffa_leader(players: &[Fragger]) -> (r: Option<usize>)
    ensures
        r is None <==> forall|j: int| 0 <= j < players@.len() ==> !#[trigger] players@[j].listed,
        r matches Some(i) ==> leads(players@, i as int),
{
    let mut best: Option<usize> = None;
    let mut i: usize = 0;
    while i < players.len()
        invariant
            i <= players@.len(),
            best is None ==> forall|j: int| 0 <= j < i ==> !#[trigger] players@[j].listed,
            best matches Some(b) ==> {
                &&& b < i
                &&& players@[b as int].listed
                &&& forall|j: int| 0 <= j < i && #[trigger] players@[j].listed ==> !ranks_above(players@[j], players@[b as int])
                &&& forall|j: int| b < j < i && #[trigger] players@[j].listed ==> ranks_above(players@[b as int], players@[j])
            },
        decreases players.len() - i,
    {
        let p = players[i];
        if p.listed {
            match best {
                None => {
                    best = Some(i);
                },
                Some(b) => {
                    let c = players[b];
                    if !(c.frags > p.frags || (c.frags == p.frags && c.losses < p.losses)) {
                        best = Some(i);
                    }
                },
            }
        }
        i = i + 1;
    }
    best
}

/// How a finished team match ended for one side.
#[derive(Clone, Copy, Debug, PartialEq, Eq, Structural)]
pub enum Outcome {
    Victory,
    Defeat,
    Draw,
}

pub fn team_outcome(mine: Team, score: [u32; 2]) -> (r: Outcome)
    ensures
        r == (if score@[mine.index() as int] > score@[mine.opponent().index() as int] {
            Outcome::Victory
        } else if score@[mine.index() as int] < score@[mine.opponent().index() as int] {
            Outcome::Defeat
        } else {
            Outcome::Draw
        }),
{
    let m = mine.idx();
    let o = mine.other().idx();
    if score[m] > score[o] {
        Outcome::Victory
    } else if score[m] < score[o] {
        Outcome::Defeat
    } else {
        Outcome::Draw
    }
}

/// A flag capture by `team`: one point; the match is won at CAPTURES.
pub fn capture(score: &mut [u32; 2], team: Team) -> (won: bool)
    requires
        old(score)@[team.index() as int] < u32::MAX,
    ensures
        final(score)@ == old(score)@.update(team.index() as int, (old(score)@[team.index() as int] + 1) as u32),
        won == (old(score)@[team.index() as int] + 1 >= CAPTURES),
{
    let t = team.idx();
    score[t] = score[t] + 1;
    score[t] >= CAPTURES
}

/// The winner the HUD shows: 0 for Ember, 1 for Glacier, -1 for a draw once
/// the match has ended, and -2 while it has not.
pub fn hud_winner(state: MatchState, score: [u32; 2]) -> (r: i8)
    ensures
        r == (if state != MatchState::Ended {
            -2i8
        } else if score@[0] > score@[1] {
            0i8
        } else if score@[1] > score@[0] {
            1i8
        } else {
            -1i8
        }),
{
    if state != MatchState::Ended {
        -2
    } else if score[0] > score[1] {
        0
    } else if score[1] > score[0] {
        1
    } else {
        -1
    }
}

} // verus!
