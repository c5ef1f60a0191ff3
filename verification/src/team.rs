use vstd::prelude::*;

verus! {

/// The two sides of every match.
#[derive(Clone, Copy, Debug, PartialEq, Eq, Structural)]
pub enum Team {
    Ember,
    Glacier,
}

impl Team {
    /// Index of a team in per-team arrays: Ember 0, Glacier 1.
    pub open spec fn index(self) -> nat {
        match self {
            Team::Ember => 0,
            Team::Glacier => 1,
        }
    }

    /// The opposing team.
    pub open spec fn opponent(self) -> Team {
        match self {
            Team::Ember => Team::Glacier,
            Team::Glacier => Team::Ember,
        }
    }

    pub fn other(self) -> (t: Team)
        ensures
            t == self.opponent(),
    {
        match self {
            Team::Ember => Team::Glacier,
            Team::Glacier => Team::Ember,
        }
    }

    pub fn idx(self) -> (i: usize)
        ensures
            i == self.index(),
    {
        match self {
            Team::Ember => 0,
            Team::Glacier => 1,
        }
    }
}

/// The other team's other team is the team itself, and the two teams always
/// occupy different array slots.
pub proof fn lemma_other_involution(t: Team)
    ensures
        t.opponent().opponent() == t,
        t.opponent() != t,
        t.opponent().index() + t.index() == 1,
{
}

/// The flow of a local match.
#[derive(Clone, Copy, Debug, PartialEq, Eq, Structural)]
pub enum MatchState {
    Flyby,
    Playing,
    Paused,
    Ended,
}

/// Pausing stops a match in play, unpausing resumes a paused one; nothing
/// else changes the state.
pub open spec fn paused_state(state: MatchState, paused: bool) -> MatchState {
    match (state, paused) {
        (MatchState::Playing, true) => MatchState::Paused,
        (MatchState::Paused, false) => MatchState::Playing,
        _ => state,
    }
}

impl MatchState {
    pub fn set_paused(self, paused: bool) -> (r: MatchState)
        ensures
            r == paused_state(self, paused),
    {
        match (self, paused) {
            (MatchState::Playing, true) => MatchState::Paused,
            (MatchState::Paused, false) => MatchState::Playing,
            _ => self,
        }
    }
}

/// Pausing and then unpausing returns any match that was not already paused
/// to where it was; pausing twice is pausing once; unpausing never leaves a
/// match paused.
pub proof fn lemma_pause_round_trip(state: MatchState)
    ensures
        state != MatchState::Paused ==> paused_state(paused_state(state, true), false) == state,
        paused_state(paused_state(state, true), true) == paused_state(state, true),
        paused_state(state, false) != MatchState::Paused,
{
}

} // verus!
