//! Authoritative match session: connection seats and their identities,
//! team assignment and balance, rate-limited renames and chat, command
//! acknowledgement and the round phases.
use vstd::prelude::*;

use crate::feed::{entries_for, message, message_of, push, pushed, shown_to, Entry, CAPACITY};
use crate::team::Team;

verus! {

/// Connection seats on a server.
pub const MAX_PLAYERS: usize = 8;

/// Ticks a player waits between renames.
pub const RENAME_GAP: u64 = 600;

/// Ticks a player waits between chat lines.
pub const CHAT_GAP: u64 = 60;

#[derive(Clone, Copy, Debug, PartialEq, Eq, Structural)]
pub enum Phase {
    Waiting,
    Countdown,
    Playing,
    Intermission,
}

/// A connection seat. `net_id` 0 marks a free seat.
#[derive(Debug)]
pub struct Seat {
    pub net_id: u32,
    pub name: String,
    pub team: Team,
    pub alive: bool,
    /// The enemy flag this player carries.
    pub carrying: Option<Team>,
}

/// The session state that decides who plays, on which side, and who may
/// speak when.
#[derive(Debug)]
pub struct Lobby {
    pub seats: Vec<Seat>,
    /// Highest command sequence acknowledged per seat.
    pub acks: Vec<u64>,
    /// Tick before which each seat may not chat again.
    pub chat_next: Vec<u64>,
    /// Tick before which each seat may not rename again.
    pub rename_next: Vec<u64>,
    pub tick: u64,
    pub round: u32,
    pub phase: Phase,
    pub feed: Vec<Entry>,
}

pub open spec fn occupied(s: Seat) -> bool {
    s.net_id != 0
}

/// Occupied seats of `team`.
pub open spec fn team_count(seats: Seq<Seat>, team: Team) -> nat
    decreases seats.len(),
{
    if seats.len() == 0 {
        0
    } else {
        team_count(seats.drop_last(), team) + (if occupied(seats.last()) && seats.last().team
            == team {
            1nat
        } else {
            0nat
        })
    }
}

/// Some occupied seat has connection identity `id`.
pub open spec fn id_taken(seats: Seq<Seat>, id: u32) -> bool {
    exists|i: int| 0 <= i < seats.len() && #[trigger] seats[i].net_id == id
}

/// `s` is the first free seat.
pub open spec fn first_free(seats: Seq<Seat>, s: int) -> bool {
    0 <= s < seats.len() && seats[s].net_id == 0 && forall|j: int|
        0 <= j < s ==> #[trigger] seats[j].net_id != 0
}

pub open spec fn has_free(seats: Seq<Seat>) -> bool {
    exists|i: int| 0 <= i < seats.len() && #[trigger] seats[i].net_id == 0
}

/// The side a newcomer joins: Ember unless it already has more players.
pub open spec fn join_side(seats: Seq<Seat>) -> Team {
    if team_count(seats, Team::Ember) <= team_count(seats, Team::Glacier) {
        Team::Ember
    } else {
        Team::Glacier
    }
}

/// Every seat is empty.
pub open spec fn deserted(seats: Seq<Seat>) -> bool {
    forall|i: int| 0 <= i < seats.len() ==> #[trigger] seats[i].net_id == 0
}

/// Every seat but `slot` is empty.
pub open spec fn last_one(seats: Seq<Seat>, slot: int) -> bool {
    forall|i: int| 0 <= i < seats.len() && i != slot ==> #[trigger] seats[i].net_id == 0
}

pub open spec fn saturating_add(a: u64, b: u64) -> u64 {
    if a + b > u64::MAX {
        u64::MAX
    } else {
        (a + b) as u64
    }
}

fn count_team(seats: &Vec<Seat>, team: Team) -> (r: usize)
    requires
        seats@.len() <= MAX_PLAYERS,
    ensures
        r == team_count(seats@, team),
        r <= MAX_PLAYERS,
{
    let mut n: usize = 0;
    let mut i: usize = 0;
    while i < seats.len()
        invariant
            seats@.len() <= MAX_PLAYERS,
            i <= seats@.len(),
            n == team_count(seats@.take(i as int), team),
            n <= i,
        decreases seats.len() - i,
    {
        assert(seats@.take(i + 1).drop_last() =~= seats@.take(i as int));
        if seats[i].net_id != 0 && seats[i].team == team {
            n = n + 1;
        }
        i = i + 1;
    }
    assert(seats@.take(seats@.len() as int) =~= seats@);
    n
}

fn all_free(seats: &Vec<Seat>) -> (r: bool)
    ensures
        r == deserted(seats@),
{
    let mut i: usize = 0;
    while i < seats.len()
        invariant
            i <= seats@.len(),
            forall|k: int| 0 <= k < i ==> #[trigger] seats@[k].net_id == 0,
        decreases seats.len() - i,
    {
        if seats[i].net_id != 0 {
            return false;
        }
        i = i + 1;
    }
    true
}

fn empty_seat() -> (r: Seat)
    ensures
        r.net_id == 0,
        r.name@.len() == 0,
        r.team == Team::Ember,
        !r.alive,
        r.carrying is None,
{
    Seat { net_id: 0, name: String::new(), team: Team::Ember, alive: false, carrying: None }
}

impl Lobby {
    /// Seat tables all have MAX_PLAYERS entries, occupied seats have
    /// distinct identities, and the feed is within its capacity.
    pub open spec fn wf(&self) -> bool {
        &&& self.seats@.len() == MAX_PLAYERS
        &&& self.acks@.len() == MAX_PLAYERS
        &&& self.chat_next@.len() == MAX_PLAYERS
        &&& self.rename_next@.len() == MAX_PLAYERS
        &&& self.feed@.len() <= CAPACITY
        &&& forall|i: int, j: int|
            0 <= i < j < MAX_PLAYERS && #[trigger] occupied(self.seats@[i]) && #[trigger] occupied(
                self.seats@[j],
            ) ==> self.seats@[i].net_id != self.seats@[j].net_id
    }

    /// A fresh session: every seat free, nothing acknowledged, waiting.
    pub fn new() -> (r: Lobby)
        ensures
            r.wf(),
            deserted(r.seats@),
            r.tick == 0,
            r.round == 0,
            r.phase == Phase::Waiting,
            r.feed@.len() == 0,
            forall|i: int| 0 <= i < MAX_PLAYERS ==> #[trigger] r.acks@[i] == 0 && r.chat_next@[i] == 0 && r.rename_next@[i] == 0,
    {
        let mut seats: Vec<Seat> = Vec::new();
        let mut acks: Vec<u64> = Vec::new();
        let mut chat_next: Vec<u64> = Vec::new();
        let mut rename_next: Vec<u64> = Vec::new();
        let mut i: usize = 0;
        while i < MAX_PLAYERS
            invariant
                i <= MAX_PLAYERS,
                seats@.len() == i,
                acks@.len() == i,
                chat_next@.len() == i,
                rename_next@.len() == i,
                forall|k: int| 0 <= k < i ==> #[trigger] seats@[k].net_id == 0,
                forall|k: int| 0 <= k < i ==> #[trigger] acks@[k] == 0 && chat_next@[k] == 0 && rename_next@[k] == 0,
            decreases MAX_PLAYERS - i,
        {
            seats.push(empty_seat());
            acks.push(0);
            chat_next.push(0);
            rename_next.push(0);
            i = i + 1;
        }
        Lobby { seats, acks, chat_next, rename_next, tick: 0, round: 0, phase: Phase::Waiting, feed: Vec::new() }
    }

    /// Seat a new connection `id` under `name`, the outcome of the name
    /// rules on what the player asked for (None: the rules refused it): the
    /// first free seat, on Ember unless Ember has more players. None when
    /// the name was refused, `id` is 0 or already seated, or every seat is
    /// taken.
    pub fn join(&mut self, id: u32, name: Option<String>) -> (r: Option<usize>)
        requires
            old(self).wf(),
        ensures
            final(self).wf(),
            r is None <==> (name is None || id == 0 || id_taken(old(self).seats@, id) || !has_free(old(self).seats@)),
            r is None ==> final(self).seats@ == old(self).seats@ && final(self).acks@ == old(self).acks@
                && final(self).chat_next@ == old(self).chat_next@ && final(self).rename_next@ == old(self).rename_next@,
            r matches Some(s) ==> {
                &&& first_free(old(self).seats@, s as int)
                &&& final(self).seats@ == old(self).seats@.update(
                    s as int,
                    Seat { net_id: id, name: name->Some_0, team: join_side(old(self).seats@), alive: true, carrying: None },
                )
                &&& final(self).acks@ == old(self).acks@.update(s as int, 0)
                &&& final(self).chat_next@ == old(self).chat_next@.update(s as int, 0)
                &&& final(self).rename_next@ == old(self).rename_next@.update(s as int, 0)
            },
            final(self).tick == old(self).tick,
            final(self).round == old(self).round,
            final(self).phase == old(self).phase,
            final(self).feed@ == old(self).feed@,
    {
        let name = match name {
            Some(n) => n,
            None => {
                return None;
            },
        };
        if id == 0 {
            return None;
        }
        let mut free: Option<usize> = None;
        let mut i: usize = 0;
        while i < MAX_PLAYERS
            invariant
                self.wf(),
                i <= MAX_PLAYERS,
                id != 0,
                forall|k: int| 0 <= k < i ==> #[trigger] self.seats@[k].net_id != id,
                free matches Some(f) ==> first_free(self.seats@, f as int) && f < i,
                free is None ==> forall|k: int| 0 <= k < i ==> #[trigger] self.seats@[k].net_id != 0,
            decreases MAX_PLAYERS - i,
        {
            let n = self.seats[i].net_id;
            if n == id {
                assert(id_taken(self.seats@, id));
                return None;
            }
            if n == 0 && free.is_none() {
                free = Some(i);
            }
            i = i + 1;
        }
        let slot = match free {
            Some(s) => s,
            None => {
                return None;
            },
        };
        let ember = count_team(&self.seats, Team::Ember);
        let glacier = count_team(&self.seats, Team::Glacier);
        let team = if ember <= glacier {
            Team::Ember
        } else {
            Team::Glacier
        };
        let ghost before = self.seats@;
        self.seats.set(slot, Seat { net_id: id, name, team, alive: true, carrying: None });
        self.acks.set(slot, 0);
        self.chat_next.set(slot, 0);
        self.rename_next.set(slot, 0);
        assert forall|a: int, b: int|
            0 <= a < b < MAX_PLAYERS && #[trigger] occupied(self.seats@[a]) && #[trigger] occupied(
                self.seats@[b],
            ) implies self.seats@[a].net_id != self.seats@[b].net_id by {
            if a != slot && b != slot {
                assert(occupied(before[a]) && occupied(before[b]));
            }
        }
        Some(slot)
    }

    /// Rename the player in `slot` (from the connection, never from the
    /// client) to `name`, the outcome of the name rules on what the player
    /// asked for (None: the rules refused it), at most once per RENAME_GAP
    /// ticks. Keeping the same name succeeds without using up the wait.
    pub fn rename(&mut self, slot: usize, name: Option<String>) -> (r: bool)
        requires
            old(self).wf(),
        ensures
            final(self).wf(),
            r == (name is Some && slot < MAX_PLAYERS && occupied(old(self).seats@[slot as int]) && old(self).tick
                >= old(self).rename_next@[slot as int]),
            (r && old(self).seats@[slot as int].name@ != name->Some_0@) ==> {
                &&& final(self).seats@[slot as int].name == name->Some_0
                &&& final(self).seats@[slot as int].net_id == old(self).seats@[slot as int].net_id
                &&& final(self).seats@[slot as int].team == old(self).seats@[slot as int].team
                &&& final(self).seats@[slot as int].alive == old(self).seats@[slot as int].alive
                &&& final(self).seats@[slot as int].carrying == old(self).seats@[slot as int].carrying
                &&& forall|k: int| 0 <= k < MAX_PLAYERS && k != slot ==> #[trigger] final(self).seats@[k] == old(self).seats@[k]
                &&& final(self).rename_next@ == old(self).rename_next@.update(slot as int, saturating_add(old(self).tick, RENAME_GAP))
            },
            !(r && old(self).seats@[slot as int].name@ != name->Some_0@) ==> final(self).seats@ == old(self).seats@
                && final(self).rename_next@ == old(self).rename_next@,
            final(self).acks@ == old(self).acks@,
            final(self).chat_next@ == old(self).chat_next@,
            final(self).tick == old(self).tick,
            final(self).round == old(self).round,
            final(self).phase == old(self).phase,
            final(self).feed@ == old(self).feed@,
    {
        let name = match name {
            Some(n) => n,
            None => {
                return false;
            },
        };
        if slot >= MAX_PLAYERS || self.seats[slot].net_id == 0 {
            return false;
        }
        if self.tick < self.rename_next[slot] {
            return false;
        }
        if self.seats[slot].name == name {
            return true;
        }
        let ghost before = self.seats@;
        self.seats[slot].name = name;
        let next = self.tick.saturating_add(RENAME_GAP);
        self.rename_next.set(slot, next);
        assert forall|a: int, b: int|
            0 <= a < b < MAX_PLAYERS && #[trigger] occupied(self.seats@[a]) && #[trigger] occupied(
                self.seats@[b],
            ) implies self.seats@[a].net_id != self.seats@[b].net_id by {
            assert(occupied(before[a]) && occupied(before[b]));
        }
        true
    }

    /// A chat line from `slot` to everyone.
    pub fn chat(&mut self, slot: usize, text: &str) -> (r: bool)
        requires
            old(self).wf(),
        ensures
            final(self).wf(),
            r == (slot < MAX_PLAYERS && occupied(old(self).seats@[slot as int]) && message_of(text) is Some
                && old(self).tick >= old(self).chat_next@[slot as int]),
            r ==> {
                let sender = old(self).seats@[slot as int];
                &&& final(self).chat_next@ == old(self).chat_next@.update(slot as int, saturating_add(old(self).tick, CHAT_GAP))
                &&& final(self).feed@.len() > 0
                &&& final(self).feed@ == pushed(old(self).feed@, final(self).feed@.last())
                &&& final(self).feed@.last() matches Entry::Chat { sender: n, text: t } && n == sender.name
                    && t@ == message_of(text)->Some_0
            },
            !r ==> final(self).feed@ == old(self).feed@ && final(self).chat_next@ == old(self).chat_next@,
            final(self).seats@ == old(self).seats@,
            final(self).acks@ == old(self).acks@,
            final(self).rename_next@ == old(self).rename_next@,
            final(self).tick == old(self).tick,
            final(self).round == old(self).round,
            final(self).phase == old(self).phase,
    {
        self.chat_channel(slot, text, false)
    }

    /// A chat line from `slot` (to its team only when `team_only`): the
    /// seat must be occupied, the text acceptable (`feed::message`) and
    /// CHAT_GAP ticks must have passed since its last line. The sender's
    /// name and team are captured now.
    pub fn chat_channel(&mut self, slot: usize, text: &str, team_only: bool) -> (r: bool)
        requires
            old(self).wf(),
        ensures
            final(self).wf(),
            r == (slot < MAX_PLAYERS && occupied(old(self).seats@[slot as int]) && message_of(text) is Some
                && old(self).tick >= old(self).chat_next@[slot as int]),
            r ==> {
                let sender = old(self).seats@[slot as int];
                let said = message_of(text)->Some_0;
                &&& final(self).chat_next@ == old(self).chat_next@.update(slot as int, saturating_add(old(self).tick, CHAT_GAP))
                &&& final(self).feed@.len() > 0
                &&& final(self).feed@ == pushed(old(self).feed@, final(self).feed@.last())
                &&& (if team_only {
                    final(self).feed@.last() matches Entry::TeamChat { sender: n, text: t, team }
                        && n == sender.name && t@ == said && team == sender.team
                } else {
                    final(self).feed@.last() matches Entry::Chat { sender: n, text: t } && n == sender.name
                        && t@ == said
                })
            },
            !r ==> final(self).feed@ == old(self).feed@ && final(self).chat_next@ == old(self).chat_next@,
            final(self).seats@ == old(self).seats@,
            final(self).acks@ == old(self).acks@,
            final(self).rename_next@ == old(self).rename_next@,
            final(self).tick == old(self).tick,
            final(self).round == old(self).round,
            final(self).phase == old(self).phase,
    {
        if slot >= MAX_PLAYERS || self.seats[slot].net_id == 0 {
            return false;
        }
        let said = match message(text) {
            Some(t) => t,
            None => {
                return false;
            },
        };
        if self.tick < self.chat_next[slot] {
            return false;
        }
        let next = self.tick.saturating_add(CHAT_GAP);
        self.chat_next.set(slot, next);
        let sender = self.seats[slot].name.clone();
        let entry = if team_only {
            Entry::TeamChat { sender, text: said, team: self.seats[slot].team }
        } else {
            Entry::Chat { sender, text: said }
        };
        push(&mut self.feed, entry);
        true
    }

    /// The player in `slot` leaves: the seat is freed (its side kept), its
    /// acknowledgements forgotten, and the flag it carried is returned for
    /// the world to drop. When the last player leaves, the whole session
    /// starts afresh, keeping only the tick (the health clock stays
    /// monotonic).
    pub fn leave(&mut self, slot: usize) -> (dropped: Option<Team>)
        requires
            old(self).wf(),
            slot < MAX_PLAYERS,
        ensures
            final(self).wf(),
            dropped == old(self).seats@[slot as int].carrying,
            final(self).tick == old(self).tick,
            last_one(old(self).seats@, slot as int) ==> {
                &&& deserted(final(self).seats@)
                &&& final(self).round == 0
                &&& final(self).phase == Phase::Waiting
                &&& final(self).feed@.len() == 0
                &&& forall|i: int| 0 <= i < MAX_PLAYERS ==> #[trigger] final(self).acks@[i] == 0
                    && final(self).chat_next@[i] == 0 && final(self).rename_next@[i] == 0
            },
            !last_one(old(self).seats@, slot as int) ==> {
                &&& final(self).seats@[slot as int].net_id == 0
                &&& final(self).seats@[slot as int].name@.len() == 0
                &&& final(self).seats@[slot as int].team == old(self).seats@[slot as int].team
                &&& !final(self).seats@[slot as int].alive
                &&& final(self).seats@[slot as int].carrying is None
                &&& forall|k: int| 0 <= k < MAX_PLAYERS && k != slot ==> #[trigger] final(self).seats@[k] == old(self).seats@[k]
                &&& final(self).acks@ == old(self).acks@.update(slot as int, 0)
                &&& final(self).chat_next@ == old(self).chat_next@
                &&& final(self).rename_next@ == old(self).rename_next@
                &&& final(self).round == old(self).round
                &&& final(self).phase == old(self).phase
                &&& final(self).feed@ == old(self).feed@
            },
    {
        let ghost before = self.seats@;
        let dropped = self.seats[slot].carrying;
        let team = self.seats[slot].team;
        self.seats.set(slot, Seat { net_id: 0, name: String::new(), team, alive: false, carrying: None });
        self.acks.set(slot, 0);
        assert forall|a: int, b: int|
            0 <= a < b < MAX_PLAYERS && #[trigger] occupied(self.seats@[a]) && #[trigger] occupied(
                self.seats@[b],
            ) implies self.seats@[a].net_id != self.seats@[b].net_id by {
            assert(occupied(before[a]) && occupied(before[b]));
        }
        let everyone_gone = all_free(&self.seats);
        assert(deserted(self.seats@) <==> last_one(before, slot as int)) by {
            if last_one(before, slot as int) {
                assert forall|k: int| 0 <= k < self.seats@.len() implies #[trigger] self.seats@[k].net_id
                    == 0 by {
                    if k != slot {
                        assert(self.seats@[k] == before[k]);
                    }
                }
            }
            if deserted(self.seats@) {
                assert forall|k: int| 0 <= k < before.len() && k != slot implies #[trigger] before[k].net_id
                    == 0 by {
                    assert(self.seats@[k] == before[k]);
                }
            }
        }
        if everyone_gone {
            let tick = self.tick;
            *self = Lobby::new();
            self.tick = tick;
        }
        dropped
    }
}

/// One player moved by team balancing.
#[derive(Clone, Copy, Debug, PartialEq, Eq, Structural)]
pub struct Move {
    pub slot: usize,
    /// The flag the player carried, for the world to drop where they stood.
    pub dropped: Option<Team>,
    /// The side they now play on.
    pub to: Team,
}

/// The team sizes differ by more than one.
pub open spec fn lopsided(seats: Seq<Seat>) -> bool {
    team_count(seats, Team::Ember) > team_count(seats, Team::Glacier) + 1 || team_count(
        seats,
        Team::Glacier,
    ) > team_count(seats, Team::Ember) + 1
}

pub open spec fn larger_side(seats: Seq<Seat>) -> Team {
    if team_count(seats, Team::Ember) > team_count(seats, Team::Glacier) {
        Team::Ember
    } else {
        Team::Glacier
    }
}

/// Balancing prefers, in turn, players not carrying a flag, dead players
/// and the newest arrivals (highest identity): `a` goes before `b`.
pub open spec fn moves_first(a: Seat, b: Seat) -> bool {
    ||| (a.carrying is None && b.carrying is Some)
    ||| ((a.carrying is Some) == (b.carrying is Some) && !a.alive && b.alive)
    ||| ((a.carrying is Some) == (b.carrying is Some) && a.alive == b.alive && a.net_id > b.net_id)
}

pub open spec fn movable(s: Seat, team: Team) -> bool {
    occupied(s) && s.team == team
}

/// Seat `i` is the one balancing moves off `team`.
pub open spec fn balance_pick(seats: Seq<Seat>, team: Team, i: int) -> bool {
    &&& 0 <= i < seats.len()
    &&& movable(seats[i], team)
    &&& forall|j: int|
        0 <= j < seats.len() && j != i && #[trigger] movable(seats[j], team) ==> moves_first(
            seats[i],
            seats[j],
        )
}

/// How far apart the sides are.
pub open spec fn imbalance(seats: Seq<Seat>) -> int {
    let e = team_count(seats, Team::Ember) as int;
    let g = team_count(seats, Team::Glacier) as int;
    if e > g {
        e - g
    } else {
        g - e
    }
}

/// A seat after balancing moves it to `to`: respawned alive, without a flag.
pub open spec fn moved_seat(s: Seat, to: Team) -> Seat {
    Seat { net_id: s.net_id, name: s.name, team: to, alive: true, carrying: None }
}

/// `m` is the move balancing makes on `seats`: the sides are lopsided, the
/// seat is the `balance_pick` of the larger side, it drops what it carried
/// and goes to the other side.
pub open spec fn balance_move(seats: Seq<Seat>, m: Move) -> bool {
    &&& lopsided(seats)
    &&& balance_pick(seats, larger_side(seats), m.slot as int)
    &&& m.dropped == seats[m.slot as int].carrying
    &&& m.to == larger_side(seats).opponent()
}

/// The seats after `moves`, applied in order.
pub open spec fn after_moves(seats: Seq<Seat>, moves: Seq<Move>) -> Seq<Seat>
    decreases moves.len(),
{
    if moves.len() == 0 {
        seats
    } else {
        let prev = after_moves(seats, moves.drop_last());
        let m = moves.last();
        prev.update(m.slot as int, moved_seat(prev[m.slot as int], m.to))
    }
}

/// Each of `moves` is the balancing move on the seats the earlier ones left.
pub open spec fn balance_run(seats: Seq<Seat>, moves: Seq<Move>) -> bool
    decreases moves.len(),
{
    moves.len() == 0 || (balance_run(seats, moves.drop_last()) && balance_move(
        after_moves(seats, moves.drop_last()),
        moves.last(),
    ))
}

/// With distinct identities among occupied seats, balancing has exactly one
/// pick: the returned moves are fixed by the seats.
pub proof fn lemma_balance_pick_unique(seats: Seq<Seat>, team: Team, i: int, j: int)
    requires
        forall|a: int, b: int|
            0 <= a < b < seats.len() && #[trigger] occupied(seats[a]) && #[trigger] occupied(seats[b])
                ==> seats[a].net_id != seats[b].net_id,
        balance_pick(seats, team, i),
        balance_pick(seats, team, j),
    ensures
        i == j,
{
    if i != j {
        assert(movable(seats[j], team));
        assert(movable(seats[i], team));
        assert(moves_first(seats[i], seats[j]));
        assert(moves_first(seats[j], seats[i]));
        if i < j {
            assert(seats[i].net_id != seats[j].net_id);
        } else {
            assert(seats[j].net_id != seats[i].net_id);
        }
    }
}

pub open spec fn contribution(s: Seat, team: Team) -> nat {
    if occupied(s) && s.team == team {
        1
    } else {
        0
    }
}

/// Replacing one seat changes a team's count by that seat's difference.
pub proof fn lemma_count_update(seats: Seq<Seat>, i: int, s: Seat, team: Team)
    requires
        0 <= i < seats.len(),
    ensures
        team_count(seats.update(i, s), team) + contribution(seats[i], team) == team_count(seats, team)
            + contribution(s, team),
    decreases seats.len(),
{
    if i == seats.len() - 1 {
        assert(seats.update(i, s).drop_last() =~= seats.drop_last());
    } else {
        lemma_count_update(seats.drop_last(), i, s, team);
        assert(seats.update(i, s).drop_last() =~= seats.drop_last().update(i, s));
    }
}

/// A team with members has an occupied seat of that team.
pub proof fn lemma_count_member(seats: Seq<Seat>, team: Team)
    requires
        team_count(seats, team) > 0,
    ensures
        exists|i: int| 0 <= i < seats.len() && #[trigger] movable(seats[i], team),
    decreases seats.len(),
{
    if occupied(seats.last()) && seats.last().team == team {
        assert(movable(seats[seats.len() - 1], team));
    } else {
        lemma_count_member(seats.drop_last(), team);
        let i = choose|i: int| 0 <= i < seats.drop_last().len() && #[trigger] movable(seats.drop_last()[i], team);
        assert(movable(seats[i], team));
    }
}

pub proof fn lemma_count_bound(seats: Seq<Seat>, team: Team)
    ensures
        team_count(seats, team) <= seats.len(),
    decreases seats.len(),
{
    if seats.len() > 0 {
        lemma_count_bound(seats.drop_last(), team);
    }
}

impl Lobby {
    /// Move one player off the larger side when the sides differ by more
    /// than one: the seat `balance_pick` names. Its flag is dropped and it
    /// respawns alive on the other side.
    pub fn balance_step(&mut self) -> (r: Option<Move>)
        requires
            old(self).wf(),
        ensures
            final(self).wf(),
            r is None <==> !lopsided(old(self).seats@),
            r is None ==> final(self).seats@ == old(self).seats@,
            r matches Some(m) ==> {
                let before = old(self).seats@[m.slot as int];
                &&& balance_pick(old(self).seats@, larger_side(old(self).seats@), m.slot as int)
                &&& m.dropped == before.carrying
                &&& m.to == larger_side(old(self).seats@).opponent()
                &&& final(self).seats@ == old(self).seats@.update(
                    m.slot as int,
                    Seat { net_id: before.net_id, name: before.name, team: m.to, alive: true, carrying: None },
                )
            },
            final(self).acks@ == old(self).acks@,
            final(self).chat_next@ == old(self).chat_next@,
            final(self).rename_next@ == old(self).rename_next@,
            final(self).tick == old(self).tick,
            final(self).round == old(self).round,
            final(self).phase == old(self).phase,
            final(self).feed@ == old(self).feed@,
    {
        let ember = count_team(&self.seats, Team::Ember);
        let glacier = count_team(&self.seats, Team::Glacier);
        if !(ember > glacier + 1 || glacier > ember + 1) {
            return None;
        }
        let larger = if ember > glacier {
            Team::Ember
        } else {
            Team::Glacier
        };
        proof {
            lemma_count_member(self.seats@, larger);
        }
        let mut best: Option<usize> = None;
        let mut i: usize = 0;
        while i < MAX_PLAYERS
            invariant
                self.wf(),
                i <= MAX_PLAYERS,
                best matches Some(b) ==> b < i && movable(self.seats@[b as int], larger) && forall|j: int|
                    0 <= j < i && j != b && #[trigger] movable(self.seats@[j], larger) ==> moves_first(
                        self.seats@[b as int],
                        self.seats@[j],
                    ),
                best is None ==> forall|j: int| 0 <= j < i ==> !#[trigger] movable(self.seats@[j], larger),
            decreases MAX_PLAYERS - i,
        {
            let s = &self.seats[i];
            if s.net_id != 0 && s.team == larger {
                match best {
                    None => {
                        best = Some(i);
                    },
                    Some(b) => {
                        let c = &self.seats[b];
                        let first = (s.carrying.is_none() && c.carrying.is_some()) || (
                        s.carrying.is_some() == c.carrying.is_some() && !s.alive && c.alive) || (
                        s.carrying.is_some() == c.carrying.is_some() && s.alive == c.alive && s.net_id
                            > c.net_id);
                        assert(occupied(self.seats@[b as int]) && occupied(self.seats@[i as int]));
                        if first {
                            best = Some(i);
                        }
                    },
                }
            }
            i = i + 1;
        }
        let slot = match best {
            Some(b) => b,
            None => {
                return None;
            },
        };
        let dropped = self.seats[slot].carrying;
        let to = larger.other();
        let ghost before = self.seats@;
        self.seats[slot].team = to;
        self.seats[slot].carrying = None;
        self.seats[slot].alive = true;
        assert forall|a: int, b: int|
            0 <= a < b < MAX_PLAYERS && #[trigger] occupied(self.seats@[a]) && #[trigger] occupied(
                self.seats@[b],
            ) implies self.seats@[a].net_id != self.seats@[b].net_id by {
            assert(occupied(before[a]) && occupied(before[b]));
        }
        Some(Move { slot, dropped, to })
    }

    /// Once per tick: move players off the larger side, one `balance_step`
    /// at a time, until the sides differ by at most one. The moves made are
    /// returned in order: each is the pick on the seats the earlier ones
    /// left, and there are half as many as the sides first differed by.
    pub fn balance_teams(&mut self) -> (moves: Vec<Move>)
        requires
            old(self).wf(),
        ensures
            final(self).wf(),
            balance_run(old(self).seats@, moves@),
            final(self).seats@ == after_moves(old(self).seats@, moves@),
            moves@.len() == imbalance(old(self).seats@) / 2,
            !lopsided(final(self).seats@),
            forall|k: int|
                0 <= k < MAX_PLAYERS ==> #[trigger] final(self).seats@[k].net_id == old(self).seats@[k].net_id
                    && final(self).seats@[k].name == old(self).seats@[k].name,
            final(self).acks@ == old(self).acks@,
            final(self).chat_next@ == old(self).chat_next@,
            final(self).rename_next@ == old(self).rename_next@,
            final(self).tick == old(self).tick,
            final(self).round == old(self).round,
            final(self).phase == old(self).phase,
            final(self).feed@ == old(self).feed@,
    {
        let mut moves: Vec<Move> = Vec::new();
        let ghost start = *self;
        proof {
            lemma_count_bound(self.seats@, Team::Ember);
            lemma_count_bound(self.seats@, Team::Glacier);
        }
        loop
            invariant
                self.wf(),
                balance_run(start.seats@, moves@),
                self.seats@ == after_moves(start.seats@, moves@),
                imbalance(self.seats@) + 2 * moves@.len() == imbalance(start.seats@),
                forall|k: int|
                    0 <= k < MAX_PLAYERS ==> #[trigger] self.seats@[k].net_id == start.seats@[k].net_id
                        && self.seats@[k].name == start.seats@[k].name,
                self.acks@ == start.acks@,
                self.chat_next@ == start.chat_next@,
                self.rename_next@ == start.rename_next@,
                self.tick == start.tick,
                self.round == start.round,
                self.phase == start.phase,
                self.feed@ == start.feed@,
            ensures
                self.wf(),
                balance_run(start.seats@, moves@),
                self.seats@ == after_moves(start.seats@, moves@),
                moves@.len() == imbalance(start.seats@) / 2,
                !lopsided(self.seats@),
                forall|k: int|
                    0 <= k < MAX_PLAYERS ==> #[trigger] self.seats@[k].net_id == start.seats@[k].net_id
                        && self.seats@[k].name == start.seats@[k].name,
                self.acks@ == start.acks@,
                self.chat_next@ == start.chat_next@,
                self.rename_next@ == start.rename_next@,
                self.tick == start.tick,
                self.round == start.round,
                self.phase == start.phase,
                self.feed@ == start.feed@,
            decreases imbalance(self.seats@),
        {
            let ghost before = self.seats@;
            let ghost done = moves@;
            match self.balance_step() {
                None => {
                    break ;
                },
                Some(m) => {
                    proof {
                        let larger = larger_side(before);
                        let s = self.seats@[m.slot as int];
                        lemma_count_update(before, m.slot as int, s, Team::Ember);
                        lemma_count_update(before, m.slot as int, s, Team::Glacier);
                        assert(movable(before[m.slot as int], larger));
                        assert(occupied(s));
                        assert forall|k: int| 0 <= k < MAX_PLAYERS implies #[trigger] self.seats@[k].net_id
                            == before[k].net_id && self.seats@[k].name == before[k].name by {
                            if k != m.slot {
                                assert(self.seats@[k] == before[k]);
                            }
                        }
                    }
                    moves.push(m);
                    proof {
                        assert(moves@.drop_last() =~= done);
                        assert(moves@.last() == m);
                        assert(self.seats@ =~= after_moves(start.seats@, moves@));
                    }
                },
            }
        }
        moves
    }

    /// Both sides have at least one player.
    pub open spec fn both_sides(&self) -> bool {
        team_count(self.seats@, Team::Ember) > 0 && team_count(self.seats@, Team::Glacier) > 0
    }
}

/// What the round clock does this tick.
#[derive(Clone, Copy, Debug, PartialEq, Eq, Structural)]
pub enum Clock {
    /// Leave it as it is.
    Keep,
    /// Set it to zero.
    Clear,
    /// Start the three-second countdown.
    Countdown,
    /// Run it down by one step.
    Tick,
}

/// The phase decision of one tick.
#[derive(Clone, Copy, Debug, PartialEq, Eq, Structural)]
pub struct PhaseStep {
    pub phase: Phase,
    pub clock: Clock,
    /// Reset the world: equipment, projectiles, flags, points, scores and
    /// every player's spawn and tallies.
    pub restart: bool,
    /// A new round starts.
    pub next_round: bool,
}

/// The round phases: a match needs a player on each side. Waiting turns
/// into a countdown once both sides are present; the countdown and the
/// intermission run down (`expiring`: this tick's step takes the clock to
/// zero or below) and then restart the world for a new round, playing if
/// both sides are still present; losing a side during play abandons the
/// match without a result.
pub open spec fn phase_step(phase: Phase, both: bool, expiring: bool) -> PhaseStep {
    match phase {
        Phase::Playing => if !both {
            PhaseStep { phase: Phase::Waiting, clock: Clock::Clear, restart: true, next_round: false }
        } else {
            PhaseStep { phase, clock: Clock::Keep, restart: false, next_round: false }
        },
        Phase::Waiting => if both {
            PhaseStep { phase: Phase::Countdown, clock: Clock::Countdown, restart: false, next_round: false }
        } else {
            PhaseStep { phase, clock: Clock::Keep, restart: false, next_round: false }
        },
        Phase::Countdown | Phase::Intermission => if phase == Phase::Countdown && !both {
            PhaseStep { phase: Phase::Waiting, clock: Clock::Clear, restart: false, next_round: false }
        } else if expiring {
            PhaseStep {
                phase: if both {
                    Phase::Playing
                } else {
                    Phase::Waiting
                },
                clock: Clock::Tick,
                restart: true,
                next_round: true,
            }
        } else {
            PhaseStep { phase, clock: Clock::Tick, restart: false, next_round: false }
        },
    }
}

pub fn next_phase(phase: Phase, both: bool, expiring: bool) -> (r: PhaseStep)
    ensures
        r == phase_step(phase, both, expiring),
{
    match phase {
        Phase::Playing => if !both {
            PhaseStep { phase: Phase::Waiting, clock: Clock::Clear, restart: true, next_round: false }
        } else {
            PhaseStep { phase, clock: Clock::Keep, restart: false, next_round: false }
        },
        Phase::Waiting => if both {
            PhaseStep { phase: Phase::Countdown, clock: Clock::Countdown, restart: false, next_round: false }
        } else {
            PhaseStep { phase, clock: Clock::Keep, restart: false, next_round: false }
        },
        Phase::Countdown | Phase::Intermission => if phase == Phase::Countdown && !both {
            PhaseStep { phase: Phase::Waiting, clock: Clock::Clear, restart: false, next_round: false }
        } else if expiring {
            PhaseStep {
                phase: if both {
                    Phase::Playing
                } else {
                    Phase::Waiting
                },
                clock: Clock::Tick,
                restart: true,
                next_round: true,
            }
        } else {
            PhaseStep { phase, clock: Clock::Tick, restart: false, next_round: false }
        },
    }
}

/// A command is well formed: a sequence number in 1..u64::MAX, a weapon
/// slot below 3, and (`axes_ok`, measured by the caller) finite movement
/// axes within [-1, 1], a finite yaw within 100000 rad and a finite pitch
/// within 1.52 rad.
pub fn command_valid(seq: u64, weapon: u8, axes_ok: bool) -> (r: bool)
    ensures
        r == (0 < seq && seq < u64::MAX && axes_ok && weapon < 3),
{
    0 < seq && seq < u64::MAX && axes_ok && weapon < 3
}

impl Lobby {
    /// Both sides have at least one player.
    pub fn both_present(&self) -> (r: bool)
        requires
            self.wf(),
        ensures
            r == self.both_sides(),
    {
        count_team(&self.seats, Team::Ember) > 0 && count_team(&self.seats, Team::Glacier) > 0
    }

    /// Start a server tick. Packet volume cannot advance time.
    pub fn begin_tick(&mut self)
        requires
            old(self).wf(),
            old(self).tick < u64::MAX,
        ensures
            final(self).wf(),
            final(self).tick == old(self).tick + 1,
            final(self).seats@ == old(self).seats@,
            final(self).acks@ == old(self).acks@,
            final(self).chat_next@ == old(self).chat_next@,
            final(self).rename_next@ == old(self).rename_next@,
            final(self).round == old(self).round,
            final(self).phase == old(self).phase,
            final(self).feed@ == old(self).feed@,
    {
        self.tick = self.tick + 1;
    }

    /// Apply this tick's phase decision; `expiring` says whether running
    /// the round clock down this tick takes it to zero or below.
    pub fn advance(&mut self, expiring: bool) -> (r: PhaseStep)
        requires
            old(self).wf(),
            old(self).round < u32::MAX,
        ensures
            final(self).wf(),
            r == phase_step(old(self).phase, old(self).both_sides(), expiring),
            final(self).phase == r.phase,
            final(self).round == (if r.next_round {
                (old(self).round + 1) as u32
            } else {
                old(self).round
            }),
            final(self).seats@ == old(self).seats@,
            final(self).acks@ == old(self).acks@,
            final(self).chat_next@ == old(self).chat_next@,
            final(self).rename_next@ == old(self).rename_next@,
            final(self).tick == old(self).tick,
            final(self).feed@ == old(self).feed@,
    {
        let both = self.both_present();
        let step = next_phase(self.phase, both, expiring);
        if step.next_round {
            self.round = self.round + 1;
        }
        self.phase = step.phase;
        step
    }

    /// One server tick of the session's rules (packet volume cannot advance
    /// time): the tick counter advances; with every seat empty nothing else
    /// happens; otherwise the sides are balanced and this tick's phase
    /// decision is applied. `expiring` says whether running the round clock
    /// down this tick takes it to zero or below.
    pub fn step(&mut self, expiring: bool) -> (r: Option<(Vec<Move>, PhaseStep)>)
        requires
            old(self).wf(),
            old(self).tick < u64::MAX,
            deserted(old(self).seats@) || old(self).round < u32::MAX,
        ensures
            final(self).wf(),
            final(self).tick == old(self).tick + 1,
            r is None <==> deserted(old(self).seats@),
            deserted(old(self).seats@) ==> {
                &&& final(self).seats@ == old(self).seats@
                &&& final(self).round == old(self).round
                &&& final(self).phase == old(self).phase
                &&& final(self).acks@ == old(self).acks@
                &&& final(self).chat_next@ == old(self).chat_next@
                &&& final(self).rename_next@ == old(self).rename_next@
                &&& final(self).feed@ == old(self).feed@
            },
            r matches Some(out) ==> {
                &&& balance_run(old(self).seats@, out.0@)
                &&& final(self).seats@ == after_moves(old(self).seats@, out.0@)
                &&& out.0@.len() == imbalance(old(self).seats@) / 2
                &&& !lopsided(final(self).seats@)
                &&& out.1 == phase_step(old(self).phase, final(self).both_sides(), expiring)
                &&& final(self).phase == out.1.phase
                &&& final(self).round == (if out.1.next_round {
                    (old(self).round + 1) as u32
                } else {
                    old(self).round
                })
            },
            forall|k: int|
                0 <= k < MAX_PLAYERS ==> #[trigger] final(self).seats@[k].net_id == old(self).seats@[k].net_id
                    && final(self).seats@[k].name == old(self).seats@[k].name,
            final(self).acks@ == old(self).acks@,
            final(self).chat_next@ == old(self).chat_next@,
            final(self).rename_next@ == old(self).rename_next@,
            final(self).feed@ == old(self).feed@,
    {
        self.begin_tick();
        if all_free(&self.seats) {
            return None;
        }
        let moves = self.balance_teams();
        let step = self.advance(expiring);
        Some((moves, step))
    }

    /// Acknowledge a command from `slot`: a valid command from an occupied
    /// seat raises its acknowledged sequence number to `seq`.
    pub fn acknowledge(&mut self, slot: usize, seq: u64, valid: bool)
        requires
            old(self).wf(),
            slot < MAX_PLAYERS,
        ensures
            final(self).wf(),
            (valid && occupied(old(self).seats@[slot as int]) && seq > 0) ==> final(self).acks@ == old(
                self,
            ).acks@.update(
                slot as int,
                if seq > old(self).acks@[slot as int] {
                    seq
                } else {
                    old(self).acks@[slot as int]
                },
            ),
            !(valid && occupied(old(self).seats@[slot as int]) && seq > 0) ==> final(self).acks@ == old(self).acks@,
            final(self).seats@ == old(self).seats@,
            final(self).chat_next@ == old(self).chat_next@,
            final(self).rename_next@ == old(self).rename_next@,
            final(self).tick == old(self).tick,
            final(self).round == old(self).round,
            final(self).phase == old(self).phase,
            final(self).feed@ == old(self).feed@,
    {
        if valid && self.seats[slot].net_id != 0 && seq > 0 {
            let a = self.acks[slot];
            self.acks.set(slot, if seq > a { seq } else { a });
        }
    }

    /// The team of the player in `slot`, if it is occupied.
    pub open spec fn team_of(&self, slot: int) -> Option<Team> {
        if 0 <= slot < self.seats@.len() && occupied(self.seats@[slot]) {
            Some(self.seats@[slot].team)
        } else {
            None
        }
    }

    /// The feed a spectator or a snapshot without a recipient carries:
    /// everything but team chat.
    pub fn public_feed(&self) -> (r: Vec<Entry>)
        ensures
            r@ == shown_to(self.feed@, None),
    {
        entries_for(&self.feed, None)
    }

    /// The feed the player in `slot` is sent: team chat only of its own side.
    pub fn feed_for(&self, slot: usize) -> (r: Vec<Entry>)
        ensures
            r@ == shown_to(self.feed@, self.team_of(slot as int)),
    {
        let team = if slot < self.seats.len() && self.seats[slot].net_id != 0 {
            Some(self.seats[slot].team)
        } else {
            None
        };
        entries_for(&self.feed, team)
    }

    /// The rotation boundary to another map: connection seats keep their
    /// identities, names and sides and respawn; clocks, round, phase,
    /// acknowledgements and rate limits carry over; nothing of the world
    /// does (no flag is carried, the feed starts empty).
    pub fn rotate(&mut self)
        requires
            old(self).wf(),
        ensures
            final(self).wf(),
            forall|i: int|
                0 <= i < MAX_PLAYERS ==> {
                    let o = #[trigger] old(self).seats@[i];
                    let n = final(self).seats@[i];
                    if occupied(o) {
                        &&& n.net_id == o.net_id
                        &&& n.name == o.name
                        &&& n.team == o.team
                        &&& n.alive
                        &&& n.carrying is None
                    } else {
                        &&& n.net_id == 0
                        &&& n.name@.len() == 0
                        &&& n.team == Team::Ember
                        &&& !n.alive
                        &&& n.carrying is None
                    }
                },
            final(self).feed@.len() == 0,
            final(self).acks@ == old(self).acks@,
            final(self).chat_next@ == old(self).chat_next@,
            final(self).rename_next@ == old(self).rename_next@,
            final(self).tick == old(self).tick,
            final(self).round == old(self).round,
            final(self).phase == old(self).phase,
    {
        let ghost before = self.seats@;
        let mut seats: Vec<Seat> = Vec::new();
        let mut i: usize = 0;
        while i < MAX_PLAYERS
            invariant
                self.seats@ == before,
                before.len() == MAX_PLAYERS,
                i <= MAX_PLAYERS,
                seats@.len() == i,
                forall|k: int|
                    0 <= k < i ==> {
                        let o = #[trigger] before[k];
                        let n = seats@[k];
                        if occupied(o) {
                            &&& n.net_id == o.net_id
                            &&& n.name == o.name
                            &&& n.team == o.team
                            &&& n.alive
                            &&& n.carrying is None
                        } else {
                            &&& n.net_id == 0
                            &&& n.name@.len() == 0
                            &&& n.team == Team::Ember
                            &&& !n.alive
                            &&& n.carrying is None
                        }
                    },
            decreases MAX_PLAYERS - i,
        {
            let o = &self.seats[i];
            if o.net_id != 0 {
                seats.push(Seat { net_id: o.net_id, name: o.name.clone(), team: o.team, alive: true, carrying: None });
            } else {
                seats.push(empty_seat());
            }
            i = i + 1;
        }
        self.seats = seats;
        self.feed = Vec::new();
        proof {
            assert forall|a: int, b: int|
                0 <= a < b < MAX_PLAYERS && #[trigger] occupied(self.seats@[a]) && #[trigger] occupied(
                    self.seats@[b],
                ) implies self.seats@[a].net_id != self.seats@[b].net_id by {
                assert(occupied(before[a]) && occupied(before[b]));
            }
        }
    }
}

/// Play begins only out of a countdown or an intermission that runs out with
/// both sides present, and it is never entered or kept without them.
pub proof fn lemma_play_needs_both_sides(phase: Phase, both: bool, expiring: bool)
    ensures
        phase_step(phase, both, expiring).phase == Phase::Playing ==> both,
        phase_step(phase, both, expiring).phase == Phase::Playing && phase != Phase::Playing ==> expiring
            && (phase == Phase::Countdown || phase == Phase::Intermission),
        phase == Phase::Waiting ==> phase_step(phase, both, expiring).phase != Phase::Playing,
{
}

/// A seat that spoke at tick `t` is refused another line until CHAT_GAP
/// ticks have passed: `chat` and `chat_channel` set its next allowed tick to
/// `saturating_add(t, CHAT_GAP)` and accept only from that tick on. (At the
/// very end of the tick counter the wait is cut short by saturation.)
pub proof fn lemma_chat_gap(next: u64, t: u64, now: u64)
    requires
        next == saturating_add(t, CHAT_GAP),
        t + CHAT_GAP <= u64::MAX,
        t <= now < t + CHAT_GAP,
    ensures
        now < next,
{
}

/// A seat renamed at tick `t` is refused another rename until RENAME_GAP
/// ticks have passed.
pub proof fn lemma_rename_gap(next: u64, t: u64, now: u64)
    requires
        next == saturating_add(t, RENAME_GAP),
        t + RENAME_GAP <= u64::MAX,
        t <= now < t + RENAME_GAP,
    ensures
        now < next,
{
}

} // verus!
