//! The LAN directory: game servers register adverts, keep them alive with
//! heartbeats and withdraw them; clients list them. Only the registering
//! address holding the listing's token may change or withdraw a listing,
//! and an advert may only name the address it came from.
use vstd::prelude::*;
use vstd::string::StringSliceAdditionalSpecFns;

use crate::map_pack::{hex, hex_of};
use crate::text::{free_of_controls, no_controls, same_text};

verus! {

/// Listings the directory holds at most, and per registering address.
pub const MAX_LISTINGS: usize = 128;
pub const MAX_PER_OWNER: usize = 8;

/// A listing lapses this many milliseconds after its last heartbeat.
pub const STALE_MS: u64 = 8000;

/// A server's public advert.
#[derive(Debug)]
pub struct Advert {
    pub id: String,
    pub name: String,
    pub host: String,
    pub port: u16,
    pub players: u32,
    pub max_players: u32,
    pub map: String,
}

#[derive(Debug)]
pub struct Listing {
    pub advert: Advert,
    pub token: String,
    /// When the listing was registered or last heard from, in milliseconds.
    pub seen_ms: u64,
    /// The registering address (an IPv6 address, IPv4 mapped).
    pub owner: u128,
}

#[derive(Debug)]
pub enum Request {
    Register { name: String, host: String, port: u16, players: u32, max_players: u32, map: String },
    Heartbeat { id: String, token: String, players: u32 },
    Unregister { id: String, token: String },
    List,
}

#[derive(Clone, Copy, Debug, PartialEq, Eq, Structural)]
pub enum Refusal {
    ListingLimit,
    InvalidAdvert,
    EntropyUnavailable,
    NotAuthorized,
    UnknownServer,
}

impl Refusal {
    pub open spec fn message_text(self) -> Seq<char> {
        match self {
            Refusal::ListingLimit => "listing limit"@,
            Refusal::InvalidAdvert => "invalid advert; advertised IP must match registering peer"@,
            Refusal::EntropyUnavailable => "entropy unavailable"@,
            Refusal::NotAuthorized => "not authorized"@,
            Refusal::UnknownServer => "unknown server"@,
        }
    }

    pub fn message(self) -> (r: &'static str)
        ensures
            r@ == self.message_text(),
    {
        match self {
            Refusal::ListingLimit => "listing limit",
            Refusal::InvalidAdvert => "invalid advert; advertised IP must match registering peer",
            Refusal::EntropyUnavailable => "entropy unavailable",
            Refusal::NotAuthorized => "not authorized",
            Refusal::UnknownServer => "unknown server",
        }
    }
}

#[derive(Debug)]
pub enum Response {
    Registered { id: String, token: String },
    Done,
    Servers(Vec<Advert>),
    Refused(Refusal),
}

/// Listings held by `owner`.
pub open spec fn owned(listings: Seq<Listing>, owner: u128) -> nat
    decreases listings.len(),
{
    if listings.len() == 0 {
        0
    } else {
        owned(listings.drop_last(), owner) + (if listings.last().owner == owner {
            1nat
        } else {
            0nat
        })
    }
}

/// The index of the listing with identity `id`.
pub open spec fn listed_at(listings: Seq<Listing>, id: Seq<char>, i: int) -> bool {
    0 <= i < listings.len() && listings[i].advert.id@ == id
}

pub open spec fn is_listed(listings: Seq<Listing>, id: Seq<char>) -> bool {
    exists|i: int| listed_at(listings, id, i)
}

/// No identity is listed twice.
pub open spec fn distinct_ids(listings: Seq<Listing>) -> bool {
    forall|i: int, j: int|
        0 <= i < j < listings.len() ==> #[trigger] listings[i].advert.id@ != #[trigger] listings[j].advert.id@
}

proof fn lemma_owned_push(s: Seq<Listing>, x: Listing, o: u128)
    ensures
        owned(s.push(x), o) == owned(s, o) + (if x.owner == o { 1int } else { 0int }),
{
    assert(s.push(x).drop_last() =~= s);
}

proof fn lemma_owned_update(s: Seq<Listing>, i: int, x: Listing, o: u128)
    requires
        0 <= i < s.len(),
    ensures
        owned(s.update(i, x), o) == owned(s, o) - (if s[i].owner == o { 1int } else { 0int }) + (
        if x.owner == o {
            1int
        } else {
            0int
        }),
    decreases s.len(),
{
    if i == s.len() - 1 {
        assert(s.update(i, x).drop_last() =~= s.drop_last());
    } else {
        assert(s.update(i, x).drop_last() =~= s.drop_last().update(i, x));
        lemma_owned_update(s.drop_last(), i, x, o);
    }
}

proof fn lemma_owned_remove(s: Seq<Listing>, i: int, o: u128)
    requires
        0 <= i < s.len(),
    ensures
        owned(s.remove(i), o) == owned(s, o) - (if s[i].owner == o { 1int } else { 0int }),
    decreases s.len(),
{
    if i == s.len() - 1 {
        assert(s.remove(i) =~= s.drop_last());
    } else {
        assert(s.remove(i).drop_last() =~= s.drop_last().remove(i));
        lemma_owned_remove(s.drop_last(), i, o);
    }
}

/// A registration the directory accepts: `host_is_peer` says the
/// advertised host parses as the registering address; `map_ok` that the
/// map label is one the directory knows.
pub open spec fn advert_ok(
    name: Seq<char>,
    port: u16,
    players: u32,
    max_players: u32,
    host_is_peer: bool,
    map_ok: bool,
) -> bool {
    &&& host_is_peer
    &&& name.len() > 0
    &&& (vstd::utf8::encode_utf8(name).len() as usize) <= 64
    &&& no_controls(name)
    &&& port != 0
    &&& players <= max_players
    &&& 2 <= max_players <= 8
    &&& map_ok
}

/// A heartbeat the directory accepts: the listing exists, the token is its
/// token, it comes from the registering address and the player count fits.
pub open spec fn may_heartbeat(listings: Seq<Listing>, id: Seq<char>, token: Seq<char>, players: u32, peer: u128) -> bool {
    exists|i: int|
        #[trigger] listed_at(listings, id, i) && listings[i].token@ == token && listings[i].owner == peer
            && players <= listings[i].advert.max_players
}

/// A withdrawal the directory accepts: the listing exists, the token is its
/// token and it comes from the registering address.
pub open spec fn may_withdraw(listings: Seq<Listing>, id: Seq<char>, token: Seq<char>, peer: u128) -> bool {
    exists|i: int| #[trigger] listed_at(listings, id, i) && listings[i].token@ == token && listings[i].owner == peer
}

/// A listing after a heartbeat: seen now, with the reported player count.
pub open spec fn refreshed(l: Listing, players: u32, now_ms: u64) -> Listing {
    Listing {
        advert: Advert {
            id: l.advert.id,
            name: l.advert.name,
            host: l.advert.host,
            port: l.advert.port,
            players,
            max_players: l.advert.max_players,
            map: l.advert.map,
        },
        token: l.token,
        seen_ms: now_ms,
        owner: l.owner,
    }
}

/// A listing is still live at `now_ms` when its last heartbeat is less than
/// `STALE_MS` old (a heartbeat stamped later than `now_ms` counts as new).
pub open spec fn is_live(l: Listing, now_ms: u64) -> bool {
    now_ms < l.seen_ms + STALE_MS
}

/// The live listings, in order.
pub open spec fn live(listings: Seq<Listing>, now_ms: u64) -> Seq<Listing>
    decreases listings.len(),
{
    if listings.len() == 0 {
        Seq::empty()
    } else {
        let rest = live(listings.drop_last(), now_ms);
        if is_live(listings.last(), now_ms) {
            rest.push(listings.last())
        } else {
            rest
        }
    }
}

/// What a registration leaves behind: a listing under `id` with the advert,
/// `token`, `now_ms` and `peer`; every other listing kept.
pub open spec fn registration(
    before: Seq<Listing>,
    after: Seq<Listing>,
    id: Seq<char>,
    token: Seq<char>,
    name: String,
    host: String,
    port: u16,
    players: u32,
    max_players: u32,
    map: String,
    peer: u128,
    now_ms: u64,
) -> bool {
    &&& is_listed(after, id)
    &&& forall|i: int|
        listed_at(after, id, i) ==> {
            let l = #[trigger] after[i];
            &&& l.advert.name == name
            &&& l.advert.host == host
            &&& l.advert.port == port
            &&& l.advert.players == players
            &&& l.advert.max_players == max_players
            &&& l.advert.map == map
            &&& l.token@ == token
            &&& l.seen_ms == now_ms
            &&& l.owner == peer
        }
    &&& forall|i: int|
        0 <= i < before.len() && before[i].advert.id@ != id ==> exists|j: int|
            0 <= j < after.len() && #[trigger] after[j] == #[trigger] before[i]
    &&& after.len() == before.len() + (if is_listed(before, id) { 0int } else { 1int })
}

/// The directory: listings with distinct identities.
#[derive(Debug)]
pub struct Directory {
    pub listings: Vec<Listing>,
}

/// The identity and token a registration gets from 32 random bytes: the
/// hex of the first 8, and of the other 24.
pub open spec fn id_of(random: Seq<u8>) -> Seq<char> {
    hex_of(random.subrange(0, 8))
}

pub open spec fn token_of(random: Seq<u8>) -> Seq<char> {
    hex_of(random.subrange(8, 32))
}

/// `getrandom::fill`: 32 bytes from the system's entropy source, or None
/// when it fails.
#[verifier::external_body]
fn random_bytes() -> (r: Option<[u8; 32]>) {
    let mut bytes = [0u8; 32];
    match getrandom::fill(&mut bytes) {
        Ok(()) => Some(bytes),
        Err(_) => None,
    }
}

fn count_owned(listings: &Vec<Listing>, owner: u128) -> (r: usize)
    requires
        listings@.len() <= usize::MAX,
    ensures
        r == owned(listings@, owner),
{
    let mut n: usize = 0;
    let mut i: usize = 0;
    while i < listings.len()
        invariant
            i <= listings@.len(),
            n == owned(listings@.take(i as int), owner),
            n <= i,
        decreases listings.len() - i,
    {
        assert(listings@.take(i + 1).drop_last() =~= listings@.take(i as int));
        if listings[i].owner == owner {
            n = n + 1;
        }
        i = i + 1;
    }
    assert(listings@.take(listings@.len() as int) =~= listings@);
    n
}

fn find(listings: &Vec<Listing>, id: &str) -> (r: Option<usize>)
    ensures
        match r {
            Some(i) => listed_at(listings@, id@, i as int) && forall|j: int| 0 <= j < i ==> !#[trigger] listed_at(listings@, id@, j),
            None => !is_listed(listings@, id@),
        },
{
    let mut i: usize = 0;
    while i < listings.len()
        invariant
            i <= listings@.len(),
            forall|j: int| 0 <= j < i ==> !#[trigger] listed_at(listings@, id@, j),
        decreases listings.len() - i,
    {
        if same_text(listings[i].advert.id.as_str(), id) {
            return Some(i);
        }
        i = i + 1;
    }
    None
}

fn copy_advert(a: &Advert) -> (r: Advert)
    ensures
        r == *a,
{
    Advert {
        id: a.id.clone(),
        name: a.name.clone(),
        host: a.host.clone(),
        port: a.port,
        players: a.players,
        max_players: a.max_players,
        map: a.map.clone(),
    }
}

impl Directory {
    /// Identities are distinct and within the caps.
    pub open spec fn wf(&self) -> bool {
        &&& self.listings@.len() <= MAX_LISTINGS
        &&& distinct_ids(self.listings@)
        &&& forall|o: u128| #[trigger] owned(self.listings@, o) <= MAX_PER_OWNER
    }

    pub fn new() -> (r: Directory)
        ensures
            r.wf(),
            r.listings@.len() == 0,
    {
        Directory { listings: Vec::new() }
    }

    /// Whether a registration from `peer` is refused before any entropy
    /// is drawn, and why.
    pub open spec fn register_refusal(
        &self,
        name: Seq<char>,
        port: u16,
        players: u32,
        max_players: u32,
        peer: u128,
        host_is_peer: bool,
        map_ok: bool,
    ) -> Option<Refusal> {
        if self.listings@.len() >= MAX_LISTINGS || owned(self.listings@, peer) >= MAX_PER_OWNER {
            Some(Refusal::ListingLimit)
        } else if !advert_ok(name, port, players, max_players, host_is_peer, map_ok) {
            Some(Refusal::InvalidAdvert)
        } else {
            None
        }
    }

    /// List a server under identity and token drawn from `random`. A
    /// listing already under that identity is replaced.
    pub fn register(
        &mut self,
        name: String,
        host: String,
        port: u16,
        players: u32,
        max_players: u32,
        map: String,
        random: [u8; 32],
        peer: u128,
        now_ms: u64,
    ) -> (r: (String, String))
        requires
            old(self).wf(),
            old(self).listings@.len() < MAX_LISTINGS,
            owned(old(self).listings@, peer) < MAX_PER_OWNER,
        ensures
            final(self).wf(),
            r.0@ == id_of(random@),
            r.1@ == token_of(random@),
            registration(
                old(self).listings@,
                final(self).listings@,
                r.0@,
                r.1@,
                name,
                host,
                port,
                players,
                max_players,
                map,
                peer,
                now_ms,
            ),
    {
        let id = hex(&random[0..8]);
        let token = hex(&random[8..32]);
        let listing = Listing {
            advert: Advert { id: id.clone(), name, host, port, players, max_players, map },
            token: token.clone(),
            seen_ms: now_ms,
            owner: peer,
        };
        let ghost before = self.listings@;
        match find(&self.listings, id.as_str()) {
            Some(i) => {
                self.listings.set(i, listing);
                assert forall|o: u128| #[trigger] owned(self.listings@, o) <= MAX_PER_OWNER by {
                    lemma_owned_update(before, i as int, self.listings@[i as int], o);
                }
                assert forall|a: int, b: int|
                    0 <= a < b < self.listings@.len() implies #[trigger] self.listings@[a].advert.id@
                        != #[trigger] self.listings@[b].advert.id@ by {
                    assert(before[a].advert.id@ != before[b].advert.id@);
                }
                assert forall|k: int| 0 <= k < before.len() && before[k].advert.id@ != id@ implies exists|j: int|
                    0 <= j < self.listings@.len() && #[trigger] self.listings@[j] == #[trigger] before[k] by {
                    assert(self.listings@[k] == before[k]);
                }
                assert forall|k: int| listed_at(self.listings@, id@, k) implies k == i by {
                    if k != i {
                        assert(before[k].advert.id@ == before[i as int].advert.id@);
                    }
                }
                assert(listed_at(self.listings@, id@, i as int));
            },
            None => {
                self.listings.push(listing);
                assert forall|o: u128| #[trigger] owned(self.listings@, o) <= MAX_PER_OWNER by {
                    lemma_owned_push(before, self.listings@[before.len() as int], o);
                }
                assert forall|a: int, b: int|
                    0 <= a < b < self.listings@.len() implies #[trigger] self.listings@[a].advert.id@
                        != #[trigger] self.listings@[b].advert.id@ by {
                    if b == before.len() {
                        assert(!listed_at(before, id@, a));
                    } else {
                        assert(before[a].advert.id@ != before[b].advert.id@);
                    }
                }
                assert forall|k: int| 0 <= k < before.len() && before[k].advert.id@ != id@ implies exists|j: int|
                    0 <= j < self.listings@.len() && #[trigger] self.listings@[j] == #[trigger] before[k] by {
                    assert(self.listings@[k] == before[k]);
                }
                assert forall|k: int| listed_at(self.listings@, id@, k) implies k == before.len() by {
                    if k < before.len() {
                        assert(listed_at(before, id@, k));
                    }
                }
                assert(listed_at(self.listings@, id@, before.len() as int));
            },
        }
        (id, token)
    }

    /// A heartbeat from `peer` for listing `id`: accepted only with the
    /// listing's token, from its registering address, for a player count
    /// that fits; it then marks the listing seen now with that count.
    pub fn heartbeat(&mut self, id: &str, token: &str, players: u32, peer: u128, now_ms: u64) -> (r: Result<
        (),
        Refusal,
    >)
        requires
            old(self).wf(),
        ensures
            final(self).wf(),
            r is Ok <==> may_heartbeat(old(self).listings@, id@, token@, players, peer),
            (r == Err::<(), Refusal>(Refusal::UnknownServer)) <==> !is_listed(old(self).listings@, id@),
            r is Err ==> r == Err::<(), Refusal>(Refusal::UnknownServer) || r == Err::<(), Refusal>(
                Refusal::NotAuthorized,
            ),
            r is Err ==> final(self).listings@ == old(self).listings@,
            r is Ok ==> forall|i: int|
                #[trigger] listed_at(old(self).listings@, id@, i) ==> final(self).listings@
                    == old(self).listings@.update(i, refreshed(old(self).listings@[i], players, now_ms)),
    {
        match find(&self.listings, id) {
            None => Err(Refusal::UnknownServer),
            Some(i) => {
                let ghost before = self.listings@;
                let l = &self.listings[i];
                if !same_text(l.token.as_str(), token) || l.owner != peer || players > l.advert.max_players {
                    assert forall|k: int|
                        #[trigger] listed_at(before, id@, k) implies !(before[k].token@ == token@
                            && before[k].owner == peer && players <= before[k].advert.max_players) by {
                        if k != i {
                            assert(before[k].advert.id@ != before[i as int].advert.id@);
                        }
                    }
                    return Err(Refusal::NotAuthorized);
                }
                let mut l = self.listings.remove(i);
                l.seen_ms = now_ms;
                l.advert.players = players;
                self.listings.insert(i, l);
                proof {
                    assert(self.listings@ =~= before.update(i as int, refreshed(before[i as int], players, now_ms)));
                    assert forall|k: int| #[trigger] listed_at(before, id@, k) implies k == i by {
                        if k != i {
                            assert(before[k].advert.id@ != before[i as int].advert.id@);
                        }
                    }
                    assert forall|o: u128| #[trigger] owned(self.listings@, o) <= MAX_PER_OWNER by {
                        lemma_owned_update(before, i as int, self.listings@[i as int], o);
                    }
                    assert(listed_at(before, id@, i as int));
                }
                Ok(())
            },
        }
    }

    /// Withdraw listing `id`: accepted only with the listing's token from its
    /// registering address.
    pub fn unregister(&mut self, id: &str, token: &str, peer: u128) -> (r: Result<(), Refusal>)
        requires
            old(self).wf(),
        ensures
            final(self).wf(),
            r is Ok <==> may_withdraw(old(self).listings@, id@, token@, peer),
            r is Err ==> r == Err::<(), Refusal>(Refusal::NotAuthorized),
            r is Err ==> final(self).listings@ == old(self).listings@,
            r is Ok ==> forall|i: int|
                #[trigger] listed_at(old(self).listings@, id@, i) ==> final(self).listings@
                    == old(self).listings@.remove(i),
    {
        let ghost before = self.listings@;
        match find(&self.listings, id) {
            None => Err(Refusal::NotAuthorized),
            Some(i) => {
                let l = &self.listings[i];
                proof {
                    assert forall|k: int| #[trigger] listed_at(before, id@, k) implies k == i by {
                        if k != i {
                            assert(before[k].advert.id@ != before[i as int].advert.id@);
                        }
                    }
                }
                if !same_text(l.token.as_str(), token) || l.owner != peer {
                    return Err(Refusal::NotAuthorized);
                }
                self.listings.remove(i);
                proof {
                    assert forall|a: int, b: int|
                        0 <= a < b < self.listings@.len() implies #[trigger] self.listings@[a].advert.id@
                            != #[trigger] self.listings@[b].advert.id@ by {
                        let a0 = if a < i { a } else { a + 1 };
                        let b0 = if b < i { b } else { b + 1 };
                        assert(before[a0].advert.id@ != before[b0].advert.id@);
                    }
                    assert forall|o: u128| #[trigger] owned(self.listings@, o) <= MAX_PER_OWNER by {
                        lemma_owned_remove(before, i as int, o);
                    }
                    assert(listed_at(before, id@, i as int));
                }
                Ok(())
            },
        }
    }

    /// The adverts of all listings, in order.
    pub fn adverts(&self) -> (r: Vec<Advert>)
        ensures
            r@.len() == self.listings@.len(),
            forall|k: int| 0 <= k < r@.len() ==> #[trigger] r@[k] == self.listings@[k].advert,
    {
        let mut out: Vec<Advert> = Vec::new();
        let mut i: usize = 0;
        while i < self.listings.len()
            invariant
                i <= self.listings@.len(),
                out@.len() == i,
                forall|k: int| 0 <= k < i ==> #[trigger] out@[k] == self.listings@[k].advert,
            decreases self.listings.len() - i,
        {
            out.push(copy_advert(&self.listings[i].advert));
            i = i + 1;
        }
        out
    }

    /// Drop the listings whose last heartbeat is `STALE_MS` or more old.
    pub fn expire(&mut self, now_ms: u64)
        requires
            old(self).wf(),
        ensures
            final(self).wf(),
            final(self).listings@ == live(old(self).listings@, now_ms),
    {
        let ghost orig = self.listings@;
        let ghost mut j: int = 0;
        let mut i: usize = 0;
        while i < self.listings.len()
            invariant
                0 <= j <= orig.len(),
                self.wf(),
                i == live(orig.take(j), now_ms).len(),
                self.listings@ == live(orig.take(j), now_ms) + orig.skip(j),
            decreases orig.len() - j,
        {
            let ghost cur = self.listings@;
            proof {
                assert(orig.take(j + 1).drop_last() =~= orig.take(j));
                assert(orig.take(j + 1).last() == orig[j]);
                assert(cur[i as int] == orig[j]);
            }
            if now_ms.saturating_sub(self.listings[i].seen_ms) < STALE_MS {
                i = i + 1;
                proof {
                    assert(self.listings@ =~= live(orig.take(j + 1), now_ms) + orig.skip(j + 1));
                    j = j + 1;
                }
            } else {
                self.listings.remove(i);
                proof {
                    assert(self.listings@ =~= live(orig.take(j + 1), now_ms) + orig.skip(j + 1));
                    assert forall|a: int, b: int|
                        0 <= a < b < self.listings@.len() implies #[trigger] self.listings@[a].advert.id@
                            != #[trigger] self.listings@[b].advert.id@ by {
                        let a0 = if a < i { a } else { a + 1 };
                        let b0 = if b < i { b } else { b + 1 };
                        assert(cur[a0].advert.id@ != cur[b0].advert.id@);
                    }
                    assert forall|o: u128| #[trigger] owned(self.listings@, o) <= MAX_PER_OWNER by {
                        lemma_owned_remove(cur, i as int, o);
                    }
                    j = j + 1;
                }
            }
        }
        proof {
            assert(orig.take(orig.len() as int) =~= orig);
            assert(self.listings@ =~= live(orig, now_ms));
        }
    }
    /// Answer one request from `peer`. For a registration, `host_is_peer`
    /// says whether the advertised host is the peer's own address and
    /// `map_ok` whether the map label is one the directory knows; the
    /// identity and token come from the system's entropy source.
    pub fn handle(&mut self, request: Request, peer: u128, host_is_peer: bool, map_ok: bool, now_ms: u64) -> (r:
        Response)
        requires
            old(self).wf(),
        ensures
            final(self).wf(),
            match request {
                Request::Register { name, host, port, players, max_players, map } => match old(
                    self,
                ).register_refusal(name@, port, players, max_players, peer, host_is_peer, map_ok) {
                    Some(e) => r == Response::Refused(e) && final(self).listings@ == old(self).listings@,
                    None => (r == Response::Refused(Refusal::EntropyUnavailable) && final(self).listings@
                        == old(self).listings@) || (r matches Response::Registered { id, token } && (exists|
                        random: Seq<u8>,
                    |
                        random.len() == 32 && #[trigger] id_of(random) == id@ && token_of(random) == token@)
                        && registration(
                        old(self).listings@,
                        final(self).listings@,
                        id@,
                        token@,
                        name,
                        host,
                        port,
                        players,
                        max_players,
                        map,
                        peer,
                        now_ms,
                    )),
                },
                Request::Heartbeat { id, token, players } => {
                    &&& (r == Response::Done) <==> may_heartbeat(old(self).listings@, id@, token@, players, peer)
                    &&& (r == Response::Refused(Refusal::UnknownServer)) <==> !is_listed(
                        old(self).listings@,
                        id@,
                    )
                    &&& r == Response::Done || r == Response::Refused(Refusal::UnknownServer) || r
                        == Response::Refused(Refusal::NotAuthorized)
                    &&& r != Response::Done ==> final(self).listings@ == old(self).listings@
                    &&& r == Response::Done ==> forall|i: int|
                        #[trigger] listed_at(old(self).listings@, id@, i) ==> final(self).listings@
                            == old(self).listings@.update(i, refreshed(old(self).listings@[i], players, now_ms))
                },
                Request::Unregister { id, token } => {
                    &&& (r == Response::Done) <==> may_withdraw(old(self).listings@, id@, token@, peer)
                    &&& r != Response::Done ==> r == Response::Refused(Refusal::NotAuthorized)
                        && final(self).listings@ == old(self).listings@
                    &&& r == Response::Done ==> forall|i: int|
                        #[trigger] listed_at(old(self).listings@, id@, i) ==> final(self).listings@
                            == old(self).listings@.remove(i)
                },
                Request::List => {
                    &&& final(self).listings@ == old(self).listings@
                    &&& r matches Response::Servers(v) && v@.len() == old(self).listings@.len() && forall|k: int|
                        0 <= k < v@.len() ==> #[trigger] v@[k] == old(self).listings@[k].advert
                },
            },
    {
        match request {
            Request::Register { name, host, port, players, max_players, map } => {
                if self.listings.len() >= MAX_LISTINGS || count_owned(&self.listings, peer) >= MAX_PER_OWNER {
                    return Response::Refused(Refusal::ListingLimit);
                }
                if !host_is_peer || name.as_str().is_empty() || name.as_str().len() > 64 || !free_of_controls(
                    name.as_str(),
                ) || port == 0 || players > max_players || max_players < 2 || max_players > 8 || !map_ok {
                    return Response::Refused(Refusal::InvalidAdvert);
                }
                match random_bytes() {
                    None => Response::Refused(Refusal::EntropyUnavailable),
                    Some(random) => {
                        let (id, token) = self.register(
                            name,
                            host,
                            port,
                            players,
                            max_players,
                            map,
                            random,
                            peer,
                            now_ms,
                        );
                        assert(id_of(random@) == id@);
                        Response::Registered { id, token }
                    },
                }
            },
            Request::Heartbeat { id, token, players } => {
                match self.heartbeat(id.as_str(), token.as_str(), players, peer, now_ms) {
                    Ok(()) => Response::Done,
                    Err(e) => Response::Refused(e),
                }
            },
            Request::Unregister { id, token } => {
                match self.unregister(id.as_str(), token.as_str(), peer) {
                    Ok(()) => Response::Done,
                    Err(e) => Response::Refused(e),
                }
            },
            Request::List => Response::Servers(self.adverts()),
        }
    }
}

/// With one listing per identity, a heartbeat or a withdrawal is never
/// accepted from an address other than the listing's, nor without its
/// token.
pub proof fn lemma_only_owner_with_token(
    listings: Seq<Listing>,
    id: Seq<char>,
    token: Seq<char>,
    players: u32,
    peer: u128,
    i: int,
)
    requires
        distinct_ids(listings),
        listed_at(listings, id, i),
        listings[i].owner != peer || listings[i].token@ != token,
    ensures
        !may_heartbeat(listings, id, token, players, peer),
        !may_withdraw(listings, id, token, peer),
{
    assert forall|k: int| #[trigger] listed_at(listings, id, k) implies k == i by {
        if k != i {
            assert(listings[k].advert.id@ != listings[i].advert.id@);
        }
    }
}

/// No registration is accepted whose advert names another address than the
/// registering one: clients are never sent elsewhere.
pub proof fn lemma_no_redirect(
    d: Directory,
    name: Seq<char>,
    port: u16,
    players: u32,
    max_players: u32,
    peer: u128,
    map_ok: bool,
)
    ensures
        d.register_refusal(name, port, players, max_players, peer, false, map_ok) is Some,
{
}

} // verus!
