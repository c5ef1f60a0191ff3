//! Admission of announced servers to the public directory. A hosted server
//! announces its URL periodically; announces are rate-limited per address,
//! an entry belongs to the address that first listed it, and the number of
//! entries is capped overall and per address. Addresses are IPv6 addresses
//! with IPv4 ones mapped, so that one host compares equal to itself.
use vstd::prelude::*;

use crate::text::same_text;

verus! {

/// Hosted servers announce this often, in milliseconds.
pub const ANNOUNCE_EVERY_MS: u64 = 20000;

/// An entry lapses this long after its last announce.
pub const ANNOUNCE_TTL_MS: u64 = 65000;

/// The least gap between two announces from one address.
pub const MIN_ANNOUNCE_GAP_MS: u64 = 4000;

/// A status report counts as current for this long.
pub const FRESH_MS: u64 = 12000;

/// Entries held at most, overall and per address.
pub const MAX_ANNOUNCED: usize = 32;
pub const MAX_PER_ADDRESS: usize = 4;

/// Why an announce is not admitted, each with its HTTP status.
#[derive(Clone, Copy, Debug, PartialEq, Eq, Structural)]
pub enum Admission {
    /// The URL is the directory's own backend, which is always listed.
    NoContent,
    BadRequest,
    TooManyRequests,
    Forbidden,
    ServiceUnavailable,
}

impl Admission {
    pub fn code(self) -> (r: u16)
        ensures
            r == match self {
                Admission::NoContent => 204u16,
                Admission::BadRequest => 400u16,
                Admission::TooManyRequests => 429u16,
                Admission::Forbidden => 403u16,
                Admission::ServiceUnavailable => 503u16,
            },
    {
        match self {
            Admission::NoContent => 204,
            Admission::BadRequest => 400,
            Admission::TooManyRequests => 429,
            Admission::Forbidden => 403,
            Admission::ServiceUnavailable => 503,
        }
    }
}

/// An announced server: its URL, the address that listed it, its last
/// announce and its last status report with the time it came.
#[derive(Debug)]
pub struct Announced<S> {
    pub url: String,
    pub owner: u128,
    pub announced_ms: u64,
    pub status: Option<(S, u64)>,
}

/// Milliseconds from `then` to `now`, none when `then` is later.
pub open spec fn age(then: u64, now: u64) -> int {
    if now >= then {
        now - then
    } else {
        0
    }
}

/// Whether a status report that came at `seen_ms` is still current.
pub fn status_fresh(seen_ms: u64, now_ms: u64) -> (r: bool)
    ensures
        r == (age(seen_ms, now_ms) < FRESH_MS),
{
    now_ms.saturating_sub(seen_ms) < FRESH_MS
}

/// The last announce of each address, without the stale ones and the one
/// of `from`.
pub open spec fn kept_stamps(last: Seq<(u128, u64)>, from: u128, now: u64) -> Seq<(u128, u64)>
    decreases last.len(),
{
    if last.len() == 0 {
        Seq::empty()
    } else {
        let rest = kept_stamps(last.drop_last(), from, now);
        let s = last.last();
        if s.0 != from && age(s.1, now) < ANNOUNCE_TTL_MS {
            rest.push(s)
        } else {
            rest
        }
    }
}

/// The record of last announces after one from `from` at `now`.
pub open spec fn restamped(last: Seq<(u128, u64)>, from: u128, now: u64) -> Seq<(u128, u64)> {
    kept_stamps(last, from, now).push((from, now))
}

/// `from` announced less than the least gap before `now`.
pub open spec fn too_soon(last: Seq<(u128, u64)>, from: u128, now: u64) -> bool {
    exists|i: int| 0 <= i < last.len() && #[trigger] last[i].0 == from && age(last[i].1, now) < MIN_ANNOUNCE_GAP_MS
}

/// The entries announced within the time to live.
pub open spec fn current<S>(entries: Seq<Announced<S>>, now: u64) -> Seq<Announced<S>>
    decreases entries.len(),
{
    if entries.len() == 0 {
        Seq::empty()
    } else {
        let rest = current(entries.drop_last(), now);
        if age(entries.last().announced_ms, now) < ANNOUNCE_TTL_MS {
            rest.push(entries.last())
        } else {
            rest
        }
    }
}

/// Entries listed by `owner`.
pub open spec fn owned_by<S>(entries: Seq<Announced<S>>, owner: u128) -> nat
    decreases entries.len(),
{
    if entries.len() == 0 {
        0
    } else {
        owned_by(entries.drop_last(), owner) + (if entries.last().owner == owner {
            1nat
        } else {
            0nat
        })
    }
}

pub open spec fn entry_at<S>(entries: Seq<Announced<S>>, url: Seq<char>, i: int) -> bool {
    0 <= i < entries.len() && entries[i].url@ == url
}

pub open spec fn has_entry<S>(entries: Seq<Announced<S>>, url: Seq<char>) -> bool {
    exists|i: int| entry_at(entries, url, i)
}

/// An entry after a fresh announce.
pub open spec fn reannounced<S>(a: Announced<S>, now: u64) -> Announced<S> {
    Announced { url: a.url, owner: a.owner, announced_ms: now, status: a.status }
}

/// The URL's shape refuses it: it is no endpoint URL (`endpoint` is None),
/// has no identity, or names a privileged port.
pub open spec fn bad_shape(endpoint: Option<Option<u16>>, has_id: bool) -> bool {
    match endpoint {
        None => true,
        Some(port) => !has_id || (port matches Some(p) && p < 1024),
    }
}

pub open spec fn distinct_addresses(last: Seq<(u128, u64)>) -> bool {
    forall|i: int, j: int| 0 <= i < j < last.len() ==> #[trigger] last[i].0 != #[trigger] last[j].0
}

pub open spec fn distinct_urls<S>(entries: Seq<Announced<S>>) -> bool {
    forall|i: int, j: int|
        0 <= i < j < entries.len() ==> #[trigger] entries[i].url@ != #[trigger] entries[j].url@
}

proof fn lemma_kept_stamps(last: Seq<(u128, u64)>, from: u128, now: u64)
    requires
        distinct_addresses(last),
    ensures
        distinct_addresses(kept_stamps(last, from, now)),
        forall|k: int|
            0 <= k < kept_stamps(last, from, now).len() ==> #[trigger] kept_stamps(last, from, now)[k].0
                != from && last.contains(kept_stamps(last, from, now)[k]),
    decreases last.len(),
{
    if last.len() > 0 {
        let init = last.drop_last();
        assert(distinct_addresses(init));
        lemma_kept_stamps(init, from, now);
        let rest = kept_stamps(init, from, now);
        let k = kept_stamps(last, from, now);
        assert forall|x: int| 0 <= x < k.len() implies #[trigger] k[x].0 != from && last.contains(k[x]) by {
            if x < rest.len() {
                assert(rest[x] == k[x]);
                assert(rest[x].0 != from);
                let y = choose|y: int| 0 <= y < init.len() && init[y] == rest[x];
                assert(last[y] == k[x]);
            } else {
                assert(last[last.len() - 1] == k[x]);
            }
        }
        assert forall|a: int, b: int| 0 <= a < b < k.len() implies #[trigger] k[a].0 != #[trigger] k[b].0 by {
            if b == rest.len() {
                assert(k[a] == rest[a]);
                assert(rest[a].0 != from);
                assert(init.contains(rest[a]));
                let y = choose|y: int| 0 <= y < init.len() && init[y] == rest[a];
                assert(last[y] == rest[a]);
                assert(last[last.len() - 1] == k[b]);
            } else {
                assert(k[a] == rest[a] && k[b] == rest[b]);
            }
        }
    }
}

proof fn lemma_current<S>(entries: Seq<Announced<S>>, now: u64)
    requires
        distinct_urls(entries),
    ensures
        distinct_urls(current(entries, now)),
        current(entries, now).len() <= entries.len(),
        forall|k: int|
            0 <= k < current(entries, now).len() ==> entries.contains(#[trigger] current(entries, now)[k]),
    decreases entries.len(),
{
    if entries.len() > 0 {
        let init = entries.drop_last();
        assert(distinct_urls(init));
        lemma_current(init, now);
        let rest = current(init, now);
        let c = current(entries, now);
        assert forall|x: int| 0 <= x < c.len() implies entries.contains(#[trigger] c[x]) by {
            if x < rest.len() {
                assert(rest[x] == c[x]);
                let y = choose|y: int| 0 <= y < init.len() && init[y] == rest[x];
                assert(entries[y] == c[x]);
            } else {
                assert(entries[entries.len() - 1] == c[x]);
            }
        }
        assert forall|a: int, b: int| 0 <= a < b < c.len() implies #[trigger] c[a].url@ != #[trigger] c[b].url@ by {
            if b == rest.len() {
                assert(c[a] == rest[a]);
                let y = choose|y: int| 0 <= y < init.len() && init[y] == rest[a];
                assert(entries[y] == rest[a]);
                assert(entries[entries.len() - 1] == c[b]);
            } else {
                assert(c[a] == rest[a] && c[b] == rest[b]);
            }
        }
    }
}

/// What the directory remembers of announces: the last announce of each
/// address, and the announced entries.
#[derive(Debug)]
pub struct AnnounceBook<S> {
    pub last: Vec<(u128, u64)>,
    pub entries: Vec<Announced<S>>,
}

impl<S> AnnounceBook<S> {
    /// One stamp per address; one entry per URL, and no more than the cap.
    pub open spec fn wf(&self) -> bool {
        &&& distinct_addresses(self.last@)
        &&& distinct_urls(self.entries@)
        &&& self.entries@.len() <= MAX_ANNOUNCED
    }

    pub fn new() -> (r: Self)
        ensures
            r.wf(),
            r.last@.len() == 0,
            r.entries@.len() == 0,
    {
        AnnounceBook { last: Vec::new(), entries: Vec::new() }
    }

    fn restamp(&mut self, from: u128, now_ms: u64)
        requires
            distinct_addresses(old(self).last@),
        ensures
            final(self).last@ == restamped(old(self).last@, from, now_ms),
            distinct_addresses(final(self).last@),
            final(self).entries == old(self).entries,
    {
        let ghost orig = self.last@;
        let mut kept: Vec<(u128, u64)> = Vec::new();
        let mut i: usize = 0;
        while i < self.last.len()
            invariant
                self.last@ == orig,
                i <= orig.len(),
                kept@ == kept_stamps(orig.take(i as int), from, now_ms),
            decreases orig.len() - i,
        {
            proof {
                assert(orig.take(i + 1).drop_last() =~= orig.take(i as int));
            }
            let s = self.last[i];
            if s.0 != from && now_ms.saturating_sub(s.1) < ANNOUNCE_TTL_MS {
                kept.push(s);
            }
            i = i + 1;
        }
        proof {
            assert(orig.take(orig.len() as int) =~= orig);
            lemma_kept_stamps(orig, from, now_ms);
        }
        kept.push((from, now_ms));
        self.last = kept;
        proof {
            let k = kept_stamps(orig, from, now_ms);
            assert forall|a: int, b: int|
                0 <= a < b < self.last@.len() implies #[trigger] self.last@[a].0 != #[trigger] self.last@[b].0 by {
                if b == k.len() {
                    assert(self.last@[a] == k[a]);
                } else {
                    assert(self.last@[a] == k[a] && self.last@[b] == k[b]);
                }
            }
        }
    }

    fn was_too_soon(&self, from: u128, now_ms: u64) -> (r: bool)
        ensures
            r == too_soon(self.last@, from, now_ms),
    {
        let mut i: usize = 0;
        while i < self.last.len()
            invariant
                i <= self.last@.len(),
                forall|j: int|
                    0 <= j < i ==> !(#[trigger] self.last@[j].0 == from && age(self.last@[j].1, now_ms)
                        < MIN_ANNOUNCE_GAP_MS),
            decreases self.last.len() - i,
        {
            if self.last[i].0 == from && now_ms.saturating_sub(self.last[i].1) < MIN_ANNOUNCE_GAP_MS {
                return true;
            }
            i = i + 1;
        }
        false
    }

    /// Drop the entries whose last announce is the time to live or more old.
    pub fn expire(&mut self, now_ms: u64)
        requires
            old(self).wf(),
        ensures
            final(self).wf(),
            final(self).entries@ == current(old(self).entries@, now_ms),
            final(self).last@ == old(self).last@,
    {
        let ghost orig = self.entries@;
        let ghost mut j: int = 0;
        let mut i: usize = 0;
        proof {
            lemma_current(orig, now_ms);
        }
        while i < self.entries.len()
            invariant
                0 <= j <= orig.len(),
                distinct_urls(orig),
                distinct_addresses(self.last@),
                self.last@ == old(self).last@,
                orig.len() <= MAX_ANNOUNCED,
                i == current(orig.take(j), now_ms).len(),
                self.entries@ == current(orig.take(j), now_ms) + orig.skip(j),
            decreases orig.len() - j,
        {
            proof {
                assert(orig.take(j + 1).drop_last() =~= orig.take(j));
                assert(self.entries@[i as int] == orig[j]);
            }
            if now_ms.saturating_sub(self.entries[i].announced_ms) < ANNOUNCE_TTL_MS {
                i = i + 1;
            } else {
                self.entries.remove(i);
            }
            proof {
                assert(self.entries@ =~= current(orig.take(j + 1), now_ms) + orig.skip(j + 1));
                j = j + 1;
            }
        }
        proof {
            assert(orig.take(orig.len() as int) =~= orig);
            assert(self.entries@ =~= current(orig, now_ms));
        }
    }

    fn find(&self, url: &str) -> (r: Option<usize>)
        ensures
            match r {
                Some(i) => entry_at(self.entries@, url@, i as int),
                None => !has_entry(self.entries@, url@),
            },
    {
        let mut i: usize = 0;
        while i < self.entries.len()
            invariant
                i <= self.entries@.len(),
                forall|j: int| 0 <= j < i ==> !#[trigger] entry_at(self.entries@, url@, j),
            decreases self.entries.len() - i,
        {
            if same_text(self.entries[i].url.as_str(), url) {
                return Some(i);
            }
            i = i + 1;
        }
        None
    }

    fn count_owned(&self, owner: u128) -> (r: usize)
        ensures
            r == owned_by(self.entries@, owner),
    {
        let mut n: usize = 0;
        let mut i: usize = 0;
        while i < self.entries.len()
            invariant
                i <= self.entries@.len(),
                n == owned_by(self.entries@.take(i as int), owner),
                n <= i,
            decreases self.entries.len() - i,
        {
            assert(self.entries@.take(i + 1).drop_last() =~= self.entries@.take(i as int));
            if self.entries[i].owner == owner {
                n = n + 1;
            }
            i = i + 1;
        }
        assert(self.entries@.take(self.entries@.len() as int) =~= self.entries@);
        n
    }

    /// Screening of an announce of `url` from `from` at `now_ms`, before
    /// any network work. `endpoint` is the port the URL names when it is an
    /// endpoint URL (None when it is not one), and `has_id` says whether an
    /// identity can be made of it. Ok(true) lets in a new entry and Ok(false)
    /// refreshes the caller's own; a refusal says why. Past the URL checks,
    /// the announce is stamped and lapsed entries are dropped.
    pub fn screen(
        &mut self,
        advertised: &str,
        url: &str,
        endpoint: Option<Option<u16>>,
        has_id: bool,
        from: u128,
        now_ms: u64,
    ) -> (r: Result<bool, Admission>)
        requires
            old(self).wf(),
        ensures
            final(self).wf(),
            url@ == advertised@ ==> r == Err::<bool, Admission>(Admission::NoContent),
            url@ != advertised@ && bad_shape(endpoint, has_id) ==> r == Err::<bool, Admission>(
                Admission::BadRequest,
            ),
            url@ != advertised@ && !bad_shape(endpoint, has_id) && too_soon(old(self).last@, from, now_ms)
                ==> r == Err::<bool, Admission>(Admission::TooManyRequests),
            url@ == advertised@ || bad_shape(endpoint, has_id) || too_soon(old(self).last@, from, now_ms)
                ==> final(self).last@ == old(self).last@ && final(self).entries@ == old(self).entries@,
            url@ != advertised@ && !bad_shape(endpoint, has_id) && !too_soon(old(self).last@, from, now_ms)
                ==> {
                let cur = current(old(self).entries@, now_ms);
                &&& final(self).last@ == restamped(old(self).last@, from, now_ms)
                &&& forall|i: int|
                    #[trigger] entry_at(cur, url@, i) ==> if cur[i].owner == from {
                        r == Ok::<bool, Admission>(false) && final(self).entries@ == cur.update(
                            i,
                            reannounced(cur[i], now_ms),
                        )
                    } else {
                        r == Err::<bool, Admission>(Admission::Forbidden) && final(self).entries@ == cur
                    }
                &&& !has_entry(cur, url@) ==> final(self).entries@ == cur && r == if cur.len()
                    >= MAX_ANNOUNCED {
                    Err::<bool, Admission>(Admission::ServiceUnavailable)
                } else if owned_by(cur, from) >= MAX_PER_ADDRESS {
                    Err::<bool, Admission>(Admission::TooManyRequests)
                } else {
                    Ok::<bool, Admission>(true)
                }
            },
    {
        if same_text(url, advertised) {
            return Err(Admission::NoContent);
        }
        let bad = match endpoint {
            None => true,
            Some(port) => !has_id || match port {
                Some(p) => p < 1024,
                None => false,
            },
        };
        if bad {
            return Err(Admission::BadRequest);
        }
        if self.was_too_soon(from, now_ms) {
            return Err(Admission::TooManyRequests);
        }
        self.restamp(from, now_ms);
        self.expire(now_ms);
        let ghost cur = self.entries@;
        match self.find(url) {
            Some(i) => {
                proof {
                    assert forall|k: int| #[trigger] entry_at(cur, url@, k) implies k == i by {
                        if k != i {
                            assert(cur[k].url@ != cur[i as int].url@);
                        }
                    }
                }
                if self.entries[i].owner != from {
                    return Err(Admission::Forbidden);
                }
                let mut a = self.entries.remove(i);
                a.announced_ms = now_ms;
                self.entries.insert(i, a);
                proof {
                    assert(self.entries@ =~= cur.update(i as int, reannounced(cur[i as int], now_ms)));
                    assert forall|x: int, y: int|
                        0 <= x < y < self.entries@.len() implies #[trigger] self.entries@[x].url@
                            != #[trigger] self.entries@[y].url@ by {
                        assert(cur[x].url@ != cur[y].url@);
                    }
                }
                Ok(false)
            },
            None => {
                if self.entries.len() >= MAX_ANNOUNCED {
                    Err(Admission::ServiceUnavailable)
                } else if self.count_owned(from) >= MAX_PER_ADDRESS {
                    Err(Admission::TooManyRequests)
                } else {
                    Ok(true)
                }
            },
        }
    }

    /// List `url` for `from` with its first status report, once the checks
    /// that follow admission have passed; refused when the cap is reached
    /// by other entries meanwhile.
    pub fn list(&mut self, url: String, from: u128, status: S, now_ms: u64) -> (r: Result<(), Admission>)
        requires
            old(self).wf(),
        ensures
            final(self).wf(),
            final(self).last@ == old(self).last@,
            !has_entry(old(self).entries@, url@) && old(self).entries@.len() >= MAX_ANNOUNCED ==> r
                == Err::<(), Admission>(Admission::ServiceUnavailable) && final(self).entries@ == old(
                self,
            ).entries@,
            has_entry(old(self).entries@, url@) ==> r is Ok && forall|i: int|
                #[trigger] entry_at(old(self).entries@, url@, i) ==> final(self).entries@ == old(
                    self,
                ).entries@.update(
                    i,
                    Announced { url, owner: from, announced_ms: now_ms, status: Some((status, now_ms)) },
                ),
            !has_entry(old(self).entries@, url@) && old(self).entries@.len() < MAX_ANNOUNCED ==> r is Ok
                && final(self).entries@ == old(self).entries@.push(
                Announced { url, owner: from, announced_ms: now_ms, status: Some((status, now_ms)) },
            ),
    {
        let ghost before = self.entries@;
        match self.find(url.as_str()) {
            Some(i) => {
                proof {
                    assert forall|k: int| #[trigger] entry_at(before, url@, k) implies k == i by {
                        if k != i {
                            assert(before[k].url@ != before[i as int].url@);
                        }
                    }
                }
                self.entries.set(i, Announced { url, owner: from, announced_ms: now_ms, status: Some((status, now_ms)) });
                proof {
                    assert forall|x: int, y: int|
                        0 <= x < y < self.entries@.len() implies #[trigger] self.entries@[x].url@
                            != #[trigger] self.entries@[y].url@ by {
                        assert(before[x].url@ != before[y].url@);
                    }
                }
                Ok(())
            },
            None => {
                if self.entries.len() >= MAX_ANNOUNCED {
                    return Err(Admission::ServiceUnavailable);
                }
                self.entries.push(Announced { url, owner: from, announced_ms: now_ms, status: Some((status, now_ms)) });
                proof {
                    assert forall|x: int, y: int|
                        0 <= x < y < self.entries@.len() implies #[trigger] self.entries@[x].url@
                            != #[trigger] self.entries@[y].url@ by {
                        if y == before.len() {
                            assert(!entry_at(before, url@, x));
                        } else {
                            assert(before[x].url@ != before[y].url@);
                        }
                    }
                }
                Ok(())
            },
        }
    }

    /// Record a status report for `url`, if it is listed.
    pub fn report(&mut self, url: &str, status: S, now_ms: u64)
        requires
            old(self).wf(),
        ensures
            final(self).wf(),
            final(self).last@ == old(self).last@,
            !has_entry(old(self).entries@, url@) ==> final(self).entries@ == old(self).entries@,
            forall|i: int|
                #[trigger] entry_at(old(self).entries@, url@, i) ==> final(self).entries@ == old(
                    self,
                ).entries@.update(
                    i,
                    Announced {
                        url: old(self).entries@[i].url,
                        owner: old(self).entries@[i].owner,
                        announced_ms: old(self).entries@[i].announced_ms,
                        status: Some((status, now_ms)),
                    },
                ),
    {
        let ghost before = self.entries@;
        if let Some(i) = self.find(url) {
            proof {
                assert forall|k: int| #[trigger] entry_at(before, url@, k) implies k == i by {
                    if k != i {
                        assert(before[k].url@ != before[i as int].url@);
                    }
                }
            }
            let mut a = self.entries.remove(i);
            a.status = Some((status, now_ms));
            self.entries.insert(i, a);
            proof {
                assert forall|x: int, y: int|
                    0 <= x < y < self.entries@.len() implies #[trigger] self.entries@[x].url@
                        != #[trigger] self.entries@[y].url@ by {
                    assert(before[x].url@ != before[y].url@);
                }
            }
        }
    }

    /// The positions of the entries to show at `now_ms`, in order: those
    /// announced within the time to live with a current status report.
    pub fn showing(&self, now_ms: u64) -> (r: Vec<usize>)
        ensures
            forall|j: int| 0 <= j < r@.len() ==> #[trigger] r@[j] < self.entries@.len() && shown(self.entries@[r@[j] as int], now_ms),
            forall|j: int, k: int| 0 <= j < k < r@.len() ==> #[trigger] r@[j] < #[trigger] r@[k],
            forall|k: int| 0 <= k < self.entries@.len() && shown(#[trigger] self.entries@[k], now_ms) ==> r@.contains(k as usize),
    {
        let mut out: Vec<usize> = Vec::new();
        let mut i: usize = 0;
        while i < self.entries.len()
            invariant
                i <= self.entries@.len(),
                forall|j: int| 0 <= j < out@.len() ==> #[trigger] out@[j] < i && shown(self.entries@[out@[j] as int], now_ms),
                forall|j: int, k: int| 0 <= j < k < out@.len() ==> #[trigger] out@[j] < #[trigger] out@[k],
                forall|k: int| 0 <= k < i && shown(#[trigger] self.entries@[k], now_ms) ==> out@.contains(k as usize),
            decreases self.entries.len() - i,
        {
            let a = &self.entries[i];
            let on = match &a.status {
                Some(st) => status_fresh(st.1, now_ms) && now_ms.saturating_sub(a.announced_ms) < ANNOUNCE_TTL_MS,
                None => false,
            };
            let ghost prev = out@;
            if on {
                out.push(i);
            }
            proof {
                assert forall|k: int| 0 <= k < i + 1 && shown(#[trigger] self.entries@[k], now_ms) implies out@.contains(
                    k as usize,
                ) by {
                    if k == i {
                        assert(out@[out@.len() - 1] == i);
                    } else {
                        let j = choose|j: int| 0 <= j < prev.len() && prev[j] == k as usize;
                        assert(out@[j] == prev[j]);
                    }
                }
            }
            i = i + 1;
        }
        out
    }
}

/// Whether an entry is shown at `now`: announced within the time to live,
/// with a current status report.
pub open spec fn shown<S>(a: Announced<S>, now: u64) -> bool {
    &&& a.status matches Some(st) && age(st.1, now) < FRESH_MS
    &&& age(a.announced_ms, now) < ANNOUNCE_TTL_MS
}

/// Once an address is stamped at `now`, any further announce from it before
/// the least gap has passed is too soon.
pub proof fn lemma_rate_limited(last: Seq<(u128, u64)>, from: u128, now: u64, later: u64)
    requires
        later < now + MIN_ANNOUNCE_GAP_MS,
    ensures
        too_soon(restamped(last, from, now), from, later),
{
    let s = restamped(last, from, now);
    assert(s[s.len() - 1] == (from, now));
    assert(s[s.len() - 1].0 == from && age(s[s.len() - 1].1, later) < MIN_ANNOUNCE_GAP_MS);
}

} // verus!
