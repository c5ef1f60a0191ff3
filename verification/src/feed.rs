//! Bounded, authoritative match communications. Names are captured at
//! event time.
use vstd::prelude::*;
use vstd::string::StringSliceAdditionalSpecFns;

use crate::team::Team;
use crate::text::{plain, plain_text, trim, trimmed};

verus! {

/// Entries a feed keeps.
pub const CAPACITY: usize = 16;

/// Longest message, in UTF-8 bytes.
pub const MAX_BYTES: usize = 240;

/// Longest message, in characters.
pub const MAX_CHARS: usize = 160;

#[derive(Debug, PartialEq, Eq)]
pub enum Entry {
    Chat { sender: String, text: String },
    TeamChat { sender: String, text: String, team: Team },
    Frag { killer: String, victim: String, weapon: String },
    /// A server-announced play (football passes, tackles, touchdowns).
    Play { text: String },
}

/// Whether `text` holds no control, direction or separator character.
pub fn safe_text(text: &str) -> (r: bool)
    ensures
        r == plain_text(text@),
{
    plain(text)
}

/// The message a chat line becomes, if any: the text without surrounding
/// white space, when the raw text fits MAX_BYTES and is plain, and the
/// trimmed text is non-empty, fits MAX_BYTES and MAX_CHARS, and is plain.
pub open spec fn message_of(text: &str) -> Option<Seq<char>> {
    let t = trimmed(text@);
    if text.len() > MAX_BYTES || !plain_text(text@) {
        None
    } else if t.len() > 0 && (vstd::utf8::encode_utf8(t).len() as usize) <= MAX_BYTES && t.len() <= MAX_CHARS
        && plain_text(t) {
        Some(t)
    } else {
        None
    }
}

/// A chat line as it enters the feed, or None when it is refused.
pub fn message(text: &str) -> (r: Option<String>)
    ensures
        r is Some <==> message_of(text) is Some,
        r matches Some(s) ==> message_of(text) == Some(s@),
{
    if text.len() > MAX_BYTES || !safe_text(text) {
        return None;
    }
    let t = trim(text);
    if !t.is_empty() && t.len() <= MAX_BYTES && t.unicode_len() <= MAX_CHARS && safe_text(t) {
        Some(t.to_owned())
    } else {
        None
    }
}

/// The entries a feed holds once `entry` joins `feed`: the newest
/// CAPACITY, oldest first.
pub open spec fn pushed(feed: Seq<Entry>, entry: Entry) -> Seq<Entry> {
    let kept = if feed.len() >= CAPACITY {
        feed.subrange(feed.len() - (CAPACITY - 1), feed.len() as int)
    } else {
        feed
    };
    kept.push(entry)
}

/// Append `entry`, dropping the oldest entries beyond CAPACITY.
pub fn push(feed: &mut Vec<Entry>, entry: Entry)
    ensures
        final(feed)@ == pushed(old(feed)@, entry),
        final(feed)@.len() <= CAPACITY,
        final(feed)@.last() == entry,
{
    let ghost start = feed@;
    while feed.len() >= CAPACITY
        invariant
            feed@.len() <= start.len(),
            start.len() >= CAPACITY ==> feed@.len() >= CAPACITY - 1,
            start.len() < CAPACITY ==> feed@ == start,
            feed@ == start.subrange(start.len() - feed@.len(), start.len() as int),
        decreases feed.len(),
    {
        feed.remove(0);
    }
    assert(feed@ == (if start.len() >= CAPACITY {
        start.subrange(start.len() - (CAPACITY - 1), start.len() as int)
    } else {
        start
    }));
    feed.push(entry);
}

/// The line an entry shows in the feed.
pub open spec fn line_of(e: Entry) -> Seq<char> {
    match e {
        Entry::Chat { sender, text } => sender@ + ": "@ + text@,
        Entry::TeamChat { sender, text, .. } => "[TEAM] "@ + sender@ + ": "@ + text@,
        Entry::Frag { killer, victim, weapon } => {
            if killer@ == victim@ && weapon@ == "Suicide"@ {
                victim@ + " took the quick way out"@
            } else {
                killer@ + " fragged "@ + victim@ + " \u{b7} "@ + weapon@
            }
        },
        Entry::Play { text } => text@,
    }
}

/// Whether a player of `team` (None: nobody in particular) sees `e`: team
/// chat goes only to its own team.
pub open spec fn visible(e: Entry, team: Option<Team>) -> bool {
    match e {
        Entry::TeamChat { team: recipient, .. } => team == Some(recipient),
        _ => true,
    }
}

/// The entries of `feed` that a player of `team` sees, in order.
pub open spec fn shown_to(feed: Seq<Entry>, team: Option<Team>) -> Seq<Entry>
    decreases feed.len(),
{
    if feed.len() == 0 {
        Seq::empty()
    } else {
        let rest = shown_to(feed.drop_last(), team);
        if visible(feed.last(), team) {
            rest.push(feed.last())
        } else {
            rest
        }
    }
}

impl Entry {
    pub fn line(&self) -> (r: String)
        ensures
            r@ == line_of(*self),
    {
        match self {
            Entry::Chat { sender, text } => {
                let mut out = sender.clone();
                out.append(": ");
                out.append(text.as_str());
                out
            },
            Entry::TeamChat { sender, text, .. } => {
                let mut out = "[TEAM] ".to_owned();
                out.append(sender.as_str());
                out.append(": ");
                out.append(text.as_str());
                out
            },
            Entry::Frag { killer, victim, weapon } => {
                let suicide = "Suicide".to_owned();
                if *killer == *victim && *weapon == suicide {
                    let mut out = victim.clone();
                    out.append(" took the quick way out");
                    out
                } else {
                    let mut out = killer.clone();
                    out.append(" fragged ");
                    out.append(victim.as_str());
                    out.append(" \u{b7} ");
                    out.append(weapon.as_str());
                    out
                }
            },
            Entry::Play { text } => text.clone(),
        }
    }

    /// An identical copy of the entry.
    pub fn duplicate(&self) -> (r: Entry)
        ensures
            r == *self,
    {
        match self {
            Entry::Chat { sender, text } => Entry::Chat { sender: sender.clone(), text: text.clone() },
            Entry::TeamChat { sender, text, team } => Entry::TeamChat {
                sender: sender.clone(),
                text: text.clone(),
                team: *team,
            },
            Entry::Frag { killer, victim, weapon } => Entry::Frag {
                killer: killer.clone(),
                victim: victim.clone(),
                weapon: weapon.clone(),
            },
            Entry::Play { text } => Entry::Play { text: text.clone() },
        }
    }
}

/// The feed as a player of `team` receives it in a snapshot (None: the
/// public feed, without any team chat).
pub fn entries_for(feed: &Vec<Entry>, team: Option<Team>) -> (r: Vec<Entry>)
    ensures
        r@ == shown_to(feed@, team),
{
    let mut out: Vec<Entry> = Vec::new();
    let mut i: usize = 0;
    while i < feed.len()
        invariant
            i <= feed@.len(),
            out@ == shown_to(feed@.take(i as int), team),
        decreases feed.len() - i,
    {
        assert(feed@.take(i + 1).drop_last() =~= feed@.take(i as int));
        let e = &feed[i];
        let shown = match e {
            Entry::TeamChat { team: recipient, .. } => match team {
                Some(t) => *recipient == t,
                None => false,
            },
            _ => true,
        };
        if shown {
            out.push(e.duplicate());
        }
        i = i + 1;
    }
    assert(feed@.take(feed@.len() as int) =~= feed@);
    out
}

/// Every message that enters the feed is non-empty, plain (no control,
/// direction or separator character), within MAX_CHARS characters and
/// within MAX_BYTES bytes, and already trimmed.
pub proof fn lemma_message_bounded(text: &str)
    requires
        message_of(text) is Some,
    ensures
        ({
            let m = message_of(text)->0;
            &&& 0 < m.len() <= MAX_CHARS
            &&& (vstd::utf8::encode_utf8(m).len() as usize) <= MAX_BYTES
            &&& plain_text(m)
            &&& m == trimmed(text@)
        }),
{
}

/// A message that entered the feed is accepted again unchanged: sending
/// the accepted text gives the same text back.
pub proof fn lemma_message_stable(text: &str, again: &str)
    requires
        message_of(text) is Some,
        again@ == message_of(text)->0,
    ensures
        message_of(again) == message_of(text),
{
    crate::text::lemma_trimmed_idempotent(text@);
}

} // verus!
