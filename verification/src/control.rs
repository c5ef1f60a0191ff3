//! Capture & Hold control points: which points a map may declare. Maps
//! declare points in the manifest; maps without them are unchanged.
use vstd::prelude::*;
use vstd::string::StringSliceAdditionalSpecFns;

use crate::map_catalog::{valid_id, valid_id_bytes};
use crate::text::{same_text, trim, trimmed};

verus! {

/// Points a pack may place at most.
pub const MAX_POINTS: usize = 8;

/// Capture & Hold: first to this many points wins.
pub const CNH_TARGET: u32 = 300;

/// A manifest entry. Its geometry is measured by whoever reads the
/// manifest: `placement_ok` says the position is finite and within 10000 m
/// and the radius is 2..=40 m; `drain_ok` that a drain field, if any,
/// reaches from the point's radius to at most 200 m and drains at most 40
/// energy per second (true when there is no drain field).
#[derive(Debug)]
pub struct Definition {
    pub id: String,
    pub name: String,
    pub ctf_active: bool,
    pub placement_ok: bool,
    pub drain_ok: bool,
}

#[derive(Clone, Copy, Debug, PartialEq, Eq, Structural)]
pub enum PointError {
    TooMany,
    Id,
    Name,
    Placement,
    Drain,
}

impl PointError {
    pub open spec fn message_text(self) -> Seq<char> {
        match self {
            PointError::TooMany => "Too many control points"@,
            PointError::Id => "Invalid control point id"@,
            PointError::Name => "Invalid control point name"@,
            PointError::Placement => "Invalid control point position/radius"@,
            PointError::Drain => "Invalid control point drain"@,
        }
    }

    pub fn message(self) -> (r: &'static str)
        ensures
            r@ == self.message_text(),
    {
        match self {
            PointError::TooMany => "Too many control points",
            PointError::Id => "Invalid control point id",
            PointError::Name => "Invalid control point name",
            PointError::Placement => "Invalid control point position/radius",
            PointError::Drain => "Invalid control point drain",
        }
    }
}

/// A point name: 1 to 24 bytes of ASCII letters, digits, spaces and
/// hyphens, without surrounding white space.
pub open spec fn valid_point_name(name: Seq<char>) -> bool {
    &&& name.len() > 0
    &&& (vstd::utf8::encode_utf8(name).len() as usize) <= 24
    &&& trimmed(name) == name
    &&& forall|i: int| 0 <= i < name.len() ==> name_char(#[trigger] name[i])
}

pub open spec fn name_char(c: char) -> bool {
    ('a' <= c && c <= 'z') || ('A' <= c && c <= 'Z') || ('0' <= c && c <= '9') || c == ' ' || c
        == '-'
}

pub open spec fn points_scan(defs: Seq<Definition>, i: int) -> Result<(), PointError>
    decreases defs.len() - i,
{
    if i < 0 || i >= defs.len() {
        Ok(())
    } else if !valid_id_bytes(vstd::utf8::encode_utf8(defs[i].id@)) || (exists|j: int|
        0 <= j < i && #[trigger] defs[j].id@ == defs[i].id@) {
        Err(PointError::Id)
    } else if !valid_point_name(defs[i].name@) {
        Err(PointError::Name)
    } else if !defs[i].placement_ok {
        Err(PointError::Placement)
    } else if !defs[i].drain_ok {
        Err(PointError::Drain)
    } else {
        points_scan(defs, i + 1)
    }
}

pub open spec fn points_check(defs: Seq<Definition>) -> Result<(), PointError> {
    if defs.len() > MAX_POINTS {
        Err(PointError::TooMany)
    } else {
        points_scan(defs, 0)
    }
}

fn name_chars_ok(name: &str) -> (r: bool)
    ensures
        r == forall|i: int| 0 <= i < name@.len() ==> name_char(#[trigger] name@[i]),
{
    let n = name.unicode_len();
    let mut i: usize = 0;
    while i < n
        invariant
            n == name@.len(),
            i <= n,
            forall|j: int| 0 <= j < i ==> name_char(#[trigger] name@[j]),
        decreases n - i,
    {
        let c = name.get_char(i);
        if !(('a' <= c && c <= 'z') || ('A' <= c && c <= 'Z') || ('0' <= c && c <= '9') || c
            == ' ' || c == '-') {
            return false;
        }
        i = i + 1;
    }
    true
}

/// Check a map's control points: at most MAX_POINTS, each with a unique
/// valid identity, a valid name, a valid placement and a valid drain field.
pub fn validate(defs: &[Definition]) -> (r: Result<(), PointError>)
    ensures
        r == points_check(defs@),
{
    if defs.len() > MAX_POINTS {
        return Err(PointError::TooMany);
    }
    let mut i: usize = 0;
    while i < defs.len()
        invariant
            defs@.len() <= MAX_POINTS,
            i <= defs@.len(),
            points_scan(defs@, 0) == points_scan(defs@, i as int),
        decreases defs.len() - i,
    {
        let d = &defs[i];
        let mut duplicate = false;
        let mut j: usize = 0;
        while j < i
            invariant
                i < defs@.len(),
                j <= i,
                d == defs@[i as int],
                duplicate == exists|k: int| 0 <= k < j && #[trigger] defs@[k].id@ == d.id@,
            decreases i - j,
        {
            if defs[j].id == d.id {
                assert(defs@[j as int].id@ == d.id@);
                duplicate = true;
            }
            j = j + 1;
        }
        if !valid_id(d.id.as_str()) || duplicate {
            return Err(PointError::Id);
        }
        let name = d.name.as_str();
        if name.unicode_len() == 0 || name.len() > 24 || !same_text(trim(name), name)
            || !name_chars_ok(name) {
            return Err(PointError::Name);
        }
        if !d.placement_ok {
            return Err(PointError::Placement);
        }
        if !d.drain_ok {
            return Err(PointError::Drain);
        }
        i = i + 1;
    }
    Ok(())
}

/// What happened at a point during a step.
#[derive(Clone, Copy, Debug, PartialEq, Eq, Structural)]
pub enum Event {
    /// Point index, new owner, previous owner.
    Captured { point: usize, team: u8, previous: Option<u8> },
    ContestedStart { point: usize },
}

/// Whether a point runs in the current mode: Capture & Hold runs every
/// point, other modes only those marked `ctf_active`.
pub fn active(capture_and_hold: bool, ctf_active: bool) -> (r: bool)
    ensures
        r == (capture_and_hold || ctf_active),
{
    capture_and_hold || ctf_active
}

} // verus!
