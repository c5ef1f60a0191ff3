//! Map identities: stable keys that rotations, preferences and server
//! listings use, independent of display names and file locations.
use vstd::prelude::*;

use crate::text::{ascii_fold_eq, ascii_lower, eq_ignore_ascii_case};

verus! {

/// Which ground a match is on.
#[derive(Clone, Copy, Debug, PartialEq, Eq, Structural)]
pub enum MapId {
    Valley,
    Raindance,
    BroadsideClone,
    StonehengeClone,
    SnowblindClone,
    DesertOfDeathClone,
    Longfield,
    Highgoal,
    OzarkticBlast,
    Reefbreak,
}

/// The stable key of a map.
pub open spec fn key_text(id: MapId) -> Seq<char> {
    match id {
        MapId::Valley => "valley"@,
        MapId::Raindance => "raindance"@,
        MapId::BroadsideClone => "broadside-clone"@,
        MapId::StonehengeClone => "stonehenge-clone"@,
        MapId::SnowblindClone => "snowblind-clone"@,
        MapId::DesertOfDeathClone => "desert-of-death-clone"@,
        MapId::Longfield => "longfield"@,
        MapId::Highgoal => "highgoal"@,
        MapId::OzarkticBlast => "ozarktic-blast"@,
        MapId::Reefbreak => "reefbreak"@,
    }
}

/// The map a key names, matching keys without regard to ASCII case; the
/// first in the order the maps are declared.
pub open spec fn parse_of(key: Seq<char>) -> Option<MapId> {
    if ascii_fold_eq(key_text(MapId::Valley), key) {
        Some(MapId::Valley)
    } else if ascii_fold_eq(key_text(MapId::Raindance), key) {
        Some(MapId::Raindance)
    } else if ascii_fold_eq(key_text(MapId::BroadsideClone), key) {
        Some(MapId::BroadsideClone)
    } else if ascii_fold_eq(key_text(MapId::StonehengeClone), key) {
        Some(MapId::StonehengeClone)
    } else if ascii_fold_eq(key_text(MapId::SnowblindClone), key) {
        Some(MapId::SnowblindClone)
    } else if ascii_fold_eq(key_text(MapId::DesertOfDeathClone), key) {
        Some(MapId::DesertOfDeathClone)
    } else if ascii_fold_eq(key_text(MapId::Longfield), key) {
        Some(MapId::Longfield)
    } else if ascii_fold_eq(key_text(MapId::Highgoal), key) {
        Some(MapId::Highgoal)
    } else if ascii_fold_eq(key_text(MapId::OzarkticBlast), key) {
        Some(MapId::OzarkticBlast)
    } else if ascii_fold_eq(key_text(MapId::Reefbreak), key) {
        Some(MapId::Reefbreak)
    } else {
        None
    }
}

impl MapId {
    /// Every map, in declaration order.
    pub const ALL: [MapId; 10] = [
        MapId::Valley,
        MapId::Raindance,
        MapId::BroadsideClone,
        MapId::StonehengeClone,
        MapId::SnowblindClone,
        MapId::DesertOfDeathClone,
        MapId::Longfield,
        MapId::Highgoal,
        MapId::OzarkticBlast,
        MapId::Reefbreak,
    ];

    /// Stable identity, independent of display labels and filesystem locations.
    pub fn key(self) -> (r: &'static str)
        ensures
            r@ == key_text(self),
    {
        match self {
            MapId::Valley => "valley",
            MapId::Raindance => "raindance",
            MapId::BroadsideClone => "broadside-clone",
            MapId::StonehengeClone => "stonehenge-clone",
            MapId::SnowblindClone => "snowblind-clone",
            MapId::DesertOfDeathClone => "desert-of-death-clone",
            MapId::Longfield => "longfield",
            MapId::Highgoal => "highgoal",
            MapId::OzarkticBlast => "ozarktic-blast",
            MapId::Reefbreak => "reefbreak",
        }
    }

    /// The map a key names, ignoring ASCII case.
    pub fn parse(key: &str) -> (r: Option<MapId>)
        ensures
            r == parse_of(key@),
    {
        let all = [
            MapId::Valley,
            MapId::Raindance,
            MapId::BroadsideClone,
            MapId::StonehengeClone,
            MapId::SnowblindClone,
            MapId::DesertOfDeathClone,
            MapId::Longfield,
            MapId::Highgoal,
            MapId::OzarkticBlast,
            MapId::Reefbreak,
        ];
        let mut i: usize = 0;
        while i < 10
            invariant
                i <= 10,
                all@ == seq![
                    MapId::Valley,
                    MapId::Raindance,
                    MapId::BroadsideClone,
                    MapId::StonehengeClone,
                    MapId::SnowblindClone,
                    MapId::DesertOfDeathClone,
                    MapId::Longfield,
                    MapId::Highgoal,
                    MapId::OzarkticBlast,
                    MapId::Reefbreak,
                ],
                forall|j: int| 0 <= j < i ==> !ascii_fold_eq(key_text(#[trigger] all@[j]), key@),
            decreases 10 - i,
        {
            let id = all[i];
            if eq_ignore_ascii_case(id.key(), key) {
                return Some(id);
            }
            i = i + 1;
        }
        None
    }

    /// Maps whose slots once held reference layouts of other games.
    pub fn is_private_clone(self) -> (r: bool)
        ensures
            r <==> (self == MapId::SnowblindClone || self == MapId::DesertOfDeathClone),
    {
        match self {
            MapId::SnowblindClone | MapId::DesertOfDeathClone => true,
            _ => false,
        }
    }
}

/// Every map's key parses back to that map, in any ASCII case.
pub proof fn lemma_parse_key(id: MapId)
    ensures
        parse_of(key_text(id)) == Some(id),
{
    reveal_strlit("valley");
    reveal_strlit("raindance");
    reveal_strlit("broadside-clone");
    reveal_strlit("stonehenge-clone");
    reveal_strlit("snowblind-clone");
    reveal_strlit("desert-of-death-clone");
    reveal_strlit("longfield");
    reveal_strlit("highgoal");
    reveal_strlit("ozarktic-blast");
    reveal_strlit("reefbreak");
    let k = key_text(id);
    assert(ascii_fold_eq(k, k));
    if ascii_fold_eq(key_text(MapId::Raindance), k) {
        assert(ascii_lower(key_text(MapId::Raindance)[1]) == ascii_lower(k[1]));
    }
    if ascii_fold_eq(key_text(MapId::BroadsideClone), k) {
        assert(ascii_lower(key_text(MapId::BroadsideClone)[0]) == ascii_lower(k[0]));
    }
    if ascii_fold_eq(key_text(MapId::Longfield), k) {
        assert(ascii_lower(key_text(MapId::Longfield)[0]) == ascii_lower(k[0]));
    }
}

/// Surface appearance a map is drawn with, independent of its heightfield.
#[derive(Clone, Copy, Debug, PartialEq, Eq, Structural)]
pub enum Surface {
    /// The rainy highland palette every imported map uses.
    Highland,
    /// The small rift's own snow palette.
    Valley,
}

pub fn surface_style(map: MapId) -> (r: Surface)
    ensures
        r == (if map == MapId::Valley { Surface::Valley } else { Surface::Highland }),
{
    match map {
        MapId::Valley => Surface::Valley,
        _ => Surface::Highland,
    }
}

/// The maps the menu and rotations list, in slot order: Raindance, Tower
/// Complex, Cairnhold, Frostline, Dustreach, Longfield, Highgoal, Ozarktic
/// Blast and Reefbreak. Valley, the small rift, is not listed.
pub open spec fn menu_maps() -> Seq<MapId> {
    seq![
        MapId::Raindance,
        MapId::BroadsideClone,
        MapId::StonehengeClone,
        MapId::SnowblindClone,
        MapId::DesertOfDeathClone,
        MapId::Longfield,
        MapId::Highgoal,
        MapId::OzarkticBlast,
        MapId::Reefbreak,
    ]
}

pub fn menu() -> (r: Vec<MapId>)
    ensures
        r@ == menu_maps(),
{
    let maps = vec![
        MapId::Raindance,
        MapId::BroadsideClone,
        MapId::StonehengeClone,
        MapId::SnowblindClone,
        MapId::DesertOfDeathClone,
        MapId::Longfield,
        MapId::Highgoal,
        MapId::OzarkticBlast,
        MapId::Reefbreak,
    ];
    proof {
        assert(maps@ =~= seq![
            MapId::Raindance,
            MapId::BroadsideClone,
            MapId::StonehengeClone,
            MapId::SnowblindClone,
            MapId::DesertOfDeathClone,
            MapId::Longfield,
            MapId::Highgoal,
            MapId::OzarkticBlast,
            MapId::Reefbreak,
        ]);
    }
    maps
}

} // verus!
