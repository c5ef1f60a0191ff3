//! Per-match conditions for the deathmatch modes: a time of day, weather and
//! one gameplay twist rolled at each round start. Other modes use the map's
//! own look with no twist.
use vstd::prelude::*;

use crate::loadout::ArmorClass;

verus! {

#[derive(Clone, Copy, Debug, PartialEq, Eq, Structural)]
pub enum TimeOfDay {
    /// The map's own lighting.
    MapDefault,
    Dawn,
    Day,
    Dusk,
    Night,
}

#[derive(Clone, Copy, Debug, PartialEq, Eq, Structural)]
pub enum Weather {
    Clear,
    Overcast,
    Rain,
    Storm,
    Snow,
    Fog,
}

/// One rule change for the round, or none.
#[derive(Clone, Copy, Debug, PartialEq, Eq, Structural)]
pub enum Twist {
    NoTwist,
    /// Everyone spawns carrying their armor's rifle.
    Rifles,
    /// Everyone takes half again as much damage.
    GlassCannon,
    /// Everyone spawns in heavy armor.
    Heavies,
}

/// Rain, storm and snow fall from the sky.
pub fn precipitation(weather: Weather) -> (r: bool)
    ensures
        r == (weather == Weather::Rain || weather == Weather::Storm || weather == Weather::Snow),
{
    match weather {
        Weather::Rain | Weather::Storm | Weather::Snow => true,
        _ => false,
    }
}

pub open spec fn time_text(t: TimeOfDay) -> Option<Seq<char>> {
    match t {
        TimeOfDay::MapDefault => None,
        TimeOfDay::Dawn => Some("Dawn"@),
        TimeOfDay::Day => Some("Day"@),
        TimeOfDay::Dusk => Some("Dusk"@),
        TimeOfDay::Night => Some("Night"@),
    }
}

pub open spec fn weather_text(w: Weather) -> Seq<char> {
    match w {
        Weather::Clear => "Clear"@,
        Weather::Overcast => "Overcast"@,
        Weather::Rain => "Rain"@,
        Weather::Storm => "Storm"@,
        Weather::Snow => "Snow"@,
        Weather::Fog => "Fog"@,
    }
}

pub open spec fn twist_text(t: Twist) -> Option<Seq<char>> {
    match t {
        Twist::NoTwist => None,
        Twist::Rifles => Some("Rifles for all"@),
        Twist::GlassCannon => Some("Glass cannon"@),
        Twist::Heavies => Some("Heavies only"@),
    }
}

/// The banner text: the time (unless the map's own), the weather and the
/// twist (if any), joined by " · ".
pub open spec fn description(time: TimeOfDay, weather: Weather, twist: Twist) -> Seq<char> {
    let sep = " \u{b7} "@;
    let head = match time_text(time) {
        Some(t) => t + sep + weather_text(weather),
        None => weather_text(weather),
    };
    match twist_text(twist) {
        Some(x) => head + sep + x,
        None => head,
    }
}

fn time_name(t: TimeOfDay) -> (r: Option<&'static str>)
    ensures
        (r matches Some(s) ==> time_text(t) == Some(s@)) && (r is None <==> time_text(t) is None),
{
    match t {
        TimeOfDay::MapDefault => None,
        TimeOfDay::Dawn => Some("Dawn"),
        TimeOfDay::Day => Some("Day"),
        TimeOfDay::Dusk => Some("Dusk"),
        TimeOfDay::Night => Some("Night"),
    }
}

fn weather_name(w: Weather) -> (r: &'static str)
    ensures
        r@ == weather_text(w),
{
    match w {
        Weather::Clear => "Clear",
        Weather::Overcast => "Overcast",
        Weather::Rain => "Rain",
        Weather::Storm => "Storm",
        Weather::Snow => "Snow",
        Weather::Fog => "Fog",
    }
}

fn twist_name(t: Twist) -> (r: Option<&'static str>)
    ensures
        (r matches Some(s) ==> twist_text(t) == Some(s@)) && (r is None <==> twist_text(t) is None),
{
    match t {
        Twist::NoTwist => None,
        Twist::Rifles => Some("Rifles for all"),
        Twist::GlassCannon => Some("Glass cannon"),
        Twist::Heavies => Some("Heavies only"),
    }
}

/// Short text for the start banner and scoreboard, e.g. "Night · Rain".
pub fn describe(time: TimeOfDay, weather: Weather, twist: Twist) -> (r: String)
    ensures
        r@ == description(time, weather, twist),
{
    let mut out = match time_name(time) {
        Some(t) => {
            let mut s = t.to_owned();
            s.append(" \u{b7} ");
            s.append(weather_name(weather));
            s
        },
        None => weather_name(weather).to_owned(),
    };
    match twist_name(twist) {
        Some(x) => {
            out.append(" \u{b7} ");
            out.append(x);
        },
        None => {},
    }
    out
}

/// What a round's twist does to a player as they spawn: Heavies puts them
/// in heavy armor (restocked for it), Rifles hands them their rifle.
#[derive(Clone, Copy, Debug, PartialEq, Eq, Structural)]
pub struct SpawnTwist {
    pub armor: Option<ArmorClass>,
    pub rifle: bool,
}

pub fn spawn_twist(twist: Twist) -> (r: SpawnTwist)
    ensures
        r == (match twist {
            Twist::Heavies => SpawnTwist { armor: Some(ArmorClass::Heavy), rifle: false },
            Twist::Rifles => SpawnTwist { armor: None, rifle: true },
            _ => SpawnTwist { armor: None, rifle: false },
        }),
{
    match twist {
        Twist::Heavies => SpawnTwist { armor: Some(ArmorClass::Heavy), rifle: false },
        Twist::Rifles => SpawnTwist { armor: None, rifle: true },
        _ => SpawnTwist { armor: None, rifle: false },
    }
}

} // verus!
