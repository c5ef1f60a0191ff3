//! Server-authoritative rules of PeakRunner, a jetpack capture-the-flag game:
//! teams, match communications, map identities and catalogs, loadouts and
//! loot, deployables, equipment power, match sessions, scoring, map-pack
//! integrity and the server directory.
pub mod announce;
pub mod bot_nav;
pub mod conditions;
pub mod control;
pub mod deathmatch;
pub mod deploy;
pub mod equipment;
pub mod feed;
pub mod football;
pub mod lan;
pub mod loadout;
pub mod map_catalog;
pub mod map_pack;
pub mod matchplay;
pub mod nav;
pub mod rng;
pub mod team;
pub mod terrain;
pub mod text;
pub mod throwables;

pub use team::{MatchState, Team};
