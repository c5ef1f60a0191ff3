# peakrunner

The server-authoritative rules of PeakRunner, a jetpack capture-the-flag
game, as a Verus-verified library.

`src/` holds the rules with their contracts and proofs:

- `team`, `text`, `feed`: sides, the text rules for what players may say,
  and the bounded match feed with team-only chat.
- `terrain`, `map_catalog`, `map_pack`: map identities and keys, catalogs and
  the modes each map hosts, and map-pack integrity (content hashes, payload
  sizes, texture tables, terrain holes, inflation of embedded payloads).
- `loadout`, `throwables`, `deploy`, `equipment`, `control`: purchases,
  ammunition, loot, grenades and mines, deployable placement, equipment
  validation and power, control-point validation.
- `matchplay`, `deathmatch`, `football`, `conditions`, `bot_nav`, `rng`: the
  match session (seats, teams and their balance, renames, chat, phases),
  frags and results, the football rules, round conditions, bot planning
  choices and goals, the deterministic random stream with spawn pools.
- `nav`: navigation-graph pockets (waypoint groups too small to matter).
- `lan`, `announce`: the LAN server directory (registration, heartbeats,
  withdrawal, expiry) and the screening of announced public servers.

`app/` is ordinary Rust around the library: serde shapes of manifests and
descriptors, the floating-point measurements the library takes as flags,
network addresses and clocks. `tests/` exercises the library on concrete
values.
