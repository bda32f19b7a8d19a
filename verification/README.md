# ro_world

The world logic of a Ragnarok Online map server, written in Verus: Verus
proves every function under `src/` against its contract. The one function
with nothing to promise is `ChannelBus::publish`, which only hands packets to
the listeners' senders (whose delivery happens elsewhere); whom it sends to
is the contract of `ChannelBus::recipients`, which it calls.

- `src/map/` — map grids and cell rules, `.gat` map files, the map database,
  players and the players online (`map_state`), channels and the packets that
  show entities to clients, items on the ground, respawn points, edge warps and
  save points, the map-enter exchange and a few client packets.
- `src/mob/` — monster templates and live monsters, the monster state machine
  (`ai`), path finding, drop tables, monster skills, spawn points and the
  values read from `mob_db.yml`.
- `src/mercenary/` — mercenary templates, hired mercenaries and their manager.
- `src/mapreg.rs` — map-wide script variables.
- `src/strmap.rs`, `src/text.rs`, `src/bytes.rs` — a string-keyed map, text
  and byte helpers.
- `src/clock.rs`, `src/rng.rs` — the clock, ids and random numbers the logic
  draws on.

`app/` holds what surrounds the library: reading the YAML databases and map
files (falling back to the built-in maps and monsters), error types with `Display`, shared default instances, and the skill
tables scaled by floating-point multipliers. `tests/` exercises the library.
