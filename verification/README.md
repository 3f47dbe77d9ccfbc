# corvid

The decision logic of a small 3D game in which the player leads a flock of
crows: fetching items to the roost, mobbing a cat and two hazards that catch
crows, and hiding from a hawk that hunts isolated birds, through a day, a
dusk and a night.

- `src/` is the library, verified with Verus: the crows' state machine
  (`crow`), the player's commands to the flock (`command`), captures and mobs
  (`capture`), the hawk (`hawk`), the spatial grid of flock neighbours
  (`grid`), the mission clock (`world`), the roster of portraits (`roster`),
  where pointer commands go (`input`), and a verified stable sort (`order`).
- `app/` is the game itself on the bevy engine: it measures positions,
  distances and timers, asks the library what to do, and renders the result.
- `tests/` runs the library on concrete cases.
