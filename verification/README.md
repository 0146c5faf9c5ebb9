# roguelike

The game logic of a small turn-based roguelike, written in Verus and proved
against its contracts:

- `map`: tile indexing, rooms and tunnels, blocked tiles and path exits, and
  three map generators (rooms and corridors, cellular trees, drunkard's walk);
- `items`, `combat`, `npc`: random items and monsters, equipping and drinking,
  attack resolution, and the monsters' turn;
- `input`: what each key asks for, including the player's step between maps;
- `viewshed`, `rendering`: the part of a field of view that lies on the map,
  the tiles the player remembers, and what is drawn;
- `game`: the world of a new game and the maps generated as the player walks;
- `random`: rltk's seeded random number generator, the one outside component
  the logic calls.

`app/` holds the bevy application around it: the ECS systems, the terminal,
rltk's field-of-view and path searches, and input.
