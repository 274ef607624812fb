# Factory Factory

A factory-building game: conveyors, routers, junctions, extractors, factories,
storages, portals and a core stand on a grid, move items between them, and
turn raw deposits into the parts of more factory. The world advances in ticks.

The game logic is a library whose behaviour is stated in `requires`/`ensures`
contracts and proved with Verus; the Bevy front end around it is ordinary Rust.

## Layout

- `src/types.rs`: cells and their 64-bit keys, directions and turns, items,
  item counts, actions.
- `src/tiles/`: the tile kinds and the step each one asks for on a tick.
- `src/resources.rs`: the world state, resource counts, a new game, chunk
  neighbourhoods.
- `src/world.rs`: performing the planned steps of a tick and planning the next
  ones; what a tick keeps.
- `src/utils.rs`, `src/dependency.rs`: tile catalogue (names, textures, prices,
  core intervals, fresh tiles), conveyor textures, and the dependency order in
  which moves are performed.
- `src/player.rs`: placing, clearing, buying and selling tiles, the core's
  output, hotkeys.
- `src/animation.rs`: which item slides a tick shows.
- `src/save.rs`: the saved form of the world, and the compressed bytes of a
  save file.
- `tests/`: tests of the library on concrete values.
- `app/`: the Bevy game: windows, input, sprites, menus, terrain noise, files.

Controls: `WASD` moves the camera, `E` opens the inventory, the mouse wheel
turns the direction of the tile to place (or zooms when no tile is chosen), the left button places a tile or opens the
core menu, the right button clears a tile, `Escape` closes the menus.
