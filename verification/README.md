# multiplayer_fps

The logic of a small first-person maze game, verified with Verus.

- `src/` is the library: the maze layout and the minimap squares and wall
  blocks built from it (`maze`), the colourful debug texture (`texture`),
  the keyboard controls and the frame-rate counter toggle (`controls`), and
  the collider tags of the game entities (`components`). Each function has a
  contract, and the laws that relate them are proof functions beside them.
- `tests/` runs the library on concrete values.
- `app/` is the game around it, on the bevy engine and the rapier physics
  plugin: spawning entities, reading the keyboard, and all floating-point
  placement, movement, collision and colour work.
