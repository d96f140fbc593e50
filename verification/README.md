# termrender

A small terminal game engine, verified with Verus.

- `src/` is the verified library: integer geometry (`math`, `physics`),
  colours, textures and the commands they queue for the terminal (`print`,
  `line`), game objects and their render decisions (`gameobject`, `components`),
  and the game's state: the world, flags, input, screen queue, logger and
  systems registry (`game`).
- `app/` performs the input and output around it: the game loop, writing the
  queued commands to the terminal with crossterm, frame timing, the global
  logger, systems with behaviour, and the Python API.
- `tests/` holds the tests.
