# aftiktuna

The rules of the text adventure Aftiktuna, as a Verus library: the command parsers, the
decisions of actions, the AI, dialogue text, asset data and the placement of objects for
drawing, each with a contract that Verus proves.

- `src/` is the verified library. The game world (an ECS) is not part of it: each function
  takes, as plain values, the facts that it reads, and returns what it decides.
  - `text`, `command`: text helpers and the parsers of game and store commands.
  - `action`: what attacks, doors, items, trade, dialogue and the ship do.
  - `ai`, `game_loop`, `game_interface`: the choices of creatures, the turn order, the frames.
  - `dialogue`, `area`, `asset`, `base`: dialogue text, locations, loaded data, shared types.
  - `random`: the calls into `rand`, the only place where chance comes in.
- `tests/` runs the library on concrete cases.
- `app/` holds what Verus does not take: loading assets from files with serde, and health,
  damage and morale, which the game keeps as floating-point numbers.
