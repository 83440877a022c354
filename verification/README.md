# npc_world

A tile world in which a language model steers the characters, written in Verus.

- `src/` is the verified library: `tile` (tiles, items, characters), `world`
  (the map, its agents, reading tiles and the 3 by 3 view of an agent), `state`
  (game state, actions and how a move changes the world), `prompt` (the text
  that describes an agent's view, and the cutting of the JSON object out of the
  model's reply), `render` (which cells the map widgets draw), and `laws`
  (properties that relate these functions, proved).
- `app/` is the terminal program: the ratatui drawing, the HTTP exchange with
  the model service, logging and the tokio event loop.
- `tests/` runs the library on concrete values.
