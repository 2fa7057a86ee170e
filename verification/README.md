# game

The logic of a small role-playing game, verified with Verus: item definitions
and their components, the registry that holds definitions by qualified id, the
inventory (tabs, stacking containers, the slot grid of the inventory window)
and the game state machine (pause, start of play).

- `src/` is the verified library; each public function states what it does in
  its `ensures`, and the `lemma_*` proof functions state properties that span
  several calls.
- `tests/` runs the library on concrete values.
- `app/` is the engine glue: reading definitions from disk, engine systems and
  drawing, which the library cannot hold.
