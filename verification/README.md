# game_op

A game-session optimizer for low-end PCs: it watches for the game process,
tunes the session while the game runs (power scheme, process priority, GPU
clock), shrinks downloaded textures to class-aware budgets, compacts OBJ meshes
losslessly, and undoes its changes when the game closes.

The decision-making is a Verus-verified library in `src/`:

- `text`, `path` — the `str` and `Path` operations the library relies on
  (lines, trimming, fields, splitting, decimal parsing and printing, file names,
  extensions, joining), each specified over `Seq<char>`.
- `watch`, `unity_bundle`, `vrchat`, `assets` — routing of cache files, Unity
  bundle headers, the cache census and staging plans.
- `texture`, `mesh`, `refresh` — decoding and budgeting textures, resize
  decisions; OBJ vertex compaction with proofs that no position is lost and
  that compacting again changes nothing; what each asset pass writes.
- `session` — the watch loop as a step function from what was seen to what
  happens next (`--once`, `--run-game`).
- `process`, `gpu`, `profile`, `platform`, `optimizer`, `cache`, `cli` —
  process-table parsing and game matching, adapter recognition and advice,
  profiles, session actions with the outcomes that fill their undo stack,
  cache locations and the redirection plan, options.

`app/` holds the program around it: command-line handling, file-system walks,
image resizing and saving, running system commands, and threads. It hands
the library paths with `/` between components, the form the path functions read.
