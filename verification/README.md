# berry_editor

The core of a code editor, written in Verus: every operation of the
library carries a contract, and Verus proves the code against it.

- `src/` is the verified library: the rope-backed text buffer and its edits,
  multi-cursor selections, literal and regex search, the open-file tab with
  undo and redo and its key commands, the diff tracker and unified-diff
  reading, the highlight queue, and the decisions of the panels (language
  server requests, debug session, watches and console, git panels, file
  tree, command palette, completion list, hover text, chat).
- `tests/` runs the library on concrete values.
- `app/` is the host side that Verus does not see: storage on disk, settings
  persistence, the clock, pointer geometry in floating point, shortcut
  callbacks, and the requests to the debug adapter, the language server and
  the repository.
