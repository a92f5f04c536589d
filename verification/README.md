# vimax

The core of a modal, Vim-style text editor, written in Verus: buffers on a
rope with grouped undo and redo, motions and text objects, key handling,
windows and splits, search, completion, pickers, diagnostics and toasts.
Every function in `src/` carries a contract that Verus proves; calls into
`ropey`, `nucleo-matcher` and a few std functions go through small trusted
wrappers whose contracts say what those functions do.

- `src/` — the verified library; laws that relate several operations are
  public proof functions named `law_*`.
- `tests/` — tests of the library on concrete values.
- `app/` — a terminal front end: input, the language server connection,
  files and the clipboard, calling the library for every decision.
