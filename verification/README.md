# mcp-pty-server

A server for the Model Context Protocol that spawns programs in pseudo-terminals and drives them
over stdio. Sessions persist across tool calls: each has a terminal whose screen can be read, waited
for, resized and scrolled back through.

- `src/` is the library, verified with Verus: the vocabulary of special keys (`keys`), session ids
  (`ids`), what a terminal was fed and what is read back from it (`terminal`, `display`), sessions
  (`session`), the table of sessions (`manager`), waiting (`wait`), the tools' answers (`tools`), and
  what a server remembers over a history of calls (`history`).
- `app/` is the server around it: JSON-RPC, pseudo-terminals, threads and the clock. It reports to
  the library what happened, and does what the library decides.
- `tests/` runs the library.

The screen is interpreted by the `vt100` crate and patterns are matched by the `regex` crate. What is
relied on about them is stated where they are called, in `src/terminal.rs` and `src/wait.rs`; nothing
else in `src/` is taken on trust.

Special keys in `pty_send_keys`: `^A` … `^Z` and `[CTRL+A]` … `[CTRL+Z]`, `\n`, `\r`, `\t`, `\xNN`,
`[ENTER]`, `[TAB]`, `[SHIFT+TAB]`, `[ESCAPE]`, `[BACKSPACE]`, `[DELETE]`, the arrow keys, `[HOME]`,
`[END]`, `[PGUP]`, `[PGDN]`, `[F1]` … `[F12]`, `[PASTE_START]` and `[PASTE_END]`. Anything else is
sent as it is.
