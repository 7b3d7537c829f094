# tabra

IDE-style terminal autocompletion driven by withfig completion specs: a
daemon answers completion requests over a Unix socket, and a PTY session
draws a popup of ranked suggestions under the prompt.

The library in `src/` is written in Verus. Its own functions carry contracts
that Verus proves. The calls it makes into std and into outside crates
(crossterm's color sequences, nucleo's matcher, base64, dirs, and a few
std string and path functions) go through small wrappers marked
`#[verifier::external_body]`: their contracts are trusted, not proved, and
each one's doc comment says what it claims.

- `spec/` — the spec data model and the index of loaded specs.
- `engine/` — tokenizer and spec-tree parser, suggestion resolver,
  generator scripts (which command a generator runs, and how its output
  becomes suggestions), and fuzzy matching and ranking (scores from nucleo).
- `render/` — the popup's ANSI text and its theme.
- `session/` — terminal key parsing, the OSC stream parser for the shell
  integration scripts, the command-line tracker, the popup state machine
  and the session loop's decisions.
- `ipc/` — the request/response model, what the daemon answers, and what
  the CLI prints of its answers.
- `shell/` — the supported shells and how a session starts one.
- `text.rs`, `paths.rs` — string and path helpers.

Laws of the library (what holds across calls: every key but Escape reads
back from the bytes forwarded for it, chunked OSC input behaves like whole
input, ranking order, undoing an edit, popup navigation, spec reloads, the
structure of a parse, the list conversions) are public proof functions next
to the code they are about.

`app/` is the executable around the library: the command line, the daemon's
socket server, spec-file watcher and generator-script runner, the CLI clients, the PTY and the
session's event loop, and the JSON forms of specs and messages.
