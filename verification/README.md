# oblivion

The OblivionOS desktop programs: a terminal with a built-in REPL, a
software compositor with an in-process VNC (RFB 3.8) server, and the
desktop shell's state (dock, menu bar, workspaces, launcher, tray, exposé,
window decorations).

## Layout

- `src/` — the library, verified with Verus.
  - `terminal/` — ANSI escape stripping, the REPL's built-in commands
    (parsing a line, answering it, and formatting what the host supplies),
    and the REPL's input/output steps.
  - `compositor/` — windows and their stacking and focus, XDG toplevels and
    popups, surfaces, buffers, outputs, input tracking, window effects, the
    software painter and its damage list, the framebuffer, and the RFB
    protocol: message parsing, the server's reply to each message, and the
    bytes it sends.
  - `shell/` — the shell's components and their state.
  - `text.rs`, `keyed.rs`, `maps.rs` — text helpers, string-keyed tables
    and integer-keyed map helpers shared by the modules above.
- `app/` — the programs around the library: command-line parsing, files,
  processes, pseudo-terminals, sockets, threads, logging, and the
  floating-point parts (gradients, easing curves, animations).
- `tests/` — tests of the library.

Run `oblivion terminal --repl`, `oblivion compositor` (set `OBLIVION_VNC=1`
to serve VNC on `OBLIVION_VNC_BIND`, default `127.0.0.1:5900`) or
`oblivion shell`.
